use vstd::prelude::*;

verus! {

/// Side a combatant fights on.
#[derive(Debug, Clone, Copy, PartialEq, Eq, Structural, Hash)]
pub enum Team {
    Player,
    Enemy,
    Pvp1,
    Pvp2,
}

/// Wire code of a team: 1 to 4 in declaration order.
pub open spec fn spec_team_code(team: Team) -> u8 {
    match team {
        Team::Player => 1,
        Team::Enemy => 2,
        Team::Pvp1 => 3,
        Team::Pvp2 => 4,
    }
}

/// Encodes a team for the network snapshot.
pub fn team_code(team: Team) -> (code: u8)
    ensures
        code == spec_team_code(team),
{
    match team {
        Team::Player => 1,
        Team::Enemy => 2,
        Team::Pvp1 => 3,
        Team::Pvp2 => 4,
    }
}

/// Team codes lie in 1..=4 and tell the teams apart.
pub proof fn lemma_team_code_injective(a: Team, b: Team)
    ensures
        1 <= spec_team_code(a) <= 4,
        spec_team_code(a) == spec_team_code(b) ==> a == b,
{
}

/// Whether a hitbox of team `attacker` can hurt a hurtbox of team `target`:
/// never its own team.
pub fn teams_can_hit(attacker: Team, target: Team) -> (hit: bool)
    ensures
        hit == (attacker != target),
{
    attacker != target
}

/// A hurtbox as a hitbox sees it: its team and whether the two boxes overlap.
#[derive(Debug, Clone, Copy, PartialEq, Eq, Structural)]
pub struct HurtboxProbe {
    pub team: Team,
    pub overlaps: bool,
}

/// A hitbox of team `attacker` strikes the hurtbox: another team, overlapping.
pub open spec fn strikes(attacker: Team, p: HurtboxProbe) -> bool {
    p.team != attacker && p.overlaps
}

/// The one hurtbox a hitbox strikes: the first, in query order, of another
/// team that overlaps it; a hitbox strikes at most once and then disappears.
pub fn first_struck_hurtbox(attacker: Team, probes: &[HurtboxProbe]) -> (hit: Option<usize>)
    ensures
        match hit {
            Some(i) => i < probes@.len() && strikes(attacker, probes@[i as int]) && forall|j: int|
                0 <= j < i ==> !strikes(attacker, #[trigger] probes@[j]),
            None => forall|j: int| 0 <= j < probes@.len() ==> !strikes(attacker, #[trigger] probes@[j]),
        },
{
    let mut i: usize = 0;
    while i < probes.len()
        invariant
            i <= probes.len(),
            forall|j: int| 0 <= j < i ==> !strikes(attacker, #[trigger] probes@[j]),
        decreases probes.len() - i,
    {
        let p = probes[i];
        if teams_can_hit(attacker, p.team) && p.overlaps {
            return Some(i);
        }
        i = i + 1;
    }
    None
}

/// The player's animation states.
#[derive(Debug, Clone, Copy, PartialEq, Eq, Structural, Hash)]
pub enum AnimationState {
    Idle,
    Move,
    Attack,
    Dash,
    Hurt,
    Dead,
}

/// The animation state after a frame, and the length in milliseconds of the
/// animation timer to restart, if one is restarted.
#[derive(Debug, Clone, Copy, PartialEq, Eq, Structural)]
pub struct AnimationUpdate {
    pub state: AnimationState,
    pub restart_timer_ms: Option<u32>,
}

/// Animation by priority: dead, then hurt (a damage event this frame, with a
/// 120 ms timer), then dashing, then moving, else idle.
pub open spec fn spec_animation_update(dead: bool, damaged: bool, dashing: bool, moving: bool) -> AnimationUpdate {
    if dead {
        AnimationUpdate { state: AnimationState::Dead, restart_timer_ms: None }
    } else if damaged {
        AnimationUpdate { state: AnimationState::Hurt, restart_timer_ms: Some(120) }
    } else if dashing {
        AnimationUpdate { state: AnimationState::Dash, restart_timer_ms: None }
    } else if moving {
        AnimationUpdate { state: AnimationState::Move, restart_timer_ms: None }
    } else {
        AnimationUpdate { state: AnimationState::Idle, restart_timer_ms: None }
    }
}

/// Chooses the player's animation state: `dead` when its health is gone,
/// `damaged` when a damage event came this frame, `moving` when its speed is
/// above one unit per second.
pub fn animation_update(dead: bool, damaged: bool, dashing: bool, moving: bool) -> (u: AnimationUpdate)
    ensures
        u == spec_animation_update(dead, damaged, dashing, moving),
{
    if dead {
        AnimationUpdate { state: AnimationState::Dead, restart_timer_ms: None }
    } else if damaged {
        AnimationUpdate { state: AnimationState::Hurt, restart_timer_ms: Some(120) }
    } else if dashing {
        AnimationUpdate { state: AnimationState::Dash, restart_timer_ms: None }
    } else if moving {
        AnimationUpdate { state: AnimationState::Move, restart_timer_ms: None }
    } else {
        AnimationUpdate { state: AnimationState::Idle, restart_timer_ms: None }
    }
}

/// A dead player always shows as dead; the animation update never picks the
/// attack state; and the timer restarts exactly when the player shows hurt.
pub proof fn lemma_animation_priorities(dead: bool, damaged: bool, dashing: bool, moving: bool)
    ensures
        ({
            let u = spec_animation_update(dead, damaged, dashing, moving);
            &&& dead ==> u.state == AnimationState::Dead
            &&& u.state != AnimationState::Attack
            &&& (u.restart_timer_ms is Some <==> u.state == AnimationState::Hurt)
        }),
{
}

/// A damage event, as the combo counter sees it: who dealt it and whether the
/// player took it.
#[derive(Debug, Clone, Copy, PartialEq, Eq, Structural)]
pub struct ComboHit {
    pub attacker_team: Team,
    pub target_is_player: bool,
}

/// The hit breaks the combo: the enemy hit the player.
pub open spec fn breaks_combo(h: ComboHit) -> bool {
    h.attacker_team == Team::Enemy && h.target_is_player
}

/// The hit extends the combo: the player's side dealt it.
pub open spec fn extends_combo(h: ComboHit) -> bool {
    h.attacker_team == Team::Player
}

/// The combo count after the hits, one by one from `count`: each hit by the
/// player adds one (stopping at the largest count), each enemy hit on the
/// player drops it to zero, and other hits leave it.
pub open spec fn combo_after_hits(count: u32, hits: Seq<ComboHit>) -> u32
    decreases hits.len(),
{
    if hits.len() == 0 {
        count
    } else {
        let c = combo_after_hits(count, hits.drop_last());
        let h = hits.last();
        if extends_combo(h) {
            if c == u32::MAX {
                c
            } else {
                (c + 1) as u32
            }
        } else if breaks_combo(h) {
            0
        } else {
            c
        }
    }
}

/// Some hit extends or breaks the combo, which restarts its window.
pub open spec fn combo_window_restarts(hits: Seq<ComboHit>) -> bool {
    exists|i: int| 0 <= i < hits.len() && (extends_combo(hits[i]) || breaks_combo(hits[i]))
}

/// The combo after a frame, and whether its window restarts.
#[derive(Debug, Clone, Copy, PartialEq, Eq, Structural)]
pub struct ComboUpdate {
    pub count: u32,
    pub restart_window: bool,
}

/// The combo after a frame: a lapsed window drops the count to zero first,
/// then the frame's hits count in order.
pub open spec fn spec_combo_update(count: u32, window_lapsed: bool, hits: Seq<ComboHit>) -> ComboUpdate {
    ComboUpdate {
        count: combo_after_hits(
            if window_lapsed {
                0
            } else {
                count
            },
            hits,
        ),
        restart_window: combo_window_restarts(hits),
    }
}

/// Updates the player's combo from the frame's damage events.
pub fn combo_update(count: u32, window_lapsed: bool, hits: &[ComboHit]) -> (u: ComboUpdate)
    ensures
        u == spec_combo_update(count, window_lapsed, hits@),
{
    let mut c: u32 = if window_lapsed {
        0
    } else {
        count
    };
    let ghost start = c;
    let mut restart = false;
    let mut i: usize = 0;
    while i < hits.len()
        invariant
            i <= hits.len(),
            c == combo_after_hits(start, hits@.subrange(0, i as int)),
            restart == combo_window_restarts(hits@.subrange(0, i as int)),
        decreases hits.len() - i,
    {
        let h = hits[i];
        proof {
            let prefix = hits@.subrange(0, i as int + 1);
            assert(prefix.drop_last() =~= hits@.subrange(0, i as int));
            assert(prefix.last() == h);
            if combo_window_restarts(prefix) {
                let k = choose|k: int|
                    0 <= k < prefix.len() && (extends_combo(prefix[k]) || breaks_combo(prefix[k]));
                if k < i {
                    assert(hits@.subrange(0, i as int)[k] == prefix[k]);
                }
            }
            if combo_window_restarts(hits@.subrange(0, i as int)) {
                let k = choose|k: int|
                    0 <= k < i && (extends_combo(hits@.subrange(0, i as int)[k]) || breaks_combo(
                        hits@.subrange(0, i as int)[k],
                    ));
                assert(prefix[k] == hits@.subrange(0, i as int)[k]);
            }
            if extends_combo(h) || breaks_combo(h) {
                assert(prefix[i as int] == h);
            }
        }
        if h.attacker_team == Team::Player {
            c = c.saturating_add(1);
            restart = true;
        }
        if h.attacker_team == Team::Enemy && h.target_is_player {
            c = 0;
            restart = true;
        }
        i = i + 1;
    }
    assert(hits@.subrange(0, hits.len() as int) =~= hits@);
    ComboUpdate { count: c, restart_window: restart }
}

/// Number of hits dealt by the player's side.
pub open spec fn player_hit_count(hits: Seq<ComboHit>) -> nat
    decreases hits.len(),
{
    if hits.len() == 0 {
        0
    } else {
        player_hit_count(hits.drop_last()) + if extends_combo(hits.last()) {
            1nat
        } else {
            0nat
        }
    }
}

/// The combo counts the player's hits: without an enemy hit on the player it
/// grows by exactly the number of hits the player dealt (while that stays
/// within range), it never grows by more, and an enemy hit on the player as
/// the last event leaves it at zero.
pub proof fn lemma_combo_counts_hits(count: u32, hits: Seq<ComboHit>)
    ensures
        combo_after_hits(count, hits) <= count + player_hit_count(hits),
        (forall|i: int| 0 <= i < hits.len() ==> !breaks_combo(#[trigger] hits[i])) && count
            + player_hit_count(hits) <= u32::MAX ==> combo_after_hits(count, hits) == count
            + player_hit_count(hits),
        hits.len() > 0 && breaks_combo(hits.last()) ==> combo_after_hits(count, hits) == 0,
    decreases hits.len(),
{
    if hits.len() > 0 {
        lemma_combo_counts_hits(count, hits.drop_last());
        let d = hits.drop_last();
        if forall|i: int| 0 <= i < hits.len() ==> !breaks_combo(#[trigger] hits[i]) {
            assert forall|i: int| 0 <= i < d.len() implies !breaks_combo(#[trigger] d[i]) by {
                assert(d[i] == hits[i]);
            }
        }
    }
}

/// Whether a dash starts this frame: not already dashing, the dash key
/// pressed, and the dash cooldown over.
pub open spec fn spec_dash_starts(active: bool, pressed: bool, cooldown_finished: bool) -> bool {
    !active && pressed && cooldown_finished
}

/// Decides whether the player starts a dash (which restarts the cooldown, the
/// dash timer and the invincibility timer).
pub fn dash_starts(active: bool, pressed: bool, cooldown_finished: bool) -> (start: bool)
    ensures
        start == spec_dash_starts(active, pressed, cooldown_finished),
{
    !active && pressed && cooldown_finished
}

/// What a running dash does this frame.
#[derive(Debug, Clone, Copy, PartialEq, Eq, Structural)]
pub enum DashTick {
    /// No dash is running.
    Inactive,
    /// The dash timer just ran out: the dash ends.
    End,
    /// The dash goes on and leaves an afterimage.
    Continue,
}

/// Advances a dash: nothing without one, ends it when its timer has just run
/// out, else continues it.
pub fn dash_tick(active: bool, just_finished: bool) -> (t: DashTick)
    ensures
        t == (if !active {
            DashTick::Inactive
        } else if just_finished {
            DashTick::End
        } else {
            DashTick::Continue
        }),
{
    if !active {
        DashTick::Inactive
    } else if just_finished {
        DashTick::End
    } else {
        DashTick::Continue
    }
}

/// The player's melee input this frame.
#[derive(Debug, Clone, Copy, PartialEq, Eq, Structural)]
pub enum MeleeAction {
    /// No attack.
    Idle,
    /// A melee swing.
    Swing,
    /// A melee swing with the bonus projectile.
    SwingWithProjectile,
}

/// Decides the melee attack: held attack and finished cooldown swing (and
/// restart the cooldown), with the bonus projectile when that reward is owned.
pub fn melee_action(attack_held: bool, cooldown_finished: bool, bonus_projectile: bool) -> (a: MeleeAction)
    ensures
        a == (if !attack_held || !cooldown_finished {
            MeleeAction::Idle
        } else if bonus_projectile {
            MeleeAction::SwingWithProjectile
        } else {
            MeleeAction::Swing
        }),
{
    if !attack_held || !cooldown_finished {
        MeleeAction::Idle
    } else if bonus_projectile {
        MeleeAction::SwingWithProjectile
    } else {
        MeleeAction::Swing
    }
}

/// Decides the ranged attack: fires (and restarts the cooldown) when held and
/// the cooldown is over.
pub fn ranged_fires(ranged_held: bool, cooldown_finished: bool) -> (fire: bool)
    ensures
        fire == (ranged_held && cooldown_finished),
{
    ranged_held && cooldown_finished
}

} // verus!

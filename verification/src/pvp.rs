use vstd::prelude::*;

use crate::player::Team;

verus! {

/// Health a melee hit takes in a versus match.
pub const PVP_MELEE_DAMAGE: u32 = 18;

/// Health a ranged hit takes in a versus match.
pub const PVP_RANGED_DAMAGE: u32 = 10;

/// Milliseconds a downed player waits before fighting again.
pub const PVP_RESPAWN_MS: u32 = 1100;

/// The team a versus player fights for: player 1 for the first side, any
/// other id for the second.
pub open spec fn spec_pvp_team(id: u8) -> Team {
    if id == 1 {
        Team::Pvp1
    } else {
        Team::Pvp2
    }
}

/// Team of versus player `id`.
pub fn pvp_team(id: u8) -> (t: Team)
    ensures
        t == spec_pvp_team(id),
{
    if id == 1 {
        Team::Pvp1
    } else {
        Team::Pvp2
    }
}

/// Team of the opponent of versus player `id`, to whom a client credits the
/// health that player lost.
pub fn pvp_opponent_team(id: u8) -> (t: Team)
    ensures
        t == (if id == 1 {
            Team::Pvp2
        } else {
            Team::Pvp1
        }),
{
    if id == 1 {
        Team::Pvp2
    } else {
        Team::Pvp1
    }
}

/// Player 1 starts and respawns on the left half of the arena, anyone else on the right.
pub fn spawns_on_left(id: u8) -> (left: bool)
    ensures
        left == (id == 1),
{
    id == 1
}

/// How a versus player is driven on this machine.
#[derive(Debug, Clone, Copy, PartialEq, Eq, Structural)]
pub enum PvpRole {
    Local,
    Remote,
    Unassigned,
}

/// The role of player `id` on a machine whose own id is `my_id`: with own id
/// 1 or 2 that player is local and the other remote; without one, both are
/// unassigned.
pub fn pvp_role(my_id: Option<u8>, id: u8) -> (role: PvpRole)
    requires
        id == 1 || id == 2,
    ensures
        role == (match my_id {
            Some(m) => if m == 1 || m == 2 {
                if m == id {
                    PvpRole::Local
                } else {
                    PvpRole::Remote
                }
            } else {
                PvpRole::Unassigned
            },
            None => PvpRole::Unassigned,
        }),
{
    match my_id {
        Some(m) => {
            if m == 1 || m == 2 {
                if m == id {
                    PvpRole::Local
                } else {
                    PvpRole::Remote
                }
            } else {
                PvpRole::Unassigned
            }
        },
        None => PvpRole::Unassigned,
    }
}

/// Whether a melee hit lands: the attacker pressed melee, is back in play,
/// stands within reach of the target and has its melee cooldown over.
pub fn pvp_melee_lands(pressed: bool, respawned: bool, in_reach: bool, cooldown_finished: bool) -> (lands: bool)
    ensures
        lands == (pressed && respawned && in_reach && cooldown_finished),
{
    pressed && respawned && in_reach && cooldown_finished
}

/// Whether a ranged shot is fired (whether it hits is a matter of aim): the
/// attacker pressed ranged, is back in play, and has its ranged cooldown over.
pub fn pvp_ranged_fires(pressed: bool, respawned: bool, cooldown_finished: bool) -> (fires: bool)
    ensures
        fires == (pressed && respawned && cooldown_finished),
{
    pressed && respawned && cooldown_finished
}

/// What a player's fall does: its lives after it, and whether it respawns
/// (health back to full, standing still at its spawn side, a respawn delay).
#[derive(Debug, Clone, Copy, PartialEq, Eq, Structural)]
pub struct DeathOutcome {
    pub lives: u32,
    pub respawn: bool,
}

/// A downed player with lives left loses one and respawns; one without lives
/// stays as it is.
pub open spec fn spec_death_outcome(lives: u32, down: bool) -> DeathOutcome {
    if down && lives > 0 {
        DeathOutcome { lives: (lives - 1) as u32, respawn: true }
    } else {
        DeathOutcome { lives, respawn: false }
    }
}

/// Handles a player whose health may have run out.
pub fn death_outcome(lives: u32, down: bool) -> (o: DeathOutcome)
    ensures
        o == spec_death_outcome(lives, down),
{
    if !down || lives == 0 {
        DeathOutcome { lives, respawn: false }
    } else {
        DeathOutcome { lives: lives - 1, respawn: true }
    }
}

/// The winner once a side is out of lives: the side that still has lives,
/// or player 2 when both are out; no winner while both have lives.
pub open spec fn spec_pvp_winner(p1_lives: u32, p2_lives: u32) -> Option<u8> {
    if p1_lives == 0 || p2_lives == 0 {
        Some(
            if p1_lives > 0 {
                1u8
            } else {
                2u8
            },
        )
    } else {
        None
    }
}

/// Decides the match from the lives left.
pub fn pvp_winner(p1_lives: u32, p2_lives: u32) -> (w: Option<u8>)
    ensures
        w == spec_pvp_winner(p1_lives, p2_lives),
{
    if p1_lives == 0 || p2_lives == 0 {
        Some(
            if p1_lives > 0 {
                1
            } else {
                2
            },
        )
    } else {
        None
    }
}

/// End of a simulation step: what the falls did and who won, if anyone.
#[derive(Debug, Clone, Copy, PartialEq, Eq, Structural)]
pub struct PvpRound {
    pub p1: DeathOutcome,
    pub p2: DeathOutcome,
    pub winner: Option<u8>,
}

/// Resolves the falls of both players (down when their health is at or below
/// zero), then looks for a winner among the lives that are left.
pub fn resolve_pvp_round(p1_lives: u32, p2_lives: u32, p1_down: bool, p2_down: bool) -> (r: PvpRound)
    ensures
        r.p1 == spec_death_outcome(p1_lives, p1_down),
        r.p2 == spec_death_outcome(p2_lives, p2_down),
        r.winner == spec_pvp_winner(r.p1.lives, r.p2.lives),
{
    let p1 = death_outcome(p1_lives, p1_down);
    let p2 = death_outcome(p2_lives, p2_down);
    let winner = pvp_winner(p1.lives, p2.lives);
    PvpRound { p1, p2, winner }
}

/// Lives never grow and drop by at most one per step, and only for a downed
/// player; a match has a winner exactly when a side is out of lives, and the
/// winner is a side that has lives left unless both are out.
pub proof fn lemma_pvp_round(p1_lives: u32, p2_lives: u32, p1_down: bool, p2_down: bool)
    ensures
        ({
            let o1 = spec_death_outcome(p1_lives, p1_down);
            let o2 = spec_death_outcome(p2_lives, p2_down);
            let w = spec_pvp_winner(o1.lives, o2.lives);
            &&& o1.lives <= p1_lives && p1_lives <= o1.lives + 1
            &&& o2.lives <= p2_lives && p2_lives <= o2.lives + 1
            &&& (o1.lives < p1_lives ==> p1_down)
            &&& (o2.lives < p2_lives ==> p2_down)
            &&& (w is Some <==> (o1.lives == 0 || o2.lives == 0))
            &&& (w == Some(1u8) ==> o1.lives > 0 && o2.lives == 0)
            &&& (w == Some(2u8) ==> o1.lives == 0)
        }),
{
}

} // verus!

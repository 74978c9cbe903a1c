use vstd::prelude::*;

use crate::map::{is_row_of, FloorLayout, RoomData, RoomId, RoomType};
use crate::states::AppState;

verus! {

/// The upgrades a cleared room can offer.
#[derive(Debug, Clone, Copy, PartialEq, Eq, Structural, Hash)]
pub enum RewardType {
    IncreaseAttackSpeed,
    IncreaseMaxHealth,
    ReduceDashCooldown,
    LifeStealOnKill,
    IncreaseCritChance,
    IncreaseMoveSpeed,
    DashDamageTrail,
    BonusProjectile,
}

/// Number of rewards offered after a cleared room.
pub const REWARD_CHOICE_COUNT: usize = 3;

/// Every reward, in the order the offer is drawn from.
pub open spec fn spec_reward_pool() -> Seq<RewardType> {
    seq![
        RewardType::IncreaseAttackSpeed,
        RewardType::IncreaseMaxHealth,
        RewardType::ReduceDashCooldown,
        RewardType::LifeStealOnKill,
        RewardType::IncreaseCritChance,
        RewardType::IncreaseMoveSpeed,
        RewardType::DashDamageTrail,
        RewardType::BonusProjectile,
    ]
}

/// All eight rewards, in pool order.
pub fn reward_pool() -> (pool: Vec<RewardType>)
    ensures
        pool@ == spec_reward_pool(),
{
    let mut v: Vec<RewardType> = Vec::new();
    v.push(RewardType::IncreaseAttackSpeed);
    v.push(RewardType::IncreaseMaxHealth);
    v.push(RewardType::ReduceDashCooldown);
    v.push(RewardType::LifeStealOnKill);
    v.push(RewardType::IncreaseCritChance);
    v.push(RewardType::IncreaseMoveSpeed);
    v.push(RewardType::DashDamageTrail);
    v.push(RewardType::BonusProjectile);
    v
}

/// `s` with the items at `i` and `j` exchanged.
pub open spec fn swap_at<A>(s: Seq<A>, i: int, j: int) -> Seq<A> {
    s.update(i, s[j]).update(j, s[i])
}

/// Position that shuffle step `k` exchanges with position `i`: the `k`-th
/// random draw reduced below `i + 1`, or `i` itself (no exchange) once the
/// draws run out.
pub open spec fn shuffle_pick(draws: Seq<u32>, k: int, i: int) -> int {
    if 0 <= k < draws.len() {
        (draws[k] as int) % (i + 1)
    } else {
        i
    }
}

/// The first `k` steps of a Fisher-Yates shuffle of `s` driven by `draws`:
/// step `k` exchanges position `len - 1 - k` with `shuffle_pick(draws, k, len - 1 - k)`.
pub open spec fn shuffle_steps<A>(s: Seq<A>, draws: Seq<u32>, k: nat) -> Seq<A>
    decreases k,
{
    if k == 0 {
        s
    } else {
        let prev = shuffle_steps(s, draws, (k - 1) as nat);
        let i = s.len() - k;
        swap_at(prev, i, shuffle_pick(draws, k - 1, i))
    }
}

/// `s` shuffled by the random draws: all `len - 1` Fisher-Yates steps.
pub open spec fn spec_shuffle<A>(s: Seq<A>, draws: Seq<u32>) -> Seq<A> {
    if s.len() == 0 {
        s
    } else {
        shuffle_steps(s, draws, (s.len() - 1) as nat)
    }
}

/// Exchanging two positions keeps the length, and the item at each position
/// comes from the position the exchange maps it to.
pub proof fn lemma_swap_at<A>(s: Seq<A>, i: int, j: int)
    requires
        0 <= i < s.len(),
        0 <= j < s.len(),
    ensures
        swap_at(s, i, j).len() == s.len(),
        forall|a: int|
            0 <= a < s.len() ==> #[trigger] swap_at(s, i, j)[a] == s[if a == j {
                i
            } else if a == i {
                j
            } else {
                a
            }],
{
    let t = s.update(i, s[j]);
    assert forall|a: int| 0 <= a < s.len() implies #[trigger] swap_at(s, i, j)[a] == s[if a == j {
        i
    } else if a == i {
        j
    } else {
        a
    }] by {
        if a != j {
            assert(swap_at(s, i, j)[a] == t[a]);
        }
    }
}

/// Shuffle steps keep the length, the items (with their multiplicity) and
/// so the absence of duplicates.
pub proof fn lemma_shuffle_steps_permute<A>(s: Seq<A>, draws: Seq<u32>, k: nat)
    requires
        k < s.len(),
    ensures
        shuffle_steps(s, draws, k).len() == s.len(),
        forall|x: A| s.contains(x) <==> #[trigger] shuffle_steps(s, draws, k).contains(x),
        s.no_duplicates() ==> shuffle_steps(s, draws, k).no_duplicates(),
    decreases k,
{
    if k > 0 {
        lemma_shuffle_steps_permute(s, draws, (k - 1) as nat);
        let prev = shuffle_steps(s, draws, (k - 1) as nat);
        let i = s.len() - k;
        let j = shuffle_pick(draws, k - 1, i);
        assert(0 <= j <= i);
        lemma_swap_at(prev, i, j);
        let next = swap_at(prev, i, j);
        assert forall|x: A| prev.contains(x) <==> #[trigger] next.contains(x) by {
            if prev.contains(x) {
                let a = choose|a: int| 0 <= a < prev.len() && prev[a] == x;
                let b = if a == i {
                    j
                } else if a == j {
                    i
                } else {
                    a
                };
                assert(next[b] == x);
            }
            if next.contains(x) {
                let b = choose|b: int| 0 <= b < next.len() && next[b] == x;
                let a = if b == j {
                    i
                } else if b == i {
                    j
                } else {
                    b
                };
                assert(prev[a] == x);
            }
        }
        if s.no_duplicates() {
            assert forall|a: int, b: int|
                0 <= a < next.len() && 0 <= b < next.len() && a != b implies next[a]
                != next[b] by {
                let ta = if a == j {
                    i
                } else if a == i {
                    j
                } else {
                    a
                };
                let tb = if b == j {
                    i
                } else if b == i {
                    j
                } else {
                    b
                };
                assert(next[a] == prev[ta]);
                assert(next[b] == prev[tb]);
            }
        }
    }
}

/// A shuffle keeps the length and the items, and adds no duplicate.
pub proof fn lemma_shuffle_permutes<A>(s: Seq<A>, draws: Seq<u32>)
    ensures
        spec_shuffle(s, draws).len() == s.len(),
        forall|x: A| s.contains(x) <==> #[trigger] spec_shuffle(s, draws).contains(x),
        s.no_duplicates() ==> spec_shuffle(s, draws).no_duplicates(),
{
    if s.len() > 0 {
        lemma_shuffle_steps_permute(s, draws, (s.len() - 1) as nat);
    }
}

/// Each shuffle step exchanges exactly two positions: step `k` exchanges
/// position `len - 1 - k` with the `k`-th draw taken modulo `len - k` (the
/// number of positions still open), whatever the size of the draw, and leaves
/// every other position as it was; once the draws run out a step changes nothing.
pub proof fn lemma_shuffle_step_exchange<A>(s: Seq<A>, draws: Seq<u32>, k: nat)
    requires
        k + 1 < s.len(),
    ensures
        ({
            let prev = shuffle_steps(s, draws, k);
            let next = shuffle_steps(s, draws, k + 1);
            let i = s.len() - 1 - k;
            let j = if k < draws.len() {
                (draws[k as int] as int) % (s.len() - k)
            } else {
                i
            };
            &&& 0 <= j <= i
            &&& next.len() == s.len()
            &&& next[i] == prev[j]
            &&& next[j] == prev[i]
            &&& forall|a: int| 0 <= a < s.len() && a != i && a != j ==> #[trigger] next[a] == prev[a]
            &&& k >= draws.len() ==> next == prev
        }),
{
    lemma_shuffle_steps_permute(s, draws, k);
    let prev = shuffle_steps(s, draws, k);
    let i = s.len() - 1 - k;
    let j = shuffle_pick(draws, k as int, i);
    assert(shuffle_steps(s, draws, k + 1) == swap_at(prev, i, j));
    lemma_swap_at(prev, i, j);
    if k >= draws.len() {
        assert(swap_at(prev, i, j) =~= prev);
    }
}

/// Draws that agree modulo the number of positions still open at their step
/// give the same shuffle: the first `k` steps, and so the whole shuffle.
pub proof fn lemma_shuffle_steps_draws_modulo<A>(s: Seq<A>, d1: Seq<u32>, d2: Seq<u32>, k: nat)
    requires
        k < s.len(),
        d1.len() == d2.len(),
        forall|t: int|
            0 <= t < d1.len() && t < s.len() ==> (#[trigger] d1[t] as int) % (s.len() - t) == (
            d2[t] as int) % (s.len() - t),
    ensures
        shuffle_steps(s, d1, k) == shuffle_steps(s, d2, k),
    decreases k,
{
    if k > 0 {
        lemma_shuffle_steps_draws_modulo(s, d1, d2, (k - 1) as nat);
        let i = s.len() - k;
        if k - 1 < d1.len() {
            assert((d1[k - 1] as int) % (s.len() - (k - 1)) == (d2[k - 1] as int) % (s.len() - (
            k - 1)));
        }
        assert(shuffle_pick(d1, k - 1, i) == shuffle_pick(d2, k - 1, i));
    }
}

/// The shuffle depends on each draw only modulo the number of positions still
/// open at its step: draws that agree in that sense give the same order.
pub proof fn lemma_shuffle_draws_modulo<A>(s: Seq<A>, d1: Seq<u32>, d2: Seq<u32>)
    requires
        d1.len() == d2.len(),
        forall|t: int|
            0 <= t < d1.len() && t < s.len() ==> (#[trigger] d1[t] as int) % (s.len() - t) == (
            d2[t] as int) % (s.len() - t),
    ensures
        spec_shuffle(s, d1) == spec_shuffle(s, d2),
{
    if s.len() > 0 {
        lemma_shuffle_steps_draws_modulo(s, d1, d2, (s.len() - 1) as nat);
    }
}

/// Replacing the `k`-th draw by its remainder modulo the number of positions
/// still open at step `k` leaves the shuffle unchanged.
pub proof fn lemma_shuffle_draw_reduced<A>(s: Seq<A>, d: Seq<u32>, k: int)
    requires
        0 <= k < d.len(),
        k < s.len(),
    ensures
        spec_shuffle(s, d) == spec_shuffle(
            s,
            d.update(k, ((d[k] as int) % (s.len() - k)) as u32),
        ),
{
    let m = s.len() - k;
    let r = (d[k] as int) % m;
    vstd::arithmetic::div_mod::lemma_mod_bound(d[k] as int, m);
    vstd::arithmetic::div_mod::lemma_mod_decreases(d[k] as nat, m as nat);
    assert(0 <= r <= d[k]);
    let d2 = d.update(k, r as u32);
    assert forall|t: int|
        0 <= t < d.len() && t < s.len() implies (#[trigger] d[t] as int) % (s.len() - t) == (
        d2[t] as int) % (s.len() - t) by {
        if t == k {
            vstd::arithmetic::div_mod::lemma_mod_twice(d[k] as int, m);
        }
    }
    lemma_shuffle_draws_modulo(s, d, d2);
}

/// Shuffles `pool` in place with a Fisher-Yates pass that takes its random
/// numbers from `draws`, one per step, from the last position down.
pub fn shuffle_rewards(pool: &mut Vec<RewardType>, draws: &[u32])
    ensures
        final(pool)@ == spec_shuffle(old(pool)@, draws@),
{
    let n = pool.len();
    if n == 0 {
        return ;
    }
    let ghost start = pool@;
    let mut k: usize = 0;
    while k + 1 < n
        invariant
            n == start.len(),
            n > 0,
            k + 1 <= n,
            pool@ == shuffle_steps(start, draws@, k as nat),
        decreases n - k,
    {
        proof {
            lemma_shuffle_steps_permute(start, draws@, k as nat);
        }
        let i = n - 1 - k;
        let j: usize = if k < draws.len() {
            (draws[k] as usize) % (i + 1)
        } else {
            i
        };
        assert(j as int == shuffle_pick(draws@, k as int, i as int));
        let a = pool[i];
        let b = pool[j];
        pool.set(i, b);
        pool.set(j, a);
        assert(pool@ =~= swap_at(shuffle_steps(start, draws@, k as nat), i as int, j as int));
        k = k + 1;
    }
}

/// The offer after a cleared room, for the given random draws: the first
/// three rewards of the shuffled pool.
pub open spec fn spec_reward_choices(draws: Seq<u32>) -> Seq<RewardType> {
    spec_shuffle(spec_reward_pool(), draws).take(REWARD_CHOICE_COUNT as int)
}

/// Draws the three rewards offered after a cleared room: the pool shuffled by
/// `draws`, cut to its first three.
pub fn generate_reward_choices(draws: &[u32]) -> (choices: Vec<RewardType>)
    ensures
        choices@ == spec_reward_choices(draws@),
{
    let mut pool = reward_pool();
    shuffle_rewards(&mut pool, draws);
    proof {
        lemma_shuffle_permutes(spec_reward_pool(), draws@);
    }
    pool.truncate(REWARD_CHOICE_COUNT);
    pool
}

/// The pool holds eight different rewards.
pub proof fn lemma_reward_pool_distinct()
    ensures
        spec_reward_pool().len() == 8,
        spec_reward_pool().no_duplicates(),
        forall|r: RewardType| #[trigger] spec_reward_pool().contains(r),
{
    let p = spec_reward_pool();
    assert forall|r: RewardType| #[trigger] p.contains(r) by {
        match r {
            RewardType::IncreaseAttackSpeed => assert(p[0] == r),
            RewardType::IncreaseMaxHealth => assert(p[1] == r),
            RewardType::ReduceDashCooldown => assert(p[2] == r),
            RewardType::LifeStealOnKill => assert(p[3] == r),
            RewardType::IncreaseCritChance => assert(p[4] == r),
            RewardType::IncreaseMoveSpeed => assert(p[5] == r),
            RewardType::DashDamageTrail => assert(p[6] == r),
            RewardType::BonusProjectile => assert(p[7] == r),
        }
    }
}

/// The offer depends on each draw only modulo the number of pool positions
/// still open at its step (eight for the first draw, then seven, ...): draws
/// that agree in that sense give the same three rewards.
pub proof fn lemma_reward_choices_draws_modulo(d1: Seq<u32>, d2: Seq<u32>)
    requires
        d1.len() == d2.len(),
        forall|t: int|
            0 <= t < d1.len() && t < 8 ==> (#[trigger] d1[t] as int) % (8 - t) == (d2[t] as int)
                % (8 - t),
    ensures
        spec_reward_choices(d1) == spec_reward_choices(d2),
{
    lemma_reward_pool_distinct();
    lemma_shuffle_draws_modulo(spec_reward_pool(), d1, d2);
}

/// Whatever the draws, the offer is three different rewards.
pub proof fn lemma_reward_choices_are_three_distinct(draws: Seq<u32>)
    ensures
        spec_reward_choices(draws).len() == 3,
        spec_reward_choices(draws).no_duplicates(),
{
    lemma_reward_pool_distinct();
    lemma_shuffle_permutes(spec_reward_pool(), draws);
    let sh = spec_shuffle(spec_reward_pool(), draws);
    let c = spec_reward_choices(draws);
    assert forall|a: int, b: int| 0 <= a < c.len() && 0 <= b < c.len() && a != b implies c[a]
        != c[b] by {
        assert(c[a] == sh[a]);
        assert(c[b] == sh[b]);
    }
}

/// Where play goes once a reward is taken.
#[derive(Debug, Clone, Copy, PartialEq, Eq, Structural, Default)]
pub struct RewardFlow {
    pub go_next_floor: bool,
    pub go_victory: bool,
}

/// The room with id `current` is, by the first room of the layout carrying
/// that id, a boss room.
pub open spec fn current_room_is_boss(rooms: Seq<RoomData>, current: RoomId) -> bool {
    exists|i: int|
        0 <= i < rooms.len() && (#[trigger] rooms[i]).id == current && rooms[i].room_type
            == RoomType::Boss && forall|j: int| 0 <= j < i ==> (#[trigger] rooms[j]).id != current
}

/// The cleared room is the current room and a boss room.
pub open spec fn cleared_boss_room(
    cleared: RoomId,
    rooms: Option<Seq<RoomData>>,
    current: Option<RoomId>,
) -> bool {
    match (rooms, current) {
        (Some(rs), Some(c)) => cleared == c && current_room_is_boss(rs, c),
        _ => false,
    }
}

/// Flow after a cleared room: clearing the current boss room leads to the
/// victory screen when the balance says so (the default), else to the next
/// floor; any other room leads back to the same floor.
pub open spec fn spec_flow_after_clear(
    cleared: RoomId,
    rooms: Option<Seq<RoomData>>,
    current: Option<RoomId>,
    boss_room_gives_victory: Option<bool>,
) -> RewardFlow {
    let boss = cleared_boss_room(cleared, rooms, current);
    let victory = match boss_room_gives_victory {
        Some(b) => b,
        None => true,
    };
    RewardFlow { go_next_floor: boss && !victory, go_victory: boss && victory }
}

/// The rooms of an optional layout.
pub open spec fn layout_rooms(layout: Option<&FloorLayout>) -> Option<Seq<RoomData>> {
    match layout {
        Some(l) => Some(l.rooms@),
        None => None,
    }
}

/// Decides where play goes after the reward for the cleared room is taken.
pub fn flow_after_room_cleared(
    cleared: RoomId,
    layout: Option<&FloorLayout>,
    current: Option<RoomId>,
    boss_room_gives_victory: Option<bool>,
) -> (flow: RewardFlow)
    ensures
        flow == spec_flow_after_clear(
            cleared,
            layout_rooms(layout),
            current,
            boss_room_gives_victory,
        ),
{
    let mut flow = RewardFlow { go_next_floor: false, go_victory: false };
    match (layout, current) {
        (Some(l), Some(c)) => {
            if cleared == c {
                match l.room(c) {
                    Some(room) => {
                        if room.room_type == RoomType::Boss {
                            let gives_victory = match boss_room_gives_victory {
                                Some(b) => b,
                                None => true,
                            };
                            if gives_victory {
                                flow.go_victory = true;
                            } else {
                                flow.go_next_floor = true;
                            }
                        } else {
                            assert(!current_room_is_boss(l.rooms@, c));
                        }
                    },
                    None => {
                        assert(!current_room_is_boss(l.rooms@, c));
                    },
                }
            }
        },
        _ => {},
    }
    flow
}

/// What a cleared room leads to: the flow, the three rewards offered, and
/// the reward screen.
pub struct RewardSelection {
    pub flow: RewardFlow,
    pub choices: Vec<RewardType>,
    pub next: AppState,
}

/// On a cleared room: decides the flow, draws the offer and opens the reward screen.
pub fn enter_reward_selection(
    cleared: RoomId,
    layout: Option<&FloorLayout>,
    current: Option<RoomId>,
    boss_room_gives_victory: Option<bool>,
    draws: &[u32],
) -> (sel: RewardSelection)
    ensures
        sel.flow == spec_flow_after_clear(
            cleared,
            layout_rooms(layout),
            current,
            boss_room_gives_victory,
        ),
        sel.choices@ == spec_reward_choices(draws@),
        sel.next == AppState::RewardSelect,
{
    let flow = flow_after_room_cleared(cleared, layout, current, boss_room_gives_victory);
    let choices = generate_reward_choices(draws);
    RewardSelection { flow, choices, next: AppState::RewardSelect }
}

/// Which offered reward the number keys pick: key 1 before 2 before 3.
pub open spec fn spec_choice_index(one: bool, two: bool, three: bool) -> Option<usize> {
    if one {
        Some(0)
    } else if two {
        Some(1)
    } else if three {
        Some(2)
    } else {
        None
    }
}

/// The number keys pick the offer with their number, the lowest pressed key
/// winning, and nothing when no key is pressed.
pub proof fn lemma_choice_index_lowest_key(one: bool, two: bool, three: bool)
    ensures
        ({
            let idx = spec_choice_index(one, two, three);
            &&& (idx is None <==> (!one && !two && !three))
            &&& idx is Some ==> idx->0 < 3
            &&& idx == Some(0usize) <==> one
            &&& idx == Some(1usize) <==> (!one && two)
            &&& idx == Some(2usize) <==> (!one && !two && three)
        }),
{
}

/// Index of the offered reward picked by the number keys (row or keypad).
pub fn choice_index_from_keys(one: bool, two: bool, three: bool) -> (idx: Option<usize>)
    ensures
        idx == spec_choice_index(one, two, three),
{
    if one {
        Some(0)
    } else if two {
        Some(1)
    } else if three {
        Some(2)
    } else {
        None
    }
}

/// The offered reward at `index`, if the offer has one there.
pub fn reward_choice_at(choices: &[RewardType], index: usize) -> (r: Option<RewardType>)
    ensures
        r == (if index < choices@.len() {
            Some(choices@[index as int])
        } else {
            None
        }),
{
    if index < choices.len() {
        Some(choices[index])
    } else {
        None
    }
}

/// The reward chosen with the number keys, if any key picks an offered one.
pub fn chosen_reward_from_keys(choices: &[RewardType], one: bool, two: bool, three: bool) -> (r:
    Option<RewardType>)
    ensures
        r == (match spec_choice_index(one, two, three) {
            Some(i) => if (i as int) < choices@.len() {
                Some(choices@[i as int])
            } else {
                None
            },
            None => None,
        }),
{
    match choice_index_from_keys(one, two, three) {
        Some(i) => reward_choice_at(choices, i),
        None => None,
    }
}

/// Outcome of taking a reward.
#[derive(Debug, Clone, Copy, PartialEq, Eq, Structural)]
pub struct RewardResolution {
    /// The flow after the choice: always cleared.
    pub flow: RewardFlow,
    /// The floor number after the choice.
    pub floor: Option<u32>,
    /// The floor's world is torn down so that a new floor is laid out.
    pub reset_floor: bool,
    /// The screen to go to.
    pub next: AppState,
}

/// Outcome of taking a reward under `flow`, on floor `floor`.
pub open spec fn spec_resolve_reward_choice(flow: RewardFlow, floor: Option<u32>) -> RewardResolution {
    RewardResolution {
        flow: RewardFlow { go_next_floor: false, go_victory: false },
        floor: if flow.go_next_floor {
            match floor {
                Some(f) => Some((f + 1) as u32),
                None => None,
            }
        } else {
            floor
        },
        reset_floor: flow.go_next_floor,
        next: if flow.go_victory {
            AppState::Victory
        } else {
            AppState::InGame
        },
    }
}

/// After a reward is taken: moves to the next floor if the flow says so,
/// then goes to the victory screen or back into play.
pub fn resolve_reward_choice(flow: RewardFlow, floor: Option<u32>) -> (res: RewardResolution)
    requires
        flow.go_next_floor ==> match floor {
            Some(f) => f < u32::MAX,
            None => true,
        },
    ensures
        res == spec_resolve_reward_choice(flow, floor),
{
    let mut flow = flow;
    let mut floor = floor;
    let mut reset_floor = false;
    if flow.go_next_floor {
        reset_floor = true;
        floor = match floor {
            Some(f) => Some(f + 1),
            None => None,
        };
        flow.go_next_floor = false;
    }
    let next = if flow.go_victory {
        flow.go_victory = false;
        flow.go_next_floor = false;
        AppState::Victory
    } else {
        AppState::InGame
    };
    RewardResolution { flow, floor, reset_floor, next }
}

/// A cleared room ends, once its reward is taken, in one of three ways:
/// the current boss room gives victory (the default) without changing the
/// floor, or leads to the next floor with a fresh layout, and any other room
/// returns to play on the same floor.
pub proof fn lemma_cleared_room_outcome(
    cleared: RoomId,
    rooms: Option<Seq<RoomData>>,
    current: Option<RoomId>,
    boss_room_gives_victory: Option<bool>,
    floor: Option<u32>,
)
    requires
        match floor {
            Some(f) => f < u32::MAX,
            None => true,
        },
    ensures
        ({
            let flow = spec_flow_after_clear(cleared, rooms, current, boss_room_gives_victory);
            let res = spec_resolve_reward_choice(flow, floor);
            let boss = cleared_boss_room(cleared, rooms, current);
            let victory = boss_room_gives_victory != Some(false);
            &&& (boss && victory) ==> (res.next == AppState::Victory && res.floor == floor
                && !res.reset_floor)
            &&& (boss && !victory) ==> (res.next == AppState::InGame && res.reset_floor
                && res.floor == match floor {
                Some(f) => Some((f + 1) as u32),
                None => None,
            })
            &&& !boss ==> (res.next == AppState::InGame && res.floor == floor && !res.reset_floor)
            &&& res.flow == RewardFlow { go_next_floor: false, go_victory: false }
        }),
{
}

/// On a floor laid out in a row, clearing the room the player stands in
/// gives victory (by default) exactly when that room is a boss room; any
/// other room sends the player back into play on the same floor.
pub proof fn lemma_row_boss_clear_wins(
    rooms: Seq<RoomData>,
    sequence: Seq<RoomType>,
    k: int,
    floor: Option<u32>,
)
    requires
        is_row_of(rooms, sequence),
        rooms.len() <= u32::MAX,
        0 <= k < rooms.len(),
    ensures
        ({
            let here = RoomId(k as u32);
            let flow = spec_flow_after_clear(here, Some(rooms), Some(here), None);
            let res = spec_resolve_reward_choice(flow, floor);
            &&& (sequence[k] == RoomType::Boss ==> res.next == AppState::Victory)
            &&& (sequence[k] != RoomType::Boss ==> res.next == AppState::InGame && res.floor == floor)
        }),
{
    let here = RoomId(k as u32);
    assert(rooms[k].id == here);
    assert forall|j: int| 0 <= j < k implies (#[trigger] rooms[j]).id != here by {
        assert(rooms[j].id == RoomId(j as u32));
    }
    if sequence[k] != RoomType::Boss {
        if current_room_is_boss(rooms, here) {
            let i = choose|i: int|
                0 <= i < rooms.len() && (#[trigger] rooms[i]).id == here && rooms[i].room_type
                    == RoomType::Boss && forall|j: int| 0 <= j < i ==> (#[trigger] rooms[j]).id != here;
            assert(rooms[i].id == RoomId(i as u32));
            assert(i == k);
        }
    }
}

/// What a reward grants, in whole units: percentages of the base value for
/// rates, plain points for health and life steal.
#[derive(Debug, Clone, Copy, PartialEq, Eq, Structural)]
pub struct RewardEffect {
    /// Added to the attack-speed multiplier, in percent.
    pub attack_speed_pct: u32,
    /// Added to the maximum health.
    pub max_hp_add: u32,
    /// Added to the current health.
    pub heal: u32,
    /// Added to the dash-cooldown reduction, in percent.
    pub dash_cooldown_pct: u32,
    /// Added to the health restored on each kill.
    pub lifesteal_on_kill: u32,
    /// Added to the critical-hit chance, in percent.
    pub crit_pct: u32,
    /// Added to the move-speed multiplier, in percent; the move speed grows by as much.
    pub move_speed_pct: u32,
    /// Turns on the damaging dash trail.
    pub dash_damage_trail: bool,
    /// Turns on the extra projectile with each melee attack.
    pub bonus_projectile: bool,
}

/// A reward that grants nothing.
pub open spec fn no_effect() -> RewardEffect {
    RewardEffect {
        attack_speed_pct: 0,
        max_hp_add: 0,
        heal: 0,
        dash_cooldown_pct: 0,
        lifesteal_on_kill: 0,
        crit_pct: 0,
        move_speed_pct: 0,
        dash_damage_trail: false,
        bonus_projectile: false,
    }
}

/// What each reward grants: attack speed +15%, max health +20 with a 20 heal,
/// dash cooldown -15%, 3 health per kill, crit +5%, move speed +10%, the dash
/// trail, the bonus projectile.
pub open spec fn spec_reward_effect(r: RewardType) -> RewardEffect {
    match r {
        RewardType::IncreaseAttackSpeed => RewardEffect { attack_speed_pct: 15, ..no_effect() },
        RewardType::IncreaseMaxHealth => RewardEffect { max_hp_add: 20, heal: 20, ..no_effect() },
        RewardType::ReduceDashCooldown => RewardEffect { dash_cooldown_pct: 15, ..no_effect() },
        RewardType::LifeStealOnKill => RewardEffect { lifesteal_on_kill: 3, ..no_effect() },
        RewardType::IncreaseCritChance => RewardEffect { crit_pct: 5, ..no_effect() },
        RewardType::IncreaseMoveSpeed => RewardEffect { move_speed_pct: 10, ..no_effect() },
        RewardType::DashDamageTrail => RewardEffect { dash_damage_trail: true, ..no_effect() },
        RewardType::BonusProjectile => RewardEffect { bonus_projectile: true, ..no_effect() },
    }
}

/// What the reward grants to the player.
pub fn reward_effect(r: RewardType) -> (e: RewardEffect)
    ensures
        e == spec_reward_effect(r),
{
    let none = RewardEffect {
        attack_speed_pct: 0,
        max_hp_add: 0,
        heal: 0,
        dash_cooldown_pct: 0,
        lifesteal_on_kill: 0,
        crit_pct: 0,
        move_speed_pct: 0,
        dash_damage_trail: false,
        bonus_projectile: false,
    };
    match r {
        RewardType::IncreaseAttackSpeed => RewardEffect { attack_speed_pct: 15, ..none },
        RewardType::IncreaseMaxHealth => RewardEffect { max_hp_add: 20, heal: 20, ..none },
        RewardType::ReduceDashCooldown => RewardEffect { dash_cooldown_pct: 15, ..none },
        RewardType::LifeStealOnKill => RewardEffect { lifesteal_on_kill: 3, ..none },
        RewardType::IncreaseCritChance => RewardEffect { crit_pct: 5, ..none },
        RewardType::IncreaseMoveSpeed => RewardEffect { move_speed_pct: 10, ..none },
        RewardType::DashDamageTrail => RewardEffect { dash_damage_trail: true, ..none },
        RewardType::BonusProjectile => RewardEffect { bonus_projectile: true, ..none },
    }
}

/// Different rewards grant different things, none grants nothing, and a
/// raise of the maximum health always comes with an equal heal.
pub proof fn lemma_reward_effects_distinct(a: RewardType, b: RewardType)
    ensures
        a != b ==> spec_reward_effect(a) != spec_reward_effect(b),
        spec_reward_effect(a) != no_effect(),
        spec_reward_effect(a).heal == spec_reward_effect(a).max_hp_add,
{
}

/// Each reward grants its own upgrade and nothing else: each flag is on, and
/// each amount is nonzero, for exactly one reward, with the amounts attack
/// speed +15%, max health +20 with a heal of 20, dash cooldown -15%, 3 health
/// per kill, crit +5% and move speed +10%.
pub proof fn lemma_reward_grants_only_its_own(r: RewardType)
    ensures
        ({
            let e = spec_reward_effect(r);
            &&& (e.bonus_projectile <==> r == RewardType::BonusProjectile)
            &&& (e.dash_damage_trail <==> r == RewardType::DashDamageTrail)
            &&& (e.attack_speed_pct != 0 <==> r == RewardType::IncreaseAttackSpeed)
            &&& (e.max_hp_add != 0 <==> r == RewardType::IncreaseMaxHealth)
            &&& (e.heal != 0 <==> r == RewardType::IncreaseMaxHealth)
            &&& (e.dash_cooldown_pct != 0 <==> r == RewardType::ReduceDashCooldown)
            &&& (e.lifesteal_on_kill != 0 <==> r == RewardType::LifeStealOnKill)
            &&& (e.crit_pct != 0 <==> r == RewardType::IncreaseCritChance)
            &&& (e.move_speed_pct != 0 <==> r == RewardType::IncreaseMoveSpeed)
            &&& r == RewardType::IncreaseAttackSpeed ==> e.attack_speed_pct == 15
            &&& r == RewardType::IncreaseMaxHealth ==> e.max_hp_add == 20 && e.heal == 20
            &&& r == RewardType::ReduceDashCooldown ==> e.dash_cooldown_pct == 15
            &&& r == RewardType::LifeStealOnKill ==> e.lifesteal_on_kill == 3
            &&& r == RewardType::IncreaseCritChance ==> e.crit_pct == 5
            &&& r == RewardType::IncreaseMoveSpeed ==> e.move_speed_pct == 10
        }),
{
}

/// Title of a reward on the reward screen.
pub fn reward_title(r: RewardType) -> (title: &'static str)
    ensures
        title@ == (match r {
            RewardType::IncreaseAttackSpeed => "攻速提升（攻击更快）"@,
            RewardType::IncreaseMaxHealth => "生命上限 +20（并恢复）"@,
            RewardType::ReduceDashCooldown => "冲刺冷却缩短"@,
            RewardType::LifeStealOnKill => "击杀回复 3 点生命"@,
            RewardType::IncreaseCritChance => "暴击率 +5%"@,
            RewardType::IncreaseMoveSpeed => "移速 +10%"@,
            RewardType::DashDamageTrail => "冲刺留下伤害轨迹"@,
            RewardType::BonusProjectile => "普通攻击附带飞弹"@,
        }),
{
    match r {
        RewardType::IncreaseAttackSpeed => "攻速提升（攻击更快）",
        RewardType::IncreaseMaxHealth => "生命上限 +20（并恢复）",
        RewardType::ReduceDashCooldown => "冲刺冷却缩短",
        RewardType::LifeStealOnKill => "击杀回复 3 点生命",
        RewardType::IncreaseCritChance => "暴击率 +5%",
        RewardType::IncreaseMoveSpeed => "移速 +10%",
        RewardType::DashDamageTrail => "冲刺留下伤害轨迹",
        RewardType::BonusProjectile => "普通攻击附带飞弹",
    }
}

} // verus!

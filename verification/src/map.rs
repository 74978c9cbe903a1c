use vstd::prelude::*;

use crate::states::RoomState;

verus! {

/// Index of a room within the current floor.
#[derive(Debug, Clone, Copy, PartialEq, Eq, Structural, Hash)]
pub struct RoomId(pub u32);

/// What a room holds.
#[derive(Debug, Clone, Copy, PartialEq, Eq, Structural, Hash)]
pub enum RoomType {
    Start,
    Normal,
    Reward,
    Puzzle,
    Boss,
}

/// Side of a room on which a door leads to a neighbour.
#[derive(Debug, Clone, Copy, PartialEq, Eq, Structural, Hash)]
pub enum Direction {
    Left,
    Right,
}

/// Doors of a room: the side of each door and the room it opens to.
#[derive(Debug)]
pub struct RoomConnections {
    pub exits: Vec<(Direction, RoomId)>,
}

/// One room of a floor.
#[derive(Debug)]
pub struct RoomData {
    pub id: RoomId,
    pub room_type: RoomType,
    pub connections: RoomConnections,
}

/// The rooms of the floor being played and the room the player is in.
#[derive(Debug)]
pub struct FloorLayout {
    pub rooms: Vec<RoomData>,
    pub current: RoomId,
}

/// The room sequence used when the configuration gives none.
pub open spec fn spec_default_room_sequence() -> Seq<RoomType> {
    seq![RoomType::Start, RoomType::Normal, RoomType::Reward, RoomType::Boss]
}

/// Doors of room `i` on a floor of `count` rooms laid out in a row:
/// a door to the left neighbour, then one to the right neighbour, where they exist.
pub open spec fn chain_exits(i: int, count: int) -> Seq<(Direction, RoomId)> {
    (if i > 0 {
        seq![(Direction::Left, RoomId((i - 1) as u32))]
    } else {
        Seq::empty()
    }) + (if i + 1 < count {
        seq![(Direction::Right, RoomId((i + 1) as u32))]
    } else {
        Seq::empty()
    })
}

/// `rooms` is the row of rooms built from `sequence`: room `i` has id `i`,
/// the `i`-th type of the sequence and doors to its neighbours in the row.
pub open spec fn is_row_of(rooms: Seq<RoomData>, sequence: Seq<RoomType>) -> bool {
    &&& rooms.len() == sequence.len()
    &&& forall|i: int|
        0 <= i < rooms.len() ==> {
            &&& (#[trigger] rooms[i]).id == RoomId(i as u32)
            &&& rooms[i].room_type == sequence[i]
            &&& rooms[i].connections.exits@ == chain_exits(i, rooms.len() as int)
        }
}

/// The room sequence a floor is built from: the configured one, unless it is
/// missing or empty.
pub open spec fn spec_floor_room_sequence(configured: Option<Seq<RoomType>>) -> Seq<RoomType> {
    match configured {
        Some(s) => if s.len() > 0 {
            s
        } else {
            spec_default_room_sequence()
        },
        None => spec_default_room_sequence(),
    }
}

/// A floor always has at least one room, and starts with the start room
/// unless the configuration says otherwise.
pub proof fn lemma_floor_never_empty(configured: Option<Seq<RoomType>>)
    ensures
        spec_floor_room_sequence(configured).len() > 0,
        (match configured {
            Some(s) => s.len() == 0,
            None => true,
        }) ==> spec_floor_room_sequence(configured)[0] == RoomType::Start,
{
}

/// Start, Normal, Reward, Boss: the floor played when nothing is configured.
pub fn default_room_sequence() -> (seq: Vec<RoomType>)
    ensures
        seq@ == spec_default_room_sequence(),
{
    let mut v: Vec<RoomType> = Vec::new();
    v.push(RoomType::Start);
    v.push(RoomType::Normal);
    v.push(RoomType::Reward);
    v.push(RoomType::Boss);
    v
}

/// The configured room sequence when there is a non-empty one, else the default.
pub fn floor_room_sequence(configured: Option<&Vec<RoomType>>) -> (seq: Vec<RoomType>)
    ensures
        seq@ == spec_floor_room_sequence(
            match configured {
                Some(v) => Some(v@),
                None => None,
            },
        ),
{
    match configured {
        Some(v) => {
            if v.len() > 0 {
                let mut out: Vec<RoomType> = Vec::new();
                let mut i: usize = 0;
                while i < v.len()
                    invariant
                        i <= v.len(),
                        out@ == v@.subrange(0, i as int),
                    decreases v.len() - i,
                {
                    out.push(v[i]);
                    i = i + 1;
                }
                assert(v@.subrange(0, v.len() as int) =~= v@);
                out
            } else {
                default_room_sequence()
            }
        },
        None => default_room_sequence(),
    }
}

/// Lays the rooms of `sequence` out in a row, left to right, each joined to
/// its neighbours, with the player in the first room.
pub fn build_floor_layout(sequence: &Vec<RoomType>) -> (layout: FloorLayout)
    requires
        sequence.len() <= u32::MAX,
    ensures
        layout.current == RoomId(0),
        is_row_of(layout.rooms@, sequence@),
{
    let count = sequence.len();
    let mut rooms: Vec<RoomData> = Vec::new();
    let mut i: usize = 0;
    while i < count
        invariant
            count == sequence.len(),
            count <= u32::MAX,
            i <= count,
            rooms.len() == i,
            forall|k: int|
                0 <= k < i ==> {
                    &&& (#[trigger] rooms@[k]).id == RoomId(k as u32)
                    &&& rooms@[k].room_type == sequence@[k]
                    &&& rooms@[k].connections.exits@ == chain_exits(k, count as int)
                },
        decreases count - i,
    {
        let idx = i as u32;
        let mut exits: Vec<(Direction, RoomId)> = Vec::new();
        if i > 0 {
            exits.push((Direction::Left, RoomId(idx - 1)));
        }
        if i + 1 < count {
            exits.push((Direction::Right, RoomId(idx + 1)));
        }
        assert(exits@ =~= chain_exits(i as int, count as int));
        rooms.push(
            RoomData {
                id: RoomId(idx),
                room_type: sequence[i],
                connections: RoomConnections { exits },
            },
        );
        i = i + 1;
    }
    FloorLayout { rooms, current: RoomId(0) }
}

impl FloorLayout {
    /// The room with the given id: the first one in the list that carries it.
    pub fn room(&self, id: RoomId) -> (found: Option<&RoomData>)
        ensures
            match found {
                Some(r) => exists|i: int|
                    0 <= i < self.rooms.len() && self.rooms@[i] == *r && r.id == id && forall|
                        j: int,
                    |
                        0 <= j < i ==> (#[trigger] self.rooms@[j]).id != id,
                None => forall|i: int| 0 <= i < self.rooms.len() ==> (#[trigger] self.rooms@[i]).id != id,
            },
    {
        let mut i: usize = 0;
        while i < self.rooms.len()
            invariant
                i <= self.rooms.len(),
                forall|j: int| 0 <= j < i ==> (#[trigger] self.rooms@[j]).id != id,
            decreases self.rooms.len() - i,
        {
            if self.rooms[i].id == id {
                return Some(&self.rooms[i]);
            }
            i = i + 1;
        }
        None
    }
}

/// On a floor laid out in a row, the room with id `k` is the `k`-th room, and
/// no room carries an id past the end of the row.
pub proof fn lemma_row_lookup(rooms: Seq<RoomData>, sequence: Seq<RoomType>, k: int)
    requires
        is_row_of(rooms, sequence),
        rooms.len() <= u32::MAX,
        0 <= k <= u32::MAX,
    ensures
        0 <= k < rooms.len() ==> forall|i: int|
            0 <= i < rooms.len() ==> ((#[trigger] rooms[i]).id == RoomId(k as u32) <==> i == k),
        k >= rooms.len() ==> forall|i: int|
            0 <= i < rooms.len() ==> (#[trigger] rooms[i]).id != RoomId(k as u32),
{
}

/// Doors on a floor laid out in a row come in pairs: whenever room `i` has a
/// door to room `j`, room `j` has a door back to room `i` on the opposite side,
/// and the two rooms are next to each other.
pub proof fn lemma_row_doors_pair_up(
    rooms: Seq<RoomData>,
    sequence: Seq<RoomType>,
    i: int,
    e: int,
)
    requires
        is_row_of(rooms, sequence),
        rooms.len() <= u32::MAX,
        0 <= i < rooms.len(),
        0 <= e < rooms[i].connections.exits@.len(),
    ensures
        ({
            let (dir, to) = rooms[i].connections.exits@[e];
            let j = to.0 as int;
            &&& 0 <= j < rooms.len()
            &&& (dir == Direction::Right ==> j == i + 1)
            &&& (dir == Direction::Left ==> j == i - 1)
            &&& exists|f: int|
                0 <= f < rooms[j].connections.exits@.len() && rooms[j].connections.exits@[f] == (
                    if dir == Direction::Right {
                        Direction::Left
                    } else {
                        Direction::Right
                    },
                    RoomId(i as u32),
                )
        }),
{
    let n = rooms.len() as int;
    let (dir, to) = rooms[i].connections.exits@[e];
    let j = to.0 as int;
    assert(rooms[i].connections.exits@ == chain_exits(i, n));
    if dir == Direction::Right {
        assert(j == i + 1);
        assert(rooms[j].connections.exits@ == chain_exits(j, n));
        assert(rooms[j].connections.exits@[0] == (Direction::Left, RoomId(i as u32)));
    } else {
        assert(j == i - 1);
        assert(rooms[j].connections.exits@ == chain_exits(j, n));
        let f: int = if j > 0 {
            1
        } else {
            0
        };
        assert(rooms[j].connections.exits@[f] == (Direction::Right, RoomId(i as u32)));
    }
}

/// Room `a` has a door to room `b`.
pub open spec fn has_door_to(rooms: Seq<RoomData>, a: int, b: int) -> bool {
    exists|e: int|
        0 <= e < rooms[a].connections.exits@.len() && (#[trigger] rooms[a].connections.exits@[e]).1
            == RoomId(b as u32)
}

/// `path` walks from the first room through doors, one room to the next.
pub open spec fn is_door_path(rooms: Seq<RoomData>, path: Seq<int>) -> bool {
    &&& path.len() > 0
    &&& path[0] == 0
    &&& forall|i: int| 0 <= i < path.len() ==> 0 <= #[trigger] path[i] < rooms.len()
    &&& forall|i: int| 0 <= i < path.len() - 1 ==> has_door_to(rooms, #[trigger] path[i], path[i + 1])
}

/// Every room of a floor laid out in a row can be reached from the first
/// room, where the player starts, by walking through doors.
pub proof fn lemma_row_reachable(rooms: Seq<RoomData>, sequence: Seq<RoomType>, k: int)
    requires
        is_row_of(rooms, sequence),
        rooms.len() <= u32::MAX,
        0 <= k < rooms.len(),
    ensures
        exists|path: Seq<int>| is_door_path(rooms, path) && path.last() == k,
{
    let n = rooms.len() as int;
    let path = Seq::new((k + 1) as nat, |i: int| i);
    assert forall|i: int| 0 <= i < path.len() - 1 implies has_door_to(rooms, #[trigger] path[i], path[i + 1]) by {
        assert(path[i] == i);
        assert(path[i + 1] == i + 1);
        assert(rooms[i].connections.exits@ == chain_exits(i, n));
        let e: int = if i > 0 {
            1
        } else {
            0
        };
        assert(rooms[i].connections.exits@[e] == (Direction::Right, RoomId((i + 1) as u32)));
    }
    assert(is_door_path(rooms, path));
    assert(path.last() == k);
}

/// How entering play treats the floor resources.
#[derive(Debug, Clone, Copy, PartialEq, Eq, Structural)]
pub enum FloorEntry {
    /// A floor is already laid out (coming back from a menu): keep it and
    /// only put back the resources that are missing.
    Resume { insert_current: bool, insert_room_state: bool, insert_transition: bool },
    /// No floor yet: reset the room state and transition, and lay out a new floor.
    Generate,
}

/// Decides, on entering play, whether to keep the floor or lay out a new one.
pub fn plan_floor_entry(
    has_layout: bool,
    has_current: bool,
    has_room_state: bool,
    has_transition: bool,
) -> (entry: FloorEntry)
    ensures
        has_layout ==> entry == (FloorEntry::Resume {
            insert_current: !has_current,
            insert_room_state: !has_room_state,
            insert_transition: !has_transition,
        }),
        !has_layout ==> entry == FloorEntry::Generate,
{
    if has_layout {
        FloorEntry::Resume {
            insert_current: !has_current,
            insert_room_state: !has_room_state,
            insert_transition: !has_transition,
        }
    } else {
        FloorEntry::Generate
    }
}

/// Type of the room the player is in, or `Start` when the layout does not know it.
pub fn current_room_type(layout: &FloorLayout, current: RoomId) -> (t: RoomType)
    ensures
        (exists|i: int|
            0 <= i < layout.rooms.len() && layout.rooms@[i].id == current && t
                == layout.rooms@[i].room_type && forall|j: int|
                0 <= j < i ==> (#[trigger] layout.rooms@[j]).id != current) || (t
            == RoomType::Start && forall|i: int|
            0 <= i < layout.rooms.len() ==> (#[trigger] layout.rooms@[i]).id != current),
{
    match layout.room(current) {
        Some(r) => r.room_type,
        None => RoomType::Start,
    }
}

/// Label of a room type on the heads-up display.
pub open spec fn room_type_label_spec(t: RoomType) -> Seq<char> {
    match t {
        RoomType::Start => "起始"@,
        RoomType::Normal => "战斗"@,
        RoomType::Reward => "奖励"@,
        RoomType::Puzzle => "解谜"@,
        RoomType::Boss => "Boss"@,
    }
}

/// Label of a room type on the heads-up display.
pub fn room_type_label(t: RoomType) -> (label: &'static str)
    ensures
        label@ == room_type_label_spec(t),
{
    match t {
        RoomType::Start => "起始",
        RoomType::Normal => "战斗",
        RoomType::Reward => "奖励",
        RoomType::Puzzle => "解谜",
        RoomType::Boss => "Boss",
    }
}

/// Label of a room state on the heads-up display.
pub open spec fn room_state_label_spec(s: RoomState) -> Seq<char> {
    match s {
        RoomState::Idle => "可通行"@,
        RoomState::Locked => "已锁门"@,
        RoomState::Cleared => "已清理"@,
        RoomState::BossFight => "Boss战"@,
    }
}

/// Label of a room state on the heads-up display.
pub fn room_state_label(s: RoomState) -> (label: &'static str)
    ensures
        label@ == room_state_label_spec(s),
{
    match s {
        RoomState::Idle => "可通行",
        RoomState::Locked => "已锁门",
        RoomState::Cleared => "已清理",
        RoomState::BossFight => "Boss战",
    }
}

/// The room line of the heads-up display: the room's type and state.
pub fn room_text(t: RoomType, s: RoomState) -> (text: String)
    ensures
        text@ == "房间："@ + room_type_label_spec(t) + "（"@ + room_state_label_spec(s) + "）"@,
{
    let mut text = String::from_str("房间：");
    text.append(room_type_label(t));
    text.append("（");
    text.append(room_state_label(s));
    text.append("）");
    text
}

/// The hint shown for a room: start and reward rooms have their own, a boss
/// fight has one, then locked and cleared rooms, else the door hint.
pub open spec fn spec_hint_text(t: RoomType, s: RoomState) -> Seq<char> {
    match (t, s) {
        (RoomType::Start, _) => "提示：右键远程，左键近战；靠近黄色门按 E"@,
        (RoomType::Reward, _) => "提示：选择奖励后，去门口按 E 继续"@,
        (RoomType::Boss, RoomState::BossFight) => "提示：击败 Boss 后可选奖励并进入下一关"@,
        (_, RoomState::Locked) => "提示：清空所有敌人才能开门"@,
        (_, RoomState::Cleared) => "提示：门已解锁，靠近门按 E"@,
        _ => "提示：靠近门按 E 切换房间"@,
    }
}

/// Hint text for the room the player is in.
pub fn hint_text(t: RoomType, s: RoomState) -> (hint: &'static str)
    ensures
        hint@ == spec_hint_text(t, s),
{
    match (t, s) {
        (RoomType::Start, _) => "提示：右键远程，左键近战；靠近黄色门按 E",
        (RoomType::Reward, _) => "提示：选择奖励后，去门口按 E 继续",
        (RoomType::Boss, RoomState::BossFight) => "提示：击败 Boss 后可选奖励并进入下一关",
        (_, RoomState::Locked) => "提示：清空所有敌人才能开门",
        (_, RoomState::Cleared) => "提示：门已解锁，靠近门按 E",
        _ => "提示：靠近门按 E 切换房间",
    }
}

} // verus!

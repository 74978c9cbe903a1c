use vstd::prelude::*;

verus! {

/// UDP port the co-op host listens on.
pub const COOP_PORT: u16 = 3457;

/// Longest host address the join screen accepts, in characters.
pub const MAX_JOIN_IP_LEN: usize = 64;

/// The id the host gives itself.
pub const HOST_PLAYER_ID: u8 = 1;

/// The id the host gives the player who joins.
pub const GUEST_PLAYER_ID: u8 = 2;

/// Role of this machine in a co-op session.
#[derive(Debug, Clone, Copy, PartialEq, Eq, Structural, Hash)]
pub enum NetMode {
    Offline,
    Host,
    Client,
}

impl Default for NetMode {
    fn default() -> (m: Self)
        ensures
            m == NetMode::Offline,
    {
        NetMode::Offline
    }
}

/// A co-op message, by its kind (inputs and snapshots carry their payload
/// alongside).
#[derive(Debug, Clone, Copy, PartialEq, Eq, Structural)]
pub enum CoopMsgKind {
    Hello,
    Welcome { your_id: u8 },
    Input,
    Snapshot,
}

/// What this machine does with a received message.
#[derive(Debug, Clone, Copy, PartialEq, Eq, Structural)]
pub enum CoopReaction {
    /// The message is not for this role: drop it.
    Ignore,
    /// As host: take the sender as peer, count as connected with id 1, and
    /// answer with a welcome giving the sender id 2.
    AcceptGuest,
    /// As client: take the sender as peer and count as connected with the
    /// given id; leave the lobby for the game if still in it.
    JoinHost { your_id: u8, enter_game: bool },
    /// As host: keep the client's input as the remote player's input.
    StoreInput,
    /// As client: keep the snapshot to draw.
    StoreSnapshot,
}

/// Reaction to a message: hellos and inputs are for the host, welcomes and
/// snapshots for the client; anything else is dropped.
pub open spec fn spec_coop_reaction(mode: NetMode, in_lobby: bool, msg: CoopMsgKind) -> CoopReaction {
    match msg {
        CoopMsgKind::Hello => if mode == NetMode::Host {
            CoopReaction::AcceptGuest
        } else {
            CoopReaction::Ignore
        },
        CoopMsgKind::Welcome { your_id } => if mode == NetMode::Client {
            CoopReaction::JoinHost { your_id, enter_game: in_lobby }
        } else {
            CoopReaction::Ignore
        },
        CoopMsgKind::Input => if mode == NetMode::Host {
            CoopReaction::StoreInput
        } else {
            CoopReaction::Ignore
        },
        CoopMsgKind::Snapshot => if mode == NetMode::Client {
            CoopReaction::StoreSnapshot
        } else {
            CoopReaction::Ignore
        },
    }
}

/// Decides what to do with a message received in `mode`.
pub fn coop_reaction(mode: NetMode, in_lobby: bool, msg: CoopMsgKind) -> (r: CoopReaction)
    ensures
        r == spec_coop_reaction(mode, in_lobby, msg),
{
    match msg {
        CoopMsgKind::Hello => if mode == NetMode::Host {
            CoopReaction::AcceptGuest
        } else {
            CoopReaction::Ignore
        },
        CoopMsgKind::Welcome { your_id } => if mode == NetMode::Client {
            CoopReaction::JoinHost { your_id, enter_game: in_lobby }
        } else {
            CoopReaction::Ignore
        },
        CoopMsgKind::Input => if mode == NetMode::Host {
            CoopReaction::StoreInput
        } else {
            CoopReaction::Ignore
        },
        CoopMsgKind::Snapshot => if mode == NetMode::Client {
            CoopReaction::StoreSnapshot
        } else {
            CoopReaction::Ignore
        },
    }
}

/// Connection state of a co-op session: whether the two machines are linked,
/// and this machine's player id.
#[derive(Debug, Clone, Copy, PartialEq, Eq, Structural, Default)]
pub struct CoopLink {
    pub connected: bool,
    pub my_id: Option<u8>,
}

/// The link after a reaction: accepting a guest connects as player 1, joining
/// a host connects with the id the host gave, anything else changes nothing.
pub open spec fn spec_link_after(link: CoopLink, r: CoopReaction) -> CoopLink {
    match r {
        CoopReaction::AcceptGuest => CoopLink { connected: true, my_id: Some(HOST_PLAYER_ID) },
        CoopReaction::JoinHost { your_id, .. } => CoopLink { connected: true, my_id: Some(your_id) },
        _ => link,
    }
}

impl CoopLink {
    /// A host that has just opened its socket: not linked, player 1.
    pub fn host_started() -> (l: CoopLink)
        ensures
            l == (CoopLink { connected: false, my_id: Some(HOST_PLAYER_ID) }),
    {
        CoopLink { connected: false, my_id: Some(HOST_PLAYER_ID) }
    }

    /// A client that has just opened its socket: not linked, no id yet.
    pub fn client_started() -> (l: CoopLink)
        ensures
            l == (CoopLink { connected: false, my_id: None }),
    {
        CoopLink { connected: false, my_id: None }
    }

    /// Applies a reaction to a received message.
    pub fn apply(&mut self, r: CoopReaction)
        ensures
            *final(self) == spec_link_after(*old(self), r),
    {
        match r {
            CoopReaction::AcceptGuest => {
                self.connected = true;
                self.my_id = Some(HOST_PLAYER_ID);
            },
            CoopReaction::JoinHost { your_id, .. } => {
                self.connected = true;
                self.my_id = Some(your_id);
            },
            _ => {},
        }
    }

    /// Leaving from the join screen: the link is dropped, the id is kept.
    pub fn drop_link(&mut self)
        ensures
            *final(self) == (CoopLink { connected: false, my_id: old(self).my_id }),
    {
        self.connected = false;
    }

    /// Leaving the lobby or the client game: the link and the id are dropped.
    pub fn reset(&mut self)
        ensures
            *final(self) == (CoopLink { connected: false, my_id: None }),
    {
        self.connected = false;
        self.my_id = None;
    }
}

/// The handshake: a client greeting a freshly started host links the host as
/// player 1, the host's welcome links the client as player 2 and takes it
/// from the lobby into the game, and messages meant for the other role leave
/// the link as it is.
pub proof fn lemma_coop_handshake(in_lobby: bool, link: CoopLink, msg: CoopMsgKind)
    ensures
        spec_link_after(
            CoopLink { connected: false, my_id: Some(HOST_PLAYER_ID) },
            spec_coop_reaction(NetMode::Host, in_lobby, CoopMsgKind::Hello),
        ) == (CoopLink { connected: true, my_id: Some(HOST_PLAYER_ID) }),
        spec_coop_reaction(
            NetMode::Client,
            true,
            CoopMsgKind::Welcome { your_id: GUEST_PLAYER_ID },
        ) == (CoopReaction::JoinHost { your_id: GUEST_PLAYER_ID, enter_game: true }),
        spec_link_after(
            CoopLink { connected: false, my_id: None },
            spec_coop_reaction(
                NetMode::Client,
                in_lobby,
                CoopMsgKind::Welcome { your_id: GUEST_PLAYER_ID },
            ),
        ) == (CoopLink { connected: true, my_id: Some(GUEST_PLAYER_ID) }),
        spec_link_after(link, spec_coop_reaction(NetMode::Offline, in_lobby, msg)) == link,
        (msg == CoopMsgKind::Input || msg == CoopMsgKind::Snapshot) ==> spec_link_after(
            link,
            spec_coop_reaction(NetMode::Host, in_lobby, msg),
        ) == link && spec_link_after(link, spec_coop_reaction(NetMode::Client, in_lobby, msg))
            == link,
{
}

/// Whether a client in the lobby greets the host again this frame: it is a
/// client, not linked yet, and knows the host's address.
pub fn client_greets(in_lobby: bool, mode: NetMode, connected: bool, has_peer: bool) -> (greet: bool)
    ensures
        greet == (in_lobby && mode == NetMode::Client && !connected && has_peer),
{
    in_lobby && mode == NetMode::Client && !connected && has_peer
}

/// Whether the host may send snapshots: it is the host and linked.
pub fn host_sends_snapshots(mode: NetMode, connected: bool) -> (send: bool)
    ensures
        send == (mode == NetMode::Host && connected),
{
    mode == NetMode::Host && connected
}

/// Number of the next snapshot, wrapping around after the largest.
pub fn next_snapshot_tick(tick: u32) -> (next: u32)
    ensures
        next == (if tick == u32::MAX {
            0
        } else {
            (tick + 1) as u32
        }),
{
    if tick == u32::MAX {
        0
    } else {
        tick + 1
    }
}

/// Where the host's snapshot takes the second player's record from: the
/// co-op player's own values when there is exactly one, with the host's gold
/// when it has none of its own; else a copy of the host's record shifted
/// `offset_x` units to the right.
#[derive(Debug, Clone, Copy, PartialEq, Eq, Structural)]
pub struct MateRecordPlan {
    pub from_mate: bool,
    pub gold: u32,
    pub offset_x: u32,
}

/// Plans the second player's record of a snapshot, given the co-op player's
/// gold (`None` when there is no single co-op player, `Some(None)` when it
/// has no gold of its own) and the host's gold.
pub fn mate_record_plan(mate_gold: Option<Option<u32>>, host_gold: u32) -> (p: MateRecordPlan)
    ensures
        p == (match mate_gold {
            Some(g) => MateRecordPlan {
                from_mate: true,
                gold: match g {
                    Some(x) => x,
                    None => host_gold,
                },
                offset_x: 0,
            },
            None => MateRecordPlan { from_mate: false, gold: host_gold, offset_x: 40 },
        }),
{
    match mate_gold {
        Some(g) => MateRecordPlan {
            from_mate: true,
            gold: match g {
                Some(x) => x,
                None => host_gold,
            },
            offset_x: 0,
        },
        None => MateRecordPlan { from_mate: false, gold: host_gold, offset_x: 40 },
    }
}

/// Whether this machine's player is the first of a snapshot: only with id 1;
/// without an id it takes the second.
pub fn local_is_first(my_id: Option<u8>) -> (first: bool)
    ensures
        first == (my_id == Some(HOST_PLAYER_ID)),
{
    match my_id {
        Some(id) => id == HOST_PLAYER_ID,
        None => false,
    }
}

/// What the client does with its snapshot this frame.
#[derive(Debug, Clone, Copy, PartialEq, Eq, Structural)]
pub enum ClientFrame {
    /// Escape: drop the link and go back to the multiplayer menu.
    Disconnect,
    /// Nothing new to draw.
    Skip,
    /// Redraw the world from the snapshot with this number, with the player
    /// of the given id as the one this machine controls.
    Render { tick: u32, local_id: u8 },
}

/// The client frame: escape disconnects; otherwise a client with a snapshot
/// it has not drawn yet redraws (taking id 2 when it has none); anything
/// else skips.
pub open spec fn spec_client_frame(
    escape: bool,
    mode: NetMode,
    snapshot_tick: Option<u32>,
    rendered_tick: u32,
    my_id: Option<u8>,
) -> ClientFrame {
    if escape {
        ClientFrame::Disconnect
    } else if mode != NetMode::Client {
        ClientFrame::Skip
    } else {
        match snapshot_tick {
            None => ClientFrame::Skip,
            Some(t) => if t == rendered_tick {
                ClientFrame::Skip
            } else {
                ClientFrame::Render {
                    tick: t,
                    local_id: match my_id {
                        Some(id) => id,
                        None => GUEST_PLAYER_ID,
                    },
                }
            },
        }
    }
}

/// Escape always disconnects; otherwise a client redraws exactly when it has a
/// snapshot whose number differs from the one it drew last, and then draws that
/// snapshot as the player it was given (player 2 when it was given none); in
/// every other case nothing happens.
pub proof fn lemma_client_frame_renders_new_snapshots(
    escape: bool,
    mode: NetMode,
    snapshot_tick: Option<u32>,
    rendered_tick: u32,
    my_id: Option<u8>,
)
    ensures
        ({
            let f = spec_client_frame(escape, mode, snapshot_tick, rendered_tick, my_id);
            let fresh = !escape && mode == NetMode::Client && snapshot_tick is Some
                && snapshot_tick->0 != rendered_tick;
            &&& escape ==> f == ClientFrame::Disconnect
            &&& fresh ==> f == (ClientFrame::Render {
                tick: snapshot_tick->0,
                local_id: if my_id is Some {
                    my_id->0
                } else {
                    2
                },
            })
            &&& (!escape && !fresh) ==> f == ClientFrame::Skip
        }),
{
}

/// Decides what the client does with the latest snapshot.
pub fn client_frame(
    escape: bool,
    mode: NetMode,
    snapshot_tick: Option<u32>,
    rendered_tick: u32,
    my_id: Option<u8>,
) -> (f: ClientFrame)
    ensures
        f == spec_client_frame(escape, mode, snapshot_tick, rendered_tick, my_id),
{
    if escape {
        return ClientFrame::Disconnect;
    }
    if mode != NetMode::Client {
        return ClientFrame::Skip;
    }
    match snapshot_tick {
        None => ClientFrame::Skip,
        Some(t) => {
            if t == rendered_tick {
                ClientFrame::Skip
            } else {
                let local_id = match my_id {
                    Some(id) => id,
                    None => GUEST_PLAYER_ID,
                };
                ClientFrame::Render { tick: t, local_id }
            }
        },
    }
}

/// The lobby line for the role, link and host address: a client names the
/// host and port it is linked to or trying to reach.
pub open spec fn spec_lobby_text(mode: NetMode, connected: bool, host: Seq<char>) -> Seq<char> {
    match mode {
        NetMode::Client => if connected {
            "已连接到房主："@ + host + ":3457"@
        } else {
            "正在连接："@ + host + ":3457（请确认房主已按 H 并进入游戏）"@
        },
        NetMode::Host => "房主模式无需在此等待"@,
        NetMode::Offline => "未选择模式"@,
    }
}

/// The status line of the lobby screen.
pub fn lobby_text(mode: NetMode, connected: bool, host: &str) -> (text: String)
    ensures
        text@ == spec_lobby_text(mode, connected, host@),
{
    match mode {
        NetMode::Client => {
            if connected {
                let mut t = String::from_str("已连接到房主：");
                t.append(host);
                t.append(":3457");
                t
            } else {
                let mut t = String::from_str("正在连接：");
                t.append(host);
                t.append(":3457（请确认房主已按 H 并进入游戏）");
                t
            }
        },
        NetMode::Host => String::from_str("房主模式无需在此等待"),
        NetMode::Offline => String::from_str("未选择模式"),
    }
}

/// A character the host-address field accepts: a digit, a dot or a colon.
pub open spec fn is_ip_char(c: char) -> bool {
    let u = c as u32;
    (48 <= u && u <= 57) || u == 46 || u == 58
}

/// Number of bytes a character takes in UTF-8.
pub open spec fn utf8_len(c: char) -> nat {
    let u = c as u32;
    if u < 0x80 {
        1
    } else if u < 0x800 {
        2
    } else if u < 0x10000 {
        3
    } else {
        4
    }
}

/// Length in bytes of the text `s` holds (UTF-8), which is what the field's
/// limit counts.
pub open spec fn field_bytes(s: Seq<char>) -> nat
    decreases s.len(),
{
    if s.len() == 0 {
        0
    } else {
        field_bytes(s.drop_last()) + utf8_len(s.last())
    }
}

/// Typing `typed` into the address field: each accepted character is
/// appended while the field's text is shorter than its limit in bytes.
pub open spec fn typed_into(ip: Seq<char>, typed: Seq<char>) -> Seq<char>
    decreases typed.len(),
{
    if typed.len() == 0 {
        ip
    } else {
        let before = typed_into(ip, typed.drop_last());
        let c = typed.last();
        if is_ip_char(c) && field_bytes(before) < MAX_JOIN_IP_LEN {
            before.push(c)
        } else {
            before
        }
    }
}

/// The address field after typing and an optional backspace.
pub open spec fn edited_ip(ip: Seq<char>, typed: Seq<char>, backspace: bool) -> Seq<char> {
    let t = typed_into(ip, typed);
    if backspace && t.len() > 0 {
        t.drop_last()
    } else {
        t
    }
}

/// A white-space character, as text trimming removes it: the Unicode
/// White_Space set (tab to carriage return, space, next line, no-break
/// space, ogham space, the spaces U+2000 to U+200A, line and paragraph
/// separators, narrow no-break space, medium mathematical space and
/// ideographic space).
pub open spec fn is_trim_space(c: char) -> bool {
    let u = c as u32;
    (0x09 <= u && u <= 0x0D) || u == 0x20 || u == 0x85 || u == 0xA0 || u == 0x1680 || (0x2000 <= u
        && u <= 0x200A) || u == 0x2028 || u == 0x2029 || u == 0x202F || u == 0x205F || u == 0x3000
}

/// Whether `c` is a white-space character.
pub fn is_space_char(c: char) -> (b: bool)
    ensures
        b == is_trim_space(c),
{
    let u = c as u32;
    (0x09 <= u && u <= 0x0D) || u == 0x20 || u == 0x85 || u == 0xA0 || u == 0x1680 || (0x2000 <= u
        && u <= 0x200A) || u == 0x2028 || u == 0x2029 || u == 0x202F || u == 0x205F || u == 0x3000
}

/// Number of white-space characters at the start of `s`.
pub open spec fn lead_spaces(s: Seq<char>) -> nat
    decreases s.len(),
{
    if s.len() > 0 && is_trim_space(s[0]) {
        1 + lead_spaces(s.drop_first())
    } else {
        0
    }
}

/// Number of white-space characters at the end of `s`.
pub open spec fn trail_spaces(s: Seq<char>) -> nat
    decreases s.len(),
{
    if s.len() > 0 && is_trim_space(s.last()) {
        1 + trail_spaces(s.drop_last())
    } else {
        0
    }
}

/// `s` without its leading and trailing white space.
pub open spec fn spec_trim(s: Seq<char>) -> Seq<char> {
    let t = s.subrange(lead_spaces(s) as int, s.len() as int);
    t.subrange(0, t.len() - trail_spaces(t))
}

/// The leading white space of `s` is its first `k` characters when those are
/// white space and the next one is not.
pub proof fn lemma_lead_spaces(s: Seq<char>, k: int)
    requires
        0 <= k <= s.len(),
        forall|j: int| 0 <= j < k ==> is_trim_space(#[trigger] s[j]),
        k == s.len() || !is_trim_space(s[k]),
    ensures
        lead_spaces(s) == k,
    decreases k,
{
    if k > 0 {
        let d = s.drop_first();
        assert forall|j: int| 0 <= j < k - 1 implies is_trim_space(#[trigger] d[j]) by {
            assert(d[j] == s[j + 1]);
            assert(is_trim_space(s[j + 1]));
        }
        assert(is_trim_space(s[0]));
        if k < s.len() {
            assert(d[k - 1] == s[k]);
        }
        lemma_lead_spaces(d, k - 1);
    }
}

/// The trailing white space of `s` is its last `m` characters when those are
/// white space and the one before them is not.
pub proof fn lemma_trail_spaces(s: Seq<char>, m: int)
    requires
        0 <= m <= s.len(),
        forall|j: int| s.len() - m <= j < s.len() ==> is_trim_space(#[trigger] s[j]),
        m == s.len() || !is_trim_space(s[s.len() - m - 1]),
    ensures
        trail_spaces(s) == m,
    decreases m,
{
    if m > 0 {
        let d = s.drop_last();
        assert forall|j: int| d.len() - (m - 1) <= j < d.len() implies is_trim_space(
            #[trigger] d[j],
        ) by {
            assert(d[j] == s[j]);
        }
        assert(is_trim_space(s[s.len() - 1]));
        if m < s.len() {
            assert(d[d.len() - (m - 1) - 1] == s[s.len() - m - 1]);
        }
        lemma_trail_spaces(d, m - 1);
    }
}

/// The host address typed in the field, without surrounding white space.
pub fn trimmed_join_ip(ip: &[char]) -> (host: Vec<char>)
    ensures
        host@ == spec_trim(ip@),
{
    let n = ip.len();
    let mut s: usize = 0;
    while s < n && is_space_char(ip[s])
        invariant
            s <= n,
            n == ip@.len(),
            forall|j: int| 0 <= j < s ==> is_trim_space(#[trigger] ip@[j]),
        decreases n - s,
    {
        s = s + 1;
    }
    proof {
        lemma_lead_spaces(ip@, s as int);
    }
    let mut e: usize = n;
    while e > s && is_space_char(ip[e - 1])
        invariant
            s <= e <= n,
            n == ip@.len(),
            forall|j: int| e <= j < n ==> is_trim_space(#[trigger] ip@[j]),
        decreases e - s,
    {
        e = e - 1;
    }
    let ghost t = ip@.subrange(s as int, n as int);
    proof {
        assert forall|j: int| t.len() - (n - e) <= j < t.len() implies is_trim_space(
            #[trigger] t[j],
        ) by {
            assert(t[j] == ip@[s + j]);
        }
        if e > s {
            assert(t[t.len() - (n - e) - 1] == ip@[e - 1]);
        }
        lemma_trail_spaces(t, (n - e) as int);
    }
    let mut host: Vec<char> = Vec::new();
    let mut i: usize = s;
    while i < e
        invariant
            s <= i <= e,
            e <= n,
            n == ip@.len(),
            host@ == ip@.subrange(s as int, i as int),
        decreases e - i,
    {
        host.push(ip[i]);
        i = i + 1;
    }
    assert(host@ =~= spec_trim(ip@));
    host
}

/// What the co-op menu does this frame.
#[derive(Debug, Clone, Copy, PartialEq, Eq, Structural)]
pub enum CoopMenuAction {
    /// Escape: leave co-op (offline, link dropped) for the multiplayer menu.
    Back,
    /// H: become the host and start playing.
    Host,
    /// J or Enter with an address: become a client of the trimmed address
    /// and go to the lobby.
    Join,
    /// Stay on the menu.
    Stay,
}

/// Handles the co-op menu: escape leaves, H hosts, and otherwise the typed
/// characters and backspace edit the host address, and J or Enter joins when
/// the address holds more than white space.
pub fn coop_menu_input(
    ip: &mut Vec<char>,
    escape: bool,
    host_key: bool,
    typed: &[char],
    backspace: bool,
    join_key: bool,
) -> (a: CoopMenuAction)
    ensures
        escape ==> a == CoopMenuAction::Back && final(ip)@ == old(ip)@,
        !escape && host_key ==> a == CoopMenuAction::Host && final(ip)@ == old(ip)@,
        !escape && !host_key ==> final(ip)@ == edited_ip(old(ip)@, typed@, backspace) && a == (
        if join_key && spec_trim(final(ip)@).len() > 0 {
            CoopMenuAction::Join
        } else {
            CoopMenuAction::Stay
        }),
{
    if escape {
        return CoopMenuAction::Back;
    }
    if host_key {
        return CoopMenuAction::Host;
    }
    // Bytes of the field's text, counted up to the limit.
    let mut bytes: usize = 0;
    let mut j: usize = 0;
    while j < ip.len()
        invariant
            j <= ip.len(),
            bytes == (if field_bytes(ip@.subrange(0, j as int)) < MAX_JOIN_IP_LEN {
                field_bytes(ip@.subrange(0, j as int))
            } else {
                MAX_JOIN_IP_LEN as nat
            }),
        decreases ip.len() - j,
    {
        let u = ip[j] as u32;
        let w: usize = if u < 0x80 {
            1
        } else if u < 0x800 {
            2
        } else if u < 0x10000 {
            3
        } else {
            4
        };
        proof {
            let p = ip@.subrange(0, j as int + 1);
            assert(p.drop_last() =~= ip@.subrange(0, j as int));
            assert(p.last() == ip@[j as int]);
        }
        bytes = if bytes + w < MAX_JOIN_IP_LEN {
            bytes + w
        } else {
            MAX_JOIN_IP_LEN
        };
        j = j + 1;
    }
    assert(ip@.subrange(0, ip.len() as int) =~= ip@);
    let ghost start = ip@;
    let mut i: usize = 0;
    while i < typed.len()
        invariant
            i <= typed.len(),
            ip@ == typed_into(start, typed@.subrange(0, i as int)),
            bytes == (if field_bytes(ip@) < MAX_JOIN_IP_LEN {
                field_bytes(ip@)
            } else {
                MAX_JOIN_IP_LEN as nat
            }),
        decreases typed.len() - i,
    {
        let c = typed[i];
        proof {
            let prefix = typed@.subrange(0, i as int + 1);
            assert(prefix.drop_last() =~= typed@.subrange(0, i as int));
            assert(prefix.last() == c);
        }
        let u = c as u32;
        let accepted = (48 <= u && u <= 57) || u == 46 || u == 58;
        if accepted && bytes < MAX_JOIN_IP_LEN {
            let ghost before = ip@;
            ip.push(c);
            proof {
                assert(ip@.drop_last() =~= before);
            }
            bytes = bytes + 1;
        }
        i = i + 1;
    }
    assert(typed@.subrange(0, typed.len() as int) =~= typed@);
    if backspace {
        ip.pop();
    }
    let host = trimmed_join_ip(ip.as_slice());
    if join_key && host.len() > 0 {
        CoopMenuAction::Join
    } else {
        CoopMenuAction::Stay
    }
}

/// A field of accepted characters takes one byte per character.
pub proof fn lemma_field_bytes_of_ip_chars(s: Seq<char>)
    requires
        forall|i: int| 0 <= i < s.len() ==> is_ip_char(#[trigger] s[i]),
    ensures
        field_bytes(s) == s.len(),
    decreases s.len(),
{
    if s.len() > 0 {
        let d = s.drop_last();
        assert forall|i: int| 0 <= i < d.len() implies is_ip_char(#[trigger] d[i]) by {
            assert(d[i] == s[i]);
        }
        assert(is_ip_char(s[s.len() - 1]));
        lemma_field_bytes_of_ip_chars(d);
    }
}

/// The address field is well formed: only accepted characters, within the
/// limit; such a field holds no white space, so trimming leaves it as it is.
pub open spec fn valid_join_ip(ip: Seq<char>) -> bool {
    &&& ip.len() <= MAX_JOIN_IP_LEN
    &&& forall|i: int| 0 <= i < ip.len() ==> is_ip_char(#[trigger] ip[i])
}

/// Trimming a well-formed field changes nothing.
pub proof fn lemma_valid_join_ip_is_trimmed(ip: Seq<char>)
    requires
        valid_join_ip(ip),
    ensures
        spec_trim(ip) == ip,
{
    if ip.len() > 0 {
        assert(is_ip_char(ip[0]));
        assert(is_ip_char(ip[ip.len() - 1]));
    }
    lemma_lead_spaces(ip, 0);
    let t = ip.subrange(0, ip.len() as int);
    assert(t =~= ip);
    lemma_trail_spaces(t, 0);
    assert(spec_trim(ip) =~= ip);
}

/// Editing keeps the address field well formed, whatever is typed.
pub proof fn lemma_join_ip_stays_valid(ip: Seq<char>, typed: Seq<char>, backspace: bool)
    requires
        valid_join_ip(ip),
    ensures
        valid_join_ip(edited_ip(ip, typed, backspace)),
    decreases typed.len(),
{
    lemma_typed_into_valid(ip, typed);
    let t = typed_into(ip, typed);
    if backspace && t.len() > 0 {
        let d = t.drop_last();
        assert forall|i: int| 0 <= i < d.len() implies is_ip_char(#[trigger] d[i]) by {
            assert(d[i] == t[i]);
        }
    }
}

/// Typing keeps the address field well formed.
pub proof fn lemma_typed_into_valid(ip: Seq<char>, typed: Seq<char>)
    requires
        valid_join_ip(ip),
    ensures
        valid_join_ip(typed_into(ip, typed)),
    decreases typed.len(),
{
    if typed.len() > 0 {
        lemma_typed_into_valid(ip, typed.drop_last());
        let before = typed_into(ip, typed.drop_last());
        let c = typed.last();
        lemma_field_bytes_of_ip_chars(before);
        if is_ip_char(c) && field_bytes(before) < MAX_JOIN_IP_LEN {
            let after = before.push(c);
            assert forall|i: int| 0 <= i < after.len() implies is_ip_char(#[trigger] after[i]) by {
                if i < before.len() {
                    assert(after[i] == before[i]);
                }
            }
        }
    }
}

} // verus!

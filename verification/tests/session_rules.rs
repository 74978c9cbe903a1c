use echoes_in_the_fog::coop::{
    client_frame, client_greets, coop_menu_input, is_space_char, mate_record_plan, trimmed_join_ip, MateRecordPlan, coop_reaction, host_sends_snapshots, lobby_text,
    local_is_first, next_snapshot_tick, ClientFrame, CoopLink, CoopMenuAction, CoopMsgKind, CoopReaction,
    NetMode, COOP_PORT,
};
use echoes_in_the_fog::player::Team;
use echoes_in_the_fog::pvp::{
    death_outcome, pvp_melee_lands, pvp_opponent_team, pvp_ranged_fires, pvp_role, pvp_team, pvp_winner,
    resolve_pvp_round, spawns_on_left, DeathOutcome, PvpRole,
};

#[test]
fn handshake() {
    let mut host = CoopLink::host_started();
    assert_eq!(host, CoopLink { connected: false, my_id: Some(1) });
    let r = coop_reaction(NetMode::Host, false, CoopMsgKind::Hello);
    assert_eq!(r, CoopReaction::AcceptGuest);
    host.apply(r);
    assert_eq!(host, CoopLink { connected: true, my_id: Some(1) });

    let mut client = CoopLink::client_started();
    let r = coop_reaction(NetMode::Client, true, CoopMsgKind::Welcome { your_id: 2 });
    assert_eq!(r, CoopReaction::JoinHost { your_id: 2, enter_game: true });
    client.apply(r);
    assert_eq!(client, CoopLink { connected: true, my_id: Some(2) });
}

#[test]
fn wrong_role_messages_are_ignored() {
    assert_eq!(coop_reaction(NetMode::Client, true, CoopMsgKind::Hello), CoopReaction::Ignore);
    assert_eq!(coop_reaction(NetMode::Host, true, CoopMsgKind::Welcome { your_id: 2 }), CoopReaction::Ignore);
    assert_eq!(coop_reaction(NetMode::Host, true, CoopMsgKind::Snapshot), CoopReaction::Ignore);
    assert_eq!(coop_reaction(NetMode::Client, true, CoopMsgKind::Input), CoopReaction::Ignore);
    assert_eq!(coop_reaction(NetMode::Host, false, CoopMsgKind::Input), CoopReaction::StoreInput);
    assert_eq!(coop_reaction(NetMode::Client, false, CoopMsgKind::Snapshot), CoopReaction::StoreSnapshot);
    assert_eq!(coop_reaction(NetMode::Offline, true, CoopMsgKind::Hello), CoopReaction::Ignore);
    assert_eq!(
        coop_reaction(NetMode::Client, false, CoopMsgKind::Welcome { your_id: 2 }),
        CoopReaction::JoinHost { your_id: 2, enter_game: false }
    );
}

#[test]
fn leaving() {
    let mut l = CoopLink { connected: true, my_id: Some(2) };
    l.drop_link();
    assert_eq!(l, CoopLink { connected: false, my_id: Some(2) });
    l.reset();
    assert_eq!(l, CoopLink { connected: false, my_id: None });
}

#[test]
fn gates_and_ticks() {
    assert!(client_greets(true, NetMode::Client, false, true));
    assert!(!client_greets(true, NetMode::Client, true, true));
    assert!(!client_greets(false, NetMode::Client, false, true));
    assert!(host_sends_snapshots(NetMode::Host, true));
    assert!(!host_sends_snapshots(NetMode::Client, true));
    assert_eq!(next_snapshot_tick(7), 8);
    assert_eq!(next_snapshot_tick(u32::MAX), 0);
    assert!(local_is_first(Some(1)));
    assert!(!local_is_first(Some(2)));
    assert!(!local_is_first(None));
    assert_eq!(lobby_text(NetMode::Client, true, "10.0.0.2"), format!("已连接到房主：10.0.0.2:{COOP_PORT}"));
    assert_eq!(
        lobby_text(NetMode::Client, false, "10.0.0.2"),
        format!("正在连接：10.0.0.2:{COOP_PORT}（请确认房主已按 H 并进入游戏）")
    );
    assert_eq!(lobby_text(NetMode::Host, false, ""), "房主模式无需在此等待");
    assert_eq!(lobby_text(NetMode::Offline, true, "x"), "未选择模式");
    assert_eq!(NetMode::default(), NetMode::Offline);
}

#[test]
fn client_frames() {
    assert_eq!(client_frame(true, NetMode::Client, Some(3), 1, Some(2)), ClientFrame::Disconnect);
    assert_eq!(client_frame(false, NetMode::Host, Some(3), 1, Some(2)), ClientFrame::Skip);
    assert_eq!(client_frame(false, NetMode::Client, None, 1, Some(2)), ClientFrame::Skip);
    assert_eq!(client_frame(false, NetMode::Client, Some(1), 1, Some(2)), ClientFrame::Skip);
    assert_eq!(client_frame(false, NetMode::Client, Some(4), 1, None), ClientFrame::Render { tick: 4, local_id: 2 });
    assert_eq!(client_frame(false, NetMode::Client, Some(4), 1, Some(1)), ClientFrame::Render { tick: 4, local_id: 1 });
}

#[test]
fn join_screen_editing() {
    let mut ip: Vec<char> = Vec::new();
    let a = coop_menu_input(&mut ip, false, false, &"192.168.0.7:x a".chars().collect::<Vec<_>>(), false, false);
    assert_eq!(a, CoopMenuAction::Stay);
    assert_eq!(ip.iter().collect::<String>(), "192.168.0.7:");
    let a = coop_menu_input(&mut ip, false, false, &[], true, true);
    assert_eq!(a, CoopMenuAction::Join);
    assert_eq!(ip.iter().collect::<String>(), "192.168.0.7");
    let before = ip.clone();
    assert_eq!(coop_menu_input(&mut ip, true, true, &['1'], true, true), CoopMenuAction::Back);
    assert_eq!(ip, before);
    assert_eq!(coop_menu_input(&mut ip, false, true, &['1'], true, true), CoopMenuAction::Host);
    assert_eq!(ip, before);
    let mut empty: Vec<char> = Vec::new();
    assert_eq!(coop_menu_input(&mut empty, false, false, &['a'], false, true), CoopMenuAction::Stay);
    assert!(empty.is_empty());
    let mut long: Vec<char> = Vec::new();
    let many: Vec<char> = std::iter::repeat('1').take(100).collect();
    coop_menu_input(&mut long, false, false, &many, false, false);
    assert_eq!(long.len(), 64);
}

#[test]
fn versus_rules() {
    assert_eq!(pvp_team(1), Team::Pvp1);
    assert_eq!(pvp_team(2), Team::Pvp2);
    assert_eq!(pvp_opponent_team(1), Team::Pvp2);
    assert_eq!(pvp_opponent_team(2), Team::Pvp1);
    assert!(spawns_on_left(1));
    assert!(!spawns_on_left(2));
    assert_eq!(pvp_role(Some(1), 1), PvpRole::Local);
    assert_eq!(pvp_role(Some(1), 2), PvpRole::Remote);
    assert_eq!(pvp_role(Some(2), 2), PvpRole::Local);
    assert_eq!(pvp_role(None, 1), PvpRole::Unassigned);
    assert_eq!(pvp_role(Some(5), 1), PvpRole::Unassigned);
    assert!(pvp_melee_lands(true, true, true, true));
    assert!(!pvp_melee_lands(true, true, false, true));
    assert!(pvp_ranged_fires(true, true, true));
    assert!(!pvp_ranged_fires(true, false, true));
    assert_eq!(death_outcome(3, true), DeathOutcome { lives: 2, respawn: true });
    assert_eq!(death_outcome(0, true), DeathOutcome { lives: 0, respawn: false });
    assert_eq!(death_outcome(3, false), DeathOutcome { lives: 3, respawn: false });
    assert_eq!(pvp_winner(2, 1), None);
    assert_eq!(pvp_winner(2, 0), Some(1));
    assert_eq!(pvp_winner(0, 1), Some(2));
    assert_eq!(pvp_winner(0, 0), Some(2));
    let r = resolve_pvp_round(1, 3, true, false);
    assert_eq!(r.p1, DeathOutcome { lives: 0, respawn: true });
    assert_eq!(r.winner, Some(2));
    let r = resolve_pvp_round(2, 2, true, true);
    assert_eq!(r.winner, None);
}

#[test]
fn join_needs_more_than_white_space() {
    let mut ip: Vec<char> = vec![' ', '\t'];
    assert_eq!(coop_menu_input(&mut ip, false, false, &[], false, true), CoopMenuAction::Stay);
    assert_eq!(ip, vec![' ', '\t']);
    let mut ip: Vec<char> = " 1.2 ".chars().collect();
    assert_eq!(coop_menu_input(&mut ip, false, false, &[], false, true), CoopMenuAction::Join);
    assert_eq!(trimmed_join_ip(&ip).iter().collect::<String>(), "1.2");
    assert_eq!(trimmed_join_ip(&['\u{3000}', 'a', ' ', 'b', '\u{a0}']), vec!['a', ' ', 'b']);
    assert!(trimmed_join_ip(&[' ', ' ']).is_empty());
    assert!(trimmed_join_ip(&[]).is_empty());
}

#[test]
fn space_set_matches_std() {
    for u in 0u32..0x3100 {
        if let Some(c) = char::from_u32(u) {
            assert_eq!(is_space_char(c), c.is_whitespace(), "{u:#x}");
        }
    }
}

#[test]
fn limit_counts_bytes() {
    // 21 three-byte characters take 63 bytes: one more digit fits, then none.
    let mut ip: Vec<char> = std::iter::repeat('\u{4e00}').take(21).collect();
    coop_menu_input(&mut ip, false, false, &['1', '2'], false, false);
    assert_eq!(ip.len(), 22);
    assert_eq!(ip[21], '1');
}

#[test]
fn mate_record() {
    assert_eq!(mate_record_plan(Some(Some(7)), 3), MateRecordPlan { from_mate: true, gold: 7, offset_x: 0 });
    assert_eq!(mate_record_plan(Some(None), 3), MateRecordPlan { from_mate: true, gold: 3, offset_x: 0 });
    assert_eq!(mate_record_plan(None, 3), MateRecordPlan { from_mate: false, gold: 3, offset_x: 40 });
}

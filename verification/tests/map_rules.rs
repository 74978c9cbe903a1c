use echoes_in_the_fog::map::{
    build_floor_layout, current_room_type, default_room_sequence, floor_room_sequence, hint_text,
    plan_floor_entry, room_state_label, room_text, room_type_label, Direction, FloorEntry, RoomId, RoomType,
};
use echoes_in_the_fog::states::{screen_after_input, AppState, RoomState};

#[test]
fn default_sequence_is_start_normal_reward_boss() {
    assert_eq!(
        default_room_sequence(),
        vec![RoomType::Start, RoomType::Normal, RoomType::Reward, RoomType::Boss]
    );
}

#[test]
fn configured_sequence_wins_unless_empty() {
    let cfg = vec![RoomType::Start, RoomType::Puzzle, RoomType::Boss];
    assert_eq!(floor_room_sequence(Some(&cfg)), cfg);
    assert_eq!(floor_room_sequence(Some(&Vec::new())), default_room_sequence());
    assert_eq!(floor_room_sequence(None), default_room_sequence());
}

#[test]
fn layout_is_a_row_with_paired_doors() {
    let seq = default_room_sequence();
    let layout = build_floor_layout(&seq);
    assert_eq!(layout.current, RoomId(0));
    assert_eq!(layout.rooms.len(), 4);
    for (i, room) in layout.rooms.iter().enumerate() {
        assert_eq!(room.id, RoomId(i as u32));
        assert_eq!(room.room_type, seq[i]);
    }
    assert_eq!(layout.rooms[0].connections.exits, vec![(Direction::Right, RoomId(1))]);
    assert_eq!(
        layout.rooms[1].connections.exits,
        vec![(Direction::Left, RoomId(0)), (Direction::Right, RoomId(2))]
    );
    assert_eq!(layout.rooms[3].connections.exits, vec![(Direction::Left, RoomId(2))]);
    // every door has a door back
    for room in &layout.rooms {
        for (dir, to) in &room.connections.exits {
            let back = if *dir == Direction::Right { Direction::Left } else { Direction::Right };
            let other = &layout.rooms[to.0 as usize];
            assert!(other.connections.exits.contains(&(back, room.id)));
        }
    }
}

#[test]
fn single_room_floor_has_no_doors() {
    let layout = build_floor_layout(&vec![RoomType::Boss]);
    assert_eq!(layout.rooms.len(), 1);
    assert!(layout.rooms[0].connections.exits.is_empty());
}

#[test]
fn lookup_by_id() {
    let layout = build_floor_layout(&default_room_sequence());
    assert_eq!(layout.room(RoomId(2)).map(|r| r.room_type), Some(RoomType::Reward));
    assert!(layout.room(RoomId(4)).is_none());
    assert_eq!(current_room_type(&layout, RoomId(3)), RoomType::Boss);
    assert_eq!(current_room_type(&layout, RoomId(9)), RoomType::Start);
}

#[test]
fn floor_entry_keeps_an_existing_floor() {
    assert_eq!(
        plan_floor_entry(true, true, false, true),
        FloorEntry::Resume { insert_current: false, insert_room_state: true, insert_transition: false }
    );
    assert_eq!(plan_floor_entry(false, true, true, true), FloorEntry::Generate);
}

#[test]
fn hud_labels() {
    assert_eq!(room_type_label(RoomType::Normal), "战斗");
    assert_eq!(room_type_label(RoomType::Boss), "Boss");
    assert_eq!(room_state_label(RoomState::Locked), "已锁门");
    assert_eq!(room_state_label(RoomState::BossFight), "Boss战");
}

#[test]
fn hints_by_priority() {
    assert_eq!(hint_text(RoomType::Start, RoomState::Locked), "提示：右键远程，左键近战；靠近黄色门按 E");
    assert_eq!(hint_text(RoomType::Reward, RoomState::Cleared), "提示：选择奖励后，去门口按 E 继续");
    assert_eq!(hint_text(RoomType::Boss, RoomState::BossFight), "提示：击败 Boss 后可选奖励并进入下一关");
    assert_eq!(hint_text(RoomType::Boss, RoomState::Locked), "提示：清空所有敌人才能开门");
    assert_eq!(hint_text(RoomType::Normal, RoomState::Cleared), "提示：门已解锁，靠近门按 E");
    assert_eq!(hint_text(RoomType::Puzzle, RoomState::Idle), "提示：靠近门按 E 切换房间");
}

#[test]
fn state_defaults() {
    assert_eq!(AppState::default(), AppState::Loading);
    assert_eq!(RoomState::default(), RoomState::Idle);
}

#[test]
fn room_line() {
    assert_eq!(room_text(RoomType::Boss, RoomState::BossFight), "房间：Boss（Boss战）");
    assert_eq!(room_text(RoomType::Start, RoomState::Idle), "房间：起始（可通行）");
}

#[test]
fn every_room_reachable_from_the_first() {
    let seq = vec![RoomType::Start, RoomType::Normal, RoomType::Puzzle, RoomType::Reward, RoomType::Boss];
    let layout = build_floor_layout(&seq);
    let mut seen = vec![false; seq.len()];
    let mut stack = vec![0usize];
    while let Some(r) = stack.pop() {
        if seen[r] {
            continue;
        }
        seen[r] = true;
        for (_, to) in &layout.rooms[r].connections.exits {
            stack.push(to.0 as usize);
        }
    }
    assert!(seen.iter().all(|s| *s));
}

#[test]
fn screen_flow() {
    assert_eq!(screen_after_input(AppState::Loading, false, true, true), None);
    assert_eq!(screen_after_input(AppState::Loading, true, false, false), Some(AppState::MainMenu));
    assert_eq!(screen_after_input(AppState::MainMenu, true, true, false), Some(AppState::InGame));
    assert_eq!(screen_after_input(AppState::InGame, true, false, true), Some(AppState::Paused));
    assert_eq!(screen_after_input(AppState::Paused, true, false, true), Some(AppState::InGame));
    assert_eq!(screen_after_input(AppState::Victory, true, true, false), Some(AppState::MainMenu));
    assert_eq!(screen_after_input(AppState::GameOver, true, true, false), Some(AppState::MainMenu));
    assert_eq!(screen_after_input(AppState::RewardSelect, true, true, true), None);
    assert_eq!(screen_after_input(AppState::InGame, true, true, false), None);
}

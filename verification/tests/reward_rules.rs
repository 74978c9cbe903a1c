use echoes_in_the_fog::map::{build_floor_layout, default_room_sequence, RoomId};
use echoes_in_the_fog::rewards::{
    chosen_reward_from_keys, choice_index_from_keys, enter_reward_selection, flow_after_room_cleared,
    generate_reward_choices, resolve_reward_choice, reward_choice_at, reward_effect, reward_pool,
    reward_title, shuffle_rewards, RewardFlow, RewardType,
};
use echoes_in_the_fog::states::AppState;

#[test]
fn pool_has_all_eight_in_order() {
    let p = reward_pool();
    assert_eq!(p.len(), 8);
    assert_eq!(p[0], RewardType::IncreaseAttackSpeed);
    assert_eq!(p[7], RewardType::BonusProjectile);
}

#[test]
fn zero_draws_rotate_the_pool() {
    // Each step exchanges the last unsettled position with the first.
    assert_eq!(
        generate_reward_choices(&[0; 7]),
        vec![RewardType::IncreaseMaxHealth, RewardType::ReduceDashCooldown, RewardType::LifeStealOnKill]
    );
}

#[test]
fn no_draws_keep_the_pool_order() {
    assert_eq!(
        generate_reward_choices(&[]),
        vec![RewardType::IncreaseAttackSpeed, RewardType::IncreaseMaxHealth, RewardType::ReduceDashCooldown]
    );
}

#[test]
fn shuffle_with_identity_draws_is_identity() {
    // draw k = i keeps position i in place
    let mut p = reward_pool();
    shuffle_rewards(&mut p, &[7, 6, 5, 4, 3, 2, 1]);
    assert_eq!(p, reward_pool());
}

#[test]
fn choices_are_three_distinct_for_many_draws() {
    let mut seed: u32 = 12345;
    for _ in 0..200 {
        let mut d = Vec::new();
        for _ in 0..7 {
            seed = seed.wrapping_mul(1103515245).wrapping_add(12345);
            d.push(seed >> 8);
        }
        let c = generate_reward_choices(&d);
        assert_eq!(c.len(), 3);
        assert!(c[0] != c[1] && c[1] != c[2] && c[0] != c[2]);
    }
}

#[test]
fn boss_clear_with_victory_goes_to_victory() {
    let layout = build_floor_layout(&default_room_sequence());
    let flow = flow_after_room_cleared(RoomId(3), Some(&layout), Some(RoomId(3)), None);
    assert_eq!(flow, RewardFlow { go_next_floor: false, go_victory: true });
    let res = resolve_reward_choice(flow, Some(1));
    assert_eq!(res.next, AppState::Victory);
    assert_eq!(res.floor, Some(1));
    assert!(!res.reset_floor);
    assert_eq!(res.flow, RewardFlow::default());
}

#[test]
fn boss_clear_without_victory_goes_to_next_floor() {
    let layout = build_floor_layout(&default_room_sequence());
    let flow = flow_after_room_cleared(RoomId(3), Some(&layout), Some(RoomId(3)), Some(false));
    assert_eq!(flow, RewardFlow { go_next_floor: true, go_victory: false });
    let res = resolve_reward_choice(flow, Some(2));
    assert_eq!(res.next, AppState::InGame);
    assert_eq!(res.floor, Some(3));
    assert!(res.reset_floor);
    assert_eq!(res.flow, RewardFlow::default());
}

#[test]
fn other_rooms_return_to_play() {
    let layout = build_floor_layout(&default_room_sequence());
    // a normal room
    let flow = flow_after_room_cleared(RoomId(1), Some(&layout), Some(RoomId(1)), Some(true));
    assert_eq!(flow, RewardFlow::default());
    // a boss room that is not the current one
    let flow = flow_after_room_cleared(RoomId(3), Some(&layout), Some(RoomId(2)), Some(true));
    assert_eq!(flow, RewardFlow::default());
    // no layout
    let flow = flow_after_room_cleared(RoomId(3), None, Some(RoomId(3)), Some(true));
    assert_eq!(flow, RewardFlow::default());
    let res = resolve_reward_choice(flow, None);
    assert_eq!(res.next, AppState::InGame);
    assert_eq!(res.floor, None);
}

#[test]
fn entering_selection_opens_reward_screen() {
    let layout = build_floor_layout(&default_room_sequence());
    let sel = enter_reward_selection(RoomId(3), Some(&layout), Some(RoomId(3)), Some(true), &[0; 7]);
    assert_eq!(sel.next, AppState::RewardSelect);
    assert!(sel.flow.go_victory);
    assert_eq!(sel.choices.len(), 3);
}

#[test]
fn keys_pick_choices() {
    assert_eq!(choice_index_from_keys(false, true, true), Some(1));
    assert_eq!(choice_index_from_keys(true, true, true), Some(0));
    assert_eq!(choice_index_from_keys(false, false, false), None);
    let c = vec![RewardType::LifeStealOnKill, RewardType::DashDamageTrail];
    assert_eq!(reward_choice_at(&c, 1), Some(RewardType::DashDamageTrail));
    assert_eq!(reward_choice_at(&c, 2), None);
    assert_eq!(chosen_reward_from_keys(&c, true, false, false), Some(RewardType::LifeStealOnKill));
    assert_eq!(chosen_reward_from_keys(&c, false, false, true), None);
}

#[test]
fn effects_table() {
    let e = reward_effect(RewardType::IncreaseMaxHealth);
    assert_eq!((e.max_hp_add, e.heal, e.crit_pct), (20, 20, 0));
    assert_eq!(reward_effect(RewardType::IncreaseAttackSpeed).attack_speed_pct, 15);
    assert_eq!(reward_effect(RewardType::ReduceDashCooldown).dash_cooldown_pct, 15);
    assert_eq!(reward_effect(RewardType::LifeStealOnKill).lifesteal_on_kill, 3);
    assert_eq!(reward_effect(RewardType::IncreaseCritChance).crit_pct, 5);
    assert_eq!(reward_effect(RewardType::IncreaseMoveSpeed).move_speed_pct, 10);
    assert!(reward_effect(RewardType::DashDamageTrail).dash_damage_trail);
    assert!(reward_effect(RewardType::BonusProjectile).bonus_projectile);
    assert!(!reward_effect(RewardType::BonusProjectile).dash_damage_trail);
    let all = reward_pool();
    for a in &all {
        for b in &all {
            if a != b {
                assert!(reward_effect(*a) != reward_effect(*b));
            }
        }
    }
}

#[test]
fn titles() {
    assert_eq!(reward_title(RewardType::IncreaseCritChance), "暴击率 +5%");
    assert_eq!(reward_title(RewardType::BonusProjectile), "普通攻击附带飞弹");
}

#[test]
fn clearing_each_room_of_the_default_floor() {
    let layout = build_floor_layout(&default_room_sequence());
    for k in 0..4u32 {
        let flow = flow_after_room_cleared(RoomId(k), Some(&layout), Some(RoomId(k)), None);
        let res = resolve_reward_choice(flow, Some(1));
        if k == 3 {
            assert_eq!(res.next, AppState::Victory);
        } else {
            assert_eq!(res.next, AppState::InGame);
            assert_eq!(res.floor, Some(1));
        }
    }
}

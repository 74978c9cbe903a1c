use echoes_in_the_fog::enemy::{
    boss_pattern, boss_phase_update, charger_step, enemy_kind_to_u8, enemy_motion, spawn_boss_bundle,
    BossPatternKind, BossPhaseUpdate, ChargerMotion, ChargerPhase, EnemyMotion, EnemyType,
};
use echoes_in_the_fog::player::{
    animation_update, combo_update, first_struck_hurtbox, HurtboxProbe, dash_starts, dash_tick, melee_action, ranged_fires, team_code,
    teams_can_hit, AnimationState, ComboHit, DashTick, MeleeAction, Team,
};

#[test]
fn kind_codes() {
    assert_eq!(enemy_kind_to_u8(EnemyType::MeleeChaser), 1);
    assert_eq!(enemy_kind_to_u8(EnemyType::RangedShooter), 2);
    assert_eq!(enemy_kind_to_u8(EnemyType::Charger), 3);
    assert_eq!(enemy_kind_to_u8(EnemyType::Boss), 4);
    assert_eq!(team_code(Team::Player), 1);
    assert_eq!(team_code(Team::Pvp2), 4);
}

#[test]
fn motions() {
    assert_eq!(enemy_motion(EnemyType::MeleeChaser, true, false), EnemyMotion::Chase);
    assert_eq!(enemy_motion(EnemyType::Boss, false, false), EnemyMotion::Hold);
    assert_eq!(enemy_motion(EnemyType::RangedShooter, true, false), EnemyMotion::KeepDistance);
    assert_eq!(enemy_motion(EnemyType::Charger, true, false), EnemyMotion::Frozen);
    assert_eq!(enemy_motion(EnemyType::Charger, false, true), EnemyMotion::ChargerPattern);
}

#[test]
fn charger_runs_its_cycle() {
    let s = charger_step(ChargerPhase::Idle, true, false, true);
    assert_eq!((s.phase, s.motion, s.restart_timer_ms), (ChargerPhase::Idle, ChargerMotion::Chase, None));
    let s = charger_step(ChargerPhase::Idle, true, true, false);
    assert_eq!(s.phase, ChargerPhase::Windup);
    assert!(s.capture_direction);
    assert_eq!(s.restart_timer_ms, Some(350));
    let s = charger_step(ChargerPhase::Windup, true, true, false);
    assert_eq!((s.phase, s.restart_timer_ms), (ChargerPhase::Windup, None));
    let s = charger_step(ChargerPhase::Windup, true, true, true);
    assert_eq!((s.phase, s.motion, s.restart_timer_ms), (ChargerPhase::Charging, ChargerMotion::Hold, Some(320)));
    let s = charger_step(ChargerPhase::Charging, false, false, true);
    assert_eq!((s.phase, s.motion, s.restart_timer_ms), (ChargerPhase::Stunned, ChargerMotion::Charge, Some(500)));
    let s = charger_step(ChargerPhase::Stunned, false, false, true);
    assert_eq!((s.phase, s.motion, s.restart_timer_ms), (ChargerPhase::Idle, ChargerMotion::Hold, Some(100)));
}

#[test]
fn boss_phases_and_patterns() {
    assert_eq!(boss_phase_update(1, &[false, false]), BossPhaseUpdate { phase: 1, announce: None });
    assert_eq!(boss_phase_update(1, &[true, false]), BossPhaseUpdate { phase: 2, announce: Some(2) });
    assert_eq!(boss_phase_update(2, &[true, true]), BossPhaseUpdate { phase: 3, announce: Some(3) });
    assert_eq!(boss_phase_update(3, &[true, true]), BossPhaseUpdate { phase: 3, announce: None });
    // only one threshold configured
    assert_eq!(boss_phase_update(1, &[true]).phase, 2);
    assert_eq!(boss_phase_update(1, &[]).phase, 1);
    let p = boss_pattern(1);
    assert_eq!((p.kind, p.next_delay_ms, p.shots, p.damage_pct), (BossPatternKind::Fan, 1100, 3, 70));
    assert!(p.shake.is_none());
    let p = boss_pattern(2);
    assert_eq!((p.kind, p.next_delay_ms, p.shots, p.speed_pct), (BossPatternKind::Ring, 1250, 10, 80));
    assert_eq!(p.shake.map(|s| (s.strength_px, s.duration_ms)), Some((6, 120)));
    let p = boss_pattern(7);
    assert_eq!((p.kind, p.next_delay_ms, p.shots, p.speed_pct, p.damage_pct), (BossPatternKind::Volley, 850, 1, 110, 90));
    let b = spawn_boss_bundle();
    assert_eq!((b.kind, b.phase, b.first_attack_ms), (EnemyType::Boss, 1, 1200));
}

#[test]
fn animation_priorities() {
    assert_eq!(animation_update(true, true, true, true).state, AnimationState::Dead);
    let u = animation_update(false, true, true, true);
    assert_eq!((u.state, u.restart_timer_ms), (AnimationState::Hurt, Some(120)));
    assert_eq!(animation_update(false, false, true, true).state, AnimationState::Dash);
    assert_eq!(animation_update(false, false, false, true).state, AnimationState::Move);
    assert_eq!(animation_update(false, false, false, false).state, AnimationState::Idle);
}

fn hit(t: Team, on_player: bool) -> ComboHit {
    ComboHit { attacker_team: t, target_is_player: on_player }
}

#[test]
fn combo_counts_player_hits() {
    let u = combo_update(2, false, &[hit(Team::Player, false), hit(Team::Player, false)]);
    assert_eq!((u.count, u.restart_window), (4, true));
    let u = combo_update(5, true, &[hit(Team::Player, false)]);
    assert_eq!(u.count, 1);
    let u = combo_update(5, true, &[]);
    assert_eq!((u.count, u.restart_window), (0, false));
    let u = combo_update(5, false, &[hit(Team::Player, false), hit(Team::Enemy, true), hit(Team::Player, false)]);
    assert_eq!(u.count, 1);
    let u = combo_update(5, false, &[hit(Team::Enemy, false), hit(Team::Pvp1, true)]);
    assert_eq!((u.count, u.restart_window), (5, false));
    let u = combo_update(u32::MAX, false, &[hit(Team::Player, false)]);
    assert_eq!(u.count, u32::MAX);
}

#[test]
fn dash_and_attacks() {
    assert!(dash_starts(false, true, true));
    assert!(!dash_starts(true, true, true));
    assert!(!dash_starts(false, true, false));
    assert_eq!(dash_tick(false, true), DashTick::Inactive);
    assert_eq!(dash_tick(true, true), DashTick::End);
    assert_eq!(dash_tick(true, false), DashTick::Continue);
    assert_eq!(melee_action(true, true, false), MeleeAction::Swing);
    assert_eq!(melee_action(true, true, true), MeleeAction::SwingWithProjectile);
    assert_eq!(melee_action(true, false, true), MeleeAction::Idle);
    assert!(ranged_fires(true, true));
    assert!(!ranged_fires(false, true));
    assert!(teams_can_hit(Team::Player, Team::Enemy));
    assert!(!teams_can_hit(Team::Enemy, Team::Enemy));
}

#[test]
fn first_hurtbox_struck() {
    let probes = [
        HurtboxProbe { team: Team::Player, overlaps: true },
        HurtboxProbe { team: Team::Enemy, overlaps: false },
        HurtboxProbe { team: Team::Enemy, overlaps: true },
        HurtboxProbe { team: Team::Pvp1, overlaps: true },
    ];
    assert_eq!(first_struck_hurtbox(Team::Player, &probes), Some(2));
    assert_eq!(first_struck_hurtbox(Team::Enemy, &probes), Some(0));
    assert_eq!(first_struck_hurtbox(Team::Pvp1, &probes[3..]), None);
    assert_eq!(first_struck_hurtbox(Team::Enemy, &[]), None);
}

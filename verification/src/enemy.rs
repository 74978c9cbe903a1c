use vstd::prelude::*;

verus! {

/// The kinds of enemy.
#[derive(Debug, Clone, Copy, PartialEq, Eq, Structural, Hash)]
pub enum EnemyType {
    MeleeChaser,
    RangedShooter,
    Charger,
    Boss,
}

/// Wire code of an enemy kind: 1 to 4 in declaration order.
pub open spec fn spec_enemy_kind_code(kind: EnemyType) -> u8 {
    match kind {
        EnemyType::MeleeChaser => 1,
        EnemyType::RangedShooter => 2,
        EnemyType::Charger => 3,
        EnemyType::Boss => 4,
    }
}

/// Encodes an enemy kind for the network snapshot.
pub fn enemy_kind_to_u8(kind: EnemyType) -> (code: u8)
    ensures
        code == spec_enemy_kind_code(kind),
{
    match kind {
        EnemyType::MeleeChaser => 1,
        EnemyType::RangedShooter => 2,
        EnemyType::Charger => 3,
        EnemyType::Boss => 4,
    }
}

/// Kind codes lie in 1..=4 and tell the kinds apart.
pub proof fn lemma_enemy_kind_code_injective(a: EnemyType, b: EnemyType)
    ensures
        1 <= spec_enemy_kind_code(a) <= 4,
        spec_enemy_kind_code(a) == spec_enemy_kind_code(b) ==> a == b,
{
}

/// How an enemy moves this frame.
#[derive(Debug, Clone, Copy, PartialEq, Eq, Structural)]
pub enum EnemyMotion {
    /// Straight at the player.
    Chase,
    /// Toward or away from the player to hold a middle distance.
    KeepDistance,
    /// Standing still.
    Hold,
    /// Driven by the charger's own phase machine.
    ChargerPattern,
    /// A charger without its phase machine: its velocity is zeroed and it is
    /// neither moved nor kept inside the room this frame.
    Frozen,
}

/// Movement of an enemy: chasers and the boss run at a player within their
/// aggro range, shooters keep their distance within it, chargers follow their
/// phase machine (and are frozen in place, not even kept inside the room,
/// without one), and everything out of range stands still.
pub open spec fn spec_enemy_motion(kind: EnemyType, in_aggro_range: bool, has_charger_state: bool) -> EnemyMotion {
    match kind {
        EnemyType::MeleeChaser | EnemyType::Boss => if in_aggro_range {
            EnemyMotion::Chase
        } else {
            EnemyMotion::Hold
        },
        EnemyType::RangedShooter => if in_aggro_range {
            EnemyMotion::KeepDistance
        } else {
            EnemyMotion::Hold
        },
        EnemyType::Charger => if has_charger_state {
            EnemyMotion::ChargerPattern
        } else {
            EnemyMotion::Frozen
        },
    }
}

/// Chooses how an enemy moves this frame.
pub fn enemy_motion(kind: EnemyType, in_aggro_range: bool, has_charger_state: bool) -> (m: EnemyMotion)
    ensures
        m == spec_enemy_motion(kind, in_aggro_range, has_charger_state),
{
    match kind {
        EnemyType::MeleeChaser | EnemyType::Boss => if in_aggro_range {
            EnemyMotion::Chase
        } else {
            EnemyMotion::Hold
        },
        EnemyType::RangedShooter => if in_aggro_range {
            EnemyMotion::KeepDistance
        } else {
            EnemyMotion::Hold
        },
        EnemyType::Charger => if has_charger_state {
            EnemyMotion::ChargerPattern
        } else {
            EnemyMotion::Frozen
        },
    }
}

/// Out of aggro range every kind but the charger stands still; within it,
/// chasers and the boss run at the player and shooters keep their distance;
/// only chasers and the boss ever chase, only shooters keep their distance,
/// and the charger alone follows its phase machine, or is frozen without one.
pub proof fn lemma_enemy_motion_by_range(kind: EnemyType, in_aggro_range: bool, has_charger_state: bool)
    ensures
        ({
            let m = spec_enemy_motion(kind, in_aggro_range, has_charger_state);
            &&& (kind != EnemyType::Charger && !in_aggro_range) ==> m == EnemyMotion::Hold
            &&& (m == EnemyMotion::Chase <==> (in_aggro_range && (kind == EnemyType::MeleeChaser
                || kind == EnemyType::Boss)))
            &&& (m == EnemyMotion::KeepDistance <==> (in_aggro_range && kind
                == EnemyType::RangedShooter))
            &&& (m == EnemyMotion::ChargerPattern <==> (kind == EnemyType::Charger
                && has_charger_state))
            &&& (m == EnemyMotion::Frozen <==> (kind == EnemyType::Charger && !has_charger_state))
            &&& (m == EnemyMotion::Hold <==> (kind != EnemyType::Charger && !in_aggro_range))
        }),
{
}

/// Phases of the charger's attack.
#[derive(Debug, Clone, Copy, PartialEq, Eq, Structural, Hash)]
pub enum ChargerPhase {
    Idle,
    Windup,
    Charging,
    Stunned,
}

/// How a charger moves during one frame.
#[derive(Debug, Clone, Copy, PartialEq, Eq, Structural)]
pub enum ChargerMotion {
    /// Walks at the player.
    Chase,
    /// Stands still.
    Hold,
    /// Rushes along the direction captured at the wind-up, four times its speed.
    Charge,
}

/// One frame of the charger: its phase after the frame, how it moves, whether
/// it fixes its rush direction now, and the length in milliseconds of the
/// phase timer it restarts, if it restarts one.
#[derive(Debug, Clone, Copy, PartialEq, Eq, Structural)]
pub struct ChargerStep {
    pub phase: ChargerPhase,
    pub motion: ChargerMotion,
    pub capture_direction: bool,
    pub restart_timer_ms: Option<u32>,
}

/// Length, in milliseconds, of the timer that runs while in `phase` (started
/// on entering it).
pub open spec fn phase_duration_ms(phase: ChargerPhase) -> u32 {
    match phase {
        ChargerPhase::Windup => 350,
        ChargerPhase::Charging => 320,
        ChargerPhase::Stunned => 500,
        ChargerPhase::Idle => 100,
    }
}

/// The phase after `phase` in the charger's cycle.
pub open spec fn next_phase(phase: ChargerPhase) -> ChargerPhase {
    match phase {
        ChargerPhase::Idle => ChargerPhase::Windup,
        ChargerPhase::Windup => ChargerPhase::Charging,
        ChargerPhase::Charging => ChargerPhase::Stunned,
        ChargerPhase::Stunned => ChargerPhase::Idle,
    }
}

/// One frame of the charger. Idle: walks at a player in aggro range, and
/// winds up (fixing its direction) once close enough. Wind-up: stands still,
/// then charges when its timer runs out. Charging: rushes, then is stunned
/// when its timer runs out. Stunned: stands still, then idles again when its
/// timer runs out. Each change of phase restarts the timer for the new phase.
pub open spec fn spec_charger_step(
    phase: ChargerPhase,
    in_aggro_range: bool,
    in_windup_range: bool,
    timer_finished: bool,
) -> ChargerStep {
    let advance = match phase {
        ChargerPhase::Idle => in_windup_range,
        _ => timer_finished,
    };
    let motion = match phase {
        ChargerPhase::Idle => if in_aggro_range {
            ChargerMotion::Chase
        } else {
            ChargerMotion::Hold
        },
        ChargerPhase::Charging => ChargerMotion::Charge,
        _ => ChargerMotion::Hold,
    };
    if advance {
        ChargerStep {
            phase: next_phase(phase),
            motion,
            capture_direction: phase == ChargerPhase::Idle,
            restart_timer_ms: Some(phase_duration_ms(next_phase(phase))),
        }
    } else {
        ChargerStep { phase, motion, capture_direction: false, restart_timer_ms: None }
    }
}

/// Advances the charger by one frame, given whether a player is within its
/// aggro range, within wind-up range, and whether its phase timer has run out.
pub fn charger_step(
    phase: ChargerPhase,
    in_aggro_range: bool,
    in_windup_range: bool,
    timer_finished: bool,
) -> (step: ChargerStep)
    ensures
        step == spec_charger_step(phase, in_aggro_range, in_windup_range, timer_finished),
{
    match phase {
        ChargerPhase::Idle => {
            let motion = if in_aggro_range {
                ChargerMotion::Chase
            } else {
                ChargerMotion::Hold
            };
            if in_windup_range {
                ChargerStep {
                    phase: ChargerPhase::Windup,
                    motion,
                    capture_direction: true,
                    restart_timer_ms: Some(350),
                }
            } else {
                ChargerStep { phase, motion, capture_direction: false, restart_timer_ms: None }
            }
        },
        ChargerPhase::Windup => {
            if timer_finished {
                ChargerStep {
                    phase: ChargerPhase::Charging,
                    motion: ChargerMotion::Hold,
                    capture_direction: false,
                    restart_timer_ms: Some(320),
                }
            } else {
                ChargerStep {
                    phase,
                    motion: ChargerMotion::Hold,
                    capture_direction: false,
                    restart_timer_ms: None,
                }
            }
        },
        ChargerPhase::Charging => {
            if timer_finished {
                ChargerStep {
                    phase: ChargerPhase::Stunned,
                    motion: ChargerMotion::Charge,
                    capture_direction: false,
                    restart_timer_ms: Some(500),
                }
            } else {
                ChargerStep {
                    phase,
                    motion: ChargerMotion::Charge,
                    capture_direction: false,
                    restart_timer_ms: None,
                }
            }
        },
        ChargerPhase::Stunned => {
            if timer_finished {
                ChargerStep {
                    phase: ChargerPhase::Idle,
                    motion: ChargerMotion::Hold,
                    capture_direction: false,
                    restart_timer_ms: Some(100),
                }
            } else {
                ChargerStep {
                    phase,
                    motion: ChargerMotion::Hold,
                    capture_direction: false,
                    restart_timer_ms: None,
                }
            }
        },
    }
}

/// The charger never skips a phase: each frame it stays or moves to the next
/// phase of the cycle Idle, Windup, Charging, Stunned; it moves exactly when it
/// restarts its timer; it only rushes while charging; and it fixes its rush
/// direction only when it starts winding up.
pub proof fn lemma_charger_cycle(
    phase: ChargerPhase,
    in_aggro_range: bool,
    in_windup_range: bool,
    timer_finished: bool,
)
    ensures
        ({
            let s = spec_charger_step(phase, in_aggro_range, in_windup_range, timer_finished);
            &&& (s.phase == phase || s.phase == next_phase(phase))
            &&& (s.phase != phase <==> s.restart_timer_ms is Some)
            &&& (s.motion == ChargerMotion::Charge <==> phase == ChargerPhase::Charging)
            &&& (s.capture_direction <==> (phase == ChargerPhase::Idle && s.phase
                == ChargerPhase::Windup))
            &&& (phase != ChargerPhase::Idle && !timer_finished) ==> s.phase == phase
        }),
{
}

/// The charger moves on its own only while idle (walking at a player within
/// its aggro range) or charging (rushing): while winding up or stunned it
/// stands still whatever the distances and timers, and an idle charger with
/// no player in aggro range stands still too.
pub proof fn lemma_charger_moves_only_idle_or_charging(
    phase: ChargerPhase,
    in_aggro_range: bool,
    in_windup_range: bool,
    timer_finished: bool,
)
    ensures
        ({
            let s = spec_charger_step(phase, in_aggro_range, in_windup_range, timer_finished);
            &&& s.motion == ChargerMotion::Chase ==> (phase == ChargerPhase::Idle && in_aggro_range)
            &&& (phase == ChargerPhase::Windup || phase == ChargerPhase::Stunned) ==> s.motion
                == ChargerMotion::Hold
            &&& phase == ChargerPhase::Charging ==> s.motion == ChargerMotion::Charge
            &&& phase == ChargerPhase::Idle ==> (s.motion == ChargerMotion::Chase
                <==> in_aggro_range)
            &&& (phase == ChargerPhase::Idle && !in_aggro_range) ==> s.motion
                == ChargerMotion::Hold
        }),
{
}

/// Four frames whose phase timer runs out each time bring a charger that
/// starts winding up back to idle, through every phase in order.
pub proof fn lemma_charger_full_cycle(in_aggro_range: bool)
    ensures
        ({
            let s1 = spec_charger_step(ChargerPhase::Idle, in_aggro_range, true, false);
            let s2 = spec_charger_step(s1.phase, false, false, true);
            let s3 = spec_charger_step(s2.phase, false, false, true);
            let s4 = spec_charger_step(s3.phase, false, false, true);
            &&& s1.phase == ChargerPhase::Windup
            &&& s2.phase == ChargerPhase::Charging
            &&& s3.phase == ChargerPhase::Stunned
            &&& s4.phase == ChargerPhase::Idle
        }),
{
}

/// The boss's phase for its health: with `reached[i]` telling whether its
/// health ratio is at or below the `i`-th threshold, phase 3 once the second
/// threshold is reached, else phase 2 once the first is, else phase 1.
pub open spec fn spec_boss_phase(reached: Seq<bool>) -> u8 {
    if reached.len() > 1 && reached[1] {
        3
    } else if reached.len() > 0 && reached[0] {
        2
    } else {
        1
    }
}

/// The boss's phase after a frame, and the phase to announce if it changed.
#[derive(Debug, Clone, Copy, PartialEq, Eq, Structural)]
pub struct BossPhaseUpdate {
    pub phase: u8,
    pub announce: Option<u8>,
}

/// The boss's phase after a frame at phase `current`, announcing the new
/// phase when it differs.
pub open spec fn spec_boss_phase_update(current: u8, reached: Seq<bool>) -> BossPhaseUpdate {
    let p = spec_boss_phase(reached);
    BossPhaseUpdate {
        phase: p,
        announce: if current != p {
            Some(p)
        } else {
            None
        },
    }
}

/// Sets the boss's phase from the thresholds its health has reached, and
/// announces the new phase when it differs from the current one.
pub fn boss_phase_update(current: u8, reached: &[bool]) -> (u: BossPhaseUpdate)
    ensures
        u == spec_boss_phase_update(current, reached@),
{
    let new_phase: u8 = if reached.len() > 1 && reached[1] {
        3
    } else if reached.len() > 0 && reached[0] {
        2
    } else {
        1
    };
    if current != new_phase {
        BossPhaseUpdate { phase: new_phase, announce: Some(new_phase) }
    } else {
        BossPhaseUpdate { phase: current, announce: None }
    }
}

/// The boss is always in phase 1, 2 or 3, a phase is announced exactly when
/// it changes, and a second update with the same health announces nothing.
pub proof fn lemma_boss_phase_settles(current: u8, reached: Seq<bool>)
    ensures
        ({
            let u1 = spec_boss_phase_update(current, reached);
            let u2 = spec_boss_phase_update(u1.phase, reached);
            &&& 1 <= u1.phase <= 3
            &&& (u1.announce is Some <==> u1.phase != current)
            &&& u2 == (BossPhaseUpdate { phase: u1.phase, announce: None })
        }),
{
}

/// A screen shake: its strength in pixels and its duration in milliseconds.
#[derive(Debug, Clone, Copy, PartialEq, Eq, Structural)]
pub struct ScreenShake {
    pub strength_px: u32,
    pub duration_ms: u32,
}

/// Attack patterns of the boss.
#[derive(Debug, Clone, Copy, PartialEq, Eq, Structural)]
pub enum BossPatternKind {
    /// A fan of shots at the nearest player, from just in front of the boss.
    Fan,
    /// A ring of shots all around the boss.
    Ring,
    /// One fast shot at the nearest player, from just in front of the boss.
    Volley,
}

/// One firing of the boss: the pattern, the delay until the next one, the
/// number of shots, their speed and damage as percentages of the boss's
/// projectile speed and contact damage, and the screen shake it causes, if any.
#[derive(Debug, Clone, Copy, PartialEq, Eq, Structural)]
pub struct BossPattern {
    pub kind: BossPatternKind,
    pub next_delay_ms: u32,
    pub shots: u32,
    pub speed_pct: u32,
    pub damage_pct: u32,
    pub shake: Option<ScreenShake>,
}

/// The pattern for each phase: phase 1 a 3-shot fan every 1.1 s at 70% damage;
/// phase 2 a 10-shot ring every 1.25 s at 80% speed and 55% damage with a light
/// shake; any later phase a single shot every 0.85 s at 110% speed and 90%
/// damage with a stronger shake.
pub open spec fn spec_boss_pattern(phase: u8) -> BossPattern {
    if phase == 1 {
        BossPattern {
            kind: BossPatternKind::Fan,
            next_delay_ms: 1100,
            shots: 3,
            speed_pct: 100,
            damage_pct: 70,
            shake: None,
        }
    } else if phase == 2 {
        BossPattern {
            kind: BossPatternKind::Ring,
            next_delay_ms: 1250,
            shots: 10,
            speed_pct: 80,
            damage_pct: 55,
            shake: Some(ScreenShake { strength_px: 6, duration_ms: 120 }),
        }
    } else {
        BossPattern {
            kind: BossPatternKind::Volley,
            next_delay_ms: 850,
            shots: 1,
            speed_pct: 110,
            damage_pct: 90,
            shake: Some(ScreenShake { strength_px: 8, duration_ms: 140 }),
        }
    }
}

/// The attack the boss fires in `phase` when its pattern timer runs out.
pub fn boss_pattern(phase: u8) -> (p: BossPattern)
    ensures
        p == spec_boss_pattern(phase),
{
    if phase == 1 {
        BossPattern {
            kind: BossPatternKind::Fan,
            next_delay_ms: 1100,
            shots: 3,
            speed_pct: 100,
            damage_pct: 70,
            shake: None,
        }
    } else if phase == 2 {
        BossPattern {
            kind: BossPatternKind::Ring,
            next_delay_ms: 1250,
            shots: 10,
            speed_pct: 80,
            damage_pct: 55,
            shake: Some(ScreenShake { strength_px: 6, duration_ms: 120 }),
        }
    } else {
        BossPattern {
            kind: BossPatternKind::Volley,
            next_delay_ms: 850,
            shots: 1,
            speed_pct: 110,
            damage_pct: 90,
            shake: Some(ScreenShake { strength_px: 8, duration_ms: 140 }),
        }
    }
}

/// Each phase the boss can reach fires its own pattern: below the second
/// health threshold (phase 3) a single fast shot every 850 ms at 110% speed
/// and 90% damage with an 8 px / 140 ms shake; below only the first (phase 2)
/// a 10-shot ring every 1250 ms at 80% speed and 55% damage with a
/// 6 px / 120 ms shake; above both (phase 1) a 3-shot fan every 1100 ms at
/// full speed and 70% damage without shake.
pub proof fn lemma_boss_phase_patterns(reached: Seq<bool>)
    ensures
        ({
            let phase = spec_boss_phase(reached);
            let p = spec_boss_pattern(phase);
            let second = reached.len() > 1 && reached[1];
            let first = reached.len() > 0 && reached[0];
            &&& second ==> (phase == 3 && p.kind == BossPatternKind::Volley && p.shots == 1
                && p.next_delay_ms == 850 && p.speed_pct == 110 && p.damage_pct == 90 && p.shake
                == Some(ScreenShake { strength_px: 8, duration_ms: 140 }))
            &&& (!second && first) ==> (phase == 2 && p.kind == BossPatternKind::Ring && p.shots
                == 10 && p.next_delay_ms == 1250 && p.speed_pct == 80 && p.damage_pct == 55
                && p.shake == Some(ScreenShake { strength_px: 6, duration_ms: 120 }))
            &&& (!second && !first) ==> (phase == 1 && p.kind == BossPatternKind::Fan && p.shots
                == 3 && p.next_delay_ms == 1100 && p.speed_pct == 100 && p.damage_pct == 70
                && p.shake is None)
        }),
{
}

/// The three phases fire three different kinds of attack, and a boss whose
/// health has reached at least the thresholds of another is in at least the
/// same phase.
pub proof fn lemma_boss_phases_differ(a: Seq<bool>, b: Seq<bool>)
    ensures
        spec_boss_phase(a) != spec_boss_phase(b) ==> spec_boss_pattern(spec_boss_phase(a)).kind
            != spec_boss_pattern(spec_boss_phase(b)).kind,
        (a.len() == b.len() && forall|t: int| 0 <= t < a.len() && #[trigger] a[t] ==> b[t])
            ==> spec_boss_phase(a) <= spec_boss_phase(b),
{
}

/// A freshly spawned boss: its kind, its phase, and the delay in milliseconds
/// before its first attack.
#[derive(Debug, Clone, Copy, PartialEq, Eq, Structural)]
pub struct BossSpawn {
    pub kind: EnemyType,
    pub phase: u8,
    pub first_attack_ms: u32,
}

/// The boss starts in phase 1 and attacks after 1.2 s.
pub fn spawn_boss_bundle() -> (b: BossSpawn)
    ensures
        b == (BossSpawn { kind: EnemyType::Boss, phase: 1, first_attack_ms: 1200 }),
{
    BossSpawn { kind: EnemyType::Boss, phase: 1, first_attack_ms: 1200 }
}

} // verus!

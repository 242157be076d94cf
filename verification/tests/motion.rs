use paneru::ax_writer::AxWriteState;
use paneru::ecs::animation::{
    birth_phase, kick_start, nudge_landing, should_carry_phase, tween_finished, FIRST_TICK_KICK_PX,
    LANDING_NUDGE_PX, RETARGET_CARRY_PX,
};
use paneru::ecs::orchestrator::{
    active_timeout_limit, classify_frame, classify_frame_priority, log_frame_stats,
    mark_preupdate_end, mark_update_end, percentile, pump_timeout_limit, sort_samples,
    stage_median, supervise_threads, vsync_timeout_ms, FrameOrchestrator, FramePresence,
    FramePriority, PerfStats, Restarts, ThreadSupervisor, Worker,
    LOOP_MAX_TIMEOUT_FRAME_ACTIVE_MS, LOOP_MAX_TIMEOUT_LOWPOWER_MS, LOOP_MAX_TIMEOUT_MS,
    LOOP_MAX_TIMEOUT_PROMOTION_MS, PERF_SAMPLE_WINDOW,
};
use paneru::ecs::systems::motion::{
    advance_leg, animate_entity, birth_leg, retarget_leg, seam_snap_target, settle_orphan_drives,
    Leg, LegPlan,
};
use paneru::ecs::{BurstClock, DrivePhase, PositionDrive};
use paneru::geometry::{IRect, IVec2, Origin};
use paneru::time::Duration;

fn ms(millis: u64) -> Duration {
    Duration::from_millis(millis)
}

#[test]
fn landing_nudge_advances_without_overshoot() {
    assert_eq!(
        nudge_landing(IVec2::new(0, 0), IVec2::new(10, -5)),
        IVec2::new(LANDING_NUDGE_PX, -LANDING_NUDGE_PX)
    );
    assert_eq!(nudge_landing(IVec2::new(9, 0), IVec2::new(10, 0)), IVec2::new(10, 0));
    assert_eq!(nudge_landing(IVec2::new(5, 5), IVec2::new(5, 5)), IVec2::new(5, 5));
}

#[test]
fn carry_phase_rule_is_deterministic() {
    let dur = ms(150);
    let from = IVec2::new(0, 0);
    assert!(should_carry_phase(ms(50), dur, from, IVec2::new(RETARGET_CARRY_PX, 0)));
    assert!(!should_carry_phase(ms(50), dur, from, IVec2::new(RETARGET_CARRY_PX + 1, 0)));
    assert!(!should_carry_phase(dur, dur, from, from), "expired leg restarts");
    assert!(!should_carry_phase(dur.plus(ms(1)), dur, from, from));
}

#[test]
fn carried_phases_measure_the_straight_line() {
    let from = IVec2::new(0, 0);
    // 22^2 + 23^2 = 1013 is within 32^2 = 1024, 23^2 + 23^2 = 1058 is not.
    assert!(should_carry_phase(ms(50), ms(150), from, IVec2::new(22, -23)));
    assert!(!should_carry_phase(ms(50), ms(150), from, IVec2::new(23, -23)));
    assert!(!should_carry_phase(
        ms(50),
        ms(150),
        IVec2::new(i32::MIN, i32::MIN),
        IVec2::new(i32::MAX, i32::MAX)
    ));
}

#[test]
fn burst_births_share_phase_while_young() {
    let opened = ms(1000);
    assert_eq!(birth_phase(opened, Some(opened)), (opened, false), "same-tick birth joins");
    assert_eq!(
        birth_phase(opened.plus(ms(40)), Some(opened)),
        (opened, false),
        "adjacent-tick birth joins"
    );
    assert_eq!(
        birth_phase(opened.plus(ms(51)), Some(opened)),
        (opened.plus(ms(51)), true),
        "late birth opens fresh"
    );
    assert_eq!(birth_phase(opened, None), (opened, true));
}

#[test]
fn siblings_land_together() {
    let opened = ms(1000);
    let born = |at: u64| birth_phase(ms(at), Some(opened)).0;
    let landed = |at: u64, now: u64| tween_finished(ms(now).saturating_sub(born(at)), ms(150));
    assert!(!landed(1000, 1149) && !landed(1040, 1149));
    assert!(landed(1000, 1150) && landed(1040, 1150));
}

#[test]
fn kick_start_bounds_first_motion() {
    let start = IVec2::new(0, 20);
    assert_eq!(
        kick_start(start, IVec2::new(100, 60)),
        IVec2::new(FIRST_TICK_KICK_PX, 20 + FIRST_TICK_KICK_PX)
    );
    assert_eq!(kick_start(start, IVec2::new(1, 20)), IVec2::new(1, 20));
    assert_eq!(
        kick_start(start, IVec2::new(-50, 0)),
        IVec2::new(-FIRST_TICK_KICK_PX, 20 - FIRST_TICK_KICK_PX)
    );
    assert_eq!(kick_start(start, start), start);
}

#[test]
fn zero_duration_snaps() {
    assert!(tween_finished(ms(0), Duration::zero()));
    let leg = Leg {
        start: IVec2::new(0, 0),
        target: IVec2::new(100, 0),
        started: ms(0),
        duration: Duration::zero(),
    };
    assert_eq!(
        advance_leg(IVec2::new(0, 0), &leg, ms(0), IVec2::new(40, 0)),
        (IVec2::new(100, 0), true)
    );
}

#[test]
fn factor_covers_duration() {
    let duration = ms(150);
    assert!(tween_finished(duration, duration));
    assert!(tween_finished(duration.plus(ms(1)), duration));
    assert!(!tween_finished(duration.saturating_sub(ms(1)), duration));
}

#[test]
fn tween_presents_exact_landing_frame() {
    let start = IRect::new(0, 20, 400, 768).min;
    let target = IRect::new(100, 20, 500, 768).min;
    let duration = ms(150);
    let leg = Leg { start, target, started: ms(0), duration };
    assert_eq!(advance_leg(start, &leg, duration, start), (target, true));
    assert!(tween_finished(duration, duration));
}

#[test]
fn a_leg_kicks_glides_nudges_and_lands() {
    let leg = Leg {
        start: IVec2::new(0, 0),
        target: IVec2::new(100, 0),
        started: ms(1000),
        duration: ms(150),
    };
    let rest = IVec2::new(0, 0);
    assert_eq!(advance_leg(rest, &leg, ms(1008), rest), (IVec2::new(2, 0), false));
    assert_eq!(
        advance_leg(IVec2::new(2, 0), &leg, ms(1060), IVec2::new(64, 0)),
        (IVec2::new(64, 0), false)
    );
    let near = IVec2::new(98, 0);
    assert_eq!(advance_leg(near, &leg, ms(1140), near), (IVec2::new(99, 0), false));
    assert_eq!(advance_leg(near, &leg, ms(1150), near), (IVec2::new(100, 0), true));
}

#[test]
fn legs_are_held_carried_born_and_cut() {
    let screen = vec![IRect::new(0, 0, 1024, 768), IRect::new(1024, 0, 2944, 768)];
    let clock = BurstClock { opened: Some(ms(90)) };
    let leg = Leg {
        start: Origin::new(0, 0),
        target: Origin::new(100, 0),
        started: ms(50),
        duration: ms(150),
    };
    let drive = PositionDrive::animating(leg.start, leg.target, leg.started, leg.duration);
    let at = Origin::new(40, 0);
    let to = |x: i32, off: bool, drive: Option<PositionDrive>| {
        animate_entity(at, Origin::new(x, 0), true, drive, &screen, off, ms(100), &clock)
    };
    assert_eq!(to(100, false, Some(drive)), LegPlan::Hold { leg });
    assert_eq!(to(110, false, Some(drive)), LegPlan::Retarget { carry: true, elapsed: ms(50) });
    assert_eq!(to(500, false, Some(drive)), LegPlan::Retarget { carry: false, elapsed: ms(50) });
    assert_eq!(to(100, false, None), LegPlan::Birth { started: ms(90), opened: false });
    assert_eq!(to(1100, false, None), LegPlan::Snap { at: Origin::new(1100, 0) });
    assert_eq!(to(500, true, None), LegPlan::Snap { at: Origin::new(500, 0) });
}

#[test]
fn births_open_their_burst() {
    let mut clock = BurstClock { opened: None };
    let leg = birth_leg(
        IVec2::new(0, 0),
        IVec2::new(9, 9),
        ms(100),
        true,
        ms(100),
        ms(150),
        &mut clock,
    );
    assert_eq!((leg.started, clock.opened), (ms(100), Some(ms(100))));
    let carried = retarget_leg(IVec2::new(4, 4), IVec2::new(20, 4), ms(140), ms(150), ms(40));
    assert_eq!((carried.start, carried.started), (IVec2::new(4, 4), ms(100)));
}

#[test]
fn orphaned_drives_settle_into_verifying() {
    let mut drives = vec![
        PositionDrive::animating(Origin::new(0, 0), Origin::new(1, 1), ms(0), ms(1)),
        PositionDrive::verifying(),
    ];
    settle_orphan_drives(&mut drives);
    assert!(matches!(drives[0].phase, DrivePhase::Verifying { remaining: 3 }));
    assert!(drives[1].is_verifying());
}

fn a() -> IRect {
    IRect::new(0, 0, 1024, 768)
}
fn b() -> IRect {
    IRect::new(1024, 0, 2944, 768)
}
fn at(x: i32, y: i32) -> Origin {
    Origin::new(x, y)
}

#[test]
fn same_display_slide_is_untouched() {
    assert_eq!(seam_snap_target(at(100, 100), at(600, 100), &vec![a(), b()]), None);
}

#[test]
fn cross_display_slide_jump_cuts() {
    let target = at(1100, 100);
    assert_eq!(seam_snap_target(at(900, 100), target, &vec![a(), b()]), Some(target));
}

#[test]
fn appearing_from_outside_snaps() {
    let target = at(100, 100);
    assert_eq!(seam_snap_target(at(-500, 100), target, &vec![a(), b()]), Some(target));
}

#[test]
fn disappearing_offscreen_snaps() {
    let target = at(-500, 100);
    assert_eq!(seam_snap_target(at(100, 100), target, &vec![a(), b()]), Some(target));
}

#[test]
fn gutter_to_gutter_is_untouched() {
    assert_eq!(seam_snap_target(at(-500, 100), at(-400, 100), &vec![a(), b()]), None);
}

#[test]
fn orchestrator_promotion_halves_the_active_pump_sleep() {
    assert_eq!(active_timeout_limit(true), LOOP_MAX_TIMEOUT_PROMOTION_MS);
    assert_eq!(active_timeout_limit(false), LOOP_MAX_TIMEOUT_FRAME_ACTIVE_MS);
    assert!(LOOP_MAX_TIMEOUT_PROMOTION_MS < LOOP_MAX_TIMEOUT_FRAME_ACTIVE_MS);
}

#[test]
fn sleep_ladder_prefers_vsync_then_active_then_idle() {
    let period = Some(ms(8));
    assert_eq!(pump_timeout_limit(FramePriority::UserDriven, false, period, false), 8);
    assert_eq!(
        pump_timeout_limit(FramePriority::UserDriven, false, None, false),
        LOOP_MAX_TIMEOUT_PROMOTION_MS
    );
    assert_eq!(
        pump_timeout_limit(FramePriority::Background, false, None, false),
        LOOP_MAX_TIMEOUT_FRAME_ACTIVE_MS
    );
    assert_eq!(
        pump_timeout_limit(FramePriority::Settle, false, None, true),
        LOOP_MAX_TIMEOUT_PROMOTION_MS
    );
    assert_eq!(
        pump_timeout_limit(FramePriority::Settle, false, None, false),
        LOOP_MAX_TIMEOUT_FRAME_ACTIVE_MS
    );
    assert_eq!(
        pump_timeout_limit(FramePriority::Idle, false, None, false),
        LOOP_MAX_TIMEOUT_MS
    );
    assert_eq!(
        pump_timeout_limit(FramePriority::Idle, true, None, false),
        LOOP_MAX_TIMEOUT_LOWPOWER_MS
    );
    assert_eq!(
        pump_timeout_limit(FramePriority::Idle, false, period, false),
        LOOP_MAX_TIMEOUT_MS
    );
}

#[test]
fn vsync_sleeps_truncate_to_the_period() {
    assert_eq!(vsync_timeout_ms(Duration { nanos: 16_666_667 }), 16);
    assert_eq!(vsync_timeout_ms(Duration { nanos: 400_000 }), 0);
}

#[test]
fn percentile_uses_nearest_rank() {
    let sorted = vec![ms(1), ms(2), ms(3), ms(4)];
    for (pct, want) in [(50, 2), (95, 4), (100, 4)] {
        let got = percentile(&sorted, pct);
        assert_eq!(got, ms(want), "p{pct}");
    }
    assert_eq!(percentile(&Vec::new(), 50), Duration::zero());
}

#[test]
fn samples_sort_and_medians_clear() {
    let mut samples = vec![ms(5), ms(1), ms(3), ms(3)];
    assert_eq!(sort_samples(&samples), vec![ms(1), ms(3), ms(3), ms(5)]);
    assert_eq!(stage_median(&mut samples), ms(3));
    assert!(samples.is_empty());
}

#[test]
fn classification_orders_user_driven_over_settle_over_idle() {
    assert_eq!(classify_frame(true, false, false, false, false), FramePriority::UserDriven);
    assert_eq!(classify_frame(false, true, false, false, false), FramePriority::UserDriven);
    assert_eq!(classify_frame(false, false, true, false, false), FramePriority::UserDriven);
    assert_eq!(classify_frame(false, false, false, true, false), FramePriority::Settle);
    assert_eq!(classify_frame(false, false, false, false, true), FramePriority::Background);
    assert_eq!(classify_frame(false, false, false, false, false), FramePriority::Idle);
}

#[test]
fn a_full_window_of_frames_gives_one_summary() {
    let mut perf = PerfStats::default();
    let mut orchestrator = FrameOrchestrator::default();
    let presence = FramePresence {
        held: false,
        scrolling: vec![false, true],
        motion: false,
        flash: false,
        warming: false,
    };
    let mut summaries = Vec::new();
    for frame in 0..PERF_SAMPLE_WINDOW as u64 {
        let start = frame * 100;
        classify_frame_priority(&presence, ms(start), &mut orchestrator, &mut perf);
        mark_preupdate_end(&mut perf, ms(start + 1));
        mark_update_end(&mut perf, ms(start + 3));
        let end = if frame == 7 { start + 40 } else { start + 6 };
        if let Some(summary) = log_frame_stats(&mut perf, orchestrator.priority, ms(end)) {
            summaries.push(summary);
        }
    }
    assert_eq!(orchestrator.priority, FramePriority::UserDriven);
    assert_eq!(summaries.len(), 1);
    let summary = summaries[0];
    assert_eq!((summary.p50, summary.p95, summary.max), (ms(6), ms(6), ms(40)));
    assert_eq!((summary.pre, summary.update, summary.post), (ms(1), ms(2), ms(3)));
    assert!(perf.samples.is_empty());
}

#[test]
fn dead_workers_restart_once() {
    let mut state = AxWriteState::default();
    let epoch = state.begin_frame();
    state.issue(1, epoch);
    let mut supervisor =
        ThreadSupervisor { ax_writer: Worker::Finished, snapshot: Worker::Running };
    assert_eq!(
        supervise_threads(&mut supervisor, true, &mut state),
        Restarts { ax_writer: true, snapshot: false }
    );
    assert!(!state.unacked(1), "nothing waits for a worker that is gone");
    assert_eq!(
        supervise_threads(&mut supervisor, true, &mut state),
        Restarts { ax_writer: false, snapshot: false }
    );
}

use paneru::ax_writer::AxWriteState;
use paneru::commands::{Command, MouseMove};
use paneru::ecs::layout::LayoutStrip;
use paneru::ecs::orchestrator::{
    LOOP_MAX_TIMEOUT_FRAME_ACTIVE_MS, LOOP_MAX_TIMEOUT_MS, LOOP_MAX_TIMEOUT_PROMOTION_MS,
};
use paneru::ecs::params::{Placement, StripEntry, WindowRecord, Windows};
use paneru::ecs::schedule::{
    frame_gates, not_swiping, plan_watch, rewatch_configs, snapshot_advanced, ConfigFile,
    FrameChanges, ScheduleFacts, SetupError,
};
use paneru::ecs::sync::{ResizeJitter, SyncCounters, Tally, WindowSync};
use paneru::ecs::systems::exit::cleanup_on_exit;
use paneru::ecs::systems::flash::update_flash_messages;
use paneru::ecs::systems::frames::{
    record_frame_time, report_frame_stats, retry_front_switch, timeout_ticker,
    watch_snapshot_worker, FrameClock, FrameStats, FrontApplication, FrontSwitch,
};
use paneru::ecs::systems::landing::{
    adoption_distrusted, begin_verify, plan_move_echo, plan_resize_echo, settle_move_echo,
    settle_resize_echo, verify_source, verify_window_position, window_moved_update_frame,
    window_resized_update_frame, MoveFacts, MovePlan, MovedWindow, PaintRefresh, ReadSource,
    ResizeFacts, ResizeOutcome, ResizedWindow, Verdict, VerifyFacts, VerifyStep,
    VERIFY_SYNC_READS_PER_TICK,
};
use paneru::ecs::systems::overlay::{
    abs_cg_rect, border_frame_for, clamp_lead_to_os, drive_trust, gate_overlays,
    overlay_tracks_live, update_overlays, BorderWindow, DriveTrust, OverlayFacts, OverlayGate,
    OverlayScene, OverlayStep, PressHitCache, ScreenRect,
};
use paneru::ecs::systems::pointer::{CoalescedPointer, Folded, PumpEvent};
use paneru::ecs::systems::pump::{
    active_timeout_limit, pump_may_take, pump_timeout_limit, sweep_input_tap,
    vsync_lead_timeout_ms, vsync_timeout_ms, PumpPass, PumpStep, Received, TapSweep,
    PUMP_MAX_EVENTS,
};
use paneru::ecs::systems::startup::{
    add_existing_application, add_existing_process, add_launched_application,
    add_launched_process, gather_displays, gather_initial_processes, give_first_focus,
    initialise_workspaces, is_startup_floating, plan_config, setup_ready, sort_strip_by_live_x,
    ConfigPlan, InitialEvent, InitialProcess, KnownStrip, LaunchBackoff, LaunchStep,
    LaunchedApplication, LaunchedProcess, PresentDisplay, SetupFacts,
};
use paneru::ecs::systems::tabs::{
    auto_discover_unmanaged_focused_windows, detect_tabbed_window, discovery_order,
    find_tab_leader, AppWindows, TabCandidate, UnmanageableCache,
};
use paneru::ecs::systems::warmup::{
    park_cold_commands, snapshot_primed, tick_cold_start, warmup_ready, ParkedCommands,
    SnapshotFacts, WarmupStatus, WarmupTick, PARKED_COMMAND_CAP,
};
use paneru::ecs::{
    ColdStart, PendingValidations, PositionDrive, Request, Requests, Timeout, Unmanaged, UserFocus,
};
use paneru::geometry::{Entity, IRect, Origin, Size};
use paneru::ax_reads::ReadPoll;
use paneru::time::Duration;

fn ms(millis: u64) -> Duration {
    Duration::from_millis(millis)
}

#[test]
fn lua_config_reaches_the_handle_the_event_tap_holds() {
    // A scripted configuration is there before the file is read: it goes into
    // the handle that arrived with the file, which the event tap keeps.
    let lua: usize = 0;
    let tap: usize = 1;
    let mut fingers: Vec<Option<usize>> = vec![Some(3), None];
    assert_eq!(fingers[tap], None);
    let events = vec![InitialEvent::InitialConfig { handle: tap }, InitialEvent::ProcessesLoaded];
    let state = gather_initial_processes(&events, Some(lua), &mut fingers);
    assert_eq!(fingers[tap], Some(3));
    assert_eq!((state.effective, state.installed), (Some(lua), Some(tap)));
    assert_eq!(plan_config(true, true), ConfigPlan::Publish);
    assert_eq!(plan_config(false, true), ConfigPlan::Install);
    assert_eq!(plan_config(true, false), ConfigPlan::Keep);
}

#[test]
fn vsync_backstop_rounds_to_the_retrace() {
    assert_eq!(
        vsync_timeout_ms(Duration { nanos: 16_666_667 }),
        17,
        "60Hz backstop sits on the retrace"
    );
    assert_eq!(
        vsync_timeout_ms(Duration { nanos: 8_333_333 }),
        8,
        "120Hz backstop sits on the retrace"
    );
}

#[test]
fn phased_sleep_prefers_lead_then_period_then_ladder() {
    let period_60 = Duration { nanos: 16_666_667 };
    assert_eq!(
        pump_timeout_limit(true, false, Some(Duration::from_micros(8300)), Some(period_60), false),
        9,
        "mid-cycle lead sleeps to the mark, not the full period"
    );
    assert_eq!(
        pump_timeout_limit(true, false, Some(Duration::zero()), Some(period_60), false),
        0,
        "retrace-now polls instead of sleeping a period"
    );
    assert_eq!(pump_timeout_limit(true, false, None, Some(period_60), false), 17);
    assert_eq!(
        pump_timeout_limit(true, false, None, None, false),
        LOOP_MAX_TIMEOUT_FRAME_ACTIVE_MS
    );
    assert_eq!(
        vsync_lead_timeout_ms(Duration { nanos: 16_666_667 }),
        17,
        "lead backstop ceils onto the retrace"
    );
}

#[test]
fn untracked_drag_session_is_distrusted() {
    assert!(adoption_distrusted(false, false, false, true));
}

#[test]
fn tracked_or_idle_echoes_still_adopt() {
    assert!(!adoption_distrusted(false, true, false, true));
    assert!(!adoption_distrusted(false, false, true, true));
    assert!(!adoption_distrusted(true, false, false, true));
    assert!(!adoption_distrusted(false, false, false, false));
}

#[test]
fn overlay_reads_live_while_moving_or_settling() {
    assert!(overlay_tracks_live(true, false, false));
    assert!(overlay_tracks_live(false, true, false));
    assert!(overlay_tracks_live(false, false, true));
    assert!(!overlay_tracks_live(false, false, false));
}

#[test]
fn drive_trust_follows_motion_ownership() {
    assert_eq!(drive_trust(true, false), DriveTrust::Full);
    assert_eq!(drive_trust(false, true), DriveTrust::Full);
    assert_eq!(drive_trust(true, true), DriveTrust::Full);
    assert_eq!(drive_trust(false, false), DriveTrust::Clamped);
}

#[test]
fn systems_promotion_halves_the_active_pump_sleep() {
    assert_eq!(active_timeout_limit(true), LOOP_MAX_TIMEOUT_PROMOTION_MS);
    assert_eq!(active_timeout_limit(false), LOOP_MAX_TIMEOUT_FRAME_ACTIVE_MS);
    assert!(LOOP_MAX_TIMEOUT_PROMOTION_MS < LOOP_MAX_TIMEOUT_FRAME_ACTIVE_MS);
}

#[test]
fn warmup_ready_needs_every_gate() {
    let ready = WarmupStatus {
        init_done: true,
        snapshot_primed: true,
        settled: true,
        restore_done: true,
    };
    assert!(warmup_ready(&ready));
    assert!(!warmup_ready(&WarmupStatus::default()));
    let mut partial = WarmupStatus {
        init_done: true,
        snapshot_primed: true,
        settled: true,
        restore_done: true,
    };
    partial.init_done = false;
    assert!(!warmup_ready(&partial));
    partial.init_done = true;
    partial.snapshot_primed = false;
    assert!(!warmup_ready(&partial));
    partial.snapshot_primed = true;
    partial.settled = false;
    assert!(!warmup_ready(&partial));
    partial.settled = true;
    partial.restore_done = false;
    assert!(!warmup_ready(&partial));
}

#[test]
fn parked_commands_preserve_order_and_cap() {
    let mut parked = ParkedCommands::default();
    for _ in 0..(PARKED_COMMAND_CAP + 5) {
        parked.park(Command::PrintState);
    }
    let drained = parked.drain();
    assert_eq!(
        drained.len(),
        PARKED_COMMAND_CAP,
        "bounded: oldest overflow drops, never grows"
    );
    assert!(
        parked.drain().is_empty(),
        "drain empties the buffer for the next warmup"
    );
}

#[test]
fn parked_commands_come_back_in_their_order() {
    let mut parked = ParkedCommands::default();
    for _ in 0..PARKED_COMMAND_CAP {
        parked.park(Command::Restart);
    }
    parked.park(Command::Quit);
    parked.park(Command::Mouse(MouseMove::ToNextDisplay));
    let drained = parked.drain();
    assert_eq!(drained[PARKED_COMMAND_CAP - 3], Command::Restart);
    assert_eq!(drained[PARKED_COMMAND_CAP - 2], Command::Quit);
    assert_eq!(drained[PARKED_COMMAND_CAP - 1], Command::Mouse(MouseMove::ToNextDisplay));
}

#[test]
fn a_cold_start_replays_once_it_is_warm_or_late() {
    let warm = WarmupStatus {
        init_done: true,
        snapshot_primed: true,
        settled: true,
        restore_done: true,
    };
    let cold = ColdStart::new(ms(0));
    let mut parked = ParkedCommands::default();
    park_cold_commands(true, true, &vec![Command::Quit], &mut parked);
    park_cold_commands(false, false, &vec![Command::Restart], &mut parked);
    let waiting = tick_cold_start(Some(cold), &WarmupStatus::default(), ms(10), &mut parked);
    assert!(matches!(waiting, WarmupTick::Nothing));
    match tick_cold_start(Some(cold), &warm, ms(20), &mut parked) {
        WarmupTick::Over { late, replay } => {
            assert!(!late);
            assert_eq!(replay, vec![Command::Quit]);
        }
        WarmupTick::Nothing => panic!("every gate is open"),
    }
    match tick_cold_start(Some(cold), &WarmupStatus::default(), ms(8000), &mut parked) {
        WarmupTick::Over { late, replay } => assert!(late && replay.is_empty()),
        WarmupTick::Nothing => panic!("the deadline ends the warmup"),
    }
}

#[test]
fn a_snapshot_primes_when_every_window_is_fresh() {
    assert!(!snapshot_primed(&Some(SnapshotFacts { epoch: 0, fresh: vec![true] })));
    assert!(snapshot_primed(&Some(SnapshotFacts { epoch: 1, fresh: vec![true, true] })));
}

fn bits(delta: f64) -> u64 {
    delta.to_bits()
}

fn total(parts: &[u64]) -> f64 {
    parts.iter().map(|part| f64::from_bits(*part)).sum()
}

fn drag_point(event: &Folded) -> Option<f64> {
    match event {
        Folded::Dragged(point) => Some(f64::from_bits(*point)),
        _ => None,
    }
}

fn dragged(x: f64) -> PumpEvent {
    PumpEvent::Dragged(bits(x))
}

#[test]
fn pointer_coalescing_folds_drag_bursts_to_newest() {
    let mut coalesced = CoalescedPointer::default();
    let mut events = Vec::new();
    coalesced.push(&mut events, dragged(0.0));
    coalesced.push(&mut events, dragged(10.0));
    coalesced.push(&mut events, dragged(20.0));
    assert!(events.is_empty(), "motion waits a step for supersession");
    coalesced.flush(&mut events);
    assert_eq!(events.len(), 1);
    assert_eq!(drag_point(&events[0]), Some(20.0));
}

#[test]
fn pointer_coalescing_keeps_gesture_boundaries_ordered() {
    let down = PumpEvent::Other(1);
    let up = PumpEvent::Other(2);
    let mut coalesced = CoalescedPointer::default();
    let mut events = Vec::new();
    coalesced.push(&mut events, down);
    coalesced.push(&mut events, dragged(5.0));
    coalesced.push(&mut events, dragged(15.0));
    assert_eq!(events.len(), 1);
    coalesced.push(&mut events, up);
    assert_eq!(events.len(), 3);
    assert_eq!(drag_point(&events[1]), Some(15.0));
    assert!(matches!(events[2], Folded::Other(2)));
}

#[test]
fn pointer_coalescing_sums_relative_gesture_runs() {
    let mut coalesced = CoalescedPointer::default();
    let mut events = Vec::new();
    coalesced.push(&mut events, PumpEvent::Scroll(bits(0.1)));
    coalesced.push(&mut events, PumpEvent::Scroll(bits(0.2)));
    coalesced.push(&mut events, PumpEvent::Scroll(bits(-0.05)));
    assert!(events.is_empty(), "relative runs fold like absolute ones");
    coalesced.flush(&mut events);
    assert_eq!(events.len(), 1);
    match &events[0] {
        Folded::Scroll(parts) => assert!(
            (total(parts) - 0.25).abs() < 1e-9,
            "total travel is exact, only slicing is lost"
        ),
        _ => panic!("folded scroll"),
    }
}

#[test]
fn pointer_coalescing_splits_swipe_finger_counts() {
    let swipe = |delta: f64, fingers: usize| PumpEvent::Swipe { delta: bits(delta), fingers };
    let mut coalesced = CoalescedPointer::default();
    let mut events = Vec::new();
    coalesced.push(&mut events, swipe(0.1, 3));
    coalesced.push(&mut events, swipe(0.2, 3));
    coalesced.push(&mut events, swipe(0.5, 4));
    assert_eq!(events.len(), 1);
    match &events[0] {
        Folded::Swipe { parts, fingers } => {
            assert_eq!(*fingers, 3);
            assert!((total(parts) - 0.3).abs() < 1e-9);
        }
        _ => panic!("expected the flushed three-finger run"),
    }
    coalesced.flush(&mut events);
    assert_eq!(events.len(), 2);
    match &events[1] {
        Folded::Swipe { parts, fingers } => {
            assert_eq!(*fingers, 4);
            assert!((total(parts) - 0.5).abs() < 1e-9);
        }
        _ => panic!("expected the four-finger run"),
    }
}

#[test]
fn border_lead_clamps_to_os_truth() {
    let os = IRect::new(0, 20, 400, 768);
    let near = IRect::new(10, 20, 410, 768);
    assert_eq!(clamp_lead_to_os(near, os), near);
    let far = IRect::new(100, 20, 500, 768);
    assert_eq!(clamp_lead_to_os(far, os), IRect::new(24, 20, 424, 768));
    assert_eq!(clamp_lead_to_os(os, far), IRect::new(76, 20, 476, 768));
    assert_eq!(clamp_lead_to_os(os, os), os);
}

fn border_window() -> BorderWindow {
    BorderWindow {
        entity: 1,
        id: 10,
        managed: true,
        full_screen: false,
        on_screen: true,
        app_known: true,
        size: Some(Size::new(400, 700)),
        layout: Some(IRect::new(100, 20, 500, 720)),
        recorded: None,
        cached: IRect::new(0, 20, 400, 720),
        h_pad: 0,
        v_pad: 0,
        flight: None,
        holder_driven: false,
    }
}

#[test]
fn borders_follow_the_layout_only_while_it_moves() {
    let window = border_window();
    assert_eq!(border_frame_for(&window, false, false, None), window.cached);
    let painted = IRect::new(7, 7, 8, 8);
    assert_eq!(border_frame_for(&window, false, true, Some(painted)), painted);
    assert_eq!(
        border_frame_for(&window, true, false, None),
        IRect::new(24, 20, 424, 720),
        "an unconfirmed slot leads by the clamp at most"
    );
    let driven = BorderWindow { holder_driven: true, ..window };
    assert_eq!(border_frame_for(&driven, true, false, None), IRect::new(100, 20, 500, 720));
    let rect = abs_cg_rect(IRect::new(10, 20, 110, 70), 1, 2);
    assert_eq!(rect, ScreenRect { x: 11, y: 22, width: 98, height: 46 });
}

#[test]
fn overlays_hide_where_no_border_belongs() {
    let facts = OverlayFacts {
        has_workspace: true,
        mission_control: false,
        fullscreen: false,
        dims: true,
        borders: true,
        holder_held: false,
        driven_held: false,
        button_held: false,
        focused: 1,
        focused_full_screen: false,
        focused_owned: true,
        focused_visible: true,
    };
    assert_eq!(gate_overlays(&facts), OverlayGate::Draw);
    let mission = OverlayFacts { mission_control: true, ..facts };
    assert_eq!(gate_overlays(&mission), OverlayGate::HideAll);
    let off = OverlayFacts { dims: false, borders: false, ..facts };
    assert_eq!(gate_overlays(&off), OverlayGate::RemoveAll);
    let scene = OverlayScene {
        windows: vec![],
        displays: vec![IRect::new(0, 0, 1000, 800)],
        focused: border_window(),
        owner: Some(IRect::new(0, 0, 1000, 800)),
        swiping: false,
        holder_held: false,
        settling: false,
        borders: true,
        inactive_borders: false,
    };
    match update_overlays(&facts, Some(&scene)) {
        OverlayStep::Draw(picture) => {
            let rect = ScreenRect { x: 0, y: 20, width: 400, height: 700 };
            assert_eq!(picture.focused, rect);
            assert_eq!(picture.active.map(|spot| (spot.window, spot.rect)), Some((10, rect)));
            assert!(picture.inactive.is_empty());
        }
        other => panic!("{other:?}"),
    }
    assert!(matches!(update_overlays(&mission, Some(&scene)), OverlayStep::HideAll));
    let full = OverlayFacts { fullscreen: true, ..facts };
    assert!(matches!(update_overlays(&full, Some(&scene)), OverlayStep::HideAll));
    assert!(matches!(update_overlays(&full, None), OverlayStep::HideAll));
    assert!(matches!(update_overlays(&off, None), OverlayStep::RemoveAll));
    let pressed = OverlayFacts { button_held: true, ..facts };
    assert!(matches!(update_overlays(&pressed, None), OverlayStep::Leave));
    let held = OverlayFacts { holder_held: true, ..facts };
    assert!(matches!(update_overlays(&held, None), OverlayStep::HideBorders));
    let gone = BorderWindow { app_known: false, ..border_window() };
    let orphaned = OverlayScene { focused: gone, ..scene };
    assert!(matches!(update_overlays(&facts, Some(&orphaned)), OverlayStep::HideAll));
}

#[test]
fn press_hits_are_looked_up_ten_times_a_second() {
    let mut cache = PressHitCache { at: None, hit: false };
    assert!(cache.stale(ms(0)));
    assert!(cache.press_hit_cached(true, ms(0)));
    assert!(!cache.stale(ms(99)) && cache.stale(ms(100)));
}

#[test]
fn pumps_take_until_the_budget_or_the_count() {
    assert!(!pump_may_take(0, ms(9), ms(1)));
    assert!(pump_may_take(5, ms(1), ms(4)));
    assert!(!pump_may_take(5, ms(4), ms(4)));
    assert!(!pump_may_take(PUMP_MAX_EVENTS, ms(1), ms(4)));
}

#[test]
fn quiet_pumps_sleep_longer_and_events_wake_them() {
    let mut pass = PumpPass::begin(4);
    assert_eq!(pass.receive(Received::Quiet), PumpStep::Drained);
    assert_eq!(pass.pump_events(true, LOOP_MAX_TIMEOUT_MS), 5);
    let mut pass = PumpPass::begin(40);
    let woke = Received::Event { woke: true, display_changed: true };
    assert_eq!(pass.receive(woke), PumpStep::More);
    assert!(pass.promotion_due(Some(ms(0)), ms(1)), "displays changed");
    assert_eq!(pass.receive(Received::Exit), PumpStep::Exit);
}

#[test]
fn the_input_tap_is_swept() {
    let mut last = None;
    assert_eq!(sweep_input_tap(true, false, &mut last, ms(0)), TapSweep::Rebuild);
    let mut last = Some(ms(0));
    assert_eq!(sweep_input_tap(false, false, &mut last, ms(1000)), TapSweep::Nothing);
    assert_eq!(sweep_input_tap(false, false, &mut last, ms(30_000)), TapSweep::Check);
    assert_eq!(last, Some(ms(30_000)));
}

fn move_facts() -> MoveFacts {
    MoveFacts {
        unmanaged: None,
        held: false,
        armed: false,
        repositioning: false,
        verifying: false,
        unacked: false,
        button_held: false,
        state: WindowSync::Synced,
    }
}

#[test]
fn move_echoes_adopt_push_back_or_drop() {
    assert_eq!(plan_move_echo(&move_facts(), ms(0)), MovePlan::Adopt);
    let hidden = MoveFacts { unmanaged: Some(Unmanaged::Hidden), ..move_facts() };
    assert_eq!(
        plan_move_echo(&hidden, ms(0)),
        MovePlan::Drop { tally: Some(Tally::MoveMinimized) }
    );
    let held = MoveFacts { held: true, ..move_facts() };
    assert_eq!(plan_move_echo(&held, ms(0)), MovePlan::HoldNative);
    let untracked = MoveFacts { button_held: true, ..move_facts() };
    assert_eq!(plan_move_echo(&untracked, ms(0)), MovePlan::RejectUntracked);
    let late = MoveFacts { state: WindowSync::homing(ms(100)), ..move_facts() };
    assert_eq!(plan_move_echo(&late, ms(50)), MovePlan::RejectLate);
    assert_eq!(plan_move_echo(&late, ms(100)), MovePlan::Adopt);
}

#[test]
fn adopted_moves_take_the_frame_that_was_read() {
    let size = Size::new(400, 300);
    let slot = Origin::new(10, 20);
    let read = IRect::new(50, 60, 450, 360);
    let adopted =
        settle_move_echo(MovePlan::Adopt, Some(read), slot, size, WindowSync::Synced, ms(0));
    assert_eq!(adopted.position, Some(read.min));
    assert_eq!(adopted.tally, Some(Tally::MoveAdopt));
    let rejected = settle_move_echo(
        MovePlan::RejectUntracked,
        Some(read),
        slot,
        size,
        WindowSync::Synced,
        ms(0),
    );
    assert_eq!((rejected.position, rejected.push), (None, true));
    let homing = WindowSync::homing(ms(100));
    let dropped = MovePlan::Drop { tally: None };
    let early = settle_move_echo(dropped, None, slot, size, homing, ms(99));
    assert_eq!(early.state, None);
    let late = settle_move_echo(dropped, None, slot, size, homing, ms(100));
    assert_eq!(late.state, Some(WindowSync::Synced), "the way home is over");
}

#[test]
fn every_move_echo_is_counted() {
    let window = MovedWindow {
        facts: move_facts(),
        position: Origin::new(10, 20),
        size: Size::new(400, 300),
    };
    let mut counters = SyncCounters::default();
    let unknown = window_moved_update_frame(None, None, ms(0), &mut counters);
    assert_eq!((unknown.position, unknown.push, unknown.tally), (None, false, None));
    assert_eq!((counters.move_echo_total, counters.move_adopt), (1, 0));
    let near = IRect::new(11, 21, 411, 321);
    let breathing = window_moved_update_frame(Some(window), Some(near), ms(0), &mut counters);
    assert_eq!(breathing.position, None);
    assert_eq!((counters.move_echo_total, counters.move_adopt), (2, 0));
    let away = IRect::new(12, 20, 412, 320);
    let moved = window_moved_update_frame(Some(window), Some(away), ms(0), &mut counters);
    assert_eq!(moved.position, Some(away.min));
    assert_eq!((counters.move_echo_total, counters.move_adopt), (3, 1));
    let busy = MoveFacts { repositioning: true, ..move_facts() };
    let own = MovedWindow { facts: busy, ..window };
    let ignored = window_moved_update_frame(Some(own), Some(away), ms(0), &mut counters);
    assert_eq!(ignored.position, None);
    assert_eq!((counters.move_echo_total, counters.move_ignore_reposition), (4, 1));
}

#[test]
fn resize_echoes_adopt_size_or_hold_the_tile() {
    let facts = ResizeFacts {
        unmanaged: None,
        armed: false,
        resizing: false,
        state: WindowSync::Synced,
    };
    assert_eq!(plan_resize_echo(&facts), Ok(()));
    let resizing = ResizeFacts { resizing: true, ..facts };
    assert_eq!(plan_resize_echo(&resizing), Err(Some(Tally::ResizeResizing)));
    let mut jitter = ResizeJitter::default();
    let old = IRect::new(0, 0, 400, 300);
    let outcome = |new: IRect, jitter: &mut ResizeJitter, at: u64| {
        settle_resize_echo(&facts, old, new, false, false, ms(at), jitter)
    };
    assert_eq!(outcome(old, &mut jitter, 0), ResizeOutcome::Same);
    for at in 0..5 {
        assert!(matches!(
            outcome(IRect::new(0, 0, 402, 300), &mut jitter, at),
            ResizeOutcome::Adopt { .. }
        ));
    }
    assert_eq!(outcome(IRect::new(0, 0, 402, 300), &mut jitter, 6), ResizeOutcome::Damped);
    assert!(matches!(
        outcome(IRect::new(0, 0, 500, 300), &mut jitter, 7),
        ResizeOutcome::Adopt { size: Size { x: 500, y: 300 }, .. }
    ));
    let window = ResizedWindow { facts, frame: old, tabbed: false };
    let mut counters = SyncCounters::default();
    let mut echo = |window: Option<ResizedWindow>, read: Option<IRect>, at: u64| {
        window_resized_update_frame(window, read, false, ms(at), &mut jitter, &mut counters)
    };
    assert_eq!(echo(None, None, 8), None);
    assert_eq!(echo(Some(window), None, 9), None);
    assert_eq!(echo(Some(ResizedWindow { facts: resizing, ..window }), Some(old), 10), None);
    assert_eq!(echo(Some(window), Some(old), 11), Some(ResizeOutcome::Same));
    let wider = Some(IRect::new(0, 0, 500, 300));
    assert!(matches!(echo(Some(window), wider, 12), Some(ResizeOutcome::Adopt { .. })));
    assert_eq!(counters.resize_echo_total, 5);
    assert_eq!((counters.resize_adopt, counters.resize_ignore_resizing), (1, 1));
}

#[test]
fn held_windows_repaint_at_a_limited_rate() {
    let mut refresh = PaintRefresh::new();
    assert!(refresh.due(1, ms(0)));
    assert!(!refresh.due(1, ms(49)));
    assert!(refresh.due(1, ms(50)));
    refresh.release(false);
    assert!(refresh.due(1, ms(51)));
}

#[test]
fn verification_repairs_until_its_tries_are_spent() {
    let place = Origin::new(5, 5);
    let mut drive = PositionDrive::verifying();
    let mut counters = SyncCounters::default();
    let mut state = AxWriteState::default();
    let mut verify = |at: Option<Origin>, degraded: bool| {
        verify_window_position(7, at, place, degraded, &mut drive, &mut state, &mut counters)
    };
    assert_eq!(verify(Some(place), true), Verdict::Confirmed);
    let away = Some(Origin::new(50, 5));
    assert_eq!(verify(away, false), Verdict::Repair { spent: false });
    assert_eq!(verify(away, true), Verdict::Repair { spent: false });
    assert_eq!(verify(away, false), Verdict::Repair { spent: true });
    assert_eq!(verify(None, true), Verdict::Unreadable);
    assert_eq!(counters.writer_degraded_repairs, 1);
    assert_eq!(counters.push_sent, 3, "every repair is a push");
    assert!(state.already_sent(7, place));
}

#[test]
fn verification_waits_for_writes_and_reads_sparingly() {
    let facts = VerifyFacts {
        drive: PositionDrive::verifying(),
        repositioning: false,
        is_window: true,
        focused: true,
        unacked: true,
        queue_active: true,
        snapshot: None,
        position: Origin::new(0, 0),
    };
    assert_eq!(begin_verify(&facts, false), VerifyStep::Wait);
    let landed = VerifyFacts { unacked: false, ..facts };
    assert_eq!(begin_verify(&landed, false), VerifyStep::Done, "the write landed");
    let drifted = VerifyFacts { snapshot: Some(Origin::new(9, 0)), ..landed };
    assert_eq!(
        begin_verify(&drifted, false),
        VerifyStep::Compare { at: Origin::new(9, 0) }
    );
    let unqueued = VerifyFacts { queue_active: false, ..landed };
    assert_eq!(begin_verify(&unqueued, false), VerifyStep::Read);
    let gone = VerifyFacts { is_window: false, ..landed };
    assert_eq!(begin_verify(&gone, false), VerifyStep::Done);
    let frame = IRect::new(0, 0, 1, 1);
    let mut reads = 0;
    assert_eq!(
        verify_source(Some(ReadPoll::Ready(frame)), &mut reads),
        ReadSource::Frame { frame }
    );
    assert_eq!(verify_source(Some(ReadPoll::Pending), &mut reads), ReadSource::Later);
    for _ in 0..VERIFY_SYNC_READS_PER_TICK {
        assert_eq!(verify_source(None, &mut reads), ReadSource::Direct);
    }
    assert_eq!(verify_source(None, &mut reads), ReadSource::Later);
}

#[test]
fn frame_times_over_budget_are_counted() {
    let mut clock = FrameClock(None);
    let mut stats = FrameStats::default();
    for (start, end) in [(0, 10), (10, 40), (40, 48)] {
        clock.0 = Some(ms(start));
        record_frame_time(&mut clock, &mut stats, ms(end));
    }
    record_frame_time(&mut clock, &mut stats, ms(900));
    let report = report_frame_stats(&mut stats).expect("three frames were timed");
    assert_eq!((report.frames, report.over_budget, report.max), (3, 1, ms(30)));
    assert_eq!(report.p50, ms(10));
    assert_eq!(report_frame_stats(&mut stats), None);
}

#[test]
fn a_silent_snapshot_worker_is_noticed() {
    assert!(!watch_snapshot_worker(None, ms(9000)), "nothing is awaited without a store");
    assert!(!watch_snapshot_worker(Some(ms(0)), ms(4999)));
    assert!(watch_snapshot_worker(Some(ms(0)), ms(5000)));
}

#[test]
fn timers_expire_once() {
    let mut timers = vec![(1, Timeout::new(ms(100))), (2, Timeout::new(ms(300)))];
    assert!(timeout_ticker(&mut timers, ms(50)).is_empty());
    assert!(timeout_ticker(&mut timers, ms(50)).is_empty());
    assert_eq!(timeout_ticker(&mut timers, ms(50)), vec![1], "it goes a tick after it ran out");
}

#[test]
fn the_newest_flash_message_shows() {
    let mut old = Timeout::new(ms(1000));
    old.tick(ms(900));
    let fresh = Timeout::new(ms(1000));
    let (shown, replaced) = update_flash_messages(&vec![(1, old), (2, fresh)]);
    assert_eq!(shown, Some(1));
    assert_eq!(replaced, vec![1]);
    assert_eq!(update_flash_messages(&vec![]), (None, vec![]));
}

#[test]
fn front_switches_retry_until_focus_is_known() {
    assert!(matches!(retry_front_switch(None), FrontSwitch::Drop));
    let waiting = FrontApplication { frontmost: true, focused: None };
    assert!(matches!(retry_front_switch(Some(waiting)), FrontSwitch::Keep));
    let known = FrontApplication { frontmost: true, focused: Some(7) };
    assert!(matches!(retry_front_switch(Some(known)), FrontSwitch::Deliver { .. }));
}

#[test]
fn windows_come_back_into_view_on_exit() {
    let displays = vec![IRect::new(0, 0, 1000, 800)];
    assert_eq!(cleanup_on_exit(IRect::new(100, 100, 500, 500), &Vec::new()), None);
    let centred = cleanup_on_exit(IRect::new(100, 100, 500, 500), &displays).expect("a display");
    assert_eq!((centred.size, centred.origin), (None, Origin::new(300, 200)));
    let huge = cleanup_on_exit(IRect::new(0, 0, 1100, 500), &displays).expect("a display");
    assert_eq!(huge.size, Some(Size::new(900, 500)));
    let stranded = IRect::new(5000, 100, 5400, 500);
    let place = cleanup_on_exit(stranded, &displays).expect("off every display");
    let frame = IRect::from_frame(place.origin, place.size.unwrap_or(stranded.size()));
    assert_eq!(frame.intersect(displays[0]), frame);
}

#[test]
fn validations_are_tried_again_and_dropped() {
    let mut pending = PendingValidations::default();
    pending.queue(7, ms(0));
    pending.queue(8, ms(0));
    assert!(pending.retry_pending_validations(&vec![true, true], ms(0)).is_empty(), "not yet due");
    assert_eq!(pending.retry_pending_validations(&vec![true, false], ms(60_000)), vec![7]);
    assert_eq!(pending.queue.len(), 1);
    for minute in 2..6 {
        let valid = vec![false; pending.queue.len()];
        assert!(pending.retry_pending_validations(&valid, ms(60_000 * minute)).is_empty());
    }
    assert!(pending.queue.is_empty(), "the tries run out");
}

#[test]
fn launch_polls_slow_down_and_restart_for_new_launches() {
    let mut backoff = LaunchBackoff { attempts: 0, last: None, last_count: 0 };
    assert!(backoff.launch_poll_due(1, ms(0)));
    assert!(!backoff.launch_poll_due(1, ms(199)));
    assert!(backoff.launch_poll_due(1, ms(200)));
    assert!(!backoff.launch_poll_due(1, ms(599)));
    assert!(backoff.launch_poll_due(2, ms(400)), "another launch is polled fast again");
    let mut at: u64 = 0;
    let mut fresh = LaunchBackoff::default();
    assert!(fresh.launch_poll_due(1, ms(at)));
    for pause in [200, 400, 800, 1600, 1600] {
        assert!(!fresh.launch_poll_due(1, ms(at + pause - 1)));
        at = at + pause;
        assert!(fresh.launch_poll_due(1, ms(at)));
    }
}

#[test]
fn launches_are_looked_at_when_a_poll_is_due() {
    let mut backoff = LaunchBackoff::default();
    let process = |psn: u64, ready: bool, has_application: bool| LaunchedProcess {
        psn,
        ready,
        has_application,
    };
    let processes = vec![process(1, true, false), process(1, true, false), process(2, true, true)];
    assert_eq!(
        add_launched_process(&processes, &mut backoff, ms(0)),
        Some(vec![LaunchStep::Observe, LaunchStep::Skip, LaunchStep::Settle])
    );
    assert_eq!(add_launched_process(&processes, &mut backoff, ms(100)), None);
    let windows = Windows { all: vec![] };
    let apps = vec![
        LaunchedApplication { listed: vec![5, 6], has_windows: false },
        LaunchedApplication { listed: vec![], has_windows: true },
        LaunchedApplication { listed: vec![], has_windows: false },
    ];
    let mut polls = LaunchBackoff::default();
    let found = add_launched_application(&apps, &windows, &mut polls, ms(0)).expect("it is due");
    assert_eq!(found[0].spawn.as_ref().map(|spawn| spawn.0.clone()), Some(vec![5, 6]));
    let settled: Vec<bool> = found.iter().map(|taken| taken.settle).collect();
    assert_eq!(settled, vec![true, true, false]);
    assert!(add_launched_application(&apps, &windows, &mut polls, ms(100)).is_none());
}

#[test]
fn displays_and_workspaces_are_gathered() {
    let bounds = IRect::new(0, 0, 1000, 800);
    let displays = vec![
        PresentDisplay { id: 1, bounds, spaces: vec![10, 11] },
        PresentDisplay { id: 2, bounds: IRect::new(1000, 0, 2000, 800), spaces: vec![20] },
    ];
    let found = gather_displays(Some(2), Some(20), &displays);
    assert_eq!(found.len(), 2);
    assert!(!found[0].active && found[1].active);
    assert_eq!(found[1].strips, vec![(20, true)]);
    let known = vec![KnownStrip { id: 10, virtual_index: 0, display: 5, origin: Origin::new(0, 0) }];
    let fresh = initialise_workspaces(&known, 3);
    let rows: Vec<(u64, u32)> = fresh.iter().map(|strip| (strip.id, strip.virtual_index)).collect();
    assert_eq!(rows, vec![(10, 1), (10, 2)]);
}

#[test]
fn startup_waits_for_processes_and_displays() {
    let ready = SetupFacts { existing_left: false, has_displays: true, search_left: false };
    assert!(setup_ready(&ready));
    assert!(!setup_ready(&SetupFacts { existing_left: true, ..ready }));
    assert!(!setup_ready(&SetupFacts { has_displays: false, ..ready }));
    assert!(!setup_ready(&SetupFacts { search_left: true, ..ready }));
    assert!(is_startup_floating(true, true, false, true));
    assert!(!is_startup_floating(true, true, true, true), "a restored window keeps its tile");
}

#[test]
fn initial_processes_are_kept_when_observable_or_forced() {
    let process = |pid: i32, observable: bool, forced: bool| InitialProcess { pid, observable, forced };
    let launched = |process: InitialProcess| InitialEvent::Launched { process };
    let events = vec![
        launched(process(1, true, false)),
        InitialEvent::Stray,
        launched(process(2, false, false)),
        launched(process(3, false, true)),
        InitialEvent::Exit,
        launched(process(4, true, false)),
    ];
    let mut configs: Vec<u8> = Vec::new();
    let state = gather_initial_processes(&events, None, &mut configs);
    assert_eq!((state.effective, state.installed), (None, None));
    let kept = state.processes;
    assert_eq!(kept.iter().map(|row| row.0).collect::<Vec<usize>>(), vec![2, 0]);
    assert_eq!(kept, vec![(2, true), (0, false)], "the last to come is the first to go");
}

fn record(entity: Entity, x: i32) -> WindowRecord {
    WindowRecord {
        entity,
        id: entity as i32 * 10,
        parent: 100,
        unmanaged: None,
        focused: false,
        full_width: false,
        placement: Some(Placement {
            layout: Origin::new(x, 0),
            position: Origin::new(x, 0),
            size: Size::new(100, 100),
            reposition: None,
            resize: None,
        }),
    }
}

fn entry(entity: Entity, windows: &[Entity], active: bool) -> StripEntry {
    let mut strip = LayoutStrip::new(entity, 0);
    for window in windows {
        strip.append(*window);
    }
    StripEntry {
        entity,
        strip,
        display: 60,
        position: Origin::new(0, 0),
        active,
        selected: true,
        native_fullscreen: false,
    }
}

#[test]
fn startup_strips_run_left_to_right() {
    let windows = Windows { all: vec![record(1, 300), record(2, 100), record(3, 200)] };
    let mut strip = entry(50, &[1, 2, 3], true).strip;
    sort_strip_by_live_x(&windows, &mut strip);
    assert_eq!(strip.all_windows(), vec![2, 3, 1]);
}

#[test]
fn the_leftmost_column_gets_the_first_focus() {
    let windows = Windows { all: vec![record(1, 0), record(2, 100)] };
    let strips = vec![entry(50, &[1, 2], true)];
    let mut user = UserFocus::default();
    let mut requests = Requests::new();
    give_first_focus(&windows, &strips, Some(20), ms(5), &mut user, &mut requests);
    assert_eq!(user, UserFocus { entity: Some(1), at: ms(5) });
    assert!(requests.list.contains(&Request::Focus { entity: 1, raise: true }));
    let floating = vec![entry(50, &[], true)];
    let mut requests = Requests::new();
    give_first_focus(&windows, &floating, Some(20), ms(6), &mut user, &mut requests);
    assert!(requests.list.contains(&Request::MarkFocused { entity: 2 }));
}

fn candidate(entity: Entity, on_screen: bool) -> TabCandidate {
    TabCandidate {
        entity,
        id: entity as i32 * 10,
        app: 100,
        position: Origin::new(10, 10),
        size: Size::new(400, 300),
        on_screen,
    }
}

#[test]
fn a_window_on_top_of_its_sibling_becomes_a_tab() {
    let display = IRect::new(0, 0, 1000, 800);
    let leader = candidate(1, false);
    let created = candidate(2, true);
    assert_eq!(find_tab_leader(&vec![leader], &created, display), Some(leader));
    let stranger = TabCandidate { app: 101, ..leader };
    assert_eq!(find_tab_leader(&vec![stranger], &created, display), None);
    let mut strips = vec![entry(50, &[1, 3], true)];
    let mut requests = Requests::new();
    detect_tabbed_window(&created, &vec![leader], display, true, &mut strips, &mut requests);
    assert_eq!(strips[0].strip.tab_group(1), Some(vec![1, 2]));
    assert_eq!(strips[0].strip.len(), 2);
}

#[test]
fn refused_windows_are_remembered() {
    let mut cache = UnmanageableCache::new();
    assert!(cache.wants(5, false) && !cache.wants(5, true));
    cache.note(5);
    assert!(!cache.wants(5, false));
    for id in 10..1010 {
        cache.note(id);
    }
    cache.tidy();
    assert!(cache.wants(5, false), "a full cache starts over");
    assert_eq!(discovery_order(&vec![false, true, false]), vec![1, 0, 2]);
}

#[test]
fn gates_open_by_phase() {
    let facts = ScheduleFacts {
        initializing: false,
        user_swiping: Some(false),
        native_tabs: Some(true),
        backstop_due: false,
        verify_due: true,
        window_added: true,
        window_closed: false,
    };
    let gates = frame_gates(&facts);
    assert!(!gates.setup && gates.commit && gates.verify);
    let starting = frame_gates(&ScheduleFacts { initializing: true, ..facts });
    assert!(starting.setup && !starting.commit && !starting.regroup_tabs);
    assert!(not_swiping(None) && !not_swiping(Some(true)));
}

#[test]
fn snapshots_advance_once_for_each_epoch() {
    let mut last = 3;
    assert!(!snapshot_advanced(Some(3), &mut last));
    assert!(snapshot_advanced(Some(4), &mut last));
    assert!(!snapshot_advanced(Some(4), &mut last));
    assert!(snapshot_advanced(None, &mut last), "the record is gone");
    assert!(!snapshot_advanced(None, &mut last));
}

fn no_changes() -> FrameChanges {
    FrameChanges {
        strip_changed: false,
        focus_gained: false,
        focus_lost: false,
        workspace_changed: false,
        focused_moved: false,
        strip_scrolled: false,
        drag_held: false,
        window_added: false,
        window_removed: false,
        window_moved: false,
        window_in_flight: false,
        drag_ended: false,
        mission_control_changed: false,
        displays_changed: false,
        snapshot_advanced: false,
        strip_added: false,
        strip_removed: false,
    }
}

#[test]
fn overlays_run_when_something_changed() {
    let quiet = no_changes();
    assert!(!quiet.overlays_run() && !quiet.menu_bar_runs() && !quiet.vw_indicator_dirty());
    let focus = FrameChanges { focus_gained: true, ..no_changes() };
    assert!(focus.overlays_run() && focus.vw_indicator_dirty());
}

#[test]
fn configuration_files_are_watched() {
    assert_eq!(plan_watch(false, false, false), Err(SetupError::NothingToWatch));
    let both = plan_watch(true, true, false).expect("two files");
    assert!(both.other.is_some());
    let same = plan_watch(true, true, true).expect("one file");
    assert_eq!(same.other, None);
    assert_eq!(rewatch_configs(ConfigFile::Settings, true, true), vec![ConfigFile::Script]);
    assert!(rewatch_configs(ConfigFile::Script, false, true).is_empty());
}

#[test]
fn unknown_windows_are_looked_for_in_front_first() {
    let windows = Windows { all: vec![record(1, 0)] };
    let app = |frontmost: bool, focused: Option<i32>, listed: Vec<i32>| AppWindows {
        frontmost,
        focused,
        listed,
    };
    let apps = vec![app(false, Some(77), vec![]), app(true, None, vec![76, 77])];
    let mut cache = UnmanageableCache::new();
    let mut found = |window: i32, cache: &mut UnmanageableCache| {
        auto_discover_unmanaged_focused_windows(window, &windows, &apps, cache)
    };
    assert_eq!(found(77, &mut cache), Some(1), "the application in front is asked first");
    assert_eq!(found(10, &mut cache), None, "a known window is not looked for");
    assert!(cache.ids.is_empty());
    assert_eq!(found(99, &mut cache), None);
    assert_eq!(cache.ids, vec![99], "nobody shows it");
}

#[test]
fn existing_applications_hand_their_windows_over() {
    assert_eq!(add_existing_process(&vec![true, true, false, true]), 2);
    assert_eq!(add_existing_process(&vec![true]), 1);
    let found = add_existing_application(true, Some((vec![1, 2], vec![3])));
    assert_eq!(found.spawn.map(|trigger| trigger.0), Some(vec![1, 2]));
    assert_eq!(found.search, Some(vec![3]));
    let hidden = add_existing_application(false, Some((vec![1], vec![3])));
    assert!(hidden.spawn.is_none() && hidden.search.is_none());
    let none_elsewhere = add_existing_application(true, Some((vec![], vec![])));
    assert!(none_elsewhere.spawn.is_some() && none_elsewhere.search.is_none());
}

#[test]
fn new_windows_are_managed_or_tried_again() {
    let mut pending = PendingValidations::default();
    let spawned = pending.window_creation_event(5, Some(50), ms(0));
    assert_eq!(spawned.map(|trigger| trigger.0), Some(vec![50]));
    assert!(pending.queue.is_empty());
    assert!(pending.window_creation_event(6, None, ms(0)).is_none());
    assert_eq!(pending.queue.len(), 1);
    assert_eq!(pending.retry_pending_validations(&vec![true], ms(500)), vec![6]);
}

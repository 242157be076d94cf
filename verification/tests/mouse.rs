use paneru::ecs::mouse::drag::{
    drag_drop_preview, drag_move_held_column, drag_window_across_display, drop_slot_index,
    mid_strip_slot, preview_site, slot_preview_rect, DragEffect, DragMoveState, DragSettings,
    DropPreviewState, Held, PreviewDisplay, PreviewRefusal, PreviewSite,
};
use paneru::ecs::mouse::slots::{
    cross_at_drop, drop_slot_at, ghost_at_drop, release_at_drop, reorder_at_drop,
};
use paneru::ecs::mouse::warp::{warp_applies, warp_landing, WarpVelocityState};
use paneru::ecs::mouse::{
    arm_release_grace, classify_release, drive_scroll_strip, is_in_corner_dead_zone,
    mouse_down_trigger, mouse_moved_trigger, mouse_up_trigger, press_is_on_titlebar,
    reveal_candidates, scroll_settle_check, try_reorder_column, velocity_sample,
    DragModifierState, DragPaintState, DragScrollState, HoverSettings, PointerEvent, PressTarget,
    Release, ReleaseFacts, SettleRead, VelocitySample,
};
use paneru::ecs::layout::LayoutStrip;
use paneru::ecs::params::{GlobalState, Placement, StripEntry, WindowRecord, Windows};
use paneru::ecs::{DockPosition, Request, Requests, Timeout, Unmanaged};
use paneru::geometry::{Entity, IRect, Origin, Size};
use paneru::manager::{Display, EdgePadding};
use paneru::time::Duration;

const PLACEHOLDER: Entity = u64::MAX;

fn ms(millis: u64) -> Duration {
    Duration::from_millis(millis)
}

fn test_viewport() -> IRect {
    IRect::new(0, 20, 1024, 768)
}

#[test]
fn settle_grace_tracks_members_and_deadline() {
    let now = Duration::from_secs(100);
    let mut state = DragScrollState::default();
    assert!(!state.settle_active(now), "empty list is never active");
    state.members.push(PLACEHOLDER);
    assert!(!state.settle_active(now), "members without a deadline are stale, not active");
    state.settle_deadline = Some(now.plus(Duration::from_secs(1)));
    assert!(state.settle_active(now), "pending members inside the deadline are active");
    state.settle_deadline = Some(now.saturating_sub(Duration::from_secs(1)));
    assert!(!state.settle_active(now), "an expired deadline ends the grace");
}

#[test]
fn slot_preview_keeps_onscreen_slot_and_forces_full_height() {
    let rect = slot_preview_rect(100, test_viewport(), Size::new(400, 100));
    assert_eq!(rect, IRect::new(100, 20, 500, 768));
}

#[test]
fn slot_preview_clamps_left_overhang_into_viewport() {
    let rect = slot_preview_rect(-500, test_viewport(), Size::new(400, 300));
    assert_eq!(rect, IRect::new(0, 20, 400, 768));
}

#[test]
fn slot_preview_clamps_right_overhang_into_viewport() {
    let rect = slot_preview_rect(900, test_viewport(), Size::new(400, 300));
    assert_eq!(rect, IRect::new(624, 20, 1024, 768));
}

#[test]
fn slot_preview_pins_oversized_ghost_to_viewport() {
    let rect = slot_preview_rect(100, test_viewport(), Size::new(2000, 300));
    assert_eq!(rect, IRect::new(0, 20, 2000, 768));
}

#[test]
fn drag_paint_tracks_grab_frame_plus_pointer_offset() {
    let mut paint = DragPaintState::default();
    let target = PLACEHOLDER;
    assert_eq!(paint.frame_for(target), None, "no gesture, no frame");

    let grab = IRect::new(0, 20, 400, 1020);
    paint.begin(target, grab);
    assert_eq!(paint.frame_for(target), Some(grab), "zero offset paints grab");
    paint.advance(target, Origin::new(50, 0), ms(100));
    paint.advance(target, Origin::new(0, 30), ms(120));
    assert_eq!(
        paint.frame_for(target),
        Some(IRect::new(50, 50, 450, 1050)),
        "deltas accumulate 1:1 with the pointer"
    );

    let other: Entity = 9999;
    assert_eq!(paint.frame_for(other), None, "foreign entity reads nothing");
    paint.advance(other, Origin::new(500, 500), ms(140));
    assert_eq!(
        paint.frame_for(target),
        Some(IRect::new(50, 50, 450, 1050)),
        "foreign deltas never steer the gesture"
    );

    paint.clear();
    assert_eq!(paint.frame_for(target), None, "release ends the gesture");
}

#[test]
fn drag_paint_predicts_one_lead_ahead_then_goes_stale() {
    let mut paint = DragPaintState::default();
    let target = PLACEHOLDER;
    let grab = IRect::new(0, 20, 400, 1020);
    paint.begin(target, grab);
    let t0 = ms(100);
    paint.advance(target, Origin::new(100, 0), t0);
    paint.advance(target, Origin::new(100, 0), t0.plus(ms(20)));
    let now = t0.plus(ms(40));
    // 100px in 20ms smoothed at 0.3 is 1500px/s, 24px for a lead of 16ms.
    let lead = Some(Origin::new((0.3 * 100.0 / 0.020 * 0.016) as i32, 0));
    let predicted = paint.predicted_frame_for(target, now, lead).expect("gesture paints");
    assert_eq!(predicted.min.x, 200 + 24);
    assert_eq!(predicted.min.y, 20);
    let late = t0.plus(ms(500));
    assert_eq!(
        paint.predicted_frame_for(target, late, lead),
        Some(IRect::new(200, 20, 600, 1020))
    );
    assert_eq!(
        paint.predicted_frame_for(target, now, None),
        Some(IRect::new(200, 20, 600, 1020))
    );
}

#[test]
fn paint_leads_are_capped() {
    let mut paint = DragPaintState::default();
    paint.begin(1, IRect::new(0, 0, 10, 10));
    paint.advance(1, Origin::new(0, 0), ms(100));
    assert_eq!(
        paint.predicted_frame_for(1, ms(110), Some(Origin::new(900, -900))),
        Some(IRect::new(64, -64, 74, -54))
    );
}

#[test]
fn velocity_needs_two_samples_and_forgets_a_pause() {
    assert_eq!(velocity_sample(None, ms(100)), VelocitySample::First);
    assert_eq!(
        velocity_sample(Some(ms(100)), ms(200)),
        VelocitySample::Fold { gap: ms(100), reset: false }
    );
    assert_eq!(
        velocity_sample(Some(ms(100)), ms(300)),
        VelocitySample::Fold { gap: ms(200), reset: true }
    );
}

fn make_display() -> Display {
    Display::new(1, IRect { min: Origin::new(0, 0), max: Origin::new(1024, 768) }, 20)
}

fn no_padding() -> EdgePadding {
    EdgePadding { top: 0, right: 0, bottom: 0, left: 0 }
}

#[test]
fn corner_dead_zone_no_dock() {
    let display = make_display();
    let config = no_padding();
    assert!(is_in_corner_dead_zone(Origin::new(1000, 750), &display, None, config));
    assert!(is_in_corner_dead_zone(Origin::new(1024, 768), &display, None, config));
    assert!(!is_in_corner_dead_zone(Origin::new(993, 750), &display, None, config));
    assert!(!is_in_corner_dead_zone(Origin::new(1000, 737), &display, None, config));
}

#[test]
fn corner_dead_zone_with_bottom_dock() {
    let display = make_display();
    let config = no_padding();
    let dock = DockPosition::Bottom(80);
    assert!(is_in_corner_dead_zone(Origin::new(1000, 680), &display, Some(dock), config));
    assert!(!is_in_corner_dead_zone(Origin::new(1000, 657), &display, Some(dock), config));
}

#[test]
fn presses_hit_the_titlebar_band() {
    let target = PressTarget {
        full_screen: false,
        child: false,
        frame: IRect::new(0, 20, 400, 620),
        horizontal_padding: 0,
        vertical_padding: 0,
        toolbar: None,
    };
    assert!(press_is_on_titlebar(Origin::new(100, 40), &target));
    assert!(!press_is_on_titlebar(Origin::new(100, 21), &target), "the edge resizes");
    assert!(!press_is_on_titlebar(Origin::new(100, 60), &target), "below the band");
    let full = PressTarget { full_screen: true, ..target };
    assert!(!press_is_on_titlebar(Origin::new(100, 40), &full));
}

#[test]
fn modifiers_follow_the_pointer() {
    let mut state = DragModifierState { current: 0 };
    state.track(PointerEvent::Down { point: Origin::new(0, 0), modifiers: 3 });
    assert_eq!(state.current, 3);
    state.track(PointerEvent::Moved { point: Origin::new(0, 0), modifiers: 1 });
    assert_eq!(state.current, 3);
    state.track(PointerEvent::Dragged { point: Origin::new(0, 0), modifiers: 5 });
    assert_eq!(state.current, 5);
    state.track(PointerEvent::Up);
    assert_eq!(state.current, 0);
}

fn window(entity: Entity, slot: i32) -> WindowRecord {
    WindowRecord {
        entity,
        id: entity as i32,
        parent: 100,
        unmanaged: None,
        focused: false,
        full_width: false,
        placement: Some(Placement {
            layout: Origin::new(slot, 0),
            position: Origin::new(slot, 20),
            size: Size::new(400, 700),
            reposition: None,
            resize: None,
        }),
    }
}

fn strip_of(windows: &[Entity]) -> StripEntry {
    let mut strip = LayoutStrip::new(7, 0);
    for entity in windows {
        strip.append(*entity);
    }
    StripEntry {
        entity: 50,
        strip,
        display: 60,
        position: Origin::new(-30, 0),
        active: true,
        selected: true,
        native_fullscreen: false,
    }
}

#[test]
fn header_drags_scroll_the_owning_strip() {
    let strips = vec![strip_of(&[1, 2])];
    let mut requests = Requests::new();
    let drive = drive_scroll_strip(2, 12, &strips, ms(5), &mut requests)
        .expect("the strip owns the window");
    assert_eq!((drive.strip, drive.offset, drive.at), (50, Origin::new(-18, 0), ms(5)));
    assert_eq!(drive_scroll_strip(9, 12, &strips, ms(5), &mut requests), None);
    assert_eq!(requests.list, vec![Request::UnpinOffset { strip: 50 }]);
}

#[test]
fn drags_scroll_move_or_only_paint() {
    let strips = vec![strip_of(&[1, 2])];
    let windows = Windows { all: vec![window(1, 0), window(2, 400)] };
    let calm = DragSettings { cold: false, scrolls_strip: true, shortcut: true };
    let drag = |held: Held, settings: DragSettings| {
        let mut state = DragMoveState { last: Some(Origin::new(100, 30)) };
        let mut scroll = DragScrollState::default();
        let mut paint = DragPaintState::default();
        let mut requests = Requests::new();
        let outcome = drag_move_held_column(
            PointerEvent::Dragged { point: Origin::new(112, 33), modifiers: 0 },
            &mut state,
            Some(held),
            settings,
            &windows,
            &strips,
            ms(5),
            &mut scroll,
            &mut paint,
            &mut requests,
        );
        assert_eq!(state.last, Some(Origin::new(112, 33)));
        (outcome, scroll.distance_px, requests.list)
    };
    let header = Held { target: 1, display_armed: false, scroll_armed: true };
    let (outcome, distance, requests) = drag(header, calm);
    assert_eq!((outcome.effect, outcome.step_x, distance), (DragEffect::Scrolled, 12, 15));
    assert_eq!(outcome.scroll.map(|drive| drive.offset), Some(Origin::new(-18, 0)));
    assert_eq!(requests, vec![Request::UnpinOffset { strip: 50 }]);

    let armed = Held { target: 1, display_armed: true, scroll_armed: false };
    let (outcome, distance, requests) = drag(armed, calm);
    assert_eq!((outcome.effect, distance), (DragEffect::Moved, 0));
    assert_eq!(outcome.moves, vec![(1, Origin::new(12, 23))]);
    assert_eq!(requests, vec![Request::WindowMoved { window: 1 }]);

    let content = Held { target: 1, display_armed: false, scroll_armed: false };
    let (outcome, _, requests) = drag(content, calm);
    assert_eq!((outcome.effect, requests), (DragEffect::Painted, vec![]));
    let (outcome, _, requests) = drag(header, DragSettings { cold: true, ..calm });
    assert_eq!((outcome.effect, requests), (DragEffect::Painted, vec![]));
}

#[test]
fn scrolled_releases_settle_their_strip() {
    let windows = Windows { all: vec![window(1, 0), window(2, 400)] };
    let release = |entity: Entity, display_width: Option<i32>| {
        let mut strips = vec![strip_of(&[1, 2])];
        let mut scroll = DragScrollState::default();
        scroll.distance_px = 5;
        let mut paint = DragPaintState::default();
        let mut requests = Requests::new();
        let facts = ReleaseFacts {
            entity,
            display_armed: false,
            scroll_armed: true,
            shortcut: false,
            cold: false,
            nearest: (0, 0),
            click_reshuffles: true,
            most_visible: None,
            display_width,
        };
        let ended = mouse_up_trigger(
            facts,
            &mut strips,
            &windows,
            &vec![None],
            &mut scroll,
            &mut paint,
            ms(0),
            &mut requests,
        );
        assert_eq!(ended, Release::Scrolled);
        assert_eq!(scroll.members, vec![entity]);
        requests.list
    };
    assert_eq!(release(1, Some(1024)), vec![Request::ArmSettle { strip: 50 }]);
    assert_eq!(release(1, Some(0)), vec![]);
    assert_eq!(release(1, None), vec![]);
    assert_eq!(release(9, Some(1024)), vec![], "no strip holds it");
}

#[test]
fn releases_are_classified_by_what_was_armed() {
    assert_eq!(classify_release(true, true, true, 100, true), Release::Shield);
    assert_eq!(classify_release(false, false, true, 5, false), Release::Scrolled);
    assert_eq!(classify_release(false, true, false, 0, true), Release::Drop);
    assert_eq!(classify_release(false, false, false, 0, false), Release::Home);
}

#[test]
fn the_grace_checks_drifted_members_until_it_ends() {
    let mut state = DragScrollState::default();
    let check = arm_release_grace(vec![1, 2, 3], &mut state, ms(1000));
    assert_eq!(check, ms(1200));
    assert!(state.settle_active(ms(1999)) && !state.settle_active(ms(2000)));
    let slot = Origin::new(10, 0);
    let reads = vec![
        SettleRead::Gone,
        SettleRead::Live { live: Origin::new(90, 0), slot },
        SettleRead::Unread,
    ];
    let (pushed, again) = scroll_settle_check(&mut state, &reads, ms(1200));
    assert_eq!(pushed, vec![(2, slot)]);
    assert!(again);
    assert!(!state.members.contains(&1), "a window that is gone is not waited for");
}

#[test]
fn dropped_columns_move_to_their_slot() {
    let mut entry = strip_of(&[1, 2, 3]);
    let bare = WindowRecord { placement: None, ..window(3, 800) };
    let windows = Windows { all: vec![window(1, 0), window(2, 400), bare, window(9, 0)] };
    assert!(try_reorder_column(1, &mut entry, &windows, (2, 0)));
    assert_eq!(entry.strip.all_windows(), vec![2, 1, 3]);
    assert!(!try_reorder_column(1, &mut entry, &windows, (1, 0)), "it is there already");
    assert!(!try_reorder_column(9, &mut entry, &windows, (0, 0)));
    assert!(!try_reorder_column(3, &mut entry, &windows, (0, 0)), "it has no frame");
}

#[test]
fn armed_releases_drop_the_column_at_its_slot() {
    let mut strips = vec![strip_of(&[1, 2, 3])];
    let windows = Windows { all: vec![window(1, 0), window(2, 400), window(3, 800)] };
    let mut scroll = DragScrollState::default();
    let mut paint = DragPaintState::default();
    let mut requests = Requests::new();
    let facts = ReleaseFacts {
        entity: 1,
        display_armed: true,
        scroll_armed: false,
        shortcut: true,
        cold: false,
        nearest: (3, 0),
        click_reshuffles: true,
        most_visible: None,
        display_width: Some(1024),
    };
    let mut release = |facts: ReleaseFacts, strips: &mut Vec<StripEntry>| {
        let homes = vec![None];
        mouse_up_trigger(
            facts,
            strips,
            &windows,
            &homes,
            &mut scroll,
            &mut paint,
            ms(0),
            &mut requests,
        )
    };
    assert_eq!(release(facts, &mut strips), Release::Drop);
    assert_eq!(strips[0].strip.all_windows(), vec![2, 3, 1]);
    let cancelled = ReleaseFacts { shortcut: false, nearest: (0, 0), ..facts };
    assert_eq!(release(cancelled, &mut strips), Release::Home);
    assert_eq!(strips[0].strip.all_windows(), vec![2, 3, 1]);
}

#[test]
fn dragged_columns_land_at_the_slot_of_their_ghost() {
    let windows = Windows { all: vec![window(1, 1200), window(2, 0), window(3, 400)] };
    let held = vec![Held { target: 1, display_armed: true, scroll_armed: false }];
    let others = vec![(2, IRect::new(1000, 0, 2000, 800))];
    let spaces = vec![(2, 20)];
    let parked = || {
        let mut entry = strip_of(&[2, 3]);
        entry.strip.id = 20;
        entry.display = 77;
        vec![entry]
    };
    let drag = |mid: Option<(usize, i32)>| {
        let mut source = strip_of(&[1]).strip;
        let mut strips = parked();
        let mut requests = Requests::new();
        assert!(drag_window_across_display(
            1,
            &held,
            true,
            &windows,
            &mut source,
            1,
            &others,
            &spaces,
            &mut strips,
            mid,
            &mut requests,
        ));
        assert!(source.all_windows().is_empty());
        assert_eq!(
            requests.list.last(),
            Some(&Request::ActivateDisplay { display: 77 })
        );
        strips[0].strip.all_windows()
    };
    assert_eq!(drag(None), vec![2, 3, 1]);
    assert_eq!(drag(Some((1, 800))), vec![2, 1, 3]);
}

#[test]
fn drops_land_at_the_end_or_in_the_slot_found() {
    let entry = strip_of(&[1, 2]);
    let windows = Windows { all: vec![window(1, 0), window(2, 400)] };
    assert_eq!(drop_slot_index(&entry.strip, -30, 100, None, &windows), (2, 770));
    let empty = strip_of(&[]).strip;
    assert_eq!(drop_slot_index(&empty, -30, 100, None, &windows), (0, -30));
    let slot = drop_slot_index(&entry.strip, -30, 500, Some((1, 100)), &windows);
    assert_eq!(slot, (1, 370));
}

fn held(target: Entity, display_armed: bool) -> Held {
    Held { target, display_armed, scroll_armed: false }
}

#[test]
fn previews_say_why_they_are_refused() {
    let drag = vec![PointerEvent::Dragged { point: Origin::new(0, 0), modifiers: 0 }];
    let armed = vec![held(1, true)];
    assert_eq!(
        drag_drop_preview(&vec![PointerEvent::Up], false, &armed),
        Err(PreviewRefusal::MouseReleased)
    );
    assert_eq!(
        drag_drop_preview(&drag, true, &armed),
        Err(PreviewRefusal::MissionControlActive)
    );
    assert_eq!(
        drag_drop_preview(&drag, false, &vec![held(1, false)]),
        Err(PreviewRefusal::NoArmedDrag)
    );
    assert_eq!(drag_drop_preview(&drag, false, &armed), Ok(1));

    let display = PreviewDisplay {
        entity: 60,
        bounds: IRect::new(0, 0, 1024, 768),
        viewport: test_viewport(),
        active: true,
        space: Some(7),
    };
    let floating = WindowRecord { unmanaged: Some(Unmanaged::Floating), ..window(2, 0) };
    let bare = WindowRecord { placement: None, ..window(3, 0) };
    let windows = Windows { all: vec![window(1, 0), floating, bare] };
    let strips = vec![strip_of(&[1])];
    let refused = |entity: Entity, shortcut: bool, strips: &Vec<StripEntry>, displays: Vec<PreviewDisplay>| {
        preview_site(entity, shortcut, &windows, strips, &displays).err()
    };
    assert_eq!(refused(1, false, &strips, vec![display]), Some(PreviewRefusal::ShortcutReleased));
    assert_eq!(refused(9, true, &strips, vec![display]), Some(PreviewRefusal::NotAWindow));
    assert_eq!(refused(2, true, &strips, vec![display]), Some(PreviewRefusal::Unmanaged));
    assert_eq!(refused(3, true, &strips, vec![display]), Some(PreviewRefusal::NoFrame));
    assert_eq!(refused(1, true, &strips, vec![]), Some(PreviewRefusal::NoDisplay));
    assert_eq!(
        refused(1, true, &vec![], vec![display]),
        Some(PreviewRefusal::NoActiveStrip)
    );
    let other = PreviewDisplay { active: false, ..display };
    assert_eq!(
        refused(1, true, &strips, vec![PreviewDisplay { space: None, ..other }]),
        Some(PreviewRefusal::NoActiveSpace)
    );
    assert_eq!(
        refused(1, true, &strips, vec![PreviewDisplay { space: Some(8), ..other }]),
        Some(PreviewRefusal::NoSelectedStrip)
    );
    let site = preview_site(1, true, &windows, &strips, &vec![display]).expect("a place to drop");
    assert_eq!((site.strip, site.scroll_x, site.viewport), (0, -30, test_viewport()));
}

#[test]
fn preview_changes_are_drawn_once() {
    let mut state = DropPreviewState { rect: None };
    let rect = IRect::new(0, 0, 10, 10);
    assert!(state.apply(Ok(rect)));
    assert!(!state.apply(Ok(rect)));
    assert!(state.apply(Err(PreviewRefusal::MouseReleased)));
    assert!(!state.apply(Err(PreviewRefusal::NoDisplay)));
    assert_eq!(state.rect, None);
}

#[test]
fn the_pointer_warps_over_the_outer_edge() {
    let displays = vec![IRect::new(0, 0, 1000, 800), IRect::new(0, -600, 1000, 0)];
    let inside = warp_landing(Origin::new(500, 400), 0, 1, &displays, 0);
    assert_eq!(inside, None);
    let landing = warp_landing(Origin::new(999, 400), 10, 1, &displays, 0);
    assert_eq!(landing, Some(Origin::new(16, -200)));
    let beside = IRect::new(2000, 0, 2001, 800);
    let narrow = vec![displays[0], displays[1], beside];
    assert_eq!(
        warp_landing(Origin::new(999, 400), 10, 1, &narrow, 0),
        landing,
        "only the display that it jumps to needs room"
    );
    assert!(warp_applies(false, &vec![], false));
    assert!(!warp_applies(true, &vec![], false));
}

#[test]
fn warp_speed_needs_a_fresh_step() {
    let mut state = WarpVelocityState { last: None, at: ms(0) };
    assert_eq!(state.sample(Origin::new(0, 0), ms(10)), None);
    let step = state.sample(Origin::new(40, 0), ms(20)).expect("two fresh samples");
    assert_eq!((step.dx, step.dt), (40, ms(10)));
    assert_eq!(state.sample(Origin::new(80, 0), ms(500)), None, "the last sample is stale");
}

#[test]
fn a_release_reveals_one_of_its_strip() {
    let strips = vec![strip_of(&[1, 2, 3])];
    let bare = WindowRecord { placement: None, ..window(3, 0) };
    let windows = Windows { all: vec![window(1, 0), window(2, 400), bare] };
    assert_eq!(
        reveal_candidates(2, &strips, &windows),
        Some(vec![(1, IRect::new(0, 20, 400, 720)), (2, IRect::new(400, 20, 800, 720))])
    );
    assert_eq!(reveal_candidates(9, &strips, &windows), None);
}

fn calm() -> GlobalState {
    GlobalState { focus_follows_mouse_id: None, skip_reshuffle: true, initializing: false }
}

#[test]
fn hovers_ask_only_where_the_answer_is_open() {
    let settings = HoverSettings { resizing: false, focus_follows_mouse: true };
    let displays = vec![(IRect::new(0, 0, 1024, 768), test_viewport())];
    let own = (10, IRect::new(0, 0, 400, 600));
    let other = (20, IRect::new(300, 0, 700, 600));
    let windows = vec![own, other];
    let ask = |x: i32, settings: HoverSettings, last: &mut Option<Duration>, now: u64| {
        let point = Origin::new(x, 100);
        mouse_moved_trigger(point, settings, &displays, calm(), Some(own), &windows, last, ms(now))
    };
    let mut last = None;
    assert!(!ask(100, settings, &mut last, 0), "inside the focused window alone");
    assert!(ask(350, settings, &mut last, 0), "two windows overlap here");
    assert!(!ask(600, settings, &mut last, 49), "too soon");
    assert!(ask(600, settings, &mut last, 50));
    let resizing = HoverSettings { resizing: true, ..settings };
    assert!(!ask(600, resizing, &mut last, 500));
    let off = HoverSettings { focus_follows_mouse: false, ..settings };
    assert!(!ask(600, off, &mut last, 500));
}

#[test]
fn a_press_takes_over() {
    let windows = Windows { all: vec![window(1, 0)] };
    let mut scroll = DragScrollState::default();
    arm_release_grace(vec![5], &mut scroll, ms(0));
    let mut paint = DragPaintState::default();
    let mut state = calm();
    let mut requests = Requests::new();
    let grab = IRect::new(3, 4, 403, 704);
    let outcome = mouse_down_trigger(
        Some((1, grab)),
        &vec![(50, true), (51, false)],
        false,
        true,
        true,
        &windows,
        &mut scroll,
        &mut paint,
        &mut state,
        &mut requests,
    );
    assert_eq!(outcome.held, Some(1));
    assert!(outcome.scroll_armed && !outcome.display_armed);
    assert_eq!(
        requests.list,
        vec![
            Request::DropGlide { strip: 50 },
            Request::DropSettle { strip: 50 },
            Request::DropSettle { strip: 51 },
            Request::Hold {
                entity: 1,
                display_armed: false,
                scroll_armed: true,
                timeout: Timeout::new(Duration::from_secs(5)),
            },
        ]
    );
    assert_eq!(paint.frame_for(1), Some(grab));
    assert!(scroll.members.is_empty() && !state.skip_reshuffle);
}

#[test]
fn drops_find_the_nearest_slot() {
    let strip = strip_of(&[1, 2]).strip;
    let windows = Windows { all: vec![window(1, 0), window(2, 400)] };
    assert_eq!(mid_strip_slot(&strip, -30, 10, &windows), (0, 10));
    assert_eq!(mid_strip_slot(&strip, -30, 300, &windows), (1, -100));
    assert_eq!(mid_strip_slot(&strip, 0, 700, &windows), (2, -100), "past the last column");
    let mid = mid_strip_slot(&strip, -30, 300, &windows);
    assert_eq!(drop_slot_index(&strip, -30, 300, Some(mid), &windows), (1, 370));
    let empty = strip_of(&[]).strip;
    assert_eq!(mid_strip_slot(&empty, 50, 300, &windows), (0, 300));
}

fn dragged(entity: Entity, slot: i32, x: i32) -> WindowRecord {
    let mut record = window(entity, slot);
    if let Some(place) = record.placement.as_mut() {
        place.position.x = x;
    }
    record
}

#[test]
fn drops_go_where_the_window_is() {
    let windows = Windows { all: vec![dragged(1, 0, 770), window(2, 400), window(3, 800)] };
    let strip = strip_of(&[1, 2, 3]).strip;
    assert_eq!(drop_slot_at(&strip, -30, 300, true, &windows), (1, 370));
    assert_eq!(drop_slot_at(&strip, -30, 300, false, &windows), (3, 1170));

    let mut entry = strip_of(&[1, 2, 3]);
    assert!(reorder_at_drop(1, &mut entry, &windows));
    assert_eq!(entry.strip.all_windows(), vec![2, 1, 3]);
    let mut entry = strip_of(&[1, 2, 3]);
    assert!(!reorder_at_drop(2, &mut entry, &windows), "it is at its slot");

    let mut strips = vec![strip_of(&[1, 2, 3])];
    let mut scroll = DragScrollState::default();
    let mut paint = DragPaintState::default();
    let mut requests = Requests::new();
    let facts = ReleaseFacts {
        entity: 1,
        display_armed: true,
        scroll_armed: false,
        shortcut: true,
        cold: false,
        nearest: (0, 0),
        click_reshuffles: true,
        most_visible: None,
        display_width: Some(1024),
    };
    let release = release_at_drop(
        facts,
        &mut strips,
        &windows,
        &vec![None],
        &mut scroll,
        &mut paint,
        ms(0),
        &mut requests,
    );
    assert_eq!(release, Release::Drop);
    assert_eq!(strips[0].strip.all_windows(), vec![2, 1, 3]);
    assert_eq!(requests.list, vec![Request::Reshuffle { entity: 1, force: false }]);
}

#[test]
fn windows_cross_to_the_slot_that_their_ghost_shows() {
    let windows = Windows { all: vec![window(1, 1350), window(2, 0), window(3, 400)] };
    let held = vec![held(1, true)];
    let others = vec![(2, IRect::new(1000, 0, 2000, 800))];
    let cross = |use_mid_slot: bool| {
        let mut source = strip_of(&[1]).strip;
        let mut entry = strip_of(&[2, 3]);
        entry.strip.id = 20;
        let mut strips = vec![entry];
        let mut requests = Requests::new();
        assert!(cross_at_drop(
            1,
            &held,
            true,
            &windows,
            &mut source,
            1,
            &others,
            &vec![(2, 20)],
            &mut strips,
            use_mid_slot,
            &mut requests,
        ));
        strips[0].strip.all_windows()
    };
    assert_eq!(cross(true), vec![2, 1, 3]);
    assert_eq!(cross(false), vec![2, 3, 1]);

    let strips = vec![strip_of(&[2, 3])];
    let site = PreviewSite { strip: 0, scroll_x: 1000, viewport: IRect::new(1000, 20, 2000, 768) };
    let ghost = |use_mid_slot: bool| {
        let frame = IRect::new(1350, 20, 1750, 720);
        ghost_at_drop(1, frame, site, &strips, &windows, use_mid_slot)
    };
    assert_eq!(ghost(true), IRect::new(1400, 20, 1800, 768));
    assert_eq!(ghost(false), IRect::new(1600, 20, 2000, 768), "the end, moved into view");
}

use paneru::commands::{Command, Direction, Operation};
use paneru::ecs::layout::LayoutStrip;
use paneru::ecs::params::{Placement, WindowRecord, Windows};
use paneru::ecs::scroll::{
    apply_snap_force, cancel_driven_strip_glide, clamp_viewport_offset, nearest_visible_target,
    read_gestures, swipe_gesture, swiping_timeout, switch_virtual_workspace, Drive, ScrollEvent,
    SnapFacts, SnapPlan, SwipeGestureDirection, VerticalGestureState,
};
use paneru::ecs::{Message, Request, Requests, SendMessageTrigger};
use paneru::geometry::{Entity, IRect, Origin, Size};
use paneru::time::Duration;

fn viewport() -> IRect {
    IRect::new(0, 0, 1024, 768)
}

#[test]
fn settle_keeps_offset_when_a_window_is_visible() {
    let columns = vec![(0, 400), (400, 400), (800, 400)];
    assert_eq!(nearest_visible_target(&columns, -176, viewport()), -176);
}

#[test]
fn settle_pulls_stranded_window_in_by_the_shorter_side() {
    let columns = vec![(0, 400), (400, 400)];
    assert_eq!(nearest_visible_target(&columns, -700, viewport()), -400);
}

#[test]
fn settle_reveals_from_the_right_edge() {
    let columns = vec![(900, 400)];
    assert_eq!(nearest_visible_target(&columns, 0, viewport()), 1024 - 1300);
}

#[test]
fn settle_left_aligns_oversize_windows() {
    let columns = vec![(200, 1200)];
    assert_eq!(nearest_visible_target(&columns, -200, viewport()), -200);
}

fn window(entity: Entity, slot: i32, width: i32) -> WindowRecord {
    WindowRecord {
        entity,
        id: entity as i32,
        parent: 100,
        unmanaged: None,
        focused: false,
        full_width: false,
        placement: Some(Placement {
            layout: Origin::new(slot, 0),
            position: Origin::new(slot, 0),
            size: Size::new(width, 768),
            reposition: None,
            resize: None,
        }),
    }
}

fn three_columns() -> (LayoutStrip, Windows) {
    let mut strip = LayoutStrip::new(1, 0);
    strip.append(1);
    strip.append(2);
    strip.append(3);
    let windows = Windows { all: vec![window(1, 0, 400), window(2, 400, 400), window(3, 800, 400)] };
    (strip, windows)
}

#[test]
fn the_strip_stops_at_its_ends() {
    let (strip, windows) = three_columns();
    assert_eq!(clamp_viewport_offset(50, &strip, &windows, viewport(), false), Some(0));
    assert_eq!(clamp_viewport_offset(-100, &strip, &windows, viewport(), false), Some(-100));
    assert_eq!(
        clamp_viewport_offset(-500, &strip, &windows, viewport(), false),
        Some(1024 - 1200)
    );
}

#[test]
fn snaps_rest_wait_and_settle() {
    let (strip, windows) = three_columns();
    let facts = SnapFacts {
        position: -700,
        settling: true,
        swiping: false,
        gliding: false,
        fast: false,
        auto_center: false,
        center_single_column: false,
        continuous_swipe: true,
    };
    let plan = |facts: SnapFacts| apply_snap_force(facts, &strip, &windows, viewport());
    assert_eq!(plan(SnapFacts { swiping: true, ..facts }), SnapPlan::Wait);
    assert_eq!(plan(SnapFacts { position: -176, ..facts }), SnapPlan::Arrive { target: -176 });
    let far = SnapFacts { position: -900, ..facts };
    assert_eq!(plan(far), SnapPlan::Settle { target: -800 });
    assert_eq!(plan(SnapFacts { settling: false, ..facts }), SnapPlan::Rest);
}

#[test]
fn gestures_are_read_from_the_last_lift() {
    let events = vec![
        ScrollEvent::Swipe { fingers: 3 },
        ScrollEvent::TouchpadDown,
        ScrollEvent::Swipe { fingers: 3 },
        ScrollEvent::Swipe { fingers: 4 },
        ScrollEvent::Other,
    ];
    let reading = read_gestures(&events, Some(3));
    assert!(reading.touchpad_down && reading.gestured && reading.scrolled);
    assert_eq!(reading.counts_from, 2, "what came before the touch is dropped");
    let reading = read_gestures(&events, None);
    assert!(!reading.gestured && !reading.scrolled, "no finger count is configured");
}

#[test]
fn a_gesture_takes_the_strip_over() {
    let mut requests = Requests::new();
    let reading = read_gestures(&vec![ScrollEvent::Scroll], None);
    let plan = swipe_gesture(reading, 9, false, &mut requests);
    assert!(matches!(plan.drive, Drive::Start { .. }));
    assert!(requests.list.contains(&Request::UnpinOffset { strip: 9 }));
    let mut requests = Requests::new();
    let quiet = read_gestures(&vec![ScrollEvent::Other], None);
    let plan = swipe_gesture(quiet, 9, true, &mut requests);
    assert_eq!(plan.drive, Drive::Nothing);
    assert!(requests.list.is_empty());
}

#[test]
fn lifted_fingers_end_a_slow_swipe() {
    let ms = |millis: u64| Duration::from_millis(millis);
    let held = swiping_timeout(ms(1040), ms(1000), true, None);
    assert!(!held.lifted && !held.over);
    let point = Origin::new(5, 6);
    let over = swiping_timeout(ms(1051), ms(1000), true, Some(point));
    assert!(over.lifted && over.over);
    assert_eq!(over.pointer, Some(SendMessageTrigger(Message::MouseMoved { point })));
    let coasting = swiping_timeout(ms(1051), ms(1000), false, Some(point));
    assert!(coasting.lifted && !coasting.over);
}

#[test]
fn driven_strips_lose_their_glide() {
    let mut requests = Requests::new();
    cancel_driven_strip_glide(&vec![4, 5], &mut requests);
    assert_eq!(
        requests.list,
        vec![
            Request::DropGlide { strip: 4 },
            Request::DropSettle { strip: 4 },
            Request::DropGlide { strip: 5 },
            Request::DropSettle { strip: 5 },
        ]
    );
}

#[test]
fn a_vertical_swipe_switches_once() {
    let mut state = VerticalGestureState::default();
    let ms = |millis: u64| Duration::from_millis(millis);
    assert!(!state.swipe(2, Some(3), ms(0)), "another finger count");
    assert!(state.swipe(3, Some(3), ms(10)));
    assert!(!state.fire(false));
    assert!(state.fire(true));
    assert!(!state.swipe(3, Some(3), ms(20)), "nothing counts after the switch");
    assert!(!state.expire(ms(170)));
    assert!(state.expire(ms(171)));
    assert!(state.swipe(3, Some(3), ms(180)), "a new gesture counts again");
}

#[test]
fn the_setting_turns_vertical_swipes_round() {
    let sent = |down: bool, setting: SwipeGestureDirection| match switch_virtual_workspace(down, setting)
        .0
    {
        Message::Command { command: Command::Window(Operation::Virtual(direction)) } => direction,
        _ => panic!("a swipe sends a virtual workspace command"),
    };
    let natural = sent(true, SwipeGestureDirection::Natural);
    let reversed = sent(true, SwipeGestureDirection::Reversed);
    assert_eq!(natural.reverse(), reversed);
    assert_eq!(sent(false, SwipeGestureDirection::Natural), reversed);
    assert!(natural == Direction::North || natural == Direction::South);
}

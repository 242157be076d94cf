use paneru::ecs::focus::{
    activate_owner_display, clamp_window_size_on_focus, detect_focus_rejection,
    dim_remove_window_trigger, dim_window_trigger, focus_cause, strip_at_target, user_initiated_focus, FocusCause, FocusHistory,
};
use paneru::ecs::layout::LayoutStrip;
use paneru::ecs::params::{WindowRecord, Windows};
use paneru::ecs::{LastPress, Request, Requests, Unmanaged, UserFocus};
use paneru::geometry::{Entity, IRect, Origin, Size};
use paneru::time::Duration;

#[test]
fn strip_at_target_covers_settled_and_flying() {
    let target = Origin::new(100, 20);
    assert!(strip_at_target(target, target, None));
    assert!(strip_at_target(Origin::new(101, 20), target, None));
    assert!(strip_at_target(Origin::new(0, 20), target, Some(target)));
    assert!(!strip_at_target(Origin::new(0, 20), target, None));
    assert!(
        !strip_at_target(Origin::new(0, 20), target, Some(Origin::new(50, 20))),
        "glide toward elsewhere still needs centering"
    );
}

#[test]
fn record_and_read_per_tier() {
    let managed: Entity = 1;
    let floating: Entity = 2;
    let mut history = FocusHistory::default();

    history.record(1, managed, None);
    history.record(1, floating, Some(Unmanaged::Floating));

    assert_eq!(history.last_managed(1), Some(managed));
    assert_eq!(history.last_floating(1), Some(floating));
}

#[test]
fn activate_owner_display_moves_marker_to_owner() {
    let disp_a: Entity = 1;
    let disp_b: Entity = 2;
    let displays = vec![(disp_a, true), (disp_b, false)];
    let mut requests = Requests::new();
    activate_owner_display(disp_b, &displays, &mut requests);
    assert_eq!(requests.list, vec![Request::ActivateDisplay { display: disp_b }]);
    let mut requests = Requests::new();
    activate_owner_display(disp_a, &displays, &mut requests);
    assert!(
        requests.list.is_empty(),
        "already-active display keeps the marker without churn"
    );
}

#[test]
fn record_ignores_minimized_and_hidden() {
    let entity: Entity = 1;
    let mut history = FocusHistory::default();

    history.record(1, entity, Some(Unmanaged::Minimized));
    history.record(1, entity, Some(Unmanaged::Hidden));

    assert_eq!(history.last_managed(1), None);
    assert_eq!(history.last_floating(1), None);
}

#[test]
fn per_workspace_isolation() {
    let a: Entity = 1;
    let b: Entity = 2;
    let mut history = FocusHistory::default();

    history.record(1, a, None);
    history.record(2, b, None);

    assert_eq!(history.last_managed(1), Some(a));
    assert_eq!(history.last_managed(2), Some(b));
}

#[test]
fn forget_clears_entity_across_workspaces() {
    let target: Entity = 1;
    let other: Entity = 2;
    let mut history = FocusHistory::default();

    history.record(1, target, None);
    history.record(2, target, Some(Unmanaged::Floating));
    history.record(2, other, None);

    history.forget(target);

    assert_eq!(history.last_managed(1), None);
    assert_eq!(history.last_floating(2), None);
    assert_eq!(history.last_managed(2), Some(other));
}

#[test]
fn forget_workspace_drops_entry() {
    let entity: Entity = 1;
    let mut history = FocusHistory::default();

    history.record(1, entity, None);
    history.forget_workspace(1);

    assert_eq!(history.last_managed(1), None);
}

#[test]
fn focus_landing_on_a_tab_sibling_is_not_a_rejection() {
    let target: Entity = 1;
    let sibling: Entity = 2;

    let mut strip = LayoutStrip::default();
    strip.append(target);
    strip.convert_to_tabs(target, sibling).expect("target is in the strip");
    let mut workspaces = vec![strip];

    let mut history = FocusHistory { pending_focus: Some(target), ..Default::default() };
    let windows = Windows { all: Vec::new() };
    let mut requests = Requests::new();
    let rejected =
        detect_focus_rejection(sibling, &mut history, &mut workspaces, &windows, &mut requests);

    assert_eq!(rejected, None, "a tab sibling taking the focus must not float the requested tab");
    assert!(requests.list.is_empty());
    assert!(workspaces[0].contains(target), "and must not take it out of the layout");
    assert_eq!(history.pending_focus, None);
}

#[test]
fn focus_cause_prefers_press_over_keyboard() {
    let entity: Entity = 1;
    let frame = IRect::new(400, 20, 800, 620);
    let now = Duration::from_secs(10);
    let user = UserFocus { entity: Some(entity), at: now };
    let press = LastPress { at: now, point: Origin::new(410, 60) };
    assert_eq!(focus_cause(&user, &press, now, entity, frame), FocusCause::Press);
    assert!(user_initiated_focus(&user, &press, now, entity, frame));
}

#[test]
fn focus_cause_keyboard_without_press() {
    let entity: Entity = 1;
    let frame = IRect::new(400, 20, 800, 620);
    let now = Duration::from_secs(10);
    let user = UserFocus { entity: Some(entity), at: now };
    let elsewhere = LastPress { at: now, point: Origin::new(0, 0) };
    assert_eq!(focus_cause(&user, &elsewhere, now, entity, frame), FocusCause::Keyboard);
    assert!(user_initiated_focus(&user, &elsewhere, now, entity, frame));
}

#[test]
fn focus_cause_ambient_without_intent() {
    let entity: Entity = 1;
    let other: Entity = 2;
    let frame = IRect::new(400, 20, 800, 620);
    let now = Duration::from_secs(10);
    let user = UserFocus { entity: Some(other), at: now };
    let press = LastPress { at: now, point: Origin::new(0, 0) };
    assert_eq!(focus_cause(&user, &press, now, entity, frame), FocusCause::Ambient);
    assert!(!user_initiated_focus(&user, &press, now, entity, frame));
    let old_user = UserFocus {
        entity: Some(entity),
        at: now.saturating_sub(Duration::from_secs(1)),
    };
    assert_eq!(focus_cause(&old_user, &press, now, entity, frame), FocusCause::Ambient);
    let old_press = LastPress {
        at: now.saturating_sub(Duration::from_secs(1)),
        point: Origin::new(410, 60),
    };
    assert_eq!(
        focus_cause(&UserFocus::default(), &old_press, now, entity, frame),
        FocusCause::Ambient
    );
}

#[test]
fn focus_rejection_floats_target_and_clears_pending_focus() {
    let target: Entity = 1;
    let actual: Entity = 2;

    let mut strip = LayoutStrip::default();
    strip.append(target);
    strip.append(actual);
    let mut workspaces = vec![strip];

    let mut history = FocusHistory { pending_focus: Some(target), ..Default::default() };
    let windows = Windows { all: Vec::new() };
    let mut requests = Requests::new();
    let rejected =
        detect_focus_rejection(actual, &mut history, &mut workspaces, &windows, &mut requests);

    assert_eq!(rejected, Some(target));
    assert_eq!(requests.list, vec![Request::Float { entity: target }]);
    assert!(!workspaces[0].contains(target) && workspaces[0].contains(actual));
    assert_eq!(history.pending_focus, None);
}

#[test]
fn sizes_are_pushed_only_where_they_differ() {
    let bounds = Size::new(400, 300);
    assert_eq!(clamp_window_size_on_focus(false, Size::new(401, 299), bounds), None);
    assert_eq!(clamp_window_size_on_focus(false, Size::new(402, 300), bounds), Some(bounds));
    assert_eq!(clamp_window_size_on_focus(true, Size::new(500, 300), bounds), None);
}

#[test]
fn only_tiled_windows_on_screen_dim() {
    let window = |entity: Entity, unmanaged: Option<Unmanaged>| WindowRecord {
        entity,
        id: entity as i32 * 10,
        parent: 100,
        unmanaged,
        focused: false,
        full_width: false,
        placement: None,
    };
    let windows =
        Windows { all: vec![window(1, None), window(2, Some(Unmanaged::Floating)), window(3, None)] };
    let mut strip = LayoutStrip::default();
    strip.append(1);
    strip.append(2);
    assert_eq!(dim_window_trigger(2, &windows, true), Some(20));
    assert_eq!(dim_window_trigger(2, &windows, false), None);
    assert_eq!(dim_remove_window_trigger(1, &windows, &strip, true), Some(10));
    assert_eq!(dim_remove_window_trigger(2, &windows, &strip, true), None, "it floats");
    assert_eq!(dim_remove_window_trigger(3, &windows, &strip, true), None, "another display");
}

use paneru::ecs::sync::{
    classify_gesture, reconcile, reconcile_resize, unknown_gesture, GestureKind, ResizeEvent,
    SettleGate, SyncAction, SyncCounters, SyncEvent, Tally, WindowSync,
};
use paneru::time::Duration;

#[test]
fn clean_echo_adopts() {
    assert_eq!(reconcile(WindowSync::Synced, SyncEvent::clean()), SyncAction::Adopt);
}

#[test]
fn intent_echoes_are_ignored() {
    for event in [
        SyncEvent { repositioning: true, ..SyncEvent::clean() },
        SyncEvent { unacked: true, ..SyncEvent::clean() },
        SyncEvent { held_native: true, ..SyncEvent::clean() },
        SyncEvent { minimized_or_hidden: true, ..SyncEvent::clean() },
    ] {
        assert_eq!(reconcile(WindowSync::Synced, event), SyncAction::Ignore);
    }
}

#[test]
fn verifying_seats_instead_of_adopting() {
    let event = SyncEvent { verifying: true, ..SyncEvent::clean() };
    assert_eq!(reconcile(WindowSync::Synced, event), SyncAction::SeatVerify);
    assert_eq!(
        reconcile(WindowSync::Verifying { retries: 2 }, SyncEvent::clean()),
        SyncAction::SeatVerify
    );
}

#[test]
fn untracked_button_held_pushes_back() {
    let event = SyncEvent { button_held_no_gesture: true, ..SyncEvent::clean() };
    assert_eq!(reconcile(WindowSync::Synced, event), SyncAction::PushBack);
}

#[test]
fn grace_pushes_back() {
    let event = SyncEvent { in_grace: true, ..SyncEvent::clean() };
    assert_eq!(reconcile(WindowSync::Synced, event), SyncAction::PushBack);
    assert_eq!(
        reconcile(WindowSync::homing(Duration::from_secs(200)), SyncEvent::clean()),
        SyncAction::PushBack
    );
}

#[test]
fn expired_homing_is_inactive() {
    let live = WindowSync::homing(Duration::from_secs(10));
    assert!(live.homing_active(Duration::from_secs(9)));
    assert!(!live.homing_active(Duration::from_secs(10)));
    assert!(!live.homing_active(Duration::from_secs(11)));
    assert!(!WindowSync::Synced.homing_active(Duration::zero()));
    assert!(!WindowSync::Verifying { retries: 1 }.homing_active(Duration::zero()));
}

#[test]
fn precedence_intent_beats_distrust() {
    let event = SyncEvent {
        repositioning: true,
        button_held_no_gesture: true,
        ..SyncEvent::clean()
    };
    assert_eq!(reconcile(WindowSync::Synced, event), SyncAction::Ignore);
}

#[test]
fn resize_routing() {
    assert_eq!(
        reconcile_resize(WindowSync::Synced, ResizeEvent::clean()),
        SyncAction::Adopt
    );
    for event in [
        ResizeEvent { resizing: true, ..ResizeEvent::clean() },
        ResizeEvent { display_drag_armed: true, ..ResizeEvent::clean() },
        ResizeEvent { jitter_damped: true, ..ResizeEvent::clean() },
        ResizeEvent { minimized_or_hidden: true, ..ResizeEvent::clean() },
    ] {
        assert_eq!(reconcile_resize(WindowSync::Synced, event), SyncAction::Ignore);
    }
    assert_eq!(
        reconcile_resize(WindowSync::Verifying { retries: 2 }, ResizeEvent::clean()),
        SyncAction::Ignore
    );
    assert_eq!(
        reconcile_resize(WindowSync::homing(Duration::from_secs(200)), ResizeEvent::clean()),
        SyncAction::Ignore
    );
}

#[test]
fn gesture_classification() {
    let g = classify_gesture(true, false, false, true);
    assert_eq!(g.kind, GestureKind::Titlebar);
    assert!(g.header && g.scroll_armed);

    let g = classify_gesture(false, true, false, true);
    assert_eq!(g.kind, GestureKind::ToolbarBlank);
    assert!(g.header && g.scroll_armed);

    let g = classify_gesture(true, false, true, true);
    assert!(!g.scroll_armed);

    let g = classify_gesture(false, false, false, true);
    assert_eq!(g.kind, GestureKind::Content);
    assert!(!g.header && !g.scroll_armed);

    let g = unknown_gesture();
    assert_eq!(g.kind, GestureKind::Unknown);
    assert!(!g.header);
}

#[test]
fn a_held_window_keeps_its_slot_until_it_drifts() {
    assert_eq!(reconcile(WindowSync::HeldNative, SyncEvent::clean()), SyncAction::Ignore);
    let drifted = SyncEvent { drifted: true, ..SyncEvent::clean() };
    assert_eq!(reconcile(WindowSync::HeldNative, drifted), SyncAction::Adopt);
    assert_eq!(reconcile(WindowSync::Drifted, SyncEvent::clean()), SyncAction::Adopt);
    let armed = SyncEvent {
        held_native: true,
        display_drag_armed: true,
        ..SyncEvent::clean()
    };
    assert_eq!(reconcile(WindowSync::Synced, armed), SyncAction::Adopt);
}

#[test]
fn the_settle_gate_sees_any_window_on_its_way_home() {
    let gate = SettleGate {
        states: vec![WindowSync::Synced, WindowSync::homing(Duration::from_secs(5))],
    };
    assert!(gate.active(Duration::from_secs(4)));
    assert!(!gate.active(Duration::from_secs(5)));
}

#[test]
fn one_decision_moves_one_counter() {
    let mut counters = SyncCounters::default();
    counters.note(Tally::MoveAdopt);
    counters.note(Tally::MoveAdopt);
    counters.note(Tally::PushDropped);
    assert_eq!(
        counters,
        SyncCounters { move_adopt: 2, push_dropped_full: 1, ..SyncCounters::default() }
    );
}

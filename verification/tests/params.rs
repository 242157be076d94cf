use paneru::ecs::params::{
    nearest_display_above_or_below, ordered_display_ring, ring_neighbour, ring_neighbour_of_cursor,
    DisplaySnapshot,
};
use paneru::geometry::{IRect, IVec2};

fn a() -> DisplaySnapshot {
    (1, IRect::new(0, 0, 100, 100))
}
fn b() -> DisplaySnapshot {
    (2, IRect::new(100, 0, 200, 100))
}
fn c() -> DisplaySnapshot {
    (3, IRect::new(0, -100, 100, 0))
}

fn ring() -> Vec<DisplaySnapshot> {
    ordered_display_ring(a(), vec![b(), c()])
}

#[test]
fn ring_orders_displays_spatially() {
    let ids: Vec<u32> = ring().iter().map(|(id, _)| *id).collect();
    assert_eq!(ids, vec![3, 1, 2]);
}

#[test]
fn ring_neighbours_wrap_around() {
    let ordered = ring();
    assert_eq!(ring_neighbour(2, &ordered, true), Some(c()));
    assert_eq!(ring_neighbour(3, &ordered, false), Some(b()));
}

#[test]
fn next_and_previous_are_inverses_at_every_position() {
    let ordered = ring();
    for (id, _) in &ordered {
        let next = ring_neighbour(*id, &ordered, true).expect("need next");
        let back = ring_neighbour(next.0, &ordered, false).expect("need previous");
        assert_eq!(back.0, *id, "previous must undo next from {id}");

        let previous = ring_neighbour(*id, &ordered, false).expect("need previous");
        let forward = ring_neighbour(previous.0, &ordered, true).expect("need next");
        assert_eq!(forward.0, *id, "next must undo previous from {id}");
    }
}

#[test]
fn ring_neighbour_needs_two_displays() {
    let solo = ordered_display_ring(a(), Vec::new());
    assert_eq!(ring_neighbour(1, &solo, true), None);
    assert_eq!(ring_neighbour(1, &solo, false), None);
    let ordered = ring();
    assert_eq!(ring_neighbour(99, &ordered, true), None);
}

#[test]
fn cursor_neighbour_uses_containing_display() {
    let displays = vec![a(), b(), c()];
    assert_eq!(
        ring_neighbour_of_cursor(displays, IVec2::new(150, 50), true),
        Some(c())
    );
    let displays = vec![a(), b(), c()];
    assert_eq!(
        ring_neighbour_of_cursor(displays, IVec2::new(50, 50), false),
        Some(c())
    );
    let displays = vec![a(), b(), c()];
    assert_eq!(ring_neighbour_of_cursor(displays, IVec2::new(500, 500), true), None);
}

#[test]
fn above_or_below_picks_nearest_in_direction() {
    let others = vec![b(), c()];
    assert_eq!(nearest_display_above_or_below(a().1, &others, true), Some(c()));

    let others = vec![b(), c()];
    assert_eq!(nearest_display_above_or_below(a().1, &others, false), None);

    let others = vec![a(), b()];
    assert_eq!(nearest_display_above_or_below(c().1, &others, false), Some(a()));
}

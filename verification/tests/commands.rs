use paneru::commands::{
    any_command, command_quit_handler, command_restart_handler, filter_window_operations,
    focus_warmup_bypass, get_window_in_direction, pick_nearest_in_direction, Command, Direction,
    Operation, OperationSort, ResizeDirection,
};
use paneru::ecs::layout::LayoutStrip;
use paneru::geometry::{Entity, IVec2};

fn setup_layout() -> (LayoutStrip, Vec<Entity>) {
    let entities: Vec<Entity> = vec![10, 11, 12, 13];
    let mut strip = LayoutStrip::default();
    strip.append(entities[0]);
    strip.append(entities[1]);
    strip.append(entities[2]);
    strip.append(entities[3]);
    strip.stack(entities[1]).unwrap();
    (strip, entities)
}

#[test]
fn test_get_window_in_direction_simple() {
    let (strip, entities) = setup_layout();
    let e0 = entities[0];
    let e2 = entities[2];
    let e3 = entities[3];
    let east = Direction::East;
    let west = Direction::West;

    assert_eq!(get_window_in_direction(&east, e2, &strip), Some(e3));
    assert_eq!(get_window_in_direction(&west, e2, &strip), Some(e0));

    assert_eq!(get_window_in_direction(&west, e3, &strip), Some(e2));
    assert_eq!(get_window_in_direction(&east, e3, &strip), None);

    assert_eq!(get_window_in_direction(&east, e0, &strip), Some(e2));
    assert_eq!(get_window_in_direction(&west, e0, &strip), None);
}

#[test]
fn test_get_window_in_direction_stacked() {
    let (strip, entities) = setup_layout();
    let e0 = entities[0];
    let e1 = entities[1];
    let north = Direction::North;
    let south = Direction::South;

    assert_eq!(get_window_in_direction(&south, e0, &strip), Some(e1));
    assert_eq!(get_window_in_direction(&north, e0, &strip), None);

    assert_eq!(get_window_in_direction(&north, e1, &strip), Some(e0));
    assert_eq!(get_window_in_direction(&south, e1, &strip), None);
}

#[test]
fn test_get_window_in_direction_adjacent_stacks() {
    let entities: Vec<Entity> = vec![10, 11, 12, 13];
    let mut strip = LayoutStrip::default();
    strip.append(entities[0]);
    strip.append(entities[1]);
    strip.append(entities[2]);
    strip.append(entities[3]);
    strip.stack(entities[1]).unwrap();
    strip.stack(entities[3]).unwrap();

    let east = Direction::East;
    let west = Direction::West;

    assert_eq!(get_window_in_direction(&east, entities[0], &strip), Some(entities[2]));
    assert_eq!(get_window_in_direction(&east, entities[1], &strip), Some(entities[3]));
    assert_eq!(get_window_in_direction(&west, entities[2], &strip), Some(entities[0]));
    assert_eq!(get_window_in_direction(&west, entities[3], &strip), Some(entities[1]));
}

#[test]
fn pick_nearest_in_direction_east_picks_closer() {
    let near: Entity = 1;
    let far: Entity = 2;
    let focused = IVec2::new(0, 0);
    let candidates = vec![(near, IVec2::new(10, 0)), (far, IVec2::new(50, 0))];
    assert_eq!(pick_nearest_in_direction(&Direction::East, focused, &candidates), Some(near));
}

#[test]
fn pick_nearest_in_direction_respects_cone() {
    let candidate: Entity = 1;
    let focused = IVec2::new(0, 0);
    let candidates = vec![(candidate, IVec2::new(10, 20))];
    assert_eq!(pick_nearest_in_direction(&Direction::East, focused, &candidates), None);
}

#[test]
fn pick_nearest_in_direction_ignores_wrong_side() {
    let west_one: Entity = 1;
    let focused = IVec2::new(0, 0);
    let candidates = vec![(west_one, IVec2::new(-10, 0))];
    assert_eq!(pick_nearest_in_direction(&Direction::East, focused, &candidates), None);
}

#[test]
fn pick_nearest_in_direction_first_last_return_none() {
    let any: Entity = 1;
    let focused = IVec2::new(0, 0);
    let candidates = vec![(any, IVec2::new(10, 0))];
    assert_eq!(pick_nearest_in_direction(&Direction::First, focused, &candidates), None);
    assert_eq!(pick_nearest_in_direction(&Direction::Last, focused, &candidates), None);
}

#[test]
fn columns_are_found_by_place() {
    let (strip, entities) = setup_layout();
    assert_eq!(
        get_window_in_direction(&Direction::First, entities[3], &strip),
        Some(entities[0])
    );
    assert_eq!(
        get_window_in_direction(&Direction::Last, entities[0], &strip),
        Some(entities[3])
    );
    assert_eq!(
        get_window_in_direction(&Direction::Nth(1), entities[0], &strip),
        Some(entities[2])
    );
    assert_eq!(get_window_in_direction(&Direction::Nth(7), entities[0], &strip), None);
    assert_eq!(get_window_in_direction(&Direction::East, 99, &strip), None);
}

#[test]
fn commands_are_filtered_by_sort_in_order() {
    let commands = vec![
        Command::Window(Operation::Resize(ResizeDirection::Grow)),
        Command::Quit,
        Command::Window(Operation::Center),
        Command::Window(Operation::SetWidth),
    ];
    assert_eq!(
        filter_window_operations(&commands, OperationSort::Width),
        vec![Operation::Resize(ResizeDirection::Grow), Operation::SetWidth]
    );
    assert!(command_quit_handler(&commands));
    assert!(!command_restart_handler(&commands));
    assert!(any_command(&commands, Command::Quit));
    assert!(filter_window_operations(&commands, OperationSort::Snap).is_empty());
}

#[test]
fn focus_commands_pass_the_warmup_after_the_setup() {
    assert!(focus_warmup_bypass(true, false));
    assert!(!focus_warmup_bypass(true, true));
    assert!(!focus_warmup_bypass(false, false));
}

#[test]
fn directions_turn_round() {
    assert_eq!(Direction::North.reverse(), Direction::South);
    assert_eq!(Direction::East.reverse(), Direction::West);
    assert_eq!(Direction::First.reverse(), Direction::Last);
    assert_eq!(Direction::Nth(3).reverse(), Direction::Nth(3));
}

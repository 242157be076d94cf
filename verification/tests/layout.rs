use paneru::commands::displays::{
    command_swap_focus, detach_column_from_strip, move_focused_window_to_display, refresh_size,
};
use paneru::commands::layers::{
    command_toggle_floating_layer, copy_window_rule, flip_layer, manage_window,
    stack_windows_handler, FloatingLayer,
};
use paneru::commands::sizes::{
    balance_strip, command_center_window, equalize_column, next_preset, resize_window_vertical,
    snap_window,
};
use paneru::commands::{Command, Direction, MoveFocus, Operation, ResizeDirection};
use paneru::ecs::focus::FocusHistory;
use paneru::ecs::layout::shape::strip_signature;
use paneru::ecs::layout::{clamp_origin_to_viewport, Column, LayoutStrip, StripError};
use paneru::ecs::params::{ActiveDisplay, Placement, StripEntry, WindowRecord, Windows};
use paneru::ecs::{ManualStripOffset, Request, Requests, Timeout, Unmanaged};
use paneru::geometry::{Entity, IRect, Origin, Size};
use paneru::time::Duration;

fn strip(windows: &[Entity]) -> LayoutStrip {
    let mut strip = LayoutStrip::new(1, 0);
    for window in windows {
        strip.append(*window);
    }
    strip
}

fn window(entity: Entity, focused: bool, x: i32, y: i32, height: i32) -> WindowRecord {
    WindowRecord {
        entity,
        id: entity as i32 * 10,
        parent: 100,
        unmanaged: None,
        focused,
        full_width: false,
        placement: Some(Placement {
            layout: Origin::new(x, y),
            position: Origin::new(x, y),
            size: Size::new(400, height),
            reposition: None,
            resize: None,
        }),
    }
}

fn viewport() -> IRect {
    IRect::new(0, 20, 1000, 820)
}

#[test]
fn stacking_and_unstacking_keep_every_window() {
    let mut strip = strip(&[1, 2, 3]);
    strip.stack(2).expect("it has a neighbour");
    assert_eq!(strip.len(), 2);
    assert_eq!(strip.all_windows(), vec![1, 2, 3]);
    strip.unstack(1).expect("it is stacked");
    assert_eq!(strip.all_windows(), vec![2, 1, 3]);
    assert_eq!(strip.len(), 3);
}

#[test]
fn unknown_windows_are_refused() {
    let mut strip = strip(&[1, 2]);
    assert_eq!(strip.stack(9), Err(StripError::NotFound));
    assert_eq!(strip.unstack(9), Err(StripError::NotFound));
    assert_eq!(strip.convert_to_tabs(9, 1), Err(StripError::NotFound));
    assert_eq!(strip.all_windows(), vec![1, 2]);
}

#[test]
fn a_tab_leaves_the_column_it_had() {
    let mut strip = strip(&[1, 2, 3]);
    strip.convert_to_tabs(3, 1).expect("the leader is there");
    assert_eq!(strip.len(), 2);
    assert_eq!(strip.tab_group(1), Some(vec![3, 1]));
    assert_eq!(strip.all_windows(), vec![2, 3, 1]);
}

#[test]
fn removing_closes_an_empty_column() {
    let mut strip = strip(&[1, 2, 3]);
    strip.stack(3).expect("it has a neighbour");
    strip.remove(2);
    assert_eq!(strip.len(), 2);
    strip.remove(3);
    assert_eq!(strip.all_windows(), vec![1]);
    strip.remove(9);
    assert_eq!(strip.all_windows(), vec![1]);
}

#[test]
fn columns_sort_by_their_place_and_unplaced_ones_stay_behind() {
    let mut strip = strip(&[1, 2, 3]);
    strip.sort_columns_by_x(&vec![Some(300), Some(100), Some(200)]);
    assert_eq!(strip.all_windows(), vec![2, 3, 1]);
}

#[test]
fn refreshing_keeps_the_order_of_those_that_stay() {
    let mut strip = strip(&[1, 2, 3]);
    strip.refresh(&vec![4, 3, 1]);
    assert_eq!(strip.all_windows(), vec![1, 3, 4]);
}

#[test]
fn origins_are_clamped_into_the_viewport() {
    let size = Size::new(400, 300);
    let clamp = |x: i32, y: i32| clamp_origin_to_viewport(Origin::new(x, y), size, viewport());
    assert_eq!(clamp(-50, 0), Origin::new(0, 20));
    assert_eq!(clamp(900, 900), Origin::new(600, 520));
    assert_eq!(clamp(10, 30), Origin::new(10, 30));
}

#[test]
fn floating_layers_flip_and_flip_back() {
    let mut layers: Vec<FloatingLayer> = Vec::new();
    let first = flip_layer(&mut layers, 7);
    let second = flip_layer(&mut layers, 7);
    assert_ne!(first, second);
    assert_eq!(flip_layer(&mut layers, 7), first);
}

#[test]
fn the_focused_window_is_managed_and_floats_again() {
    let floating = WindowRecord { unmanaged: Some(Unmanaged::Floating), ..window(2, true, 0, 0, 1) };
    let windows = Windows { all: vec![window(1, false, 0, 0, 1), floating] };
    let mut strips = vec![entry(50, &[1], true, true)];
    let mut requests = Requests::new();
    manage_window(&windows, &mut strips, &mut requests);
    assert_eq!(strips[0].strip.all_windows(), vec![1, 2]);
    assert_eq!(
        requests.list,
        vec![Request::Manage { entity: 2 }, Request::Reshuffle { entity: 2, force: true }]
    );
    let windows = Windows { all: vec![window(1, true, 0, 0, 1)] };
    let mut requests = Requests::new();
    manage_window(&windows, &mut strips, &mut requests);
    assert_eq!(requests.list, vec![Request::Float { entity: 1 }]);
}

fn entry(entity: Entity, windows: &[Entity], active: bool, selected: bool) -> StripEntry {
    StripEntry {
        entity,
        strip: strip(windows),
        display: 60,
        position: Origin::new(0, 0),
        active,
        selected,
        native_fullscreen: false,
    }
}

fn display() -> ActiveDisplay {
    ActiveDisplay {
        entity: 60,
        id: 1,
        bounds: IRect::new(0, 0, 1000, 820),
        viewport: viewport(),
        strip_entity: 50,
        fullscreen: None,
        others: vec![(2, IRect::new(0, 820, 1000, 1640))],
    }
}

#[test]
fn swapping_trades_columns_or_leaves_the_strip() {
    let windows = Windows { all: vec![window(1, true, 0, 20, 800), window(2, false, 400, 20, 800)] };
    let mut strip = strip(&[1, 2]);
    let mut requests = Requests::new();
    let beyond =
        command_swap_focus(Direction::East, &windows, &mut strip, &display(), &mut requests);
    assert_eq!(beyond, None);
    assert_eq!(strip.all_windows(), vec![2, 1]);
    let beyond =
        command_swap_focus(Direction::South, &windows, &mut strip, &display(), &mut requests);
    assert_eq!(beyond.map(|other| other.0), Some(2));
}

#[test]
fn columns_leave_with_all_their_windows() {
    let mut strip = strip(&[1, 2, 3]);
    strip.stack(2).expect("it has a neighbour");
    let mut requests = Requests::new();
    let column: Option<Column> = detach_column_from_strip(1, &mut strip, &mut requests);
    assert_eq!(column.map(|column| column.windows()), Some(vec![1, 2]));
    assert_eq!(strip.all_windows(), vec![3]);
    assert!(detach_column_from_strip(9, &mut strip, &mut requests).is_none());
}

#[test]
fn windows_move_to_the_strip_of_another_display() {
    let mut wide = window(1, true, 0, 20, 800);
    if let Some(place) = wide.placement.as_mut() {
        place.size.x = 1920;
    }
    let windows = Windows { all: vec![wide, window(2, false, 400, 20, 800)] };
    let mut source = strip(&[1, 2]);
    let mut strips = vec![entry(70, &[5], false, true)];
    let mut requests = Requests::new();
    move_focused_window_to_display(
        IRect::new(3840, 0, 5352, 900),
        MoveFocus::Stay,
        &windows,
        &mut source,
        IRect::new(0, 0, 3840, 1600),
        &mut strips,
        Some(1),
        &mut requests,
    );
    assert_eq!(source.all_windows(), vec![2]);
    assert_eq!(strips[0].strip.all_windows(), vec![5, 1]);
    assert_eq!(
        requests.list,
        vec![
            Request::Reposition { entity: 1, origin: Origin::new(3840, 0) },
            Request::Reshuffle { entity: 2, force: true },
            Request::Focus { entity: 2, raise: false },
            Request::Reshuffle { entity: 1, force: false },
            Request::RefreshSize {
                entity: 1,
                display: 60,
                width: 1920,
                source_width: Some(3840),
                timeout: Timeout::new(Duration::from_millis(150)),
            },
        ],
        "half of the old display, though the window is wider than the new one"
    );
}

#[test]
fn sizes_are_refreshed_once_the_display_has_settled() {
    let display = IRect::new(3840, 0, 5352, 900);
    let refreshed = |present: Option<Size>, viewport: Option<IRect>, share: Option<i32>| {
        let mut requests = Requests::new();
        refresh_size(1, present, viewport, share, &mut requests);
        requests.list
    };
    let to = |x: i32| {
        vec![
            Request::Resize { entity: 1, size: Size::new(x, 900) },
            Request::Reshuffle { entity: 1, force: false },
        ]
    };
    let present = Some(Size::new(400, 300));
    assert_eq!(refreshed(present, Some(display), Some(756)), to(756));
    assert_eq!(refreshed(present, Some(display), Some(2000)), to(1512));
    assert_eq!(refreshed(present, Some(display), None), to(400));
    assert_eq!(refreshed(present, None, Some(756)), vec![]);
    assert_eq!(refreshed(None, Some(display), Some(756)), vec![]);
}

#[test]
fn marks_last_as_long_as_the_shape() {
    let all = |first: WindowRecord| Windows { all: vec![first, window(2, false, 400, 20, 800)] };
    let windows = all(window(1, true, 0, 20, 800));
    let both = strip(&[1, 2]);
    assert_eq!(strip_signature(&both, &windows), vec![(1, 400), (2, 400)]);
    let mark = ManualStripOffset::of(&both, &windows);
    assert!(mark.is_current(&both, &all(window(1, true, -90, 20, 800))), "it scrolled");
    let mut growing = window(1, true, 0, 20, 800);
    if let Some(place) = growing.placement.as_mut() {
        place.resize = Some(Size::new(500, 800));
    }
    assert!(!mark.is_current(&both, &all(growing)), "it gets wider");
    assert!(!mark.is_current(&strip(&[2, 1]), &windows), "the order changed");
    assert!(!mark.is_current(&strip(&[1]), &windows), "a column is gone");
    let bare = WindowRecord { placement: None, ..window(1, true, 0, 20, 800) };
    assert_eq!(strip_signature(&both, &all(bare)), vec![(2, 400)]);
}

#[test]
fn stacked_windows_share_their_height() {
    let windows = Windows { all: vec![window(1, true, 0, 20, 300), window(2, false, 0, 320, 500)] };
    let mut strip = strip(&[1, 2]);
    strip.stack(2).expect("it has a neighbour");
    let mut requests = Requests::new();
    equalize_column(1, &windows, &strip, viewport(), &mut requests);
    let heights: Vec<i32> = requests
        .list
        .iter()
        .filter_map(|request| match request {
            Request::Resize { size, .. } => Some(size.y),
            _ => None,
        })
        .collect();
    assert_eq!(heights, vec![400, 400]);

    let mut requests = Requests::new();
    resize_window_vertical(&windows, &strip, 360, 100, &mut requests);
    let total: i32 = requests
        .list
        .iter()
        .filter_map(|request| match request {
            Request::Resize { size, .. } => Some(size.y),
            _ => None,
        })
        .sum();
    assert_eq!(total, 800, "what one gains the other gives");
}

#[test]
fn presets_step_and_cycle() {
    let larger = vec![false, false, true, true];
    let smaller = vec![true, false, false, false];
    let next = |direction: ResizeDirection, cycle: bool| {
        next_preset(&larger, &smaller, direction, cycle)
    };
    assert_eq!(next(ResizeDirection::Grow, false), Some(2));
    assert_eq!(next(ResizeDirection::Shrink, false), Some(0));
    let none = vec![false; 4];
    assert_eq!(next_preset(&none, &smaller, ResizeDirection::Grow, true), Some(0));
}

#[test]
fn centering_moves_the_strip_by_the_shortfall() {
    let windows = Windows { all: vec![window(1, true, 0, 20, 800)] };
    let mut requests = Requests::new();
    let bounds = IRect::new(0, 0, 1000, 820);
    let mark = command_center_window(&windows, &strip(&[1]), 50, bounds, &mut requests);
    assert_eq!(mark.map(|mark| mark.signature), Some(vec![(1, 400)]));
    assert_eq!(
        requests.list,
        vec![
            Request::Reposition { entity: 50, origin: Origin::new(300, 0) },
            Request::PinOffset { strip: 50 },
            Request::WarpMouse { point: Origin::new(500, 410) },
        ]
    );
    let mut requests = Requests::new();
    assert!(command_center_window(&windows, &strip(&[]), 50, bounds, &mut requests).is_none());
    assert_eq!(
        requests.list.first(),
        Some(&Request::Reposition { entity: 1, origin: Origin::new(300, 20) })
    );
    let mut requests = Requests::new();
    let mark = snap_window(&windows, &strip(&[1]), 50, viewport(), &mut requests);
    assert_eq!(mark.map(|mark| mark.signature), Some(vec![(1, 400)]));
    assert_eq!(
        requests.list,
        vec![
            Request::Reposition { entity: 50, origin: Origin::new(0, 0) },
            Request::PinOffset { strip: 50 },
        ]
    );
    balance_strip(&windows, &strip(&[1]), &mut requests);
}

#[test]
fn the_stack_command_goes_by_the_focus() {
    let windows = Windows { all: vec![window(1, false, 0, 20, 800), window(2, true, 400, 20, 800)] };
    let mut strip = strip(&[1, 2]);
    let mut requests = Requests::new();
    stack_windows_handler(true, &windows, &mut strip, &mut requests);
    assert_eq!(strip.len(), 1);
    assert!(requests.list.contains(&Request::Reshuffle { entity: 2, force: false })
        || requests.list.contains(&Request::Reshuffle { entity: 2, force: true }));
}

#[test]
fn rules_are_copied_for_the_focused_window() {
    let windows = Windows { all: vec![window(1, true, 0, 20, 800)] };
    let asked = vec![Command::Window(Operation::CopyRule)];
    assert_eq!(copy_window_rule(&asked, &windows).map(|subject| subject.id), Some(10));
    assert_eq!(copy_window_rule(&vec![Command::Quit], &windows), None);
}

#[test]
fn the_floating_layer_comes_up_and_goes_down() {
    let floating = WindowRecord { unmanaged: Some(Unmanaged::Floating), ..window(2, false, 5, 30, 9) };
    let windows = Windows { all: vec![window(1, true, 0, 20, 800), floating] };
    let mut layers = Vec::new();
    let mut requests = Requests::new();
    let mut toggle = |requests: &mut Requests| {
        command_toggle_floating_layer(
            &mut layers,
            &windows,
            &vec![10, 20],
            IRect::new(0, 0, 1000, 820),
            &strip(&[1]),
            &FocusHistory::default(),
            requests,
        )
    };
    let up = toggle(&mut requests);
    let down = toggle(&mut requests);
    assert_ne!(up, down);
}

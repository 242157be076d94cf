//! The command vocabulary, and what the commands that move the focus do.
use vstd::prelude::*;

pub mod directions;
pub mod dispatch;
pub mod displays;
pub mod extents;
pub mod layers;
pub mod sizes;
pub mod tiers;
pub mod travel;

use crate::ecs::focus::{centered_strip, centering, centering_fits, FocusHistory};
use crate::ecs::layout::{
    behind_a_tab, column_has, column_of, left_of, right_of, strip_has, top_at, ColumnKind,
    ColumnView, LayoutStrip,
};
use crate::ecs::params::{
    floats, focus_of, frame_of, holds_window, is_entity, owner_index, place_of, tiled,
    ActiveDisplay, GlobalState, StripEntry, WindowRecord, Windows,
};
use crate::ecs::{NativeFullscreenMarker, Request, Requests};
use crate::geometry::{distance, Entity, IRect, IVec2, WinID, WorkspaceId};
use crate::seqs::{find_where, first_from, first_where, kept, lemma_first_from};

verus! {

/// Where to look for a window.
#[derive(Clone, Copy, Debug, PartialEq, Eq, Structural)]
pub enum Direction {
    North,
    South,
    East,
    West,
    First,
    Last,
    /// The column with that index.
    Nth(usize),
}

impl Direction {
    /// The opposite direction; a direction without one stays.
    pub open spec fn reversed(self) -> Direction {
        match self {
            Direction::North => Direction::South,
            Direction::South => Direction::North,
            Direction::East => Direction::West,
            Direction::West => Direction::East,
            Direction::First => Direction::Last,
            Direction::Last => Direction::First,
            Direction::Nth(index) => Direction::Nth(index),
        }
    }

    pub fn reverse(self) -> (opposite: Direction)
        ensures
            opposite == self.reversed(),
    {
        match self {
            Direction::North => Direction::South,
            Direction::South => Direction::North,
            Direction::East => Direction::West,
            Direction::West => Direction::East,
            Direction::First => Direction::Last,
            Direction::Last => Direction::First,
            Direction::Nth(index) => Direction::Nth(index),
        }
    }
}

#[derive(Clone, Copy, Debug, PartialEq, Eq, Structural)]
pub enum ResizeDirection {
    Grow,
    Shrink,
}

/// Whether the focus goes along with a window that moves to another display.
#[derive(Clone, Copy, Debug, PartialEq, Eq, Structural)]
pub enum MoveFocus {
    Follow,
    Stay,
}

#[derive(Clone, Copy, Debug, PartialEq, Eq, Structural)]
pub enum MouseMove {
    ToNextDisplay,
    ToPreviousDisplay,
}

/// What a command does to windows.
#[derive(Clone, Copy, Debug, PartialEq, Eq, Structural)]
pub enum Operation {
    Focus(Direction),
    FocusUnmanaged,
    FocusManaged,
    RaiseFloating,
    ToggleFloatingLayer,
    Swap(Direction),
    Center,
    Resize(ResizeDirection),
    /// The width is a share of the viewport, in the settings' own numbers.
    SetWidth,
    ResizeVertical(ResizeDirection),
    FullWidth,
    Manage,
    CopyRule,
    ToNextDisplay(MoveFocus),
    ToPreviousDisplay(MoveFocus),
    Equalize,
    Balance,
    Snap,
    /// Onto the stack to the left, or out of the stack.
    Stack(bool),
    /// To the virtual strip above or below.
    Virtual(Direction),
    /// To the window there, else to the virtual strip there.
    FocusOrVirtual(Direction),
}

#[derive(Clone, Copy, Debug, PartialEq, Eq, Structural)]
pub enum Command {
    Window(Operation),
    Mouse(MouseMove),
    Quit,
    Restart,
    PrintState,
}

/// The sorts of operation that a handler asks for.
#[derive(Clone, Copy, Debug, PartialEq, Eq, Structural)]
pub enum OperationSort {
    Focus,
    FocusUnmanaged,
    FocusManaged,
    RaiseFloating,
    ToggleFloatingLayer,
    Swap,
    Center,
    Width,
    Height,
    FullWidth,
    Manage,
    CopyRule,
    ToDisplay,
    Equalize,
    Balance,
    Snap,
    Stack,
    /// Handled with the virtual strips.
    Virtual,
}

pub open spec fn sort_of(operation: Operation) -> OperationSort {
    match operation {
        Operation::Focus(_) => OperationSort::Focus,
        Operation::FocusUnmanaged => OperationSort::FocusUnmanaged,
        Operation::FocusManaged => OperationSort::FocusManaged,
        Operation::RaiseFloating => OperationSort::RaiseFloating,
        Operation::ToggleFloatingLayer => OperationSort::ToggleFloatingLayer,
        Operation::Swap(_) => OperationSort::Swap,
        Operation::Center => OperationSort::Center,
        Operation::Resize(_) | Operation::SetWidth => OperationSort::Width,
        Operation::ResizeVertical(_) => OperationSort::Height,
        Operation::FullWidth => OperationSort::FullWidth,
        Operation::Manage => OperationSort::Manage,
        Operation::CopyRule => OperationSort::CopyRule,
        Operation::ToNextDisplay(_) | Operation::ToPreviousDisplay(_) => OperationSort::ToDisplay,
        Operation::Equalize => OperationSort::Equalize,
        Operation::Balance => OperationSort::Balance,
        Operation::Snap => OperationSort::Snap,
        Operation::Stack(_) => OperationSort::Stack,
        Operation::Virtual(_) => OperationSort::Virtual,
        Operation::FocusOrVirtual(_) => OperationSort::Virtual,
    }
}

pub fn operation_sort(operation: Operation) -> (sort: OperationSort)
    ensures
        sort == sort_of(operation),
{
    match operation {
        Operation::Focus(_) => OperationSort::Focus,
        Operation::FocusUnmanaged => OperationSort::FocusUnmanaged,
        Operation::FocusManaged => OperationSort::FocusManaged,
        Operation::RaiseFloating => OperationSort::RaiseFloating,
        Operation::ToggleFloatingLayer => OperationSort::ToggleFloatingLayer,
        Operation::Swap(_) => OperationSort::Swap,
        Operation::Center => OperationSort::Center,
        Operation::Resize(_) => OperationSort::Width,
        Operation::SetWidth => OperationSort::Width,
        Operation::ResizeVertical(_) => OperationSort::Height,
        Operation::FullWidth => OperationSort::FullWidth,
        Operation::Manage => OperationSort::Manage,
        Operation::CopyRule => OperationSort::CopyRule,
        Operation::ToNextDisplay(_) => OperationSort::ToDisplay,
        Operation::ToPreviousDisplay(_) => OperationSort::ToDisplay,
        Operation::Equalize => OperationSort::Equalize,
        Operation::Balance => OperationSort::Balance,
        Operation::Snap => OperationSort::Snap,
        Operation::Stack(_) => OperationSort::Stack,
        Operation::Virtual(_) => OperationSort::Virtual,
        Operation::FocusOrVirtual(_) => OperationSort::Virtual,
    }
}

/// The window operations of one sort among the first `n` commands, in order.
pub open spec fn operations_to(commands: Seq<Command>, sort: OperationSort, n: int) -> Seq<
    Operation,
>
    decreases n,
{
    if n <= 0 {
        Seq::empty()
    } else {
        match commands[n - 1] {
            Command::Window(operation) if sort_of(operation) == sort => operations_to(
                commands,
                sort,
                n - 1,
            ).push(operation),
            _ => operations_to(commands, sort, n - 1),
        }
    }
}

/// The window operations of one sort among the commands, in order.
pub fn filter_window_operations(commands: &Vec<Command>, sort: OperationSort) -> (operations: Vec<
    Operation,
>)
    ensures
        operations@ == operations_to(commands@, sort, commands@.len() as int),
{
    let mut operations: Vec<Operation> = Vec::new();
    let mut i: usize = 0;
    while i < commands.len()
        invariant
            i <= commands.len(),
            operations@ == operations_to(commands@, sort, i as int),
        decreases commands.len() - i,
    {
        if let Command::Window(operation) = commands[i] {
            if operation_sort(operation) == sort {
                operations.push(operation);
            }
        }
        i = i + 1;
    }
    operations
}

/// Whether the command is among those given.
pub fn any_command(commands: &Vec<Command>, wanted: Command) -> (found: bool)
    ensures
        found == commands@.contains(wanted),
{
    let mut i: usize = 0;
    while i < commands.len()
        invariant
            i <= commands.len(),
            forall|j: int| 0 <= j < i ==> commands@[j] != wanted,
        decreases commands.len() - i,
    {
        if commands[i] == wanted {
            assert(commands@[i as int] == wanted);
            return true;
        }
        i = i + 1;
    }
    false
}

/// Whether the window manager is asked to quit.
pub fn command_quit_handler(commands: &Vec<Command>) -> (quit: bool)
    ensures
        quit == commands@.contains(Command::Quit),
{
    any_command(commands, Command::Quit)
}

/// Whether the window manager is asked to start again.
pub fn command_restart_handler(commands: &Vec<Command>) -> (restart: bool)
    ensures
        restart == commands@.contains(Command::Restart),
{
    any_command(commands, Command::Restart)
}

/// Whether a focus command may run during the warm-up: once the first layout is
/// made.
pub fn focus_warmup_bypass(cold: bool, initializing: bool) -> (bypass: bool)
    ensures
        bypass == (cold && !initializing),
{
    cold && !initializing
}

/// The window found in a direction from `entity` within its strip.
pub open spec fn found_in_direction(
    direction: Direction,
    entity: Entity,
    columns: Seq<ColumnView>,
) -> Option<Entity> {
    let at = column_of(columns, entity);
    if at >= columns.len() {
        None
    } else {
        let column = columns[at];
        let row = column.row_of(entity);
        match direction {
            Direction::West => left_of(columns, entity),
            Direction::East => right_of(columns, entity),
            Direction::First => top_at(columns, 0),
            Direction::Last => top_at(columns, columns.len() - 1),
            Direction::Nth(index) => top_at(columns, index as int),
            Direction::North => if column.kind == ColumnKind::Stack && row > 0 {
                column.front(row - 1)
            } else {
                None
            },
            Direction::South => if column.kind == ColumnKind::Stack {
                column.front(row + 1)
            } else {
                None
            },
        }
    }
}

/// The window in a direction from `entity` within its strip: the neighbour on
/// either side in the same row, the one above or below in a stack, or the top of
/// the first, the last or the given column.
pub fn get_window_in_direction(direction: &Direction, entity: Entity, strip: &LayoutStrip) -> (found:
    Option<Entity>)
    ensures
        found == found_in_direction(*direction, entity, strip@),
{
    let at = match strip.index_of(entity) {
        Some(at) => at,
        None => {
            return None;
        },
    };
    proof {
        lemma_first_from(strip@, column_has(entity), 0);
    }
    match *direction {
        Direction::West => strip.left_neighbour(entity),
        Direction::East => strip.right_neighbour(entity),
        Direction::First => strip.first_top(),
        Direction::Last => strip.last_top(),
        Direction::Nth(index) => strip.top_at(index),
        Direction::North => {
            let column = &strip.columns[at];
            if column.kind != ColumnKind::Stack {
                return None;
            }
            match column.row_of(entity) {
                Some(row) => if row > 0 {
                    column.front(row - 1)
                } else {
                    None
                },
                None => None,
            }
        },
        Direction::South => {
            let column = &strip.columns[at];
            if column.kind != ColumnKind::Stack {
                return None;
            }
            match column.row_of(entity) {
                Some(row) => if row < column.items.len() - 1 {
                    column.front(row + 1)
                } else {
                    None
                },
                None => None,
            }
        },
    }
}

/// A point lies in the quarter of the plane that opens in that direction.
pub open spec fn in_cone(direction: Direction, from: IVec2, to: IVec2) -> bool {
    let dx = to.x - from.x;
    let dy = to.y - from.y;
    let ax = distance(to.x as int, from.x as int);
    let ay = distance(to.y as int, from.y as int);
    match direction {
        Direction::East => dx > 0 && ay <= ax,
        Direction::West => dx < 0 && ay <= ax,
        Direction::North => dy < 0 && ax <= ay,
        Direction::South => dy > 0 && ax <= ay,
        _ => false,
    }
}

/// The square of the distance between two points.
pub open spec fn square_distance(a: IVec2, b: IVec2) -> int {
    (b.x - a.x) * (b.x - a.x) + (b.y - a.y) * (b.y - a.y)
}

/// The nearest of the first `n` candidates in that direction, the first of
/// several that are equally near.
pub open spec fn nearest_to(
    direction: Direction,
    from: IVec2,
    candidates: Seq<(Entity, IVec2)>,
    n: int,
) -> Option<int>
    decreases n,
{
    if n <= 0 {
        None
    } else {
        let before = nearest_to(direction, from, candidates, n - 1);
        if !in_cone(direction, from, candidates[n - 1].1) {
            before
        } else {
            match before {
                Some(best) => if square_distance(from, candidates[n - 1].1) < square_distance(
                    from,
                    candidates[best].1,
                ) {
                    Some(n - 1)
                } else {
                    before
                },
                None => Some(n - 1),
            }
        }
    }
}

/// The nearest candidate in that direction.
pub open spec fn nearest_candidate(
    direction: Direction,
    from: IVec2,
    candidates: Seq<(Entity, IVec2)>,
) -> Option<Entity> {
    match nearest_to(direction, from, candidates, candidates.len() as int) {
        Some(at) => Some(candidates[at].0),
        None => None,
    }
}

fn is_in_cone(direction: Direction, from: IVec2, to: IVec2) -> (inside: bool)
    ensures
        inside == in_cone(direction, from, to),
{
    let dx: i64 = to.x as i64 - from.x as i64;
    let dy: i64 = to.y as i64 - from.y as i64;
    let ax: i64 = if dx >= 0 {
        dx
    } else {
        -dx
    };
    let ay: i64 = if dy >= 0 {
        dy
    } else {
        -dy
    };
    match direction {
        Direction::East => dx > 0 && ay <= ax,
        Direction::West => dx < 0 && ay <= ax,
        Direction::North => dy < 0 && ax <= ay,
        Direction::South => dy > 0 && ax <= ay,
        _ => false,
    }
}

fn square_gap(a: IVec2, b: IVec2) -> (gap: i128)
    ensures
        gap == square_distance(a, b),
{
    let dx: i128 = b.x as i128 - a.x as i128;
    let dy: i128 = b.y as i128 - a.y as i128;
    assert(0 <= dx * dx <= 0x1_0000_0000 * 0x1_0000_0000) by (nonlinear_arith)
        requires
            -0x1_0000_0000 <= dx <= 0x1_0000_0000,
    ;
    assert(0 <= dy * dy <= 0x1_0000_0000 * 0x1_0000_0000) by (nonlinear_arith)
        requires
            -0x1_0000_0000 <= dy <= 0x1_0000_0000,
    ;
    dx * dx + dy * dy
}

/// The candidate nearest to a point in the quarter that opens in a direction.
/// The directions that count columns find none.
pub fn pick_nearest_in_direction(
    direction: &Direction,
    focused_center: IVec2,
    candidates: &Vec<(Entity, IVec2)>,
) -> (found: Option<Entity>)
    ensures
        found == nearest_candidate(*direction, focused_center, candidates@),
{
    let mut best: Option<usize> = None;
    let mut i: usize = 0;
    while i < candidates.len()
        invariant
            i <= candidates.len(),
            match best {
                Some(at) => at < i && nearest_to(
                    *direction,
                    focused_center,
                    candidates@,
                    i as int,
                ) == Some(at as int),
                None => nearest_to(*direction, focused_center, candidates@, i as int) is None,
            },
        decreases candidates.len() - i,
    {
        if is_in_cone(*direction, focused_center, candidates[i].1) {
            match best {
                Some(at) => {
                    if square_gap(focused_center, candidates[i].1) < square_gap(
                        focused_center,
                        candidates[at].1,
                    ) {
                        best = Some(i);
                    }
                },
                None => {
                    best = Some(i);
                },
            }
        }
        i = i + 1;
    }
    match best {
        Some(at) => Some(candidates[at].0),
        None => None,
    }
}

/// What is picked lies in the direction, and nothing in the direction is
/// nearer; nothing is picked only where nothing lies in the direction.
pub proof fn picked_is_nearest(direction: Direction, from: IVec2, candidates: Seq<(Entity, IVec2)>, n: int)
    requires
        0 <= n <= candidates.len(),
    ensures
        match nearest_to(direction, from, candidates, n) {
            Some(at) => 0 <= at < n && in_cone(direction, from, candidates[at].1) && forall|j: int|
                0 <= j < n && in_cone(direction, from, (#[trigger] candidates[j]).1)
                    ==> square_distance(from, candidates[at].1) <= square_distance(
                    from,
                    candidates[j].1,
                ),
            None => forall|j: int|
                0 <= j < n ==> !in_cone(direction, from, (#[trigger] candidates[j]).1),
        },
    decreases n,
{
    if n > 0 {
        picked_is_nearest(direction, from, candidates, n - 1);
    }
}

/// The condition of floating in the workspace and showing on the display.
pub open spec fn floats_in_view(
    windows: Seq<WindowRecord>,
    workspace_windows: Seq<WinID>,
    display_bounds: IRect,
) -> spec_fn(WindowRecord) -> bool {
    |window: WindowRecord|
        floats(windows, window.entity) && workspace_windows.contains(
            find_where(windows, is_entity(window.entity))->0.id,
        ) && (frame_of(windows, window.entity) matches Some(frame) && !display_bounds.overlap(
            frame,
        ).vacant())
}

/// The handles of some windows.
pub open spec fn handles(windows: Seq<WindowRecord>) -> Seq<Entity> {
    windows.map_values(|window: WindowRecord| window.entity)
}

/// The windows that float in the workspace and show on the display, in the order
/// of all windows.
pub open spec fn visible_floats(
    windows: Seq<WindowRecord>,
    workspace_windows: Seq<WinID>,
    display_bounds: IRect,
) -> Seq<Entity> {
    handles(
        kept(
            windows,
            floats_in_view(windows, workspace_windows, display_bounds),
            windows.len() as int,
        ),
    )
}

fn ids_contain(ids: &Vec<WinID>, id: WinID) -> (found: bool)
    ensures
        found == ids@.contains(id),
{
    let mut i: usize = 0;
    while i < ids.len()
        invariant
            i <= ids.len(),
            forall|j: int| 0 <= j < i ==> ids@[j] != id,
        decreases ids.len() - i,
    {
        if ids[i] == id {
            assert(ids@[i as int] == id);
            return true;
        }
        i = i + 1;
    }
    false
}

/// The windows that float in the workspace and show on the display.
pub fn visible_floating_entities(
    windows: &Windows,
    workspace_windows: &Vec<WinID>,
    display_bounds: IRect,
) -> (entities: Vec<Entity>)
    requires
        windows.wf(),
    ensures
        entities@ == visible_floats(windows.all@, workspace_windows@, display_bounds),
{
    let mut entities: Vec<Entity> = Vec::new();
    let ghost condition = floats_in_view(windows.all@, workspace_windows@, display_bounds);
    let mut i: usize = 0;
    assert(entities@ =~= handles(kept(windows.all@, condition, 0)));
    while i < windows.all.len()
        invariant
            i <= windows.all.len(),
            windows.wf(),
            condition == floats_in_view(windows.all@, workspace_windows@, display_bounds),
            entities@ == handles(kept(windows.all@, condition, i as int)),
        decreases windows.all.len() - i,
    {
        let entity = windows.all[i].entity;
        let mut keep: bool = false;
        if windows.is_floating(entity) {
            if let Some(window) = windows.get(entity) {
                if ids_contain(workspace_windows, window.id) {
                    if let Some(frame) = windows.frame(entity) {
                        keep = !display_bounds.intersect(frame).is_empty();
                    }
                }
            }
        }
        assert(keep == condition(windows.all@[i as int]));
        if keep {
            entities.push(entity);
            assert(entities@ =~= handles(kept(windows.all@, condition, i + 1)));
        }
        i = i + 1;
    }
    entities
}

/// The centres of those of the first `n` windows that have a frame, without
/// `focused`.
pub open spec fn centers_to(
    entities: Seq<Entity>,
    focused: Entity,
    windows: Seq<WindowRecord>,
    n: int,
) -> Seq<(Entity, IVec2)>
    decreases n,
{
    if n <= 0 {
        Seq::empty()
    } else {
        let before = centers_to(entities, focused, windows, n - 1);
        match frame_of(windows, entities[n - 1]) {
            Some(frame) => if entities[n - 1] != focused {
                before.push((entities[n - 1], frame.spec_center()))
            } else {
                before
            },
            None => before,
        }
    }
}

/// Every frame has a centre.
pub open spec fn frames_centerable(windows: Seq<WindowRecord>) -> bool {
    forall|entity: Entity|
        (#[trigger] frame_of(windows, entity)) matches Some(frame) ==> frame.centerable()
}

/// The floating window nearest to the focused one in that direction.
pub open spec fn nearest_float(
    direction: Direction,
    focused: Entity,
    windows: Seq<WindowRecord>,
    floating: Seq<Entity>,
) -> Option<Entity> {
    match frame_of(windows, focused) {
        Some(frame) => nearest_candidate(
            direction,
            frame.spec_center(),
            centers_to(floating, focused, windows, floating.len() as int),
        ),
        None => None,
    }
}

/// The floating window nearest to the focused one in that direction, among those
/// that show on the display.
pub fn nearest_float_in_direction(
    direction: &Direction,
    focused: Entity,
    windows: &Windows,
    workspace_windows: &Vec<WinID>,
    display_bounds: IRect,
) -> (found: Option<Entity>)
    requires
        windows.wf(),
        frames_centerable(windows.all@),
    ensures
        found == nearest_float(
            *direction,
            focused,
            windows.all@,
            visible_floats(windows.all@, workspace_windows@, display_bounds),
        ),
{
    let center = match windows.frame(focused) {
        Some(frame) => {
            assert(frame_of(windows.all@, focused) is Some);
            frame.center()
        },
        None => {
            return None;
        },
    };
    let floating = visible_floating_entities(windows, workspace_windows, display_bounds);
    let mut candidates: Vec<(Entity, IVec2)> = Vec::new();
    let mut i: usize = 0;
    while i < floating.len()
        invariant
            i <= floating.len(),
            windows.wf(),
            frames_centerable(windows.all@),
            candidates@ == centers_to(floating@, focused, windows.all@, i as int),
        decreases floating.len() - i,
    {
        if let Some(frame) = windows.frame(floating[i]) {
            assert(frame_of(windows.all@, floating@[i as int]) is Some);
            if floating[i] != focused {
                candidates.push((floating[i], frame.center()));
            }
        }
        i = i + 1;
    }
    pick_nearest_in_direction(direction, center, &candidates)
}

/// What decides whether a window is centred when a command gives it the focus.
#[derive(Clone, Copy, Debug, PartialEq, Eq, Structural)]
pub struct CenterGuards {
    /// The setting that centres windows.
    pub auto_center: bool,
    pub mouse_held: bool,
    pub state: GlobalState,
}

/// Whether a window that a command focuses is centred by moving its strip.
pub open spec fn centers_on_arrival(
    entity: Entity,
    windows: Seq<WindowRecord>,
    strips: Seq<StripEntry>,
    active_columns: Seq<ColumnView>,
    restored: Seq<Entity>,
    guards: CenterGuards,
) -> bool {
    &&& guards.auto_center
    &&& !guards.state.skip_reshuffle
    &&& !guards.state.initializing
    &&& !guards.mouse_held
    &&& !restored.contains(entity)
    &&& !behind_a_tab(active_columns, entity)
    &&& tiled(windows, entity)
    &&& place_of(windows, entity) is Some
    &&& first_where(strips, holds_window(entity)) < strips.len()
}

/// The strip offset that centres a window on the active display.
pub open spec fn arrival_offset(
    entity: Entity,
    windows: Seq<WindowRecord>,
    strips: Seq<StripEntry>,
    bounds: IRect,
) -> Request {
    let place = place_of(windows, entity)->0;
    Request::Reposition {
        entity: strips[first_where(strips, holds_window(entity))].entity,
        origin: centering(bounds, place.size, place.layout),
    }
}

/// Centres a window that a command gives the focus, by moving its strip. Answers
/// whether it did, in which case the caller leaves the layout alone.
pub fn focus_arrival_center(
    entity: Entity,
    windows: &Windows,
    strips: &Vec<StripEntry>,
    active_strip: &LayoutStrip,
    bounds: IRect,
    restored: &Vec<Entity>,
    guards: CenterGuards,
    requests: &mut Requests,
) -> (centered: bool)
    requires
        place_of(windows.all@, entity) matches Some(place) ==> centering_fits(
            bounds,
            place.size,
            place.layout,
        ),
    ensures
        centered == centers_on_arrival(
            entity,
            windows.all@,
            strips@,
            active_strip@,
            restored@,
            guards,
        ),
        final(requests)@ == (if centered {
            old(requests)@.push(arrival_offset(entity, windows.all@, strips@, bounds))
        } else {
            old(requests)@
        }),
{
    if !guards.auto_center || guards.state.skip_reshuffle || guards.state.initializing
        || guards.mouse_held || crate::ecs::layout::list_contains(restored, entity)
        || active_strip.tabbed(entity) || !windows.is_tiled(entity) {
        return false;
    }
    match (windows.placement(entity), owner_index(entity, strips)) {
        (Some(place), Some(at)) => {
            let target = centered_strip(bounds, place.size, place.layout);
            requests.reposition_entity(strips[at].entity, target);
            true
        },
        _ => false,
    }
}

/// The condition of being that strip.
pub open spec fn is_strip(entity: Entity) -> spec_fn(StripEntry) -> bool {
    |entry: StripEntry| entry.entity == entity
}

/// The condition of belonging to that workspace.
pub open spec fn in_workspace(id: WorkspaceId) -> spec_fn(StripEntry) -> bool {
    |entry: StripEntry| entry.strip.id == id
}

/// The strip that a fullscreen window came from: by its handle, or else the
/// first of its workspace.
pub open spec fn origin_strip(strips: Seq<StripEntry>, marker: NativeFullscreenMarker) -> Option<
    StripEntry,
> {
    match find_where(strips, is_strip(marker.layout_strip)) {
        Some(entry) => Some(entry),
        None => find_where(strips, in_workspace(marker.workspace_id)),
    }
}

/// The window that the command to the west reaches from a fullscreen space: the
/// last column of the strip that the fullscreen window came from.
pub open spec fn west_of_fullscreen(
    direction: Direction,
    fullscreen: Option<NativeFullscreenMarker>,
    strips: Seq<StripEntry>,
) -> Option<Entity> {
    match fullscreen {
        Some(marker) => if direction == Direction::West {
            match origin_strip(strips, marker) {
                Some(entry) => top_at(entry.strip@, entry.strip@.len() - 1),
                None => None,
            }
        } else {
            None
        },
        None => None,
    }
}

/// The window to the west of a fullscreen space.
pub fn focus_fullscreen_west(
    direction: &Direction,
    fullscreen: Option<NativeFullscreenMarker>,
    strips: &Vec<StripEntry>,
) -> (found: Option<Entity>)
    ensures
        found == west_of_fullscreen(*direction, fullscreen, strips@),
{
    if *direction != Direction::West {
        return None;
    }
    let marker = match fullscreen {
        Some(marker) => marker,
        None => {
            return None;
        },
    };
    let mut i: usize = 0;
    while i < strips.len()
        invariant
            i <= strips.len(),
            first_where(strips@, is_strip(marker.layout_strip)) == first_from(
                strips@,
                is_strip(marker.layout_strip),
                i as int,
            ),
            fullscreen == Some(marker),
            *direction == Direction::West,
        decreases strips.len() - i,
    {
        if strips[i].entity == marker.layout_strip {
            return strips[i].strip.last_top();
        }
        i = i + 1;
    }
    let mut k: usize = 0;
    while k < strips.len()
        invariant
            k <= strips.len(),
            first_where(strips@, is_strip(marker.layout_strip)) == strips@.len(),
            first_where(strips@, in_workspace(marker.workspace_id)) == first_from(
                strips@,
                in_workspace(marker.workspace_id),
                k as int,
            ),
            fullscreen == Some(marker),
            *direction == Direction::West,
        decreases strips.len() - k,
    {
        if strips[k].strip.id == marker.workspace_id {
            return strips[k].strip.last_top();
        }
        k = k + 1;
    }
    None
}

/// The condition of being another fullscreen space of that display.
pub open spec fn fullscreen_beside(id: WorkspaceId, display: Entity) -> spec_fn(StripEntry) -> bool {
    |entry: StripEntry|
        entry.native_fullscreen && entry.strip.id != id && entry.display == display
}

/// What the focus rules read of the active display and its strips.
pub struct FocusScene<'a> {
    pub windows: &'a Windows,
    pub strips: &'a Vec<StripEntry>,
    pub active: &'a ActiveDisplay,
    pub active_strip: &'a LayoutStrip,
    /// The windows of the workspace on screen.
    pub workspace_windows: &'a Vec<WinID>,
    /// Windows whose focus comes from a restore.
    pub restored: &'a Vec<Entity>,
    pub guards: CenterGuards,
}

/// The window of the strip on screen that a focus command reaches.
pub open spec fn strip_candidate(
    direction: Direction,
    focused: Entity,
    active_columns: Seq<ColumnView>,
    active_id: WorkspaceId,
    display: Entity,
    strips: Seq<StripEntry>,
) -> Option<Entity> {
    if strip_has(active_columns, focused) {
        match found_in_direction(direction, focused, active_columns) {
            Some(entity) => Some(entity),
            None => if direction == Direction::East {
                match find_where(strips, fullscreen_beside(active_id, display)) {
                    Some(entry) => top_at(entry.strip@, 0),
                    None => None,
                }
            } else {
                None
            },
        }
    } else {
        match direction {
            Direction::East | Direction::First => top_at(active_columns, 0),
            Direction::West | Direction::Last => top_at(
                active_columns,
                active_columns.len() - 1,
            ),
            Direction::Nth(index) => top_at(active_columns, index as int),
            Direction::North | Direction::South => None,
        }
    }
}

/// How a focus command is answered.
#[derive(Clone, Copy, Debug, PartialEq, Eq, Structural)]
pub enum FocusStep {
    /// The focus moves without any change to the layout.
    Jump(Entity),
    /// The focus stays: no floating window lies that way.
    Stay,
    /// The focus moves within the strip, which follows.
    Within(Entity),
    /// No window of the strip lies that way.
    Nowhere,
}

impl<'a> FocusScene<'a> {
    /// Every frame can be measured, and every window can be centred.
    pub open spec fn wf(self) -> bool {
        &&& self.windows.wf()
        &&& frames_centerable(self.windows.all@)
        &&& forall|entity: Entity|
            (#[trigger] place_of(self.windows.all@, entity)) matches Some(place) ==> centering_fits(
                self.active.bounds,
                place.size,
                place.layout,
            )
    }

    /// How a focus command is answered from the window that has the focus.
    pub open spec fn step(self, direction: Direction, focused: Entity) -> FocusStep {
        match west_of_fullscreen(direction, self.active.fullscreen, self.strips@) {
            Some(entity) => FocusStep::Jump(entity),
            None => if floats(self.windows.all@, focused) && !(direction is Nth) {
                match nearest_float(
                    direction,
                    focused,
                    self.windows.all@,
                    visible_floats(
                        self.windows.all@,
                        self.workspace_windows@,
                        self.active.bounds,
                    ),
                ) {
                    Some(entity) => FocusStep::Jump(entity),
                    None => FocusStep::Stay,
                }
            } else {
                match strip_candidate(
                    direction,
                    focused,
                    self.active_strip@,
                    self.active_strip.id,
                    self.active.entity,
                    self.strips@,
                ) {
                    Some(entity) => FocusStep::Within(entity),
                    None => FocusStep::Nowhere,
                }
            },
        }
    }

    /// The requests of one answer.
    pub open spec fn step_requests(self, step: FocusStep) -> Seq<Request> {
        match step {
            FocusStep::Jump(entity) => seq![Request::Focus { entity, raise: true }],
            FocusStep::Within(entity) => if centers_on_arrival(
                entity,
                self.windows.all@,
                self.strips@,
                self.active_strip@,
                self.restored@,
                self.guards,
            ) {
                seq![
                    arrival_offset(entity, self.windows.all@, self.strips@, self.active.bounds),
                    Request::Focus { entity, raise: true },
                ]
            } else {
                seq![
                    Request::Focus { entity, raise: true },
                    Request::Reshuffle { entity, force: false },
                ]
            },
            _ => Seq::empty(),
        }
    }
}

/// The window that holds the focus after an answer, or none where the command
/// goes on to another display.
pub open spec fn arrived(step: FocusStep, focused: Entity) -> Option<Entity> {
    match step {
        FocusStep::Jump(entity) => Some(entity),
        FocusStep::Stay => Some(focused),
        FocusStep::Within(entity) => Some(entity),
        FocusStep::Nowhere => None,
    }
}

/// The focus that is pending after an answer.
pub open spec fn pending_after(step: FocusStep, pending: Option<Entity>) -> Option<Entity> {
    match step {
        FocusStep::Jump(entity) => Some(entity),
        FocusStep::Within(entity) => Some(entity),
        _ => pending,
    }
}

/// The first other fullscreen space of the display.
fn fullscreen_beside_top(strips: &Vec<StripEntry>, id: WorkspaceId, display: Entity) -> (found:
    Option<Entity>)
    ensures
        found == (match find_where(strips@, fullscreen_beside(id, display)) {
            Some(entry) => top_at(entry.strip@, 0),
            None => None,
        }),
{
    let mut i: usize = 0;
    while i < strips.len()
        invariant
            i <= strips.len(),
            first_where(strips@, fullscreen_beside(id, display)) == first_from(
                strips@,
                fullscreen_beside(id, display),
                i as int,
            ),
        decreases strips.len() - i,
    {
        if strips[i].native_fullscreen && strips[i].strip.id != id && strips[i].display == display {
            return strips[i].strip.first_top();
        }
        i = i + 1;
    }
    None
}

/// The window of the strip on screen that a focus command reaches. From a window
/// that is not on the strip, the strip is entered from the matching side.
fn candidate_in_strip(scene: &FocusScene, direction: Direction, focused: Entity) -> (found: Option<
    Entity,
>)
    ensures
        found == strip_candidate(
            direction,
            focused,
            scene.active_strip@,
            scene.active_strip.id,
            scene.active.entity,
            scene.strips@,
        ),
{
    let strip = scene.active_strip;
    if strip.contains(focused) {
        match get_window_in_direction(&direction, focused, strip) {
            Some(entity) => Some(entity),
            None => if direction == Direction::East {
                fullscreen_beside_top(scene.strips, strip.id, scene.active.entity)
            } else {
                None
            },
        }
    } else {
        match direction {
            Direction::East => strip.first_top(),
            Direction::First => strip.first_top(),
            Direction::West => strip.last_top(),
            Direction::Last => strip.last_top(),
            Direction::Nth(index) => strip.top_at(index),
            Direction::North => None,
            Direction::South => None,
        }
    }
}

/// One focus command from `focused`. Answers the window that holds the focus
/// afterwards, or none where no window of the strip lies that way.
pub fn focus_move_step(
    direction: &Direction,
    focused: Entity,
    scene: &FocusScene,
    history: &mut FocusHistory,
    requests: &mut Requests,
) -> (arrival: Option<Entity>)
    requires
        scene.wf(),
    ensures
        arrival == arrived(scene.step(*direction, focused), focused),
        final(requests)@ == old(requests)@ + scene.step_requests(scene.step(*direction, focused)),
        final(history).pending_focus == pending_after(
            scene.step(*direction, focused),
            old(history).pending_focus,
        ),
        final(history).by_workspace == old(history).by_workspace,
{
    let ghost step = scene.step(*direction, focused);
    if let Some(entity) = focus_fullscreen_west(
        direction,
        scene.active.fullscreen,
        scene.strips,
    ) {
        history.pending_focus = Some(entity);
        requests.focus_entity(entity, true);
        assert(requests@ =~= old(requests)@ + scene.step_requests(step));
        return Some(entity);
    }
    let counted: bool = match *direction {
        Direction::Nth(_) => true,
        _ => false,
    };
    if scene.windows.is_floating(focused) && !counted {
        match nearest_float_in_direction(
            direction,
            focused,
            scene.windows,
            scene.workspace_windows,
            scene.active.bounds,
        ) {
            Some(entity) => {
                history.pending_focus = Some(entity);
                requests.focus_entity(entity, true);
                assert(requests@ =~= old(requests)@ + scene.step_requests(step));
                return Some(entity);
            },
            None => {
                assert(requests@ =~= old(requests)@ + scene.step_requests(step));
                return Some(focused);
            },
        }
    }
    match candidate_in_strip(scene, *direction, focused) {
        Some(entity) => {
            history.pending_focus = Some(entity);
            assert(place_of(scene.windows.all@, entity) matches Some(place) ==> centering_fits(
                scene.active.bounds,
                place.size,
                place.layout,
            ));
            let centered = focus_arrival_center(
                entity,
                scene.windows,
                scene.strips,
                scene.active_strip,
                scene.active.bounds,
                scene.restored,
                scene.guards,
                requests,
            );
            requests.focus_entity(entity, true);
            if !centered {
                requests.reshuffle_around(entity);
            }
            assert(requests@ =~= old(requests)@ + scene.step_requests(step));
            Some(entity)
        },
        None => {
            assert(requests@ =~= old(requests)@ + scene.step_requests(step));
            None
        },
    }
}

/// How far a run of focus commands has come.
pub struct FocusRun {
    pub arrival: Option<Entity>,
    pub pending: Option<Entity>,
    pub requests: Seq<Request>,
    /// The directions that left the strip, up or down.
    pub leaving: Seq<Direction>,
}

/// The window that the next command of a run starts from.
pub open spec fn anchor_of(arrival: Option<Entity>, windows: Seq<WindowRecord>) -> Option<Entity> {
    match arrival {
        Some(entity) => Some(entity),
        None => match focus_of(windows) {
            Some(window) => Some(window.entity),
            None => None,
        },
    }
}

impl<'a> FocusScene<'a> {
    /// The run after the first `n` commands. Each one starts from where the one
    /// before it arrived.
    pub open spec fn run(
        self,
        directions: Seq<Direction>,
        pending: Option<Entity>,
        requests: Seq<Request>,
        n: int,
    ) -> FocusRun
        decreases n,
    {
        if n <= 0 {
            FocusRun { arrival: None, pending, requests, leaving: Seq::empty() }
        } else {
            let before = self.run(directions, pending, requests, n - 1);
            match anchor_of(before.arrival, self.windows.all@) {
                None => before,
                Some(anchor) => {
                    let direction = directions[n - 1];
                    let step = self.step(direction, anchor);
                    FocusRun {
                        arrival: match arrived(step, anchor) {
                            Some(entity) => Some(entity),
                            None => before.arrival,
                        },
                        pending: pending_after(step, before.pending),
                        requests: before.requests + self.step_requests(step),
                        leaving: if step == FocusStep::Nowhere && (direction == Direction::North
                            || direction == Direction::South) {
                            before.leaving.push(direction)
                        } else {
                            before.leaving
                        },
                    }
                },
            }
        }
    }
}

/// Answers every queued focus command in turn: several presses in one batch are
/// several steps. Answers the directions, up or down, that found no window and
/// go on to another display.
pub fn command_move_focus(
    directions: &Vec<Direction>,
    scene: &FocusScene,
    history: &mut FocusHistory,
    requests: &mut Requests,
) -> (leaving: Vec<Direction>)
    requires
        scene.wf(),
    ensures
        ({
            let run = scene.run(
                directions@,
                old(history).pending_focus,
                old(requests)@,
                directions@.len() as int,
            );
            &&& leaving@ == run.leaving
            &&& final(requests)@ == run.requests
            &&& final(history).pending_focus == run.pending
            &&& final(history).by_workspace == old(history).by_workspace
        }),
{
    let mut arrival: Option<Entity> = None;
    let mut leaving: Vec<Direction> = Vec::new();
    let mut i: usize = 0;
    while i < directions.len()
        invariant
            i <= directions.len(),
            scene.wf(),
            ({
                let run = scene.run(
                    directions@,
                    old(history).pending_focus,
                    old(requests)@,
                    i as int,
                );
                &&& arrival == run.arrival
                &&& leaving@ == run.leaving
                &&& requests@ == run.requests
                &&& history.pending_focus == run.pending
                &&& history.by_workspace == old(history).by_workspace
            }),
        decreases directions.len() - i,
    {
        let direction = directions[i];
        let anchor = match arrival {
            Some(entity) => Some(entity),
            None => match scene.windows.focused() {
                Some(window) => Some(window.entity),
                None => None,
            },
        };
        if let Some(from) = anchor {
            match focus_move_step(&direction, from, scene, history, requests) {
                Some(entity) => {
                    arrival = Some(entity);
                },
                None => {
                    if direction == Direction::North || direction == Direction::South {
                        leaving.push(direction);
                    }
                },
            }
        }
        i = i + 1;
    }
    leaving
}

} // verus!

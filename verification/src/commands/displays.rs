//! Commands that move windows, and the pointer, between places and displays.
use vstd::prelude::*;

use crate::commands::layers::{focused_record, focused_window};
use crate::commands::{
    found_in_direction, get_window_in_direction, in_workspace, Command, Direction, MouseMove,
    MoveFocus, Operation,
};
use crate::ecs::layout::{
    column_has, column_of, heir_of, strip_has, strip_wf, strip_without, windows_to, Column,
    ColumnKind, ColumnView, LayoutStrip,
};
use crate::ecs::params::{
    beyond, focus_of, frame_of, is_entity, nearest_beyond, neighbour_in, ring_neighbour_of_cursor,
    ring_of, size_of, under, ActiveDisplay, DisplaySnapshot, StripEntry, WindowRecord, Windows,
};
use crate::ecs::{resizing, Request, Requests, Timeout};
use crate::geometry::{
    fits, half, halved, min_i32, spec_min, Entity, IRect, Origin, Size, WorkspaceId,
};
use crate::seqs::{find_where, first_from, first_where, kept, lemma_first_from};
use crate::time::Duration;

verus! {

/// How long a display has to settle before the size of a window that came to it is
/// refreshed, in milliseconds.
pub const REFRESH_DELAY_MS: u64 = 150;

/// Takes a window out of its strip. The neighbour that takes its place is laid
/// out again, forced, so that the gap closes.
pub fn detach_window_from_strip(entity: Entity, strip: &mut LayoutStrip, requests: &mut Requests) -> (neighbour:
    Option<Entity>)
    requires
        strip_wf(old(strip)@),
    ensures
        neighbour == heir_of(old(strip)@, entity),
        final(strip)@ == strip_without(old(strip)@, entity),
        final(strip).id == old(strip).id,
        final(strip).virtual_index == old(strip).virtual_index,
        final(requests)@ == old(requests)@ + closing(neighbour),
{
    let neighbour = strip.heir(entity);
    strip.remove(entity);
    if let Some(heir) = neighbour {
        requests.reshuffle_around_forced(heir);
    }
    assert(requests@ =~= old(requests)@ + closing(neighbour));
    neighbour
}

/// The request that closes a gap next to `neighbour`.
pub open spec fn closing(neighbour: Option<Entity>) -> Seq<Request> {
    match neighbour {
        Some(entity) => seq![Request::Reshuffle { entity, force: true }],
        None => Seq::empty(),
    }
}

/// Takes the whole column of a window out of its strip, so that stacks and tabs
/// travel intact.
pub fn detach_column_from_strip(entity: Entity, strip: &mut LayoutStrip, requests: &mut Requests) -> (column:
    Option<Column>)
    ensures
        match column {
            Some(taken) => {
                let at = column_of(old(strip)@, entity);
                &&& strip_has(old(strip)@, entity)
                &&& taken@ == old(strip)@[at]
                &&& final(strip)@ == old(strip)@.remove(at)
                &&& final(requests)@ == old(requests)@ + closing(heir_of(old(strip)@, entity))
            },
            None => !strip_has(old(strip)@, entity) && final(strip)@ == old(strip)@ && final(
                requests)@ == old(requests)@,
        },
        final(strip).id == old(strip).id,
        final(strip).virtual_index == old(strip).virtual_index,
{
    let neighbour = strip.heir(entity);
    let at = match strip.index_of(entity) {
        Some(at) => at,
        None => {
            return None;
        },
    };
    proof {
        lemma_first_from(strip@, column_has(entity), 0);
    }
    let column = strip.remove_column_at(at);
    if let Some(heir) = neighbour {
        requests.reshuffle_around_forced(heir);
    }
    assert(requests@ =~= old(requests)@ + closing(neighbour));
    column
}

/// The strip that a window arrives on: the first parked one of the space that
/// the target display shows.
pub open spec fn arrival_strip(strips: Seq<StripEntry>, space: Option<WorkspaceId>) -> int {
    match space {
        Some(id) => first_where(strips, in_workspace(id)),
        None => strips.len() as int,
    }
}

pub(crate) fn arrival_index(strips: &Vec<StripEntry>, space: Option<WorkspaceId>) -> (index: Option<
    usize,
>)
    ensures
        match index {
            Some(at) => at == arrival_strip(strips@, space) && at < strips@.len(),
            None => arrival_strip(strips@, space) >= strips@.len(),
        },
{
    let id = match space {
        Some(id) => id,
        None => {
            return None;
        },
    };
    let mut i: usize = 0;
    while i < strips.len()
        invariant
            i <= strips.len(),
            space == Some(id),
            first_where(strips@, in_workspace(id)) == first_from(
                strips@,
                in_workspace(id),
                i as int,
            ),
        decreases strips.len() - i,
    {
        if strips[i].strip.id == id {
            return Some(i);
        }
        i = i + 1;
    }
    None
}

/// The place in a strip that a slot stands for: the right end without a slot, or
/// for one beyond it.
pub open spec fn slot_in(columns: Seq<ColumnView>, slot: Option<usize>) -> int {
    match slot {
        Some(index) => spec_min(index as int, columns.len() as int),
        None => columns.len() as int,
    }
}

/// All strips but the one at `at` stay as they are, and that one keeps all but
/// its columns.
pub open spec fn only_columns_changed(
    before: Seq<StripEntry>,
    after: Seq<StripEntry>,
    at: int,
    columns: Seq<ColumnView>,
) -> bool {
    &&& after.len() == before.len()
    &&& forall|j: int| 0 <= j < before.len() && j != at ==> #[trigger] after[j] == before[j]
    &&& after[at].strip@ == columns
    &&& after[at].strip.id == before[at].strip.id
    &&& after[at].strip.virtual_index == before[at].strip.virtual_index
    &&& after[at].entity == before[at].entity
    &&& after[at].display == before[at].display
    &&& after[at].position == before[at].position
    &&& after[at].active == before[at].active
    &&& after[at].selected == before[at].selected
    &&& after[at].native_fullscreen == before[at].native_fullscreen
}

/// What an arriving window asks for: no more than the width of its display, a
/// layout pass, and a refresh of its size once the display has settled. The share
/// that the refresh keeps is that of the width it had where it came from.
pub open spec fn attach_requests(
    entity: Entity,
    display: Entity,
    target_width: int,
    size: Size,
    taken_width: i32,
    source_width: Option<i32>,
) -> Seq<Request> {
    let narrowed = if size.x > target_width {
        resizing(entity, Size { x: target_width as i32, y: size.y })
    } else {
        Seq::empty()
    };
    narrowed + seq![
        Request::Reshuffle { entity, force: false },
        Request::RefreshSize {
            entity,
            display,
            width: taken_width,
            source_width,
            timeout: Timeout::lasting(Duration::millis(REFRESH_DELAY_MS)),
        },
    ]
}

/// Puts a window on the strip that the target display shows. Answers that
/// display, or none where it shows no parked strip, in which case nothing
/// happens.
pub fn attach_window_to_display(
    entity: Entity,
    target_bounds: IRect,
    current_size: Size,
    taken_width: i32,
    source_width: Option<i32>,
    mid_slot: Option<usize>,
    strips: &mut Vec<StripEntry>,
    target_space: Option<WorkspaceId>,
    requests: &mut Requests,
) -> (display: Option<Entity>)
    requires
        fits(target_bounds.spec_width()),
    ensures
        ({
            let at = arrival_strip(old(strips)@, target_space);
            match display {
                Some(found) => {
                    let columns = old(strips)@[at].strip@;
                    &&& at < old(strips)@.len()
                    &&& found == old(strips)@[at].display
                    &&& only_columns_changed(
                        old(strips)@,
                        final(strips)@,
                        at,
                        columns.insert(slot_in(columns, mid_slot), ColumnView::single(entity)),
                    )
                    &&& final(requests)@ == old(requests)@ + attach_requests(
                        entity,
                        found,
                        target_bounds.spec_width(),
                        current_size,
                        taken_width,
                        source_width,
                    )
                },
                None => at >= old(strips)@.len() && final(strips)@ == old(strips)@ && final(
                    requests)@ == old(requests)@,
            }
        }),
{
    let at = match arrival_index(strips, target_space) {
        Some(at) => at,
        None => {
            return None;
        },
    };
    let ghost columns = strips@[at as int].strip@;
    let mut entry = strips.remove(at);
    let display = entry.display;
    match mid_slot {
        Some(slot) => {
            entry.strip.insert_at(slot, entity);
        },
        None => {
            entry.strip.append(entity);
            assert(columns.push(ColumnView::single(entity)) =~= columns.insert(
                columns.len() as int,
                ColumnView::single(entity),
            ));
        },
    }
    strips.insert(at, entry);
    let width: i32 = target_bounds.width();
    if current_size.x > width {
        requests.resize_entity(entity, Size { x: width, y: current_size.y });
    }
    requests.reshuffle_around(entity);
    let delay = Duration::from_millis(REFRESH_DELAY_MS);
    assert(delay == Duration::millis(REFRESH_DELAY_MS));
    requests.push(
        Request::RefreshSize {
            entity,
            display,
            width: taken_width,
            source_width,
            timeout: Timeout::new(delay),
        },
    );
    assert(requests@ =~= old(requests)@ + attach_requests(
        entity,
        display,
        target_bounds.spec_width(),
        current_size,
        taken_width,
        source_width,
    ));
    Some(display)
}

/// The size of a window once its new display has settled: the width that keeps
/// its share, but no more than the display has, and the display's full height.
pub open spec fn refreshed(width: i32, viewport: IRect) -> Size {
    Size {
        x: spec_min(width as int, viewport.spec_width()) as i32,
        y: viewport.spec_height() as i32,
    }
}

/// What the settled display of a window asks for.
pub open spec fn refresh_requests(
    entity: Entity,
    present: Option<Size>,
    viewport: Option<IRect>,
    share: Option<i32>,
) -> Seq<Request> {
    match (present, viewport) {
        (Some(size), Some(area)) => {
            let width = match share {
                Some(width) => width,
                None => size.x,
            };
            resizing(entity, refreshed(width, area)).push(
                Request::Reshuffle { entity, force: false },
            )
        },
        _ => Seq::empty(),
    }
}

/// Refreshes the size of a window whose new display has settled, and lays the strip
/// out around it. `share` is the width that keeps its share of the display; without
/// it the window keeps its width. Nothing happens where the window or the display
/// is gone.
pub fn refresh_size(
    entity: Entity,
    present: Option<Size>,
    viewport: Option<IRect>,
    share: Option<i32>,
    requests: &mut Requests,
)
    requires
        viewport matches Some(area) ==> area.measurable(),
    ensures
        final(requests)@ == old(requests)@ + refresh_requests(entity, present, viewport, share),
{
    if let (Some(size), Some(area)) = (present, viewport) {
        let width: i32 = match share {
            Some(width) => width,
            None => size.x,
        };
        let room: i32 = area.width();
        requests.resize_entity(entity, Size { x: min_i32(width, room), y: area.height() });
        requests.reshuffle_around(entity);
    }
    assert(requests@ =~= old(requests)@ + refresh_requests(entity, present, viewport, share));
}

/// The sizes of those of the first `n` members that are wider than their new
/// display.
pub open spec fn narrowing(
    members: Seq<Entity>,
    windows: Seq<WindowRecord>,
    width: int,
    n: int,
) -> Seq<Request>
    decreases n,
{
    if n <= 0 {
        Seq::empty()
    } else {
        let before = narrowing(members, windows, width, n - 1);
        match size_of(windows, members[n - 1]) {
            Some(size) => if size.x > width {
                before + resizing(members[n - 1], Size { x: width as i32, y: size.y })
            } else {
                before
            },
            None => before,
        }
    }
}

/// Puts a whole column on the strip that the target display shows, with `leader`
/// as the window that the strip is laid out around. Members wider than the
/// display are narrowed. Answers whether the display shows a parked strip.
pub fn attach_column_to_display(
    column: Column,
    leader: Entity,
    target_bounds: IRect,
    mid_slot: Option<usize>,
    strips: &mut Vec<StripEntry>,
    target_space: Option<WorkspaceId>,
    windows: &Windows,
    requests: &mut Requests,
) -> (attached: bool)
    requires
        fits(target_bounds.spec_width()),
    ensures
        ({
            let at = arrival_strip(old(strips)@, target_space);
            if attached {
                let columns = old(strips)@[at].strip@;
                &&& at < old(strips)@.len()
                &&& only_columns_changed(
                    old(strips)@,
                    final(strips)@,
                    at,
                    columns.insert(slot_in(columns, mid_slot), column@),
                )
                &&& final(requests)@ == (old(requests)@ + narrowing(
                    column@.members(),
                    windows.all@,
                    target_bounds.spec_width(),
                    column@.members().len() as int,
                )).push(Request::Reshuffle { entity: leader, force: false })
            } else {
                at >= old(strips)@.len() && final(strips)@ == old(strips)@ && final(requests)@
                    == old(requests)@
            }
        }),
{
    let at = match arrival_index(strips, target_space) {
        Some(at) => at,
        None => {
            return false;
        },
    };
    let members = column.windows();
    let ghost columns = strips@[at as int].strip@;
    let ghost held = column@;
    let mut entry = strips.remove(at);
    let slot: usize = match mid_slot {
        Some(slot) => slot,
        None => entry.strip.len(),
    };
    entry.strip.insert_column_at(slot, column);
    strips.insert(at, entry);
    let width: i32 = target_bounds.width();
    let mut i: usize = 0;
    assert(requests@ =~= old(requests)@ + narrowing(members@, windows.all@, width as int, 0));
    while i < members.len()
        invariant
            i <= members.len(),
            requests@ == old(requests)@ + narrowing(
                members@,
                windows.all@,
                width as int,
                i as int,
            ),
        decreases members.len() - i,
    {
        if let Some(size) = windows.size(members[i]) {
            if size.x > width {
                requests.resize_entity(members[i], Size { x: width, y: size.y });
            }
        }
        assert(requests@ =~= old(requests)@ + narrowing(
            members@,
            windows.all@,
            width as int,
            i as int + 1,
        ));
        i = i + 1;
    }
    requests.reshuffle_around(leader);
    true
}

/// The size that a window lands with on a display: no wider than the display.
pub open spec fn landed_size(size: Size, target: IRect) -> Size {
    Size { x: spec_min(size.x as int, target.spec_width()) as i32, y: size.y }
}

/// The origin that a window lands at: the middle of the display, at its top.
pub open spec fn landing_origin(size: Size, target: IRect) -> Origin {
    Origin {
        x: (target.spec_center().x - halved(landed_size(size, target).x as int)) as i32,
        y: target.min.y,
    }
}

/// What the departure of a window asks for.
pub open spec fn departure_requests(
    entity: Entity,
    size: Size,
    target: IRect,
    move_focus: MoveFocus,
    heir: Option<Entity>,
) -> Seq<Request> {
    let moved = seq![Request::Reposition { entity, origin: landing_origin(size, target) }];
    let warped = if move_focus == MoveFocus::Follow {
        moved.push(Request::WarpMouse { point: target.spec_center() })
    } else {
        moved
    };
    let closed = warped + closing(heir);
    match heir {
        Some(neighbour) => if move_focus == MoveFocus::Stay {
            closed.push(Request::Focus { entity: neighbour, raise: false })
        } else {
            closed
        },
        None => closed,
    }
}

/// What the arrival of a window that the focus follows asks for.
pub open spec fn follow_requests(entity: Entity, display: Entity, move_focus: MoveFocus) -> Seq<
    Request,
> {
    if move_focus == MoveFocus::Follow {
        seq![
            Request::Focus { entity, raise: true },
            Request::ActivateDisplay { display },
            Request::Reveal { entity, snap: false },
        ]
    } else {
        Seq::empty()
    }
}

/// Everything that the move of a window to another display asks for: its departure, and
/// its arrival on the display, if that shows a parked strip.
pub open spec fn move_requests(
    entity: Entity,
    size: Size,
    target: IRect,
    move_focus: MoveFocus,
    heir: Option<Entity>,
    arrival: Option<Entity>,
    source_width: Option<i32>,
) -> Seq<Request> {
    departure_requests(entity, size, target, move_focus, heir) + match arrival {
        Some(display) => attach_requests(
            entity,
            display,
            target.spec_width(),
            landed_size(size, target),
            size.x,
            source_width,
        ) + follow_requests(entity, display, move_focus),
        None => Seq::empty(),
    }
}

/// The share of a viewport is only known of a viewport that has a width.
pub open spec fn known_width(width: int) -> Option<i32> {
    if width > 0 {
        Some(width as i32)
    } else {
        None
    }
}

/// The window that a command to another display moves: the focused one, if it is
/// tiled and has a size.
pub open spec fn traveller(windows: Seq<WindowRecord>) -> Option<(Entity, Size)> {
    match focused_record(windows) {
        Some(window) => match size_of(windows, window.entity) {
            Some(size) => if window.unmanaged is None {
                Some((window.entity, size))
            } else {
                None
            },
            None => None,
        },
        None => None,
    }
}

/// Every number that a move to the display leads to fits its type.
pub open spec fn landing_fits(windows: Seq<WindowRecord>, target: IRect) -> bool {
    &&& target.centerable()
    &&& fits(target.spec_width())
    &&& traveller(windows) matches Some((entity, size)) ==> fits(
        target.spec_center().x - halved(landed_size(size, target).x as int),
    )
}

/// Moves the focused tiled window to another display. The focus and the pointer
/// follow it, or stay with the neighbour that takes its place.
pub fn move_focused_window_to_display(
    target_bounds: IRect,
    move_focus: MoveFocus,
    windows: &Windows,
    source: &mut LayoutStrip,
    source_viewport: IRect,
    strips: &mut Vec<StripEntry>,
    target_space: Option<WorkspaceId>,
    requests: &mut Requests,
)
    requires
        strip_wf(old(source)@),
        fits(source_viewport.spec_width()),
        landing_fits(windows.all@, target_bounds),
    ensures
        final(source).id == old(source).id,
        final(source).virtual_index == old(source).virtual_index,
        match traveller(windows.all@) {
            None => final(source)@ == old(source)@ && final(strips)@ == old(strips)@ && final(
                requests)@ == old(requests)@,
            Some((entity, size)) => {
                let at = arrival_strip(old(strips)@, target_space);
                let left = old(requests)@ + departure_requests(
                    entity,
                    size,
                    target_bounds,
                    move_focus,
                    heir_of(old(source)@, entity),
                );
                &&& final(source)@ == strip_without(old(source)@, entity)
                &&& if at < old(strips)@.len() {
                    let display = old(strips)@[at].display;
                    &&& only_columns_changed(
                        old(strips)@,
                        final(strips)@,
                        at,
                        old(strips)@[at].strip@.push(ColumnView::single(entity)),
                    )
                    &&& final(requests)@ == left + attach_requests(
                        entity,
                        display,
                        target_bounds.spec_width(),
                        landed_size(size, target_bounds),
                        size.x,
                        known_width(source_viewport.spec_width()),
                    ) + follow_requests(entity, display, move_focus)
                } else {
                    final(strips)@ == old(strips)@ && final(requests)@ == left
                }
                &&& final(requests)@ == old(requests)@ + move_requests(
                    entity,
                    size,
                    target_bounds,
                    move_focus,
                    heir_of(old(source)@, entity),
                    if at < old(strips)@.len() {
                        Some(old(strips)@[at].display)
                    } else {
                        None
                    },
                    known_width(source_viewport.spec_width()),
                )
            },
        },
{
    let window = match focused_window(windows) {
        Some(window) => window,
        None => {
            return;
        },
    };
    if window.unmanaged.is_some() {
        return;
    }
    let entity = window.entity;
    let size = match windows.size(entity) {
        Some(size) => size,
        None => {
            return;
        },
    };
    let width: i32 = source_viewport.width();
    let source_width: Option<i32> = if width > 0 {
        Some(width)
    } else {
        None
    };
    let landed = Size { x: min_i32(size.x, target_bounds.width()), y: size.y };
    let center = target_bounds.center();
    let ghost begun = requests@;
    requests.reposition_entity(
        entity,
        Origin { x: center.x - half(landed.x), y: target_bounds.min.y },
    );
    if move_focus == MoveFocus::Follow {
        requests.push(Request::WarpMouse { point: center });
    }
    let neighbour = detach_window_from_strip(entity, source, requests);
    if move_focus == MoveFocus::Stay {
        if let Some(heir) = neighbour {
            requests.focus_entity(heir, false);
        }
    }
    let ghost left = requests@;
    assert(left =~= begun + departure_requests(
        entity,
        size,
        target_bounds,
        move_focus,
        heir_of(old(source)@, entity),
    ));
    let display = attach_window_to_display(
        entity,
        target_bounds,
        landed,
        size.x,
        source_width,
        None,
        strips,
        target_space,
        requests,
    );
    if let Some(found) = display {
        proof {
            let at = arrival_strip(old(strips)@, target_space);
            let columns = old(strips)@[at].strip@;
            assert(columns.push(ColumnView::single(entity)) =~= columns.insert(
                columns.len() as int,
                ColumnView::single(entity),
            ));
        }
        let ghost attached = requests@;
        if move_focus == MoveFocus::Follow {
            requests.focus_entity(entity, true);
            requests.push(Request::ActivateDisplay { display: found });
            requests.ensure_visible(entity);
        }
        assert(requests@ =~= attached + follow_requests(entity, found, move_focus));
    }
}

/// The display that a command sends the focused window to, and whether the focus
/// follows: the next or the previous one of the ring.
pub fn to_adjacent_display(operation: Operation, active: &ActiveDisplay) -> (target: Option<
    (DisplaySnapshot, MoveFocus),
>)
    ensures
        target == (match operation {
            Operation::ToNextDisplay(focus) => match neighbour_in(
                active.id,
                ring_of(seq![(active.id, active.bounds)] + active.others@),
                true,
            ) {
                Some(display) => Some((display, focus)),
                None => None,
            },
            Operation::ToPreviousDisplay(focus) => match neighbour_in(
                active.id,
                ring_of(seq![(active.id, active.bounds)] + active.others@),
                false,
            ) {
                Some(display) => Some((display, focus)),
                None => None,
            },
            _ => None,
        }),
{
    match operation {
        Operation::ToNextDisplay(focus) => match active.adjacent(true) {
            Some(display) => Some((display, focus)),
            None => None,
        },
        Operation::ToPreviousDisplay(focus) => match active.adjacent(false) {
            Some(display) => Some((display, focus)),
            None => None,
        },
        _ => None,
    }
}

/// The columns after the window changed places with the one found in a
/// direction: two items of one stack change rows, otherwise the whole column
/// moves to the other one's place and those between close up.
pub open spec fn columns_swapped(columns: Seq<ColumnView>, current: Entity, other: Entity) -> Seq<
    ColumnView,
> {
    let from = column_of(columns, current);
    let to = column_of(columns, other);
    if from == to && columns[from].kind == ColumnKind::Stack {
        let items = columns[from].items;
        let a = columns[from].row_of(current);
        let b = columns[from].row_of(other);
        columns.update(
            from,
            ColumnView {
                kind: ColumnKind::Stack,
                items: items.update(a, items[b]).update(b, items[a]),
            },
        )
    } else {
        columns.remove(from).insert(to, columns[from])
    }
}

/// The window that the focused one changes places with.
pub open spec fn swap_partner(
    direction: Direction,
    windows: Seq<WindowRecord>,
    columns: Seq<ColumnView>,
) -> Option<(Entity, Entity)> {
    match focus_of(windows) {
        Some(window) => match found_in_direction(direction, window.entity, columns) {
            Some(other) => if strip_has(columns, other) {
                Some((window.entity, other))
            } else {
                None
            },
            None => None,
        },
        None => None,
    }
}

fn swap_rows(column: &mut Column, a: usize, b: usize)
    requires
        a < old(column)@.items.len(),
        b < old(column)@.items.len(),
    ensures
        final(column)@.kind == old(column)@.kind,
        final(column)@.items == old(column)@.items.update(a as int, old(column)@.items[b as int]).update(
            b as int,
            old(column)@.items[a as int],
        ),
{
    if a != b {
        let low: usize = if a < b {
            a
        } else {
            b
        };
        let high: usize = if a < b {
            b
        } else {
            a
        };
        let upper = column.items.remove(high);
        let lower = column.items.remove(low);
        column.items.insert(low, upper);
        column.items.insert(high, lower);
    }
    assert(column@.items =~= old(column)@.items.update(
        a as int,
        old(column)@.items[b as int],
    ).update(b as int, old(column)@.items[a as int]));
}

/// Lets the focused window change places with the one in that direction, if
/// there is one. Answers the focused window if it did.
pub fn swap_in_strip(direction: Direction, windows: &Windows, strip: &mut LayoutStrip) -> (swapped:
    Option<Entity>)
    ensures
        match swap_partner(direction, windows.all@, old(strip)@) {
            Some((current, other)) => swapped == Some(current) && final(strip)@ == columns_swapped(
                old(strip)@,
                current,
                other,
            ),
            None => swapped is None && final(strip)@ == old(strip)@,
        },
        final(strip).id == old(strip).id,
        final(strip).virtual_index == old(strip).virtual_index,
{
    let current = match windows.focused() {
        Some(window) => window.entity,
        None => {
            return None;
        },
    };
    let other = match get_window_in_direction(&direction, current, strip) {
        Some(other) => other,
        None => {
            return None;
        },
    };
    let (from, to) = match (strip.index_of(current), strip.index_of(other)) {
        (Some(from), Some(to)) => (from, to),
        _ => {
            return None;
        },
    };
    proof {
        lemma_first_from(strip@, column_has(current), 0);
        lemma_first_from(strip@, column_has(other), 0);
    }
    let ghost before = strip@;
    let mut taken = match strip.remove_column_at(from) {
        Some(column) => column,
        None => {
            return None;
        },
    };
    if from == to && taken.kind == ColumnKind::Stack {
        match (taken.row_of(current), taken.row_of(other)) {
            (Some(a), Some(b)) => {
                swap_rows(&mut taken, a, b);
            },
            _ => {},
        }
    }
    strip.insert_column_at(to, taken);
    assert(strip@ =~= columns_swapped(before, current, other));
    Some(current)
}

/// Swaps the focused window with the one in a direction. Where it did, the
/// window is kept in view. Where there was nothing to swap with, up or down, the
/// window goes to the nearest display that way, and the focus with it. Answers
/// that display, if the window is to go there.
pub fn command_swap_focus(
    direction: Direction,
    windows: &Windows,
    strip: &mut LayoutStrip,
    active: &ActiveDisplay,
    requests: &mut Requests,
) -> (beyond_strip: Option<DisplaySnapshot>)
    ensures
        match swap_partner(direction, windows.all@, old(strip)@) {
            Some((current, other)) => beyond_strip is None && final(strip)@ == columns_swapped(
                old(strip)@,
                current,
                other,
            ) && final(requests)@ == old(requests)@.push(
                Request::Reveal { entity: current, snap: false },
            ),
            None => {
                let north = direction == Direction::North;
                &&& final(strip)@ == old(strip)@
                &&& final(requests)@ == old(requests)@
                &&& match beyond_strip {
                    Some(display) => (north || direction == Direction::South) && exists|at: int|
                        #[trigger] nearest_beyond(active.bounds, active.others@, north, at)
                            && active.others@[at] == display,
                    None => !(north || direction == Direction::South) || forall|j: int|
                        0 <= j < active.others@.len() ==> !beyond(
                            active.bounds,
                            #[trigger] active.others@[j].1,
                            north,
                        ),
                }
            },
        },
        final(strip).id == old(strip).id,
        final(strip).virtual_index == old(strip).virtual_index,
{
    if let Some(window) = swap_in_strip(direction, windows, strip) {
        requests.ensure_visible(window);
        return None;
    }
    let north: bool = match direction {
        Direction::North => true,
        Direction::South => false,
        _ => {
            return None;
        },
    };
    let found = active.above_or_below(north);
    proof {
        assert(north == (direction == Direction::North));
        assert(swap_partner(direction, windows.all@, old(strip)@) is None);
        assert(strip@ == old(strip)@);
        assert(requests@ == old(requests)@);
        match found {
            Some(display) => {
                assert(exists|at: int| #[trigger]
                    nearest_beyond(active.bounds, active.others@, north, at)
                        && active.others@[at] == display);
            },
            None => {
                assert(forall|j: int|
                    0 <= j < active.others@.len() ==> !beyond(
                        active.bounds,
                        #[trigger] active.others@[j].1,
                        north,
                    ));
            },
        }
    }
    found
}

/// Which way the pointer is to move, by the first command that says so.
pub open spec fn mouse_move_in(commands: Seq<Command>, from: int) -> Option<bool>
    decreases commands.len() - from,
{
    if from < 0 || from >= commands.len() {
        None
    } else {
        match commands[from] {
            Command::Mouse(MouseMove::ToNextDisplay) => Some(true),
            Command::Mouse(MouseMove::ToPreviousDisplay) => Some(false),
            _ => mouse_move_in(commands, from + 1),
        }
    }
}

/// The display that the pointer is to go to: the neighbour in the ring of the
/// one it is on, by the first command that moves the pointer.
pub fn mouse_to_adjacent_display(
    commands: &Vec<Command>,
    displays: Vec<DisplaySnapshot>,
    cursor: Option<Origin>,
) -> (target: Option<DisplaySnapshot>)
    ensures
        target == (match (mouse_move_in(commands@, 0), cursor) {
            (Some(next), Some(point)) => match find_where(ring_of(displays@), under(point)) {
                Some(anchor) => neighbour_in(anchor.0, ring_of(displays@), next),
                None => None,
            },
            _ => None,
        }),
{
    let point = match cursor {
        Some(point) => point,
        None => {
            return None;
        },
    };
    let mut i: usize = 0;
    while i < commands.len()
        invariant
            i <= commands.len(),
            cursor == Some(point),
            mouse_move_in(commands@, 0) == mouse_move_in(commands@, i as int),
        decreases commands.len() - i,
    {
        match commands[i] {
            Command::Mouse(MouseMove::ToNextDisplay) => {
                return ring_neighbour_of_cursor(displays, point, true);
            },
            Command::Mouse(MouseMove::ToPreviousDisplay) => {
                return ring_neighbour_of_cursor(displays, point, false);
            },
            _ => {},
        }
        i = i + 1;
    }
    None
}

/// The width of a window that shows on the display.
pub open spec fn shown_width(target: IRect, windows: Seq<WindowRecord>, entity: Entity) -> int {
    target.overlap(frame_of(windows, entity)->0).spec_width()
}

/// Of the first `n` windows, the one with the widest part on the display, the
/// first of several.
pub open spec fn widest_to(
    target: IRect,
    entities: Seq<Entity>,
    windows: Seq<WindowRecord>,
    n: int,
) -> Option<Entity>
    decreases n,
{
    if n <= 0 {
        None
    } else {
        let before = widest_to(target, entities, windows, n - 1);
        if frame_of(windows, entities[n - 1]) is None {
            before
        } else {
            match before {
                Some(best) => if shown_width(target, windows, best) < shown_width(
                    target,
                    windows,
                    entities[n - 1],
                ) {
                    Some(entities[n - 1])
                } else {
                    before
                },
                None => Some(entities[n - 1]),
            }
        }
    }
}

/// The overlap of the display with any window has a centre.
pub open spec fn overlaps_centerable(target: IRect, windows: Seq<WindowRecord>) -> bool {
    forall|entity: Entity|
        (#[trigger] frame_of(windows, entity)) matches Some(frame) ==> target.overlap(
            frame,
        ).centerable()
}

/// What a pointer that goes to another display asks for.
pub open spec fn warp_requests(
    target: IRect,
    columns: Option<Seq<ColumnView>>,
    windows: Seq<WindowRecord>,
) -> Seq<Request> {
    match columns {
        None => Seq::empty(),
        Some(found) => {
            let all = windows_to(found, found.len() as int);
            match widest_to(target, all, windows, all.len() as int) {
                Some(entity) => seq![
                    Request::WarpMouse {
                        point: target.overlap(frame_of(windows, entity)->0).spec_center(),
                    },
                    Request::Focus { entity, raise: true },
                ],
                None => seq![Request::WarpMouse { point: target.spec_center() }],
            }
        },
    }
}

/// Puts the pointer on another display: on the window that shows widest there,
/// which also gets the focus, or on the middle of a display without windows. A
/// display without a strip is left alone.
pub fn warp_mouse_to_display(
    target_bounds: IRect,
    strip: Option<&LayoutStrip>,
    windows: &Windows,
    requests: &mut Requests,
)
    requires
        windows.wf(),
        target_bounds.centerable(),
        overlaps_centerable(target_bounds, windows.all@),
    ensures
        final(requests)@ == old(requests)@ + warp_requests(
            target_bounds,
            match strip {
                Some(columns) => Some(columns@),
                None => None,
            },
            windows.all@,
        ),
{
    let strip = match strip {
        Some(strip) => strip,
        None => {
            return;
        },
    };
    let all = strip.all_windows();
    let mut best: Option<(Entity, IRect)> = None;
    let mut i: usize = 0;
    while i < all.len()
        invariant
            i <= all.len(),
            windows.wf(),
            match best {
                Some((entity, frame)) => widest_to(
                    target_bounds,
                    all@,
                    windows.all@,
                    i as int,
                ) == Some(entity) && frame_of(windows.all@, entity) == Some(frame),
                None => widest_to(target_bounds, all@, windows.all@, i as int) is None,
            },
        decreases all.len() - i,
    {
        if let Some(frame) = windows.frame(all[i]) {
            let shown = target_bounds.intersect(frame);
            let width: i64 = shown.max.x as i64 - shown.min.x as i64;
            match best {
                Some((_, widest)) => {
                    let other = target_bounds.intersect(widest);
                    if (other.max.x as i64 - other.min.x as i64) < width {
                        best = Some((all[i], frame));
                    }
                },
                None => {
                    best = Some((all[i], frame));
                },
            }
        }
        i = i + 1;
    }
    match best {
        Some((entity, frame)) => {
            assert(frame_of(windows.all@, entity) is Some);
            let visible = target_bounds.intersect(frame);
            requests.push(Request::WarpMouse { point: visible.center() });
            requests.focus_entity(entity, true);
        },
        None => {
            requests.push(Request::WarpMouse { point: target_bounds.center() });
        },
    }
    assert(requests@ =~= old(requests)@ + warp_requests(
        target_bounds,
        Some(strip@),
        windows.all@,
    ));
}

/// A display of the state report.
#[derive(Clone, Copy, Debug, PartialEq, Eq, Structural)]
pub struct DisplayEntry {
    pub entity: Entity,
    pub active: bool,
}

/// One strip of the state report, by its place in the list of strips, and the
/// known windows on it.
#[derive(Debug)]
pub struct StripReport {
    pub display: Entity,
    pub strip: usize,
    pub windows: Vec<Entity>,
}

/// The condition of being a known window.
pub open spec fn is_known(windows: Seq<WindowRecord>) -> spec_fn(Entity) -> bool {
    |entity: Entity| find_where(windows, is_entity(entity)) is Some
}

/// The known windows of a strip, in its order.
pub open spec fn known_on(columns: Seq<ColumnView>, windows: Seq<WindowRecord>) -> Seq<Entity> {
    let all = windows_to(columns, columns.len() as int);
    kept(all, is_known(windows), all.len() as int)
}

/// The condition of being listed on no strip of the report.
pub open spec fn unlisted(reports: Seq<StripReport>) -> spec_fn(WindowRecord) -> bool {
    |window: WindowRecord|
        forall|i: int|
            0 <= i < reports.len() ==> !(#[trigger] reports[i]).windows@.contains(window.entity)
}

fn known_of(strip: &LayoutStrip, windows: &Windows) -> (known: Vec<Entity>)
    ensures
        known@ == known_on(strip@, windows.all@),
{
    let all = strip.all_windows();
    let mut known: Vec<Entity> = Vec::new();
    let mut i: usize = 0;
    while i < all.len()
        invariant
            i <= all.len(),
            known@ == kept(all@, is_known(windows.all@), i as int),
        decreases all.len() - i,
    {
        if windows.get(all[i]).is_some() {
            known.push(all[i]);
        }
        i = i + 1;
    }
    known
}

/// The strips of one display in the report, among the first `n`.
pub open spec fn reported_strips(strips: Seq<StripEntry>, display: Entity, n: int) -> Seq<int>
    decreases n,
{
    if n <= 0 {
        Seq::empty()
    } else if strips[n - 1].display == display {
        reported_strips(strips, display, n - 1).push(n - 1)
    } else {
        reported_strips(strips, display, n - 1)
    }
}

/// The strips of the report, display by display, over the first `n` displays.
pub open spec fn report_order(
    displays: Seq<DisplayEntry>,
    strips: Seq<StripEntry>,
    n: int,
) -> Seq<(Entity, int)>
    decreases n,
{
    if n <= 0 {
        Seq::empty()
    } else {
        let own = reported_strips(strips, displays[n - 1].entity, strips.len() as int);
        report_order(displays, strips, n - 1) + own.map_values(
            |at: int| (displays[n - 1].entity, at),
        )
    }
}

/// The reports name those strips, in that order, with their known windows.
pub open spec fn reports_match(
    reports: Seq<StripReport>,
    order: Seq<(Entity, int)>,
    strips: Seq<StripEntry>,
    windows: Seq<WindowRecord>,
) -> bool {
    &&& reports.len() == order.len()
    &&& forall|i: int|
        0 <= i < reports.len() ==> {
            &&& (#[trigger] reports[i]).display == order[i].0
            &&& reports[i].strip == order[i].1
            &&& reports[i].strip < strips.len()
            &&& reports[i].windows@ == known_on(
                strips[reports[i].strip as int].strip@,
                windows,
            )
        }
}

/// Gathers the state report: every strip of every display with its known
/// windows, and then the windows that are on none of these strips.
pub fn gather_state_report(
    displays: &Vec<DisplayEntry>,
    strips: &Vec<StripEntry>,
    windows: &Windows,
) -> (report: (Vec<StripReport>, Vec<WindowRecord>))
    ensures
        reports_match(
            report.0@,
            report_order(displays@, strips@, displays@.len() as int),
            strips@,
            windows.all@,
        ),
        report.1@ == kept(windows.all@, unlisted(report.0@), windows.all@.len() as int),
{
    let mut reports: Vec<StripReport> = Vec::new();
    let mut d: usize = 0;
    while d < displays.len()
        invariant
            d <= displays.len(),
            reports_match(
                reports@,
                report_order(displays@, strips@, d as int),
                strips@,
                windows.all@,
            ),
        decreases displays.len() - d,
    {
        let display = displays[d].entity;
        let ghost before = report_order(displays@, strips@, d as int);
        let mut s: usize = 0;
        assert(before =~= before + reported_strips(strips@, display, 0).map_values(
            |at: int| (display, at),
        ));
        while s < strips.len()
            invariant
                s <= strips.len(),
                reports_match(
                    reports@,
                    before + reported_strips(strips@, display, s as int).map_values(
                        |at: int| (display, at),
                    ),
                    strips@,
                    windows.all@,
                ),
            decreases strips.len() - s,
        {
            let ghost listed = reported_strips(strips@, display, s as int);
            if strips[s].display == display {
                let known = known_of(&strips[s].strip, windows);
                let ghost so_far = reports@;
                reports.push(StripReport { display, strip: s, windows: known });
                proof {
                    let order = before + listed.map_values(|at: int| (display, at));
                    let next = before + listed.push(s as int).map_values(
                        |at: int| (display, at),
                    );
                    assert(next =~= order.push((display, s as int)));
                    assert forall|i: int| 0 <= i < reports@.len() implies {
                        &&& (#[trigger] reports@[i]).display == next[i].0
                        &&& reports@[i].strip == next[i].1
                        &&& reports@[i].strip < strips@.len()
                        &&& reports@[i].windows@ == known_on(
                            strips@[reports@[i].strip as int].strip@,
                            windows.all@,
                        )
                    } by {
                        if i < so_far.len() {
                            assert(reports@[i] == so_far[i]);
                        }
                    }
                }
            }
            s = s + 1;
        }
        assert(report_order(displays@, strips@, d as int + 1) =~= before + reported_strips(
            strips@,
            display,
            strips@.len() as int,
        ).map_values(|at: int| (display, at)));
        d = d + 1;
    }
    let mut remaining: Vec<WindowRecord> = Vec::new();
    let mut w: usize = 0;
    while w < windows.all.len()
        invariant
            w <= windows.all.len(),
            remaining@ == kept(windows.all@, unlisted(reports@), w as int),
        decreases windows.all.len() - w,
    {
        let entity = windows.all[w].entity;
        let mut seen: bool = false;
        let mut r: usize = 0;
        while r < reports.len()
            invariant
                r <= reports.len(),
                seen == exists|i: int|
                    0 <= i < r && (#[trigger] reports@[i]).windows@.contains(entity),
            decreases reports.len() - r,
        {
            if crate::ecs::layout::list_contains(&reports[r].windows, entity) {
                assert(reports@[r as int].windows@.contains(entity));
                seen = true;
            }
            r = r + 1;
        }
        assert(seen == !(unlisted(reports@))(windows.all@[w as int]));
        if !seen {
            remaining.push(windows.all[w]);
        }
        w = w + 1;
    }
    (reports, remaining)
}

} // verus!

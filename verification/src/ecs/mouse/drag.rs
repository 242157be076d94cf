//! Dragging a held window: along its strip, across displays, and the ghost that
//! shows where it would land.
use vstd::prelude::*;

use crate::commands::displays::{
    arrival_index, arrival_strip, attach_column_to_display, closing, detach_column_from_strip, narrowing,
    only_columns_changed,
};
use crate::commands::in_workspace;
use crate::ecs::layout::{
    column_has, column_of, heir_of, strip_has, tops_to, ColumnView, LayoutStrip,
};
use crate::ecs::mouse::{
    drive_scroll_strip, release_column_members, released_members, scrolled, DragPaintState,
    DragScrollState, PointerEvent, ScrollDrive,
};
use crate::ecs::params::{
    frame_of, holds_window, is_entity, is_window, moving_frame_of, owner_index, place_of, tiled,
    DisplaySnapshot, StripEntry, WindowRecord, Windows,
};
use crate::ecs::{Request, Requests};
use crate::geometry::{
    abs_diff, clamp_i32, clamped, distance, fits, max_i32, spec_max, spec_min, DisplayId, Entity, IRect,
    Origin, Size, WinID, WorkspaceId,
};
use crate::seqs::{
    any_where, find_where, first_from, first_where, lemma_first_from, lemma_first_is,
};
use crate::time::Duration;

verus! {

/// The right end of a window relative to its strip.
pub open spec fn far_edge(windows: Seq<WindowRecord>, entity: Entity) -> Option<int> {
    match place_of(windows, entity) {
        Some(place) => Some(place.layout.x + place.spec_moving_frame().spec_width()),
        None => None,
    }
}

/// The furthest right end among the first `n` columns, by their top windows.
pub open spec fn end_to(tops: Seq<Entity>, windows: Seq<WindowRecord>, n: int) -> Option<int>
    decreases n,
{
    if n <= 0 {
        None
    } else {
        let before = end_to(tops, windows, n - 1);
        match (before, far_edge(windows, tops[n - 1])) {
            (Some(end), Some(edge)) => Some(spec_max(end, edge)),
            (None, Some(edge)) => Some(edge),
            _ => before,
        }
    }
}

/// The right end of a strip, relative to itself.
pub open spec fn strip_end(columns: Seq<ColumnView>, windows: Seq<WindowRecord>) -> int {
    let tops = tops_to(columns, columns.len() as int);
    match end_to(tops, windows, tops.len() as int) {
        Some(end) => end,
        None => 0,
    }
}

/// Where a drop lands: the column's index, and the left edge of its slot on the
/// screen as a number of any size. Without a slot in the middle it is the end.
pub open spec fn drop_slot(
    columns: Seq<ColumnView>,
    scroll_x: i32,
    drop_x: i32,
    mid: Option<(usize, i32)>,
    windows: Seq<WindowRecord>,
) -> (int, int) {
    match mid {
        Some((index, desired_scroll)) => (index as int, drop_x - desired_scroll + scroll_x),
        None => (columns.len() as int, strip_end(columns, windows) + scroll_x),
    }
}

proof fn lemma_end_bounds(tops: Seq<Entity>, windows: Seq<WindowRecord>, n: int)
    ensures
        end_to(tops, windows, n) matches Some(end) ==> -0x4_0000_0000 <= end <= 0x4_0000_0000,
    decreases n,
{
    if n > 0 {
        lemma_end_bounds(tops, windows, n - 1);
    }
}

/// Where a drop lands: in the middle of the strip, at the slot found for it and
/// the scroll that shows it there, or at its end. The ghost and the drop both go
/// by this.
pub fn drop_slot_index(
    strip: &LayoutStrip,
    scroll_x: i32,
    drop_x: i32,
    mid: Option<(usize, i32)>,
    windows: &Windows,
) -> (slot: (usize, i32))
    requires
        windows.wf(),
        fits(drop_slot(strip@, scroll_x, drop_x, mid, windows.all@).1),
    ensures
        slot.0 == drop_slot(strip@, scroll_x, drop_x, mid, windows.all@).0,
        slot.1 == drop_slot(strip@, scroll_x, drop_x, mid, windows.all@).1,
{
    if let Some((index, desired_scroll)) = mid {
        let x: i64 = drop_x as i64 - desired_scroll as i64 + scroll_x as i64;
        return (index, x as i32);
    }
    (strip.len(), (end_of(strip, windows) + scroll_x as i64) as i32)
}

/// The right end of a strip, relative to itself.
fn end_of(strip: &LayoutStrip, windows: &Windows) -> (end: i64)
    requires
        windows.wf(),
    ensures
        end == strip_end(strip@, windows.all@),
        -0x4_0000_0000 <= end <= 0x4_0000_0000,
{
    let tops = strip.all_columns();
    let mut end: Option<i64> = None;
    let mut i: usize = 0;
    while i < tops.len()
        invariant
            i <= tops.len(),
            windows.wf(),
            match end {
                Some(found) => end_to(tops@, windows.all@, i as int) == Some(found as int),
                None => end_to(tops@, windows.all@, i as int) is None,
            },
        decreases tops.len() - i,
    {
        if let (Some(layout), Some(frame)) = (
            windows.layout_position(tops[i]),
            windows.moving_frame(tops[i]),
        ) {
            let edge: i64 = layout.x as i64 + (frame.max.x as i64 - frame.min.x as i64);
            end = match end {
                Some(found) => if found >= edge {
                    Some(found)
                } else {
                    Some(edge)
                },
                None => Some(edge),
            };
        }
        i = i + 1;
    }
    proof {
        lemma_end_bounds(tops@, windows.all@, tops@.len() as int);
    }
    match end {
        Some(found) => found,
        None => 0,
    }
}

/// The left edge of a column relative to its strip, by its top window.
pub open spec fn left_edge(columns: Seq<ColumnView>, windows: Seq<WindowRecord>, at: int) -> Option<
    int,
> {
    match columns[at].spec_top() {
        Some(top) => match place_of(windows, top) {
            Some(place) => Some(place.layout.x as int),
            None => None,
        },
        None => None,
    }
}

/// Of the first `n` columns, the one whose left edge is nearest to a place on the
/// strip, the first of several, and that edge.
pub open spec fn nearest_edge(
    columns: Seq<ColumnView>,
    windows: Seq<WindowRecord>,
    place: int,
    n: int,
) -> Option<(int, int)>
    decreases n,
{
    if n <= 0 {
        None
    } else {
        let before = nearest_edge(columns, windows, place, n - 1);
        match (before, left_edge(columns, windows, n - 1)) {
            (Some((_, best)), Some(edge)) => if distance(edge, place) < distance(best, place) {
                Some((n - 1, edge))
            } else {
                before
            },
            (None, Some(edge)) => Some((n - 1, edge)),
            _ => before,
        }
    }
}

/// The slot of a strip that is nearest to a place on it, and its edge: that of a column,
/// or the end of the strip where that is nearer.
pub open spec fn nearest_slot(
    columns: Seq<ColumnView>,
    windows: Seq<WindowRecord>,
    place: int,
) -> (int, int) {
    let end = strip_end(columns, windows);
    match nearest_edge(columns, windows, place, columns.len() as int) {
        Some((index, edge)) => if distance(edge, place) <= distance(end, place) {
            (index, edge)
        } else {
            (columns.len() as int, end)
        },
        None => (columns.len() as int, end),
    }
}

/// Finds the slot of a strip that is nearest to a drop at a place on the screen, and the
/// scroll that shows the slot there.
pub fn mid_strip_slot(strip: &LayoutStrip, scroll_x: i32, drop_x: i32, windows: &Windows) -> (slot: (
    usize,
    i32,
))
    requires
        windows.wf(),
        fits(drop_x - nearest_slot(strip@, windows.all@, drop_x - scroll_x).1),
    ensures
        slot.0 == nearest_slot(strip@, windows.all@, drop_x - scroll_x).0,
        slot.1 == drop_x - nearest_slot(strip@, windows.all@, drop_x - scroll_x).1,
{
    let place: i64 = drop_x as i64 - scroll_x as i64;
    let mut best: Option<(usize, i64)> = None;
    let mut i: usize = 0;
    while i < strip.columns.len()
        invariant
            i <= strip.columns.len(),
            strip@.len() == strip.columns.len(),
            place == drop_x - scroll_x,
            match best {
                Some((index, edge)) => i32::MIN <= edge <= i32::MAX && nearest_edge(
                    strip@,
                    windows.all@,
                    place as int,
                    i as int,
                ) == Some((index as int, edge as int)),
                None => nearest_edge(strip@, windows.all@, place as int, i as int) is None,
            },
        decreases strip.columns.len() - i,
    {
        assert(strip@[i as int] == strip.columns@[i as int]@);
        if let Some(top) = strip.columns[i].top() {
            if let Some(layout) = windows.layout_position(top) {
                let edge: i64 = layout.x as i64;
                let nearer: bool = match best {
                    Some((_, found)) => gap(edge, place) < gap(found, place),
                    None => true,
                };
                if nearer {
                    best = Some((i, edge));
                }
            }
        }
        i = i + 1;
    }
    let end = end_of(strip, windows);
    let (index, edge) = match best {
        Some((index, edge)) => if gap(edge, place) <= gap(end, place) {
            (index, edge)
        } else {
            (strip.len(), end)
        },
        None => (strip.len(), end),
    };
    (index, (drop_x as i64 - edge) as i32)
}

fn gap(a: i64, b: i64) -> (between: i64)
    requires
        -0x8_0000_0000 <= a <= 0x8_0000_0000,
        -0x8_0000_0000 <= b <= 0x8_0000_0000,
    ensures
        between == distance(a as int, b as int),
{
    if a >= b {
        a - b
    } else {
        b - a
    }
}

/// A drop on the edge of a column is marked at that edge: the ghost of the nearest slot
/// lies where the slot is on the screen.
pub proof fn ghosts_lie_on_their_slot(
    columns: Seq<ColumnView>,
    windows: Seq<WindowRecord>,
    scroll_x: i32,
    drop_x: i32,
    mid: (usize, i32),
)
    requires
        mid.0 == nearest_slot(columns, windows, drop_x - scroll_x).0,
        mid.1 == drop_x - nearest_slot(columns, windows, drop_x - scroll_x).1,
    ensures
        drop_slot(columns, scroll_x, drop_x, Some(mid), windows) == (
            nearest_slot(columns, windows, drop_x - scroll_x).0,
            nearest_slot(columns, windows, drop_x - scroll_x).1 + scroll_x,
        ),
{
}

/// The left edge of the ghost: the slot's, moved inside the viewport; a ghost
/// that is too wide keeps to the left edge.
pub open spec fn ghost_x(slot_x: int, viewport: IRect, width: int) -> int {
    clamped(
        slot_x,
        viewport.min.x as int,
        spec_max(viewport.max.x - width, viewport.min.x as int),
    )
}

/// The ghost for a landing slot: as wide as the dragged column, as high as the
/// viewport, inside it.
pub open spec fn ghost_rect(slot_x: int, viewport: IRect, width: i32) -> IRect {
    let min = Origin { x: ghost_x(slot_x, viewport, width as int) as i32, y: viewport.min.y };
    IRect::framed(min, Size { x: width, y: viewport.spec_height() as i32 })
}

/// Every number that the ghost leads to fits its type.
pub open spec fn ghost_fits(slot_x: int, viewport: IRect, width: i32) -> bool {
    &&& viewport.measurable()
    &&& fits(viewport.max.x - width)
    &&& fits(ghost_x(slot_x, viewport, width as int) + width)
}

pub fn slot_preview_rect(slot_x: i32, viewport: IRect, size: Size) -> (rect: IRect)
    requires
        ghost_fits(slot_x as int, viewport, size.x),
    ensures
        rect == ghost_rect(slot_x as int, viewport, size.x),
{
    let far: i32 = max_i32(viewport.max.x - size.x, viewport.min.x);
    let min = Origin { x: clamp_i32(slot_x, viewport.min.x, far), y: viewport.min.y };
    IRect::from_frame(min, Size { x: size.x, y: viewport.height() })
}

/// A ghost that fits the viewport lies inside it, with its full height.
pub proof fn ghost_stays_in_view(slot_x: int, viewport: IRect, width: i32)
    requires
        ghost_fits(slot_x, viewport, width),
        viewport.ordered(),
        0 <= width <= viewport.spec_width(),
    ensures
        viewport.min.x <= ghost_rect(slot_x, viewport, width).min.x,
        ghost_rect(slot_x, viewport, width).max.x <= viewport.max.x,
        ghost_rect(slot_x, viewport, width).min.y == viewport.min.y,
        ghost_rect(slot_x, viewport, width).max.y == viewport.max.y,
{
}

/// The ghost of a window dropped at `drop_x` on a strip.
pub fn drop_preview_rect(
    strip: &LayoutStrip,
    scroll_x: i32,
    viewport: IRect,
    drop_x: i32,
    dragged_size: Size,
    mid: Option<(usize, i32)>,
    windows: &Windows,
) -> (rect: IRect)
    requires
        windows.wf(),
        fits(drop_slot(strip@, scroll_x, drop_x, mid, windows.all@).1),
        ghost_fits(
            drop_slot(strip@, scroll_x, drop_x, mid, windows.all@).1,
            viewport,
            dragged_size.x,
        ),
    ensures
        rect == ghost_rect(
            drop_slot(strip@, scroll_x, drop_x, mid, windows.all@).1,
            viewport,
            dragged_size.x,
        ),
{
    let (_, slot_x) = drop_slot_index(strip, scroll_x, drop_x, mid, windows);
    slot_preview_rect(slot_x, viewport, dragged_size)
}

/// The last point of the running drag.
#[derive(Clone, Copy, Debug, PartialEq, Eq, Structural)]
pub struct DragMoveState {
    pub last: Option<Origin>,
}

impl Default for DragMoveState {
    fn default() -> (state: DragMoveState)
        ensures
            state.last is None,
    {
        DragMoveState { last: None }
    }
}

/// The window that the mouse button is down on, and what the press armed.
#[derive(Clone, Copy, Debug, PartialEq, Eq, Structural)]
pub struct Held {
    pub target: Entity,
    pub display_armed: bool,
    pub scroll_armed: bool,
}

/// What a drag depends on.
#[derive(Clone, Copy, Debug, PartialEq, Eq, Structural)]
pub struct DragSettings {
    /// The warm-up is not over.
    pub cold: bool,
    /// Header drags scroll the strip.
    pub scrolls_strip: bool,
    /// The modifiers of this event match the drag shortcut.
    pub shortcut: bool,
}

/// What a step of a drag does.
#[derive(Clone, Copy, Debug, PartialEq, Eq, Structural)]
pub enum DragEffect {
    /// Nothing.
    Nothing,
    /// Only the painted frame follows the pointer.
    Painted,
    /// The strip scrolls.
    Scrolled,
    /// The column moves.
    Moved,
}

/// What a step of a drag does, by what is held and how it was armed.
pub open spec fn drag_effect(
    last: Option<Origin>,
    point: Origin,
    held: Option<Held>,
    settings: DragSettings,
    windows: Seq<WindowRecord>,
) -> DragEffect {
    match (last, held) {
        (Some(from), Some(grab)) => if from == point || !tiled(windows, grab.target) {
            DragEffect::Nothing
        } else if settings.cold {
            DragEffect::Painted
        } else if grab.scroll_armed {
            DragEffect::Scrolled
        } else if !grab.display_armed && settings.scrolls_strip {
            DragEffect::Painted
        } else {
            DragEffect::Moved
        },
        _ => DragEffect::Nothing,
    }
}

/// The new places of those of the first `n` members that have one.
pub open spec fn moved_to(
    members: Seq<Entity>,
    windows: Seq<WindowRecord>,
    delta: Origin,
    n: int,
) -> Seq<(Entity, Origin)>
    decreases n,
{
    if n <= 0 {
        Seq::empty()
    } else {
        let before = moved_to(members, windows, delta, n - 1);
        match place_of(windows, members[n - 1]) {
            Some(place) => before.push((members[n - 1], place.position.spec_plus(delta))),
            None => before,
        }
    }
}

/// Every new place lies in the coordinate space.
pub open spec fn moves_fit(members: Seq<Entity>, windows: Seq<WindowRecord>, delta: Origin) -> bool {
    forall|i: int|
        #![trigger members[i]]
        0 <= i < members.len() ==> (place_of(windows, members[i]) matches Some(place)
            ==> place.position.sum_fits(delta))
}

fn move_members(members: &Vec<Entity>, windows: &Windows, delta: Origin) -> (moves: Vec<
    (Entity, Origin),
>)
    requires
        moves_fit(members@, windows.all@, delta),
    ensures
        moves@ == moved_to(members@, windows.all@, delta, members@.len() as int),
{
    let mut moves: Vec<(Entity, Origin)> = Vec::new();
    let mut i: usize = 0;
    while i < members.len()
        invariant
            i <= members.len(),
            moves_fit(members@, windows.all@, delta),
            moves@ == moved_to(members@, windows.all@, delta, i as int),
        decreases members.len() - i,
    {
        let member = members[i];
        assert(member == members@[i as int]);
        if let Some(place) = windows.placement(member) {
            moves.push((member, place.position.plus(delta)));
        }
        i = i + 1;
    }
    moves
}

/// What a step of a drag changes.
#[derive(Debug)]
pub struct DragOutcome {
    pub effect: DragEffect,
    /// The strip's new offset, and the horizontal step that its velocity takes.
    pub scroll: Option<ScrollDrive>,
    pub step_x: i32,
    /// The new places of the windows of the column.
    pub moves: Vec<(Entity, Origin)>,
}

/// The numbers of one step of a drag fit their types.
pub open spec fn drag_fits(
    last: Option<Origin>,
    point: Origin,
    held: Option<Held>,
    windows: Seq<WindowRecord>,
    strips: Seq<StripEntry>,
    paint: DragPaintState,
) -> bool {
    match (last, held) {
        (Some(from), Some(grab)) => {
            let delta = point.spec_minus(from);
            &&& point.diff_fits(from)
            &&& paint.target == Some(grab.target) ==> paint.offset.sum_fits(delta)
            &&& moves_fit(released_members(strips, grab.target), windows, delta)
            &&& find_where(strips, holds_window(grab.target)) matches Some(entry) ==> fits(
                entry.position.x + delta.x,
            )
        },
        _ => true,
    }
}

/// The places of a step of a drag: nothing moves unless the column does.
pub open spec fn drag_moves(
    effect: DragEffect,
    strips: Seq<StripEntry>,
    grab: Held,
    windows: Seq<WindowRecord>,
    delta: Origin,
) -> Seq<(Entity, Origin)> {
    if effect == DragEffect::Moved {
        let members = released_members(strips, grab.target);
        moved_to(members, windows, delta, members.len() as int)
    } else {
        Seq::empty()
    }
}

/// The painted frame after a step of a drag.
pub open spec fn drag_painted(
    effect: DragEffect,
    paint: DragPaintState,
    target: Entity,
    delta: Origin,
    now: Duration,
) -> DragPaintState {
    if effect != DragEffect::Nothing && paint.target == Some(target) {
        DragPaintState {
            offset: paint.offset.spec_plus(delta),
            last_sample_at: Some(now),
            ..paint
        }
    } else {
        paint
    }
}

/// Answers one step of the mouse while a window may be held. A press starts the
/// travel anew and a release forgets the last point. A drag moves the whole
/// column of the held window with the pointer, or scrolls its strip for a header
/// grab, which then no longer counts as placed by hand; content grabs stay native
/// and are only painted. The rest of the
/// pipeline hears of the move only while it may take the window to another
/// display.
pub fn drag_move_held_column(
    event: PointerEvent,
    state: &mut DragMoveState,
    held: Option<Held>,
    settings: DragSettings,
    windows: &Windows,
    strips: &Vec<StripEntry>,
    now: Duration,
    scroll: &mut DragScrollState,
    paint: &mut DragPaintState,
    requests: &mut Requests,
) -> (outcome: DragOutcome)
    requires
        event matches PointerEvent::Dragged { point, modifiers } ==> drag_fits(
            old(state).last,
            point,
            held,
            windows.all@,
            strips@,
            *old(paint),
        ),
        old(scroll).distance_px <= 0xffff_fffe_0000_0000,
    ensures
        final(scroll).members == old(scroll).members,
        final(scroll).settle_deadline == old(scroll).settle_deadline,
        match event {
            PointerEvent::Down { point, modifiers } => {
                &&& final(state).last == Some(point)
                &&& final(scroll).distance_px == 0
                &&& final(scroll).last_sample_at is None
                &&& *final(paint) == *old(paint)
                &&& outcome.effect == DragEffect::Nothing
            },
            PointerEvent::Up => {
                &&& final(state).last is None
                &&& *final(scroll) == *old(scroll)
                &&& *final(paint) == *old(paint)
                &&& outcome.effect == DragEffect::Nothing
            },
            PointerEvent::Moved { point, modifiers } => {
                &&& *final(state) == *old(state)
                &&& *final(scroll) == *old(scroll)
                &&& *final(paint) == *old(paint)
                &&& outcome.effect == DragEffect::Nothing
            },
            PointerEvent::Dragged { point, modifiers } => {
                &&& final(state).last == Some(point)
                &&& outcome.effect == drag_effect(
                    old(state).last,
                    point,
                    held,
                    settings,
                    windows.all@,
                )
                &&& outcome.effect == DragEffect::Nothing ==> *final(paint) == *old(paint)
                    && *final(scroll) == *old(scroll)
                &&& outcome.effect != DragEffect::Nothing ==> {
                    let grab = held->0;
                    let delta = point.spec_minus(old(state).last->0);
                    &&& *final(paint) == drag_painted(
                        outcome.effect,
                        *old(paint),
                        grab.target,
                        delta,
                        now,
                    )
                    &&& outcome.moves@ == drag_moves(
                        outcome.effect,
                        strips@,
                        grab,
                        windows.all@,
                        delta,
                    )
                    &&& if outcome.effect == DragEffect::Scrolled {
                        &&& final(scroll).distance_px == old(scroll).distance_px + distance(
                            delta.x as int,
                            0,
                        ) + distance(delta.y as int, 0)
                        &&& outcome.step_x == delta.x
                        &&& final(scroll).last_sample_at == (if delta.x != 0 {
                            Some(now)
                        } else {
                            old(scroll).last_sample_at
                        })
                        &&& outcome.scroll == (if delta.x != 0 {
                            scrolled(grab.target, delta.x, strips@, now)
                        } else {
                            None
                        })
                    } else {
                        *final(scroll) == *old(scroll) && outcome.scroll is None
                    }
                }
            },
        },
        outcome.effect != DragEffect::Moved ==> outcome.moves@.len() == 0,
        outcome.effect != DragEffect::Scrolled ==> outcome.scroll is None && outcome.step_x == 0,
        final(requests)@ == (match outcome.scroll {
            Some(drive) => old(requests)@.push(Request::UnpinOffset { strip: drive.strip }),
            None => if outcome.moves@.len() > 0 && held->0.display_armed && settings.shortcut {
                old(requests)@.push(
                    Request::WindowMoved {
                        window: find_where(windows.all@, is_entity(held->0.target))->0.id,
                    },
                )
            } else {
                old(requests)@
            },
        }),
{
    let nothing = DragOutcome {
        effect: DragEffect::Nothing,
        scroll: None,
        step_x: 0,
        moves: Vec::new(),
    };
    let point = match event {
        PointerEvent::Down { point, .. } => {
            state.last = Some(point);
            scroll.distance_px = 0;
            scroll.last_sample_at = None;
            return nothing;
        },
        PointerEvent::Up => {
            state.last = None;
            return nothing;
        },
        PointerEvent::Moved { .. } => {
            return nothing;
        },
        PointerEvent::Dragged { point, .. } => point,
    };
    let last = state.last;
    state.last = Some(point);
    let from = match last {
        Some(from) => from,
        None => {
            return nothing;
        },
    };
    let grab = match held {
        Some(grab) => grab,
        None => {
            return nothing;
        },
    };
    if from == point {
        return nothing;
    }
    let window = match windows.get(grab.target) {
        Some(window) => window,
        None => {
            return nothing;
        },
    };
    if window.unmanaged.is_some() {
        return nothing;
    }
    let delta = point.minus(from);
    paint.advance(grab.target, delta, now);
    if settings.cold {
        return DragOutcome {
            effect: DragEffect::Painted,
            scroll: None,
            step_x: 0,
            moves: Vec::new(),
        };
    }
    if grab.scroll_armed {
        let travel: u64 = abs_diff(delta.x, 0) as u64 + abs_diff(delta.y, 0) as u64;
        scroll.distance_px = scroll.distance_px + travel;
        let mut drive: Option<ScrollDrive> = None;
        if delta.x != 0 {
            scroll.last_sample_at = Some(now);
            drive = drive_scroll_strip(grab.target, delta.x, strips, now, requests);
        }
        return DragOutcome {
            effect: DragEffect::Scrolled,
            scroll: drive,
            step_x: delta.x,
            moves: Vec::new(),
        };
    }
    if !grab.display_armed && settings.scrolls_strip {
        return DragOutcome {
            effect: DragEffect::Painted,
            scroll: None,
            step_x: 0,
            moves: Vec::new(),
        };
    }
    let members = release_column_members(grab.target, strips);
    let moves = move_members(&members, windows, delta);
    if moves.len() > 0 && grab.display_armed && settings.shortcut {
        requests.push(Request::WindowMoved { window: window.id });
    }
    DragOutcome { effect: DragEffect::Moved, scroll: None, step_x: 0, moves }
}

/// Where a dragged window would land: another display, the space it shows, and
/// its handle.
#[derive(Clone, Copy, Debug, PartialEq, Eq, Structural)]
pub struct Landing {
    pub display: DisplayId,
    pub bounds: IRect,
    pub space: WorkspaceId,
    pub entity: Entity,
}

/// The condition of being another display that holds the point.
pub open spec fn foreign_under(point: Origin, active: DisplayId) -> spec_fn(DisplaySnapshot) -> bool {
    |display: DisplaySnapshot| display.1.holds(point) && display.0 != active
}

/// The condition of being the space of that display.
pub open spec fn space_of(display: DisplayId) -> spec_fn((DisplayId, WorkspaceId)) -> bool {
    |entry: (DisplayId, WorkspaceId)| entry.0 == display
}

/// Where a window whose middle is at a point would land.
pub open spec fn landing_of(
    center: Origin,
    active: DisplayId,
    others: Seq<DisplaySnapshot>,
    spaces: Seq<(DisplayId, WorkspaceId)>,
    strips: Seq<StripEntry>,
) -> Option<Landing> {
    match find_where(others, foreign_under(center, active)) {
        Some(display) => match find_where(spaces, space_of(display.0)) {
            Some(space) => match find_where(strips, in_workspace(space.1)) {
                Some(entry) => Some(
                    Landing {
                        display: display.0,
                        bounds: display.1,
                        space: space.1,
                        entity: entry.display,
                    },
                ),
                None => None,
            },
            None => None,
        },
        None => None,
    }
}

/// Finds where a window whose middle is at a point would land. There is no such
/// place on its own display, between displays, or on a display that shows no
/// parked strip.
pub fn resolve_drag_target(
    center: Origin,
    active: DisplayId,
    others: &Vec<DisplaySnapshot>,
    spaces: &Vec<(DisplayId, WorkspaceId)>,
    strips: &Vec<StripEntry>,
) -> (landing: Option<Landing>)
    ensures
        landing == landing_of(center, active, others@, spaces@, strips@),
{
    let mut i: usize = 0;
    while i < others.len() && !(others[i].1.contains(center) && others[i].0 != active)
        invariant
            i <= others.len(),
            first_where(others@, foreign_under(center, active)) == first_from(
                others@,
                foreign_under(center, active),
                i as int,
            ),
        decreases others.len() - i,
    {
        i = i + 1;
    }
    if i >= others.len() {
        return None;
    }
    let (display, bounds) = others[i];
    let mut j: usize = 0;
    while j < spaces.len() && spaces[j].0 != display
        invariant
            j <= spaces.len(),
            first_where(spaces@, space_of(display)) == first_from(
                spaces@,
                space_of(display),
                j as int,
            ),
        decreases spaces.len() - j,
    {
        j = j + 1;
    }
    if j >= spaces.len() {
        return None;
    }
    let space = spaces[j].1;
    let mut k: usize = 0;
    while k < strips.len() && strips[k].strip.id != space
        invariant
            k <= strips.len(),
            first_where(strips@, in_workspace(space)) == first_from(
                strips@,
                in_workspace(space),
                k as int,
            ),
        decreases strips.len() - k,
    {
        k = k + 1;
    }
    if k >= strips.len() {
        return None;
    }
    Some(Landing { display, bounds, space, entity: strips[k].display })
}

/// The condition of holding that window, armed for another display.
pub open spec fn armed_on(entity: Entity) -> spec_fn(Held) -> bool {
    |held: Held| held.target == entity && held.display_armed
}

pub fn is_armed_on(held: &Vec<Held>, entity: Entity) -> (armed: bool)
    ensures
        armed == any_where(held@, armed_on(entity)),
{
    let mut i: usize = 0;
    while i < held.len()
        invariant
            i <= held.len(),
            first_where(held@, armed_on(entity)) == first_from(
                held@,
                armed_on(entity),
                i as int,
            ),
        decreases held.len() - i,
    {
        if held[i].target == entity && held[i].display_armed {
            return true;
        }
        i = i + 1;
    }
    false
}

/// Where a move of a window takes it, if it is armed and held with the shortcut,
/// tiled, and on the strip on screen.
pub open spec fn transfer_of(
    window_id: WinID,
    held: Seq<Held>,
    shortcut: bool,
    windows: Seq<WindowRecord>,
    columns: Seq<ColumnView>,
    active: DisplayId,
    others: Seq<DisplaySnapshot>,
    spaces: Seq<(DisplayId, WorkspaceId)>,
    strips: Seq<StripEntry>,
) -> Option<(Entity, Landing)> {
    match find_where(windows, is_window(window_id)) {
        Some(window) => {
            let entity = window.entity;
            if any_where(held, armed_on(entity)) && shortcut && tiled(windows, entity)
                && strip_has(columns, entity) {
                match frame_of(windows, entity) {
                    Some(frame) => match landing_of(
                        frame.spec_center(),
                        active,
                        others,
                        spaces,
                        strips,
                    ) {
                        Some(landing) => Some((entity, landing)),
                        None => None,
                    },
                    None => None,
                }
            } else {
                None
            }
        },
        None => None,
    }
}

/// The slot that a column lands at on another display: that of a drop at the place of
/// the dragged window, with the strip at the left edge of the display.
pub open spec fn transfer_slot(
    entity: Entity,
    landing: Landing,
    columns: Seq<ColumnView>,
    mid: Option<(usize, i32)>,
    windows: Seq<WindowRecord>,
) -> (int, int) {
    match frame_of(windows, entity) {
        Some(frame) => drop_slot(columns, landing.bounds.min.x, frame.min.x, mid, windows),
        None => (columns.len() as int, 0),
    }
}

/// Finds where a move of a window takes it.
pub(crate) fn find_transfer(
    window_id: WinID,
    held: &Vec<Held>,
    shortcut: bool,
    windows: &Windows,
    source: &LayoutStrip,
    active: DisplayId,
    others: &Vec<DisplaySnapshot>,
    spaces: &Vec<(DisplayId, WorkspaceId)>,
    strips: &Vec<StripEntry>,
) -> (transfer: Option<(Entity, Landing)>)
    requires
        windows.wf(),
        crate::commands::frames_centerable(windows.all@),
    ensures
        transfer == transfer_of(
            window_id,
            held@,
            shortcut,
            windows.all@,
            source@,
            active,
            others@,
            spaces@,
            strips@,
        ),
{
    let entity = match windows.find(window_id) {
        Some(window) => window.entity,
        None => {
            return None;
        },
    };
    if !is_armed_on(held, entity) || !shortcut || !windows.is_tiled(entity) || !source.contains(
        entity,
    ) {
        return None;
    }
    let frame = match windows.frame(entity) {
        Some(frame) => frame,
        None => {
            return None;
        },
    };
    match resolve_drag_target(frame.center(), active, others, spaces, strips) {
        Some(landing) => Some((entity, landing)),
        None => None,
    }
}

/// A window that is taken elsewhere comes from the strip on screen, and its display is
/// another one, with a strip to land on.
pub(crate) proof fn lemma_transfer(
    window_id: WinID,
    held: Seq<Held>,
    shortcut: bool,
    windows: Seq<WindowRecord>,
    columns: Seq<ColumnView>,
    active: DisplayId,
    others: Seq<DisplaySnapshot>,
    spaces: Seq<(DisplayId, WorkspaceId)>,
    strips: Seq<StripEntry>,
)
    ensures
        transfer_of(
            window_id,
            held,
            shortcut,
            windows,
            columns,
            active,
            others,
            spaces,
            strips,
        ) matches Some((entity, landing)) ==> {
            &&& strip_has(columns, entity)
            &&& frame_of(windows, entity) is Some
            &&& 0 <= arrival_strip(strips, Some(landing.space)) < strips.len()
            &&& landing.entity == strips[arrival_strip(strips, Some(landing.space))].display
            &&& exists|i: int| 0 <= i < others.len() && (#[trigger] others[i]).1 == landing.bounds
        },
{
    if let Some((entity, landing)) = transfer_of(
        window_id,
        held,
        shortcut,
        windows,
        columns,
        active,
        others,
        spaces,
        strips,
    ) {
        let center = frame_of(windows, entity)->0.spec_center();
        lemma_first_from(others, foreign_under(center, active), 0);
        lemma_first_from(strips, in_workspace(landing.space), 0);
        let found = first_where(others, foreign_under(center, active));
        assert(landing.bounds == others[found].1);
    }
}

/// A move of a window is done: its column has left the strip on screen for the slot at
/// which it lands, no wider than the display there, and the focus and the active
/// display have gone along. Without a place to go to, nothing has happened.
pub open spec fn transferred(
    transfer: Option<(Entity, Landing)>,
    mid: Option<(usize, i32)>,
    windows: Seq<WindowRecord>,
    source: (Seq<ColumnView>, Seq<ColumnView>),
    strips: (Seq<StripEntry>, Seq<StripEntry>),
    requests: (Seq<Request>, Seq<Request>),
) -> bool {
    match transfer {
        Some((entity, landing)) => {
            let from = column_of(source.0, entity);
            let column = source.0[from];
            let at = arrival_strip(strips.0, Some(landing.space));
            let columns = strips.0[at].strip@;
            &&& source.1 == source.0.remove(from)
            &&& only_columns_changed(
                strips.0,
                strips.1,
                at,
                columns.insert(
                    spec_min(
                        transfer_slot(entity, landing, columns, mid, windows).0,
                        columns.len() as int,
                    ),
                    column,
                ),
            )
            &&& requests.1 == (requests.0 + closing(heir_of(source.0, entity)) + narrowing(
                column.members(),
                windows,
                landing.bounds.spec_width(),
                column.members().len() as int,
            )).push(Request::Reshuffle { entity, force: false }).push(
                Request::Focus { entity, raise: true },
            ).push(Request::ActivateDisplay { display: landing.entity })
        },
        None => source.1 == source.0 && strips.1 == strips.0 && requests.1 == requests.0,
    }
}

/// Every number that a move to another display leads to fits its type.
pub open spec fn transfer_fits(
    transfer: Option<(Entity, Landing)>,
    mid: Option<(usize, i32)>,
    windows: Seq<WindowRecord>,
    strips: Seq<StripEntry>,
) -> bool {
    transfer matches Some((entity, landing)) ==> (mid is Some ==> fits(
        transfer_slot(
            entity,
            landing,
            strips[arrival_strip(strips, Some(landing.space))].strip@,
            mid,
            windows,
        ).1,
    ))
}

/// Takes the column of a dragged window to the display that its middle is on.
/// The focus and the active display go along. `mid` is the slot in the middle of the
/// strip there that is nearest, with the scroll that shows it, where windows are
/// inserted in the middle.
pub fn drag_window_across_display(
    window_id: WinID,
    held: &Vec<Held>,
    shortcut: bool,
    windows: &Windows,
    source: &mut LayoutStrip,
    active: DisplayId,
    others: &Vec<DisplaySnapshot>,
    spaces: &Vec<(DisplayId, WorkspaceId)>,
    strips: &mut Vec<StripEntry>,
    mid: Option<(usize, i32)>,
    requests: &mut Requests,
) -> (moved: bool)
    requires
        transfer_fits(
            transfer_of(
                window_id,
                held@,
                shortcut,
                windows.all@,
                old(source)@,
                active,
                others@,
                spaces@,
                old(strips)@,
            ),
            mid,
            windows.all@,
            old(strips)@,
        ),
        windows.wf(),
        crate::commands::frames_centerable(windows.all@),
        forall|i: int| 0 <= i < others@.len() ==> fits((#[trigger] others@[i]).1.spec_width()),
    ensures
        ({
            let transfer = transfer_of(
                window_id,
                held@,
                shortcut,
                windows.all@,
                old(source)@,
                active,
                others@,
                spaces@,
                old(strips)@,
            );
            &&& moved == (transfer is Some)
            &&& transferred(
                transfer,
                mid,
                windows.all@,
                (old(source)@, final(source)@),
                (old(strips)@, final(strips)@),
                (old(requests)@, final(requests)@),
            )
        }),
        final(source).id == old(source).id,
        final(source).virtual_index == old(source).virtual_index,
{
    let transfer = find_transfer(
        window_id,
        held,
        shortcut,
        windows,
        source,
        active,
        others,
        spaces,
        strips,
    );
    let (entity, landing) = match transfer {
        Some(found) => found,
        None => {
            return false;
        },
    };
    proof {
        lemma_transfer(
            window_id,
            held@,
            shortcut,
            windows.all@,
            source@,
            active,
            others@,
            spaces@,
            strips@,
        );
        lemma_first_from(source@, column_has(entity), 0);
    }
    let mut mid_slot: Option<usize> = None;
    if mid.is_some() {
        if let (Some(at), Some(frame)) = (
            arrival_index(strips, Some(landing.space)),
            windows.frame(entity),
        ) {
            let (index, _) = drop_slot_index(
                &strips[at].strip,
                landing.bounds.min.x,
                frame.min.x,
                mid,
                windows,
            );
            mid_slot = Some(index);
        }
    }
    let column = match detach_column_from_strip(entity, source, requests) {
        Some(column) => column,
        None => {
            return false;
        },
    };
    let attached = attach_column_to_display(
        column,
        entity,
        landing.bounds,
        mid_slot,
        strips,
        Some(landing.space),
        windows,
        requests,
    );
    assert(attached);
    requests.focus_entity(entity, true);
    requests.push(Request::ActivateDisplay { display: landing.entity });
    true
}

/// Why no ghost is shown.
#[derive(Clone, Copy, Debug, PartialEq, Eq, Structural)]
pub enum PreviewRefusal {
    MouseReleased,
    MissionControlActive,
    NoArmedDrag,
    ShortcutReleased,
    NotAWindow,
    Unmanaged,
    NoFrame,
    NoDisplay,
    NoActiveStrip,
    NoActiveSpace,
    NoSelectedStrip,
}

impl PreviewRefusal {
    /// The reason in words.
    pub fn reason(&self) -> (words: &'static str)
        ensures
            words@ == self.words(),
    {
        match self {
            PreviewRefusal::MouseReleased => "mouse released",
            PreviewRefusal::MissionControlActive => "mission control active",
            PreviewRefusal::NoArmedDrag => "no armed drag in progress",
            PreviewRefusal::ShortcutReleased => "drag shortcut released or unconfigured",
            PreviewRefusal::NotAWindow => "held target is not a window",
            PreviewRefusal::Unmanaged => "held target is unmanaged",
            PreviewRefusal::NoFrame => "held target has no frame",
            PreviewRefusal::NoDisplay => "dragged center is in no display",
            PreviewRefusal::NoActiveStrip => "no active strip",
            PreviewRefusal::NoActiveSpace => "no active space for hovered display",
            PreviewRefusal::NoSelectedStrip => "no selected strip for hovered display",
        }
    }

    pub open spec fn words(self) -> Seq<char> {
        match self {
            PreviewRefusal::MouseReleased => "mouse released"@,
            PreviewRefusal::MissionControlActive => "mission control active"@,
            PreviewRefusal::NoArmedDrag => "no armed drag in progress"@,
            PreviewRefusal::ShortcutReleased => "drag shortcut released or unconfigured"@,
            PreviewRefusal::NotAWindow => "held target is not a window"@,
            PreviewRefusal::Unmanaged => "held target is unmanaged"@,
            PreviewRefusal::NoFrame => "held target has no frame"@,
            PreviewRefusal::NoDisplay => "dragged center is in no display"@,
            PreviewRefusal::NoActiveStrip => "no active strip"@,
            PreviewRefusal::NoActiveSpace => "no active space for hovered display"@,
            PreviewRefusal::NoSelectedStrip => "no selected strip for hovered display"@,
        }
    }
}

/// A display as the ghost sees it.
#[derive(Clone, Copy, Debug, PartialEq, Eq, Structural)]
pub struct PreviewDisplay {
    pub entity: Entity,
    pub bounds: IRect,
    pub viewport: IRect,
    pub active: bool,
    /// The space that the display shows.
    pub space: Option<WorkspaceId>,
}

/// Where a ghost is to be drawn: on which strip, from which offset, and in which
/// area.
#[derive(Clone, Copy, Debug, PartialEq, Eq, Structural)]
pub struct PreviewSite {
    pub strip: usize,
    pub scroll_x: i32,
    pub viewport: IRect,
}

/// The condition of holding the point.
pub open spec fn hovered(point: Origin) -> spec_fn(PreviewDisplay) -> bool {
    |display: PreviewDisplay| display.bounds.holds(point)
}

/// The condition of being the active display.
pub open spec fn active_one() -> spec_fn(PreviewDisplay) -> bool {
    |display: PreviewDisplay| display.active
}

/// The condition of being on screen.
pub open spec fn live_strip() -> spec_fn(StripEntry) -> bool {
    |entry: StripEntry| entry.active
}

/// The condition of being the parked strip that a display shows of a space.
pub open spec fn parked_strip(space: WorkspaceId) -> spec_fn(StripEntry) -> bool {
    |entry: StripEntry| !entry.active && entry.selected && entry.strip.id == space
}

/// Where the ghost of a dragged window is to be drawn, or why none is.
pub open spec fn site_of(
    entity: Entity,
    shortcut: bool,
    windows: Seq<WindowRecord>,
    strips: Seq<StripEntry>,
    displays: Seq<PreviewDisplay>,
) -> Result<PreviewSite, PreviewRefusal> {
    if !shortcut {
        Err(PreviewRefusal::ShortcutReleased)
    } else if find_where(windows, is_entity(entity)) is None {
        Err(PreviewRefusal::NotAWindow)
    } else if !tiled(windows, entity) {
        Err(PreviewRefusal::Unmanaged)
    } else if frame_of(windows, entity) is None {
        Err(PreviewRefusal::NoFrame)
    } else {
        let center = frame_of(windows, entity)->0.spec_center();
        match find_where(displays, hovered(center)) {
            None => Err(PreviewRefusal::NoDisplay),
            Some(hover) => {
                let on_active = find_where(displays, active_one()) matches Some(active)
                    && active.entity == hover.entity;
                if on_active {
                    let at = first_where(strips, live_strip());
                    if at < strips.len() {
                        Ok(
                            PreviewSite {
                                strip: at as usize,
                                scroll_x: strips[at].position.x,
                                viewport: hover.viewport,
                            },
                        )
                    } else {
                        Err(PreviewRefusal::NoActiveStrip)
                    }
                } else {
                    match hover.space {
                        None => Err(PreviewRefusal::NoActiveSpace),
                        Some(space) => {
                            let at = first_where(strips, parked_strip(space));
                            if at < strips.len() {
                                Ok(
                                    PreviewSite {
                                        strip: at as usize,
                                        scroll_x: hover.bounds.min.x,
                                        viewport: hover.viewport,
                                    },
                                )
                            } else {
                                Err(PreviewRefusal::NoSelectedStrip)
                            }
                        },
                    }
                }
            },
        }
    }
}

/// The ghost marks the slot that the window lands at on another display: both go by
/// the same strip, offset and place.
pub proof fn ghost_marks_the_landing_slot(
    entity: Entity,
    window_id: WinID,
    held: Seq<Held>,
    windows: Seq<WindowRecord>,
    columns: Seq<ColumnView>,
    active: DisplayId,
    others: Seq<DisplaySnapshot>,
    spaces: Seq<(DisplayId, WorkspaceId)>,
    strips: Seq<StripEntry>,
    displays: Seq<PreviewDisplay>,
    landing: Landing,
    mid: Option<(usize, i32)>,
)
    requires
        strips.len() <= usize::MAX,
        // The strips are those of the displays that are not active.
        forall|i: int|
            0 <= i < strips.len() ==> !(#[trigger] strips[i]).active && strips[i].selected,
        transfer_of(window_id, held, true, windows, columns, active, others, spaces, strips)
            == Some((entity, landing)),
        find_where(windows, is_entity(entity)) is Some,
        // The display under the middle of the window is the one it lands on.
        find_where(displays, hovered(frame_of(windows, entity)->0.spec_center())) matches Some(
            hover,
        ) && hover.bounds == landing.bounds && hover.space == Some(landing.space) && !(find_where(
            displays,
            active_one(),
        ) matches Some(own) && own.entity == hover.entity),
    ensures
        site_of(entity, true, windows, strips, displays) matches Ok(site) && site.strip
            == arrival_strip(strips, Some(landing.space)) && drop_slot(
            strips[site.strip as int].strip@,
            site.scroll_x,
            frame_of(windows, entity)->0.min.x,
            mid,
            windows,
        ) == transfer_slot(
            entity,
            landing,
            strips[arrival_strip(strips, Some(landing.space))].strip@,
            mid,
            windows,
        ),
{
    let space = landing.space;
    let at = first_where(strips, in_workspace(space));
    lemma_first_from(strips, in_workspace(space), 0);
    assert forall|j: int| 0 <= j < at implies !(parked_strip(space))(#[trigger] strips[j]) by {
        assert(!(in_workspace(space))(strips[j]));
    }
    lemma_first_is(strips, parked_strip(space), at);
}

/// Finds where the ghost of a dragged window is to be drawn: on its own display
/// the strip on screen with its own offset, on any other display the strip that
/// a transfer would land in, from that display's left edge.
pub fn preview_site(
    entity: Entity,
    shortcut: bool,
    windows: &Windows,
    strips: &Vec<StripEntry>,
    displays: &Vec<PreviewDisplay>,
) -> (site: Result<PreviewSite, PreviewRefusal>)
    requires
        windows.wf(),
        crate::commands::frames_centerable(windows.all@),
    ensures
        site == site_of(entity, shortcut, windows.all@, strips@, displays@),
{
    if !shortcut {
        return Err(PreviewRefusal::ShortcutReleased);
    }
    if windows.get(entity).is_none() {
        return Err(PreviewRefusal::NotAWindow);
    }
    if !windows.is_tiled(entity) {
        return Err(PreviewRefusal::Unmanaged);
    }
    let frame = match windows.frame(entity) {
        Some(frame) => frame,
        None => {
            return Err(PreviewRefusal::NoFrame);
        },
    };
    assert(frame_of(windows.all@, entity) is Some);
    let center = frame.center();
    let mut h: usize = 0;
    while h < displays.len() && !displays[h].bounds.contains(center)
        invariant
            h <= displays.len(),
            first_where(displays@, hovered(center)) == first_from(
                displays@,
                hovered(center),
                h as int,
            ),
        decreases displays.len() - h,
    {
        h = h + 1;
    }
    if h >= displays.len() {
        return Err(PreviewRefusal::NoDisplay);
    }
    let hover = displays[h];
    let mut a: usize = 0;
    while a < displays.len() && !displays[a].active
        invariant
            a <= displays.len(),
            first_where(displays@, active_one()) == first_from(
                displays@,
                active_one(),
                a as int,
            ),
        decreases displays.len() - a,
    {
        a = a + 1;
    }
    if a < displays.len() && displays[a].entity == hover.entity {
        let mut s: usize = 0;
        while s < strips.len() && !strips[s].active
            invariant
                s <= strips.len(),
                first_where(strips@, live_strip()) == first_from(strips@, live_strip(), s as int),
            decreases strips.len() - s,
        {
            s = s + 1;
        }
        if s >= strips.len() {
            return Err(PreviewRefusal::NoActiveStrip);
        }
        return Ok(
            PreviewSite { strip: s, scroll_x: strips[s].position.x, viewport: hover.viewport },
        );
    }
    let space = match hover.space {
        Some(space) => space,
        None => {
            return Err(PreviewRefusal::NoActiveSpace);
        },
    };
    let mut p: usize = 0;
    while p < strips.len() && !(!strips[p].active && strips[p].selected && strips[p].strip.id
        == space)
        invariant
            p <= strips.len(),
            first_where(strips@, parked_strip(space)) == first_from(
                strips@,
                parked_strip(space),
                p as int,
            ),
        decreases strips.len() - p,
    {
        p = p + 1;
    }
    if p >= strips.len() {
        return Err(PreviewRefusal::NoSelectedStrip);
    }
    Ok(PreviewSite { strip: p, scroll_x: hover.bounds.min.x, viewport: hover.viewport })
}

/// The greatest width that one of the first `n` members is on its way to.
pub open spec fn widest_member(members: Seq<Entity>, windows: Seq<WindowRecord>, n: int) -> Option<
    int,
>
    decreases n,
{
    if n <= 0 {
        None
    } else {
        let before = widest_member(members, windows, n - 1);
        match (before, moving_frame_of(windows, members[n - 1])) {
            (Some(width), Some(frame)) => Some(spec_max(width, frame.spec_width())),
            (None, Some(frame)) => Some(frame.spec_width()),
            _ => before,
        }
    }
}

/// The width of the ghost: that of the widest window of the dragged column, or
/// of the dragged window itself.
pub open spec fn ghost_width(
    entity: Entity,
    frame: IRect,
    strips: Seq<StripEntry>,
    windows: Seq<WindowRecord>,
) -> int {
    let own = frame.spec_width();
    match find_where(strips, holds_window(entity)) {
        Some(entry) => {
            let members = entry.strip@[column_of(entry.strip@, entity)].members();
            match widest_member(members, windows, members.len() as int) {
                Some(width) => if width > 0 {
                    width
                } else {
                    own
                },
                None => own,
            }
        },
        None => own,
    }
}

fn column_width(
    entity: Entity,
    frame: IRect,
    strips: &Vec<StripEntry>,
    windows: &Windows,
) -> (width: i64)
    requires
        windows.wf(),
    ensures
        width == ghost_width(entity, frame, strips@, windows.all@),
{
    let own: i64 = frame.max.x as i64 - frame.min.x as i64;
    let at = match owner_index(entity, strips) {
        Some(at) => at,
        None => {
            return own;
        },
    };
    proof {
        lemma_first_from(strips@, holds_window(entity), 0);
    }
    let members = match strips[at].strip.column_members(entity) {
        Some(members) => members,
        None => {
            return own;
        },
    };
    let mut widest: Option<i64> = None;
    let mut i: usize = 0;
    while i < members.len()
        invariant
            i <= members.len(),
            windows.wf(),
            match widest {
                Some(width) => widest_member(members@, windows.all@, i as int) == Some(
                    width as int,
                ),
                None => widest_member(members@, windows.all@, i as int) is None,
            },
        decreases members.len() - i,
    {
        if let Some(moving) = windows.moving_frame(members[i]) {
            let width: i64 = moving.max.x as i64 - moving.min.x as i64;
            widest = match widest {
                Some(found) => if found >= width {
                    Some(found)
                } else {
                    Some(width)
                },
                None => Some(width),
            };
        }
        i = i + 1;
    }
    match widest {
        Some(width) => if width > 0 {
            width
        } else {
            own
        },
        None => own,
    }
}

/// Every number that the ghost of a drag leads to fits its type.
pub open spec fn preview_fits(
    entity: Entity,
    frame: IRect,
    site: PreviewSite,
    strips: Seq<StripEntry>,
    windows: Seq<WindowRecord>,
    mid: Option<(usize, i32)>,
) -> bool {
    let width = ghost_width(entity, frame, strips, windows);
    let slot_x = drop_slot(
        strips[site.strip as int].strip@,
        site.scroll_x,
        frame.min.x,
        mid,
        windows,
    ).1;
    fits(width) && fits(slot_x) && ghost_fits(slot_x, site.viewport, width as i32)
}

/// The ghost of a dragged window at a site: the slot that a drop would land at,
/// as wide as the whole dragged column.
pub fn preview_ghost(
    entity: Entity,
    frame: IRect,
    site: PreviewSite,
    strips: &Vec<StripEntry>,
    windows: &Windows,
    mid: Option<(usize, i32)>,
) -> (rect: IRect)
    requires
        windows.wf(),
        site.strip < strips@.len(),
        preview_fits(entity, frame, site, strips@, windows.all@, mid),
    ensures
        rect == ghost_rect(
            drop_slot(
                strips@[site.strip as int].strip@,
                site.scroll_x,
                frame.min.x,
                mid,
                windows.all@,
            ).1,
            site.viewport,
            ghost_width(entity, frame, strips@, windows.all@) as i32,
        ),
{
    let width: i64 = column_width(entity, frame, strips, windows);
    let size = Size { x: width as i32, y: 0 };
    drop_preview_rect(
        &strips[site.strip].strip,
        site.scroll_x,
        site.viewport,
        frame.min.x,
        size,
        mid,
        windows,
    )
}

/// The ghost that is shown, if one is.
#[derive(Clone, Copy, Debug, PartialEq, Eq, Structural)]
pub struct DropPreviewState {
    pub rect: Option<IRect>,
}

impl Default for DropPreviewState {
    fn default() -> (state: DropPreviewState)
        ensures
            state.rect is None,
    {
        DropPreviewState { rect: None }
    }
}

/// The condition of being armed for another display.
pub open spec fn armed_drag() -> spec_fn(Held) -> bool {
    |held: Held| held.display_armed
}

/// The condition of being a release.
pub open spec fn is_release() -> spec_fn(PointerEvent) -> bool {
    |event: PointerEvent| event is Up
}

/// The window whose ghost is to be shown, or why none is: a release, the
/// overview of all windows, or no armed drag.
pub fn drag_drop_preview(
    events: &Vec<PointerEvent>,
    mission_control: bool,
    held: &Vec<Held>,
) -> (target: Result<Entity, PreviewRefusal>)
    ensures
        target == (if any_where(events@, is_release()) {
            Err(PreviewRefusal::MouseReleased)
        } else if mission_control {
            Err(PreviewRefusal::MissionControlActive)
        } else {
            match find_where(held@, armed_drag()) {
                Some(grab) => Ok(grab.target),
                None => Err(PreviewRefusal::NoArmedDrag),
            }
        }),
{
    let mut i: usize = 0;
    while i < events.len()
        invariant
            i <= events.len(),
            first_where(events@, is_release()) == first_from(events@, is_release(), i as int),
        decreases events.len() - i,
    {
        if events[i] == PointerEvent::Up {
            return Err(PreviewRefusal::MouseReleased);
        }
        i = i + 1;
    }
    if mission_control {
        return Err(PreviewRefusal::MissionControlActive);
    }
    let mut k: usize = 0;
    while k < held.len()
        invariant
            k <= held.len(),
            first_where(held@, armed_drag()) == first_from(held@, armed_drag(), k as int),
            !any_where(events@, is_release()),
            !mission_control,
        decreases held.len() - k,
    {
        if held[k].display_armed {
            return Ok(held[k].target);
        }
        k = k + 1;
    }
    Err(PreviewRefusal::NoArmedDrag)
}

impl DropPreviewState {
    /// Shows the ghost, or hides it. Answers whether that is a change worth a
    /// line in the log.
    pub fn apply(&mut self, shown: Result<IRect, PreviewRefusal>) -> (changed: bool)
        ensures
            final(self).rect == (match shown {
                Ok(rect) => Some(rect),
                Err(_) => None,
            }),
            changed == (old(self).rect is Some != final(self).rect is Some),
    {
        let was: bool = self.rect.is_some();
        self.rect = match shown {
            Ok(rect) => Some(rect),
            Err(_) => None,
        };
        was != self.rect.is_some()
    }
}

} // verus!

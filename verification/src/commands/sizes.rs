//! Commands on the sizes and the places of tiled windows.
use vstd::prelude::*;

use crate::commands::ResizeDirection;
use crate::ecs::layout::shape::strip_shape;
use crate::ecs::layout::{
    clamp_origin_to_viewport, column_has, column_of, into_viewport, strip_has, strip_unstacked,
    strip_wf, ColumnKind, ColumnView, LayoutStrip,
};
use crate::ecs::params::{
    fills_width, focus_of, frame_of, moving_frame_of, place_of, size_of, Placement, WindowRecord,
    Windows,
};
use crate::ecs::{resizing, ManualStripOffset, Request, Requests};
use crate::geometry::{
    clamp_i32, clamped, fits, half, halved, Entity, IRect, IVec2, Origin, Size,
};
use crate::seqs::lemma_first_from;

verus! {

/// The first of the flags from `from` on that is set.
pub open spec fn first_set(flags: Seq<bool>, from: int) -> int
    decreases flags.len() - from,
{
    if from < 0 || from >= flags.len() {
        flags.len() as int
    } else if flags[from] {
        from
    } else {
        first_set(flags, from + 1)
    }
}

/// The last of the first `n` flags that is set, or -1.
pub open spec fn last_set(flags: Seq<bool>, n: int) -> int
    decreases n,
{
    if n <= 0 {
        -1
    } else if flags[n - 1] {
        n - 1
    } else {
        last_set(flags, n - 1)
    }
}

/// The preset that comes next, by which presets are clearly larger or clearly
/// smaller than the present size. Growing takes the first larger one; at the top
/// it starts over from the first, or stays at the last. Shrinking takes the last
/// smaller one; at the bottom it starts over from the last, or stays at the
/// first.
pub open spec fn next_preset_of(
    larger: Seq<bool>,
    smaller: Seq<bool>,
    direction: ResizeDirection,
    cycle: bool,
) -> Option<int> {
    if larger.len() == 0 {
        None
    } else {
        match direction {
            ResizeDirection::Grow => Some(
                if first_set(larger, 0) < larger.len() {
                    first_set(larger, 0)
                } else if cycle {
                    0
                } else {
                    larger.len() - 1
                },
            ),
            ResizeDirection::Shrink => Some(
                if last_set(smaller, smaller.len() as int) >= 0 {
                    last_set(smaller, smaller.len() as int)
                } else if cycle {
                    larger.len() - 1
                } else {
                    0
                },
            ),
        }
    }
}

/// Picks the next preset; none where there are no presets.
pub fn next_preset(
    larger: &Vec<bool>,
    smaller: &Vec<bool>,
    direction: ResizeDirection,
    cycle: bool,
) -> (next: Option<usize>)
    requires
        larger@.len() == smaller@.len(),
    ensures
        match next {
            Some(at) => next_preset_of(larger@, smaller@, direction, cycle) == Some(at as int)
                && at < larger@.len(),
            None => next_preset_of(larger@, smaller@, direction, cycle) is None,
        },
{
    if larger.len() == 0 {
        return None;
    }
    match direction {
        ResizeDirection::Grow => {
            let mut i: usize = 0;
            while i < larger.len()
                invariant
                    i <= larger.len(),
                    direction == ResizeDirection::Grow,
                    first_set(larger@, 0) == first_set(larger@, i as int),
                decreases larger.len() - i,
            {
                if larger[i] {
                    return Some(i);
                }
                i = i + 1;
            }
            if cycle {
                Some(0)
            } else {
                Some(larger.len() - 1)
            }
        },
        ResizeDirection::Shrink => {
            let mut n: usize = smaller.len();
            while n > 0
                invariant
                    n <= smaller.len(),
                    direction == ResizeDirection::Shrink,
                    larger@.len() == smaller@.len(),
                    last_set(smaller@, smaller@.len() as int) == last_set(smaller@, n as int),
                decreases n,
            {
                if smaller[n - 1] {
                    return Some(n - 1);
                }
                n = n - 1;
            }
            if cycle {
                Some(larger.len() - 1)
            } else {
                Some(0)
            }
        },
    }
}

/// The members that get a new width along with `entity`: the sizes of the first
/// `n` of them, `entity` itself left out.
pub open spec fn width_requests(
    members: Seq<Entity>,
    entity: Entity,
    windows: Seq<WindowRecord>,
    width: i32,
    n: int,
) -> Seq<Request>
    decreases n,
{
    if n <= 0 {
        Seq::empty()
    } else {
        let before = width_requests(members, entity, windows, width, n - 1);
        match size_of(windows, members[n - 1]) {
            Some(size) => if members[n - 1] != entity {
                before + resizing(members[n - 1], Size { x: width, y: size.y })
            } else {
                before
            },
            None => before,
        }
    }
}

fn request_widths(
    members: &Vec<Entity>,
    entity: Entity,
    windows: &Windows,
    width: i32,
    requests: &mut Requests,
)
    ensures
        final(requests)@ == old(requests)@ + width_requests(
            members@,
            entity,
            windows.all@,
            width,
            members@.len() as int,
        ),
{
    let mut i: usize = 0;
    assert(requests@ =~= old(requests)@ + width_requests(members@, entity, windows.all@, width, 0));
    while i < members.len()
        invariant
            i <= members.len(),
            requests@ == old(requests)@ + width_requests(
                members@,
                entity,
                windows.all@,
                width,
                i as int,
            ),
        decreases members.len() - i,
    {
        let member = members[i];
        if member != entity {
            if let Some(size) = windows.size(member) {
                requests.resize_entity(member, Size { x: width, y: size.y });
            }
        }
        assert(requests@ =~= old(requests)@ + width_requests(
            members@,
            entity,
            windows.all@,
            width,
            i as int + 1,
        ));
        i = i + 1;
    }
}

/// The windows that share a stack with `entity`; none where it is in no stack.
pub open spec fn stack_members(columns: Seq<ColumnView>, entity: Entity) -> Seq<Entity> {
    let at = column_of(columns, entity);
    if at < columns.len() && columns[at].kind == ColumnKind::Stack {
        columns[at].members()
    } else {
        Seq::empty()
    }
}

fn stack_members_of(strip: &LayoutStrip, entity: Entity) -> (members: Vec<Entity>)
    ensures
        members@ == stack_members(strip@, entity),
{
    if let Some(at) = strip.index_of(entity) {
        if strip.columns[at].kind == ColumnKind::Stack {
            return strip.columns[at].windows();
        }
    }
    Vec::new()
}

/// The corner of a window of that size with the middle of `frame`.
pub open spec fn recentered(frame: IRect, size: Size) -> Origin {
    frame.spec_center().spec_minus(
        IVec2 { x: halved(size.x as int) as i32, y: halved(size.y as int) as i32 },
    )
}

/// The requests that a new width of the focused window takes.
pub open spec fn resize_requests(
    entity: Entity,
    frame: IRect,
    new_width: i32,
    viewport: IRect,
    columns: Seq<ColumnView>,
    windows: Seq<WindowRecord>,
) -> Seq<Request> {
    let size = Size { x: new_width, y: frame.spec_height() as i32 };
    let members = stack_members(columns, entity);
    seq![
        Request::Reposition {
            entity,
            origin: into_viewport(recentered(frame, size), size, viewport),
        },
    ] + width_requests(members, entity, windows, new_width, members.len() as int) + resizing(
        entity,
        size,
    ) + seq![Request::Reshuffle { entity, force: false }]
}

/// Every number that a new width of the window leads to fits its type.
pub open spec fn resize_fits(frame: IRect, new_width: i32, viewport: IRect) -> bool {
    let size = Size { x: new_width, y: frame.spec_height() as i32 };
    &&& frame.centerable()
    &&& fits(frame.spec_height())
    &&& 0 <= size.x
    &&& 0 <= size.y
    &&& frame.spec_center().diff_fits(
        IVec2 { x: halved(size.x as int) as i32, y: halved(size.y as int) as i32 },
    )
    &&& viewport.max.diff_fits(size)
}

/// Everything that a new width, or none, asks of the focused window and its stack.
pub open spec fn width_change(
    windows: Seq<WindowRecord>,
    columns: Seq<ColumnView>,
    viewport: IRect,
    new_width: Option<i32>,
) -> Seq<Request> {
    match focus_of(windows) {
        None => Seq::empty(),
        Some(window) => {
            let entity = window.entity;
            match frame_of(windows, entity) {
                None => Seq::empty(),
                Some(frame) => {
                    let cleared = if fills_width(windows, entity) {
                        seq![Request::ForgetWidth { entity }]
                    } else {
                        Seq::empty()
                    };
                    match new_width {
                        None => cleared,
                        Some(width) => cleared + resize_requests(
                            entity,
                            frame,
                            width,
                            viewport,
                            columns,
                            windows,
                        ),
                    }
                },
            }
        },
    }
}

/// Gives the focused window a new width, around its middle and inside the
/// viewport; the windows that share its stack get the same width. A window that
/// filled the width of its display no longer does. Without a new width nothing
/// else happens.
pub fn resize_window(
    windows: &Windows,
    strip: &LayoutStrip,
    viewport: IRect,
    new_width: Option<i32>,
    requests: &mut Requests,
)
    requires
        windows.wf(),
        new_width matches Some(width) ==> (focus_of(windows.all@) matches Some(window) ==> (frame_of(
            windows.all@,
            window.entity,
        ) matches Some(frame) ==> resize_fits(frame, width, viewport))),
    ensures
        final(requests)@ == (match focus_of(windows.all@) {
            None => old(requests)@,
            Some(window) => {
                let entity = window.entity;
                match frame_of(windows.all@, entity) {
                    None => old(requests)@,
                    Some(frame) => {
                        let cleared = if fills_width(windows.all@, entity) {
                            old(requests)@.push(Request::ForgetWidth { entity })
                        } else {
                            old(requests)@
                        };
                        match new_width {
                            None => cleared,
                            Some(width) => cleared + resize_requests(
                                entity,
                                frame,
                                width,
                                viewport,
                                strip@,
                                windows.all@,
                            ),
                        }
                    },
                }
            },
        }),
        final(requests)@ == old(requests)@ + width_change(windows.all@, strip@, viewport, new_width),
{
    let entity = match windows.focused() {
        Some(window) => window.entity,
        None => {
            assert(requests@ =~= old(requests)@ + Seq::<Request>::empty());
            return;
        },
    };
    let frame = match windows.frame(entity) {
        Some(frame) => frame,
        None => {
            assert(requests@ =~= old(requests)@ + Seq::<Request>::empty());
            return;
        },
    };
    if windows.full_width(entity) {
        requests.push(Request::ForgetWidth { entity });
    }
    let width = match new_width {
        Some(width) => width,
        None => {
            assert(requests@ =~= old(requests)@ + width_change(
                windows.all@,
                strip@,
                viewport,
                new_width,
            ));
            return;
        },
    };
    let ghost cleared = requests@;
    let size = Size { x: width, y: frame.height() };
    let corner = frame.center().minus(IVec2 { x: half(size.x), y: half(size.y) });
    let origin = clamp_origin_to_viewport(corner, size, viewport);
    requests.reposition_entity(entity, origin);
    let members = stack_members_of(strip, entity);
    request_widths(&members, entity, windows, width, requests);
    requests.resize_entity(entity, size);
    requests.reshuffle_around(entity);
    assert(requests@ =~= cleared + resize_requests(
        entity,
        frame,
        width,
        viewport,
        strip@,
        windows.all@,
    ));
    assert(requests@ =~= old(requests)@ + width_change(windows.all@, strip@, viewport, new_width));
}

/// A window in a stack and the neighbour that takes up the difference when its
/// height changes.
#[derive(Clone, Copy, Debug, PartialEq, Eq, Structural)]
pub struct VerticalPair {
    pub column: usize,
    pub position: usize,
    pub neighbour: usize,
    pub height: i32,
    pub neighbour_height: i32,
}

/// The row that takes up the difference: the one below, or the one above for the
/// last row.
pub open spec fn partner_row(row: int, rows: int) -> int {
    if row + 1 < rows {
        row + 1
    } else {
        row - 1
    }
}

/// The height that the window shown in a row is on its way to.
pub open spec fn row_height(column: ColumnView, row: int, windows: Seq<WindowRecord>) -> Option<int> {
    match column.front(row) {
        Some(entity) => match moving_frame_of(windows, entity) {
            Some(frame) => Some(frame.spec_height()),
            None => None,
        },
        None => None,
    }
}

/// The pair that a change of height concerns.
pub open spec fn is_vertical_pair(
    entity: Entity,
    columns: Seq<ColumnView>,
    windows: Seq<WindowRecord>,
    pair: VerticalPair,
) -> bool {
    let at = column_of(columns, entity);
    &&& at < columns.len()
    &&& columns[at].kind == ColumnKind::Stack
    &&& pair.column == at
    &&& pair.position == columns[at].row_of(entity)
    &&& pair.neighbour == partner_row(pair.position as int, columns[at].items.len() as int)
    &&& 0 <= pair.neighbour < columns[at].items.len()
    &&& row_height(columns[at], pair.position as int, windows) == Some(pair.height as int)
    &&& row_height(columns[at], pair.neighbour as int, windows) == Some(
        pair.neighbour_height as int,
    )
}

/// Every frame on its way has extents that a point can hold.
pub open spec fn moving_frames_measurable(windows: Seq<WindowRecord>) -> bool {
    forall|entity: Entity|
        (#[trigger] moving_frame_of(windows, entity)) matches Some(frame) ==> frame.measurable()
}

/// Finds the pair that a change of height of `entity` concerns. There is none
/// for a window that is in no stack, alone in it, or without a frame.
pub fn vertical_pair(entity: Entity, strip: &LayoutStrip, windows: &Windows) -> (pair: Option<
    VerticalPair,
>)
    requires
        windows.wf(),
        moving_frames_measurable(windows.all@),
    ensures
        match pair {
            Some(found) => is_vertical_pair(entity, strip@, windows.all@, found),
            None => forall|other: VerticalPair| !is_vertical_pair(
                entity,
                strip@,
                windows.all@,
                other,
            ),
        },
{
    let at = match strip.index_of(entity) {
        Some(at) => at,
        None => {
            return None;
        },
    };
    let column = &strip.columns[at];
    if column.kind != ColumnKind::Stack {
        return None;
    }
    proof {
        lemma_first_from(strip@, column_has(entity), 0);
    }
    let position = match column.row_of(entity) {
        Some(row) => row,
        None => {
            return None;
        },
    };
    let neighbour: usize = if position < column.items.len() - 1 {
        position + 1
    } else if position > 0 {
        position - 1
    } else {
        return None;
    };
    let height = match column.front(position) {
        Some(front) => match windows.moving_frame(front) {
            Some(frame) => {
                assert(moving_frame_of(windows.all@, front) is Some);
                frame.height()
            },
            None => {
                return None;
            },
        },
        None => {
            return None;
        },
    };
    let neighbour_height = match column.front(neighbour) {
        Some(front) => match windows.moving_frame(front) {
            Some(frame) => {
                assert(moving_frame_of(windows.all@, front) is Some);
                frame.height()
            },
            None => {
                return None;
            },
        },
        None => {
            return None;
        },
    };
    Some(VerticalPair { column: at, position, neighbour, height, neighbour_height })
}

/// The sizes of the first `n` windows of an item that get a new height.
pub open spec fn height_requests(
    item: Seq<Entity>,
    windows: Seq<WindowRecord>,
    height: i32,
    n: int,
) -> Seq<Request>
    decreases n,
{
    if n <= 0 {
        Seq::empty()
    } else {
        let before = height_requests(item, windows, height, n - 1);
        match size_of(windows, item[n - 1]) {
            Some(size) => before + resizing(item[n - 1], Size { x: size.x, y: height }),
            None => before,
        }
    }
}

fn request_heights(item: &Vec<Entity>, windows: &Windows, height: i32, requests: &mut Requests)
    ensures
        final(requests)@ == old(requests)@ + height_requests(
            item@,
            windows.all@,
            height,
            item@.len() as int,
        ),
{
    let mut i: usize = 0;
    assert(requests@ =~= old(requests)@ + height_requests(item@, windows.all@, height, 0));
    while i < item.len()
        invariant
            i <= item.len(),
            requests@ == old(requests)@ + height_requests(item@, windows.all@, height, i as int),
        decreases item.len() - i,
    {
        if let Some(size) = windows.size(item[i]) {
            requests.resize_entity(item[i], Size { x: size.x, y: height });
        }
        assert(requests@ =~= old(requests)@ + height_requests(
            item@,
            windows.all@,
            height,
            i as int + 1,
        ));
        i = i + 1;
    }
}

/// The height that a window gets of a pair: the one wanted, as long as both
/// windows keep the least height.
pub open spec fn shared_height(wanted: int, total: int, least: int) -> int {
    clamped(wanted, least, total - least)
}

/// Changes the height of the focused window in its stack; the neighbour below,
/// or above for the last window, takes up the difference, so that the total of
/// both stays. Nothing happens for a window in no stack, nor for a pair too low
/// for two windows.
pub fn resize_window_vertical(
    windows: &Windows,
    strip: &LayoutStrip,
    wanted_height: i32,
    least_height: i32,
    requests: &mut Requests,
)
    requires
        windows.wf(),
        moving_frames_measurable(windows.all@),
        0 <= least_height,
        forall|entity: Entity, pair: VerticalPair|
            is_vertical_pair(entity, strip@, windows.all@, pair) ==> fits(
                pair.height + pair.neighbour_height,
            ),
    ensures
        match focus_of(windows.all@) {
            None => final(requests)@ == old(requests)@,
            Some(window) => {
                ||| (forall|pair: VerticalPair| !is_vertical_pair(
                    window.entity,
                    strip@,
                    windows.all@,
                    pair,
                )) && final(requests)@ == old(requests)@
                ||| exists|pair: VerticalPair| #[trigger]
                    is_vertical_pair(window.entity, strip@, windows.all@, pair) && final(requests)@
                        == old(requests)@ + pair_requests(
                        strip@[pair.column as int],
                        pair,
                        windows.all@,
                        wanted_height as int,
                        least_height as int,
                    )
            },
        },
{
    let entity = match windows.focused() {
        Some(window) => window.entity,
        None => {
            return;
        },
    };
    let pair = match vertical_pair(entity, strip, windows) {
        Some(pair) => pair,
        None => {
            return;
        },
    };
    let total: i32 = pair.height + pair.neighbour_height;
    if (total as i64) < 2 * (least_height as i64) {
        assert(requests@ =~= old(requests)@ + pair_requests(
            strip@[pair.column as int],
            pair,
            windows.all@,
            wanted_height as int,
            least_height as int,
        ));
        return;
    }
    let height: i32 = clamp_i32(wanted_height, least_height, total - least_height);
    let column = &strip.columns[pair.column];
    request_heights(&column.items[pair.position], windows, height, requests);
    request_heights(&column.items[pair.neighbour], windows, total - height, requests);
    assert(requests@ =~= old(requests)@ + pair_requests(
        strip@[pair.column as int],
        pair,
        windows.all@,
        wanted_height as int,
        least_height as int,
    ));
}

/// The requests that a change of height of a pair takes.
pub open spec fn pair_requests(
    column: ColumnView,
    pair: VerticalPair,
    windows: Seq<WindowRecord>,
    wanted: int,
    least: int,
) -> Seq<Request> {
    let total = pair.height + pair.neighbour_height;
    let height = shared_height(wanted, total, least);
    let own = column.items[pair.position as int];
    let other = column.items[pair.neighbour as int];
    if total < 2 * least {
        Seq::empty()
    } else {
        height_requests(own, windows, height as i32, own.len() as int) + height_requests(
            other,
            windows,
            (total - height) as i32,
            other.len() as int,
        )
    }
}

/// Both windows of a pair keep the least height, and their total stays.
pub proof fn shared_height_keeps_the_total(wanted: int, total: int, least: int)
    requires
        total >= 2 * least,
    ensures
        shared_height(wanted, total, least) >= least,
        total - shared_height(wanted, total, least) >= least,
{
}

/// What a window asks for that comes to fill its display, or that gets its width back.
pub open spec fn fill_requests(
    entity: Entity,
    filled: bool,
    viewport: IRect,
    previous_width: i32,
) -> Seq<Request> {
    if filled {
        seq![Request::ForgetWidth { entity }] + resizing(
            entity,
            Size { x: previous_width, ..viewport.spec_size() },
        )
    } else {
        seq![
            Request::FillWidth { entity },
            Request::Reposition { entity, origin: viewport.min },
        ] + resizing(entity, viewport.spec_size()) + seq![
            Request::Reshuffle { entity, force: false },
        ]
    }
}

/// Lets the focused window fill its display, or gives it the width back that it
/// had before. A window in a stack leaves it to fill the display.
pub fn full_width_window(
    windows: &Windows,
    strip: &mut LayoutStrip,
    viewport: IRect,
    previous_width: i32,
    requests: &mut Requests,
)
    requires
        viewport.measurable(),
        strip_wf(old(strip)@),
    ensures
        match focus_of(windows.all@) {
            None => final(requests)@ == old(requests)@ && final(strip)@ == old(strip)@,
            Some(window) => {
                let entity = window.entity;
                if fills_width(windows.all@, entity) {
                    &&& final(strip)@ == old(strip)@
                    &&& final(requests)@ == old(requests)@.push(Request::ForgetWidth { entity })
                        + resizing(entity, Size { x: previous_width, ..viewport.spec_size() })
                } else {
                    &&& final(strip)@ == strip_unstacked(old(strip)@, entity)
                    &&& final(requests)@ == (old(requests)@.push(
                        Request::FillWidth { entity },
                    ).push(Request::Reposition { entity, origin: viewport.min }) + resizing(
                        entity,
                        viewport.spec_size(),
                    )).push(Request::Reshuffle { entity, force: false })
                }
            },
        },
        focus_of(windows.all@) matches Some(window) ==> final(requests)@ == old(requests)@
            + fill_requests(
            window.entity,
            fills_width(windows.all@, window.entity),
            viewport,
            previous_width,
        ),
        final(strip).id == old(strip).id,
        final(strip).virtual_index == old(strip).virtual_index,
{
    let entity = match windows.focused() {
        Some(window) => window.entity,
        None => {
            return;
        },
    };
    if windows.full_width(entity) {
        requests.push(Request::ForgetWidth { entity });
        let size = Size { x: previous_width, y: viewport.size().y };
        requests.resize_entity(entity, size);
    } else {
        let _ = strip.unstack(entity);
        requests.push(Request::FillWidth { entity });
        requests.reposition_entity(entity, viewport.min);
        requests.resize_entity(entity, viewport.size());
        requests.reshuffle_around(entity);
    }
    assert(requests@ =~= old(requests)@ + fill_requests(
        entity,
        fills_width(windows.all@, entity),
        viewport,
        previous_width,
    ));
}

/// A height shared equally by `count` windows, rounded towards zero.
pub open spec fn equal_share(height: int, count: int) -> int {
    if height >= 0 {
        height / count
    } else {
        -((-height) / count)
    }
}

/// Equal shares fit into the height, and what they leave is less than one pixel for
/// each window.
pub proof fn equal_shares_fill_the_height(height: int, count: int)
    requires
        0 <= height,
        0 < count,
    ensures
        0 <= height - count * equal_share(height, count) < count,
{
    vstd::arithmetic::div_mod::lemma_fundamental_div_mod(height, count);
    vstd::arithmetic::div_mod::lemma_mod_bound(height, count);
}

/// The sizes of all windows in the first `n` items of a column, at one height.
pub open spec fn column_heights(
    column: ColumnView,
    windows: Seq<WindowRecord>,
    height: i32,
    n: int,
) -> Seq<Request>
    decreases n,
{
    if n <= 0 {
        Seq::empty()
    } else {
        column_heights(column, windows, height, n - 1) + height_requests(
            column.items[n - 1],
            windows,
            height,
            column.items[n - 1].len() as int,
        )
    }
}

/// What equal heights ask of the stack of a window.
pub open spec fn equal_requests(
    columns: Seq<ColumnView>,
    focused: Entity,
    windows: Seq<WindowRecord>,
    viewport: IRect,
) -> Seq<Request> {
    let at = column_of(columns, focused);
    if at < columns.len() && columns[at].kind == ColumnKind::Stack {
        let count = columns[at].items.len() as int;
        column_heights(
            columns[at],
            windows,
            equal_share(viewport.spec_height(), count) as i32,
            count,
        )
    } else {
        Seq::empty()
    }
}

/// Gives all windows of the focused window's stack the same height.
pub fn equalize_column(
    focused: Entity,
    windows: &Windows,
    strip: &LayoutStrip,
    viewport: IRect,
    requests: &mut Requests,
)
    requires
        viewport.measurable(),
        forall|i: int|
            0 <= i < strip@.len() ==> 1 <= (#[trigger] strip@[i]).items.len() <= i32::MAX,
    ensures
        final(requests)@ == ({
            let at = column_of(strip@, focused);
            if at < strip@.len() && strip@[at].kind == ColumnKind::Stack {
                let count = strip@[at].items.len() as int;
                old(requests)@ + column_heights(
                    strip@[at],
                    windows.all@,
                    equal_share(viewport.spec_height(), count) as i32,
                    count,
                )
            } else {
                old(requests)@
            }
        }),
        final(requests)@ == old(requests)@ + equal_requests(
            strip@,
            focused,
            windows.all@,
            viewport,
        ),
{
    assert(requests@ =~= old(requests)@ + Seq::<Request>::empty());
    let at = match strip.index_of(focused) {
        Some(at) => at,
        None => {
            return;
        },
    };
    if strip.columns[at].kind != ColumnKind::Stack {
        return;
    }
    let column = &strip.columns[at];
    assert(strip@[at as int].items.len() == column.items.len());
    let count: i64 = column.items.len() as i64;
    let total: i64 = viewport.height() as i64;
    let share: i64 = if total >= 0 {
        total / count
    } else {
        -((-total) / count)
    };
    proof {
        let t: int = total as int;
        let c: int = count as int;
        assert(equal_share(t, c) == share);
        if t >= 0 {
            assert(0 <= t / c <= t) by (nonlinear_arith)
                requires
                    t >= 0,
                    c >= 1,
            ;
        } else {
            let m = -t;
            assert(0 <= m / c <= m) by (nonlinear_arith)
                requires
                    m >= 0,
                    c >= 1,
            ;
        }
    }
    let height: i32 = share as i32;
    let mut i: usize = 0;
    assert(requests@ =~= old(requests)@ + column_heights(
        strip@[at as int],
        windows.all@,
        height,
        0,
    ));
    while i < column.items.len()
        invariant
            i <= column.items.len(),
            at < strip@.len(),
            *column == strip.columns@[at as int],
            requests@ == old(requests)@ + column_heights(
                strip@[at as int],
                windows.all@,
                height,
                i as int,
            ),
        decreases column.items.len() - i,
    {
        request_heights(&column.items[i], windows, height, requests);
        assert(requests@ =~= old(requests)@ + column_heights(
            strip@[at as int],
            windows.all@,
            height,
            i as int + 1,
        ));
        i = i + 1;
    }
}

/// What giving the first `n` of these windows one width takes: a window that
/// filled the width of its display no longer does.
pub open spec fn balance_members(
    members: Seq<Entity>,
    windows: Seq<WindowRecord>,
    width: i32,
    n: int,
) -> Seq<Request>
    decreases n,
{
    if n <= 0 {
        Seq::empty()
    } else {
        let entity = members[n - 1];
        let before = balance_members(members, windows, width, n - 1);
        let cleared = if fills_width(windows, entity) {
            before.push(Request::ForgetWidth { entity })
        } else {
            before
        };
        match size_of(windows, entity) {
            Some(size) => cleared + resizing(entity, Size { x: width, y: size.y }),
            None => cleared,
        }
    }
}

/// What giving all windows in the first `n` columns one width takes; fullscreen
/// columns are left alone.
pub open spec fn balance_columns(
    columns: Seq<ColumnView>,
    windows: Seq<WindowRecord>,
    width: i32,
    n: int,
) -> Seq<Request>
    decreases n,
{
    if n <= 0 {
        Seq::empty()
    } else {
        let before = balance_columns(columns, windows, width, n - 1);
        if columns[n - 1].kind == ColumnKind::Fullscreen {
            before
        } else {
            let members = columns[n - 1].members();
            before + balance_members(members, windows, width, members.len() as int)
        }
    }
}

fn balance_column(members: &Vec<Entity>, windows: &Windows, width: i32, requests: &mut Requests)
    ensures
        final(requests)@ == old(requests)@ + balance_members(
            members@,
            windows.all@,
            width,
            members@.len() as int,
        ),
{
    let mut i: usize = 0;
    assert(requests@ =~= old(requests)@ + balance_members(members@, windows.all@, width, 0));
    while i < members.len()
        invariant
            i <= members.len(),
            requests@ == old(requests)@ + balance_members(
                members@,
                windows.all@,
                width,
                i as int,
            ),
        decreases members.len() - i,
    {
        let entity = members[i];
        if windows.full_width(entity) {
            requests.push(Request::ForgetWidth { entity });
        }
        if let Some(size) = windows.size(entity) {
            requests.resize_entity(entity, Size { x: width, y: size.y });
        }
        assert(requests@ =~= old(requests)@ + balance_members(
            members@,
            windows.all@,
            width,
            i as int + 1,
        ));
        i = i + 1;
    }
}

/// What a strip asks for whose columns get the width of the focused window.
pub open spec fn balance_requests(
    columns: Seq<ColumnView>,
    windows: Seq<WindowRecord>,
    focused: Entity,
    width: i32,
) -> Seq<Request> {
    balance_columns(columns, windows, width, columns.len() as int).push(
        Request::Reshuffle { entity: focused, force: false },
    )
}

/// Gives every column of the strip the width of the focused window.
pub fn balance_strip(windows: &Windows, strip: &LayoutStrip, requests: &mut Requests)
    ensures
        final(requests)@ == (match focus_of(windows.all@) {
            None => old(requests)@,
            Some(window) => match size_of(windows.all@, window.entity) {
                None => old(requests)@,
                Some(size) => (old(requests)@ + balance_columns(
                    strip@,
                    windows.all@,
                    size.x,
                    strip@.len() as int,
                )).push(Request::Reshuffle { entity: window.entity, force: false }),
            },
        }),
        focus_of(windows.all@) matches Some(window) ==> (size_of(windows.all@, window.entity)
            matches Some(size) ==> final(requests)@ == old(requests)@ + balance_requests(
            strip@,
            windows.all@,
            window.entity,
            size.x,
        )),
{
    let focused = match windows.focused() {
        Some(window) => window.entity,
        None => {
            return;
        },
    };
    let width: i32 = match windows.size(focused) {
        Some(size) => size.x,
        None => {
            return;
        },
    };
    let mut i: usize = 0;
    assert(requests@ =~= old(requests)@ + balance_columns(strip@, windows.all@, width, 0));
    while i < strip.columns.len()
        invariant
            i <= strip.columns.len(),
            requests@ == old(requests)@ + balance_columns(strip@, windows.all@, width, i as int),
        decreases strip.columns.len() - i,
    {
        if strip.columns[i].kind != ColumnKind::Fullscreen {
            let members = strip.columns[i].windows();
            balance_column(&members, windows, width, requests);
        }
        assert(requests@ =~= old(requests)@ + balance_columns(
            strip@,
            windows.all@,
            width,
            i as int + 1,
        ));
        i = i + 1;
    }
    requests.reshuffle_around(focused);
    assert(requests@ =~= old(requests)@ + balance_requests(strip@, windows.all@, focused, width));
}

/// The strip offset that brings a window fully into view.
pub open spec fn snapped(frame: IRect, slot: Origin, viewport: IRect) -> Origin {
    into_viewport(frame.min, frame.spec_size(), viewport).spec_minus(slot)
}

/// Every number that snapping a window leads to fits its type.
pub open spec fn snap_fits(frame: IRect, slot: Origin, viewport: IRect) -> bool {
    &&& frame.measurable()
    &&& viewport.max.diff_fits(frame.spec_size())
    &&& into_viewport(frame.min, frame.spec_size(), viewport).diff_fits(slot)
}

/// Slides the strip until the focused window is fully in view, by the nearer
/// edge and without a new size, and remembers the offset as placed by hand. Answers
/// the mark to remember it with.
pub fn snap_window(
    windows: &Windows,
    strip: &LayoutStrip,
    strip_entity: Entity,
    viewport: IRect,
    requests: &mut Requests,
) -> (mark: Option<ManualStripOffset>)
    requires
        windows.wf(),
        focus_of(windows.all@) matches Some(window) ==> (place_of(windows.all@, window.entity)
            matches Some(place) ==> snap_fits(place.spec_moving_frame(), place.layout, viewport)),
    ensures
        final(requests)@ == (match focus_of(windows.all@) {
            None => old(requests)@,
            Some(window) => match place_of(windows.all@, window.entity) {
                None => old(requests)@,
                Some(place) => old(requests)@.push(
                    Request::Reposition {
                        entity: strip_entity,
                        origin: snapped(place.spec_moving_frame(), place.layout, viewport),
                    },
                ).push(Request::PinOffset { strip: strip_entity }),
            },
        }),
        mark is Some == (focus_of(windows.all@) matches Some(window) && place_of(
            windows.all@,
            window.entity,
        ) is Some),
        mark matches Some(placed) ==> placed.signature@ == strip_shape(strip@, windows.all@),
{
    let entity = match windows.focused() {
        Some(window) => window.entity,
        None => {
            return None;
        },
    };
    if let (Some(slot), Some(frame)) = (
        windows.layout_position(entity),
        windows.moving_frame(entity),
    ) {
        let inside = clamp_origin_to_viewport(frame.min, frame.size(), viewport);
        requests.reposition_entity(strip_entity, inside.minus(slot));
        requests.push(Request::PinOffset { strip: strip_entity });
        return Some(ManualStripOffset::of(strip, windows));
    }
    None
}

/// The origin of a window at the middle of the display, at its present height on
/// the screen.
pub open spec fn centered_origin(bounds: IRect, place: Placement) -> Origin {
    Origin {
        x: (bounds.spec_center().x - halved(place.size.x as int)) as i32,
        y: place.position.y,
    }
}

/// What a window asks for that comes to the middle of the display.
pub open spec fn center_requests(
    entity: Entity,
    place: Placement,
    bounds: IRect,
    on_strip: Option<Entity>,
) -> Seq<Request> {
    let origin = centered_origin(bounds, place);
    match on_strip {
        Some(strip) => seq![
            Request::Reposition { entity: strip, origin: origin.spec_minus(place.layout) },
            Request::PinOffset { strip },
            Request::WarpMouse { point: bounds.spec_center() },
        ],
        None => seq![
            Request::Reposition { entity, origin },
            Request::WarpMouse { point: bounds.spec_center() },
        ],
    }
}

/// Centres the focused window on the active display: a tiled one by moving its
/// strip, which then counts as placed by hand, any other one by itself. The
/// pointer goes to the middle of the display. Answers the mark to remember the strip's
/// offset with.
pub fn command_center_window(
    windows: &Windows,
    strip: &LayoutStrip,
    strip_entity: Entity,
    bounds: IRect,
    requests: &mut Requests,
) -> (mark: Option<ManualStripOffset>)
    requires
        bounds.centerable(),
        focus_of(windows.all@) matches Some(window) ==> (place_of(windows.all@, window.entity)
            matches Some(place) ==> fits(bounds.spec_center().x - halved(place.size.x as int))
            && centered_origin(bounds, place).diff_fits(place.layout)),
    ensures
        final(requests)@ == (match focus_of(windows.all@) {
            None => old(requests)@,
            Some(window) => match place_of(windows.all@, window.entity) {
                None => old(requests)@,
                Some(place) => {
                    let origin = centered_origin(bounds, place);
                    let moved = if strip_has(strip@, window.entity) {
                        old(requests)@.push(
                            Request::Reposition {
                                entity: strip_entity,
                                origin: origin.spec_minus(place.layout),
                            },
                        ).push(Request::PinOffset { strip: strip_entity })
                    } else {
                        old(requests)@.push(Request::Reposition { entity: window.entity, origin })
                    };
                    moved.push(Request::WarpMouse { point: bounds.spec_center() })
                },
            },
        }),
        focus_of(windows.all@) matches Some(window) ==> (place_of(windows.all@, window.entity)
            matches Some(place) ==> final(requests)@ == old(requests)@ + center_requests(
            window.entity,
            place,
            bounds,
            if strip_has(strip@, window.entity) {
                Some(strip_entity)
            } else {
                None
            },
        )),
        mark is Some == (focus_of(windows.all@) matches Some(window) && place_of(
            windows.all@,
            window.entity,
        ) is Some && strip_has(strip@, window.entity)),
        mark matches Some(placed) ==> placed.signature@ == strip_shape(strip@, windows.all@),
{
    let entity = match windows.focused() {
        Some(window) => window.entity,
        None => {
            return None;
        },
    };
    let mut mark: Option<ManualStripOffset> = None;
    if let Some(place) = windows.placement(entity) {
        let center = bounds.center();
        let origin = Origin { x: center.x - half(place.size.x), y: place.position.y };
        if strip.contains(entity) {
            requests.reposition_entity(strip_entity, origin.minus(place.layout));
            requests.push(Request::PinOffset { strip: strip_entity });
            mark = Some(ManualStripOffset::of(strip, windows));
        } else {
            requests.reposition_entity(entity, origin);
        }
        requests.push(Request::WarpMouse { point: center });
    }
    mark
}

} // verus!

//! The sizes and places that tiled windows end up with when their size is changed.
use vstd::prelude::*;

use crate::commands::sizes::{
    balance_columns, balance_members, balance_requests, center_requests, column_heights,
    equal_requests, equal_share, equal_shares_fill_the_height, fill_requests, first_set,
    height_requests, is_vertical_pair, last_set, next_preset_of, pair_requests, recentered,
    resize_fits, resize_requests, shared_height, snap_fits, snapped, stack_members, width_change,
    width_requests, VerticalPair,
};
use crate::commands::travel::lemma_resizing;
use crate::commands::ResizeDirection;
use crate::ecs::layout::membership::{lemma_flat_has, lemma_flat_members};
use crate::ecs::layout::places::{holds_at, places_are_found, stands_at};
use crate::ecs::layout::{into_viewport, ColumnKind, ColumnView};
use crate::ecs::params::{fills_width, focus_of, frame_of, place_of, Placement, WindowRecord};
use crate::ecs::{resizing, Request};
use crate::geometry::{distance, fits, Entity, IRect, Origin, Size};
use crate::seqs::{lemma_either, lemma_pushed};

verus! {

/// The request gives the member the width, at its height; the window itself is left out.
pub open spec fn widened_at(
    members: Seq<Entity>,
    entity: Entity,
    windows: Seq<WindowRecord>,
    width: i32,
    k: int,
    request: Request,
) -> bool {
    &&& members[k] != entity
    &&& 0 < width
    &&& place_of(windows, members[k]) matches Some(place) && place.size.y > 0 && request == (
    Request::Resize { entity: members[k], size: Size { x: width, y: place.size.y } })
}

proof fn lemma_widened(
    members: Seq<Entity>,
    entity: Entity,
    windows: Seq<WindowRecord>,
    width: i32,
    n: int,
    request: Request,
)
    requires
        0 <= n <= members.len(),
    ensures
        width_requests(members, entity, windows, width, n).contains(request) == (exists|k: int|
            0 <= k < n && widened_at(members, entity, windows, width, k, request)),
    decreases n,
{
    if n > 0 {
        let before = width_requests(members, entity, windows, width, n - 1);
        let after = width_requests(members, entity, windows, width, n);
        lemma_widened(members, entity, windows, width, n - 1, request);
        if let Some(place) = place_of(windows, members[n - 1]) {
            let size = Size { x: width, y: place.size.y };
            lemma_resizing(members[n - 1], size, request);
            lemma_either(before, resizing(members[n - 1], size), request);
        }
        if before.contains(request) {
            let k = choose|k: int|
                0 <= k < n - 1 && widened_at(members, entity, windows, width, k, request);
            assert(0 <= k < n && widened_at(members, entity, windows, width, k, request));
        } else if after.contains(request) {
            assert(widened_at(members, entity, windows, width, n - 1, request));
        }
        if exists|k: int| 0 <= k < n && widened_at(members, entity, windows, width, k, request) {
            let k = choose|k: int|
                0 <= k < n && widened_at(members, entity, windows, width, k, request);
            if k < n - 1 {
                assert(0 <= k < n - 1 && widened_at(members, entity, windows, width, k, request));
            }
        }
    }
}

proof fn lemma_resize_requests(
    entity: Entity,
    frame: IRect,
    width: i32,
    viewport: IRect,
    columns: Seq<ColumnView>,
    windows: Seq<WindowRecord>,
    request: Request,
)
    ensures
        ({
            let size = Size { x: width, y: frame.spec_height() as i32 };
            let members = stack_members(columns, entity);
            resize_requests(entity, frame, width, viewport, columns, windows).contains(request)
                == ({
                ||| request == (Request::Reposition {
                    entity,
                    origin: into_viewport(recentered(frame, size), size, viewport),
                })
                ||| exists|k: int|
                    0 <= k < members.len() && widened_at(
                        members,
                        entity,
                        windows,
                        width,
                        k,
                        request,
                    )
                ||| size.x > 0 && size.y > 0 && request == (Request::Resize { entity, size })
                ||| request == (Request::Reshuffle { entity, force: false })
            })
        }),
{
    let size = Size { x: width, y: frame.spec_height() as i32 };
    let members = stack_members(columns, entity);
    let place = Request::Reposition {
        entity,
        origin: into_viewport(recentered(frame, size), size, viewport),
    };
    let again = Request::Reshuffle { entity, force: false };
    let first = seq![place];
    let others = width_requests(members, entity, windows, width, members.len() as int);
    let own = resizing(entity, size);
    let last = seq![again];
    assert(first =~= Seq::<Request>::empty().push(place));
    assert(last =~= Seq::<Request>::empty().push(again));
    lemma_pushed(Seq::empty(), place, request);
    lemma_pushed(Seq::empty(), again, request);
    lemma_widened(members, entity, windows, width, members.len() as int, request);
    lemma_resizing(entity, size, request);
    lemma_either(first, others, request);
    lemma_either(first + others, own, request);
    lemma_either(first + others + own, last, request);
}

proof fn lemma_stack_members(
    columns: Seq<ColumnView>,
    entity: Entity,
    column: int,
    row: int,
    member: Entity,
)
    requires
        stands_at(columns, entity, column, row),
    ensures
        stack_members(columns, entity).contains(member) == (columns[column].kind
            == ColumnKind::Stack && exists|r: int| #[trigger] holds_at(columns, column, r, member)),
{
    places_are_found(columns, entity, column, row);
    lemma_flat_members(columns[column]);
    lemma_flat_has(columns[column].items, member);
    let items = columns[column].items;
    if exists|r: int| 0 <= r < items.len() && (#[trigger] items[r]).contains(member) {
        let r = choose|r: int| 0 <= r < items.len() && (#[trigger] items[r]).contains(member);
        assert(holds_at(columns, column, r, member));
    }
    if exists|r: int| #[trigger] holds_at(columns, column, r, member) {
        let r = choose|r: int| #[trigger] holds_at(columns, column, r, member);
        assert(items[r].contains(member));
    }
}

/// A new width goes to the focused window, at its height, and to every other window of
/// its stack that has a size, each at its own height.
pub proof fn new_widths_reach_the_whole_stack(
    windows: Seq<WindowRecord>,
    window: WindowRecord,
    frame: IRect,
    columns: Seq<ColumnView>,
    viewport: IRect,
    width: i32,
    column: int,
    row: int,
    member: Entity,
    member_row: int,
    place: Placement,
)
    requires
        focus_of(windows) == Some(window),
        frame_of(windows, window.entity) == Some(frame),
        0 < width,
        0 < frame.max.y - frame.min.y,
        fits(frame.max.y - frame.min.y),
    ensures
        ({
            let asked = width_change(windows, columns, viewport, Some(width));
            &&& asked.contains(
                Request::Resize {
                    entity: window.entity,
                    size: Size { x: width, y: (frame.max.y - frame.min.y) as i32 },
                },
            )
            &&& asked.contains(Request::Reshuffle { entity: window.entity, force: false })
            &&& stands_at(columns, window.entity, column, row) && columns[column].kind
                == ColumnKind::Stack && holds_at(columns, column, member_row, member) && member
                != window.entity && place_of(windows, member) == Some(place) && 0 < place.size.y
                ==> asked.contains(
                Request::Resize { entity: member, size: Size { x: width, y: place.size.y } },
            )
        }),
{
    let entity = window.entity;
    let cleared = if fills_width(windows, entity) {
        seq![Request::ForgetWidth { entity }]
    } else {
        Seq::empty()
    };
    let resized = resize_requests(entity, frame, width, viewport, columns, windows);
    let own = Request::Resize {
        entity,
        size: Size { x: width, y: (frame.max.y - frame.min.y) as i32 },
    };
    let again = Request::Reshuffle { entity, force: false };
    lemma_resize_requests(entity, frame, width, viewport, columns, windows, own);
    lemma_resize_requests(entity, frame, width, viewport, columns, windows, again);
    lemma_either(cleared, resized, own);
    lemma_either(cleared, resized, again);
    if stands_at(columns, entity, column, row) && columns[column].kind == ColumnKind::Stack
        && holds_at(columns, column, member_row, member) && member != entity && place_of(
        windows,
        member,
    ) == Some(place) && 0 < place.size.y {
        let other = Request::Resize { entity: member, size: Size { x: width, y: place.size.y } };
        let members = stack_members(columns, entity);
        lemma_stack_members(columns, entity, column, row, member);
        assert(members.contains(member));
        let k = choose|k: int| 0 <= k < members.len() && members[k] == member;
        assert(widened_at(members, entity, windows, width, k, other));
        lemma_resize_requests(entity, frame, width, viewport, columns, windows, other);
        lemma_either(cleared, resized, other);
    }
}

/// A new width gives no other window a size: only the focused one and those of its
/// stack, and each of them exactly that width.
pub proof fn new_widths_leave_the_others_alone(
    windows: Seq<WindowRecord>,
    window: WindowRecord,
    frame: IRect,
    columns: Seq<ColumnView>,
    viewport: IRect,
    width: i32,
    column: int,
    row: int,
    other: Entity,
    size: Size,
)
    requires
        focus_of(windows) == Some(window),
        frame_of(windows, window.entity) == Some(frame),
        stands_at(columns, window.entity, column, row),
        fits(frame.max.y - frame.min.y),
        width_change(windows, columns, viewport, Some(width)).contains(
            Request::Resize { entity: other, size },
        ),
    ensures
        size.x == width,
        other == window.entity ==> size.y == frame.max.y - frame.min.y,
        other != window.entity ==> columns[column].kind == ColumnKind::Stack && (exists|r: int|
            #[trigger]
            holds_at(columns, column, r, other)) && (place_of(windows, other) matches Some(place)
            && size.y == place.size.y),
{
    let entity = window.entity;
    let request = Request::Resize { entity: other, size };
    let cleared = if fills_width(windows, entity) {
        seq![Request::ForgetWidth { entity }]
    } else {
        Seq::empty()
    };
    let resized = resize_requests(entity, frame, width, viewport, columns, windows);
    lemma_either(cleared, resized, request);
    lemma_resize_requests(entity, frame, width, viewport, columns, windows, request);
    let members = stack_members(columns, entity);
    if exists|k: int|
        0 <= k < members.len() && widened_at(members, entity, windows, width, k, request) {
        let k = choose|k: int|
            0 <= k < members.len() && widened_at(members, entity, windows, width, k, request);
        assert(members.contains(members[k]));
        lemma_stack_members(columns, entity, column, row, other);
    }
}

/// A window that gets a new width no longer fills its display, even where no width
/// comes of it; one that did not is not told so.
pub proof fn new_widths_end_the_full_width(
    windows: Seq<WindowRecord>,
    window: WindowRecord,
    frame: IRect,
    columns: Seq<ColumnView>,
    viewport: IRect,
    new_width: Option<i32>,
)
    requires
        focus_of(windows) == Some(window),
        frame_of(windows, window.entity) == Some(frame),
    ensures
        ({
            let asked = width_change(windows, columns, viewport, new_width);
            let forget = Request::ForgetWidth { entity: window.entity };
            &&& asked.contains(forget) == fills_width(windows, window.entity)
            &&& new_width is None ==> asked.len() <= 1
        }),
{
    let entity = window.entity;
    let forget = Request::ForgetWidth { entity };
    let cleared = if fills_width(windows, entity) {
        seq![forget]
    } else {
        Seq::empty()
    };
    if fills_width(windows, entity) {
        assert(cleared[0] == forget);
    }
    if let Some(width) = new_width {
        let resized = resize_requests(entity, frame, width, viewport, columns, windows);
        lemma_either(cleared, resized, forget);
        lemma_resize_requests(entity, frame, width, viewport, columns, windows, forget);
    }
}

/// A window of that size at that origin lies inside the area on both axes.
pub open spec fn lies_inside(origin: Origin, size: Size, area: IRect) -> bool {
    &&& area.min.x <= origin.x
    &&& origin.x + size.x <= area.max.x
    &&& area.min.y <= origin.y
    &&& origin.y + size.y <= area.max.y
}

/// A window that fits the viewport is brought inside it; one that is inside already
/// stays where it is; one that is too large is put at the corner of the viewport.
pub proof fn viewports_take_windows_in(origin: Origin, size: Size, viewport: IRect)
    requires
        0 <= size.x,
        0 <= size.y,
        viewport.max.diff_fits(size),
    ensures
        ({
            let inside = into_viewport(origin, size, viewport);
            &&& size.x <= viewport.max.x - viewport.min.x && size.y <= viewport.max.y
                - viewport.min.y ==> lies_inside(inside, size, viewport)
            &&& lies_inside(origin, size, viewport) ==> inside == origin
            &&& size.x >= viewport.max.x - viewport.min.x ==> inside.x == viewport.min.x
            &&& size.y >= viewport.max.y - viewport.min.y ==> inside.y == viewport.min.y
            &&& viewport.min.x <= origin.x && origin.x + size.x <= viewport.max.x ==> inside.x
                == origin.x
            &&& viewport.min.y <= origin.y && origin.y + size.y <= viewport.max.y ==> inside.y
                == origin.y
        }),
{
}

/// A window that gets a new width keeps its middle, as far as the viewport lets it, and
/// is moved nowhere else.
pub proof fn new_widths_keep_the_middle(
    windows: Seq<WindowRecord>,
    window: WindowRecord,
    frame: IRect,
    columns: Seq<ColumnView>,
    viewport: IRect,
    width: i32,
    other: Entity,
    origin: Origin,
)
    requires
        focus_of(windows) == Some(window),
        frame_of(windows, window.entity) == Some(frame),
        resize_fits(frame, width, viewport),
        width_change(windows, columns, viewport, Some(width)).contains(
            Request::Reposition { entity: other, origin },
        ),
    ensures
        ({
            let size = Size { x: width, y: (frame.max.y - frame.min.y) as i32 };
            let middle = Origin {
                x: (frame.spec_center().x - width / 2) as i32,
                y: (frame.spec_center().y - size.y / 2) as i32,
            };
            &&& other == window.entity
            &&& lies_inside(middle, size, viewport) ==> origin == middle
            &&& size.x <= viewport.max.x - viewport.min.x && size.y <= viewport.max.y
                - viewport.min.y ==> lies_inside(origin, size, viewport)
            &&& distance(2 * middle.x + width, frame.min.x + frame.max.x) <= 2
        }),
{
    let entity = window.entity;
    let request = Request::Reposition { entity: other, origin };
    let cleared = if fills_width(windows, entity) {
        seq![Request::ForgetWidth { entity }]
    } else {
        Seq::empty()
    };
    let resized = resize_requests(entity, frame, width, viewport, columns, windows);
    let size = Size { x: width, y: frame.spec_height() as i32 };
    lemma_either(cleared, resized, request);
    lemma_resize_requests(entity, frame, width, viewport, columns, windows, request);
    viewports_take_windows_in(recentered(frame, size), size, viewport);
}

proof fn lemma_first_set(flags: Seq<bool>, from: int)
    requires
        0 <= from <= flags.len(),
    ensures
        from <= first_set(flags, from) <= flags.len(),
        first_set(flags, from) < flags.len() ==> flags[first_set(flags, from)],
        forall|k: int| from <= k < first_set(flags, from) ==> !#[trigger] flags[k],
    decreases flags.len() - from,
{
    if from < flags.len() && !flags[from] {
        lemma_first_set(flags, from + 1);
    }
}

proof fn lemma_last_set(flags: Seq<bool>, n: int)
    requires
        0 <= n <= flags.len(),
    ensures
        -1 <= last_set(flags, n) < n || n == 0 && last_set(flags, n) == -1,
        last_set(flags, n) >= 0 ==> flags[last_set(flags, n)],
        forall|k: int| last_set(flags, n) < k < n ==> !#[trigger] flags[k],
    decreases n,
{
    if n > 0 && !flags[n - 1] {
        lemma_last_set(flags, n - 1);
    }
}

/// Growing takes a larger preset where there is one, and the first of these; shrinking
/// takes a smaller one, and the last of these. Where there is none, the presets start
/// over from the other end, or the size stays at this one.
pub proof fn presets_go_one_by_one(larger: Seq<bool>, smaller: Seq<bool>, cycle: bool, other: int)
    requires
        larger.len() == smaller.len(),
        0 <= other < larger.len(),
    ensures
        ({
            let grown = next_preset_of(larger, smaller, ResizeDirection::Grow, cycle);
            let shrunk = next_preset_of(larger, smaller, ResizeDirection::Shrink, cycle);
            let top = larger.len() - 1;
            &&& grown is Some && 0 <= grown->0 < larger.len()
            &&& shrunk is Some && 0 <= shrunk->0 < larger.len()
            &&& larger[other] ==> grown->0 <= other && larger[grown->0]
            &&& smaller[other] ==> other <= shrunk->0 && smaller[shrunk->0]
            &&& (forall|k: int| 0 <= k < larger.len() ==> !#[trigger] larger[k]) ==> grown->0 == (
            if cycle {
                0
            } else {
                top
            })
            &&& (forall|k: int| 0 <= k < smaller.len() ==> !#[trigger] smaller[k]) ==> shrunk->0
                == (if cycle {
                top
            } else {
                0
            })
        }),
{
    lemma_first_set(larger, 0);
    lemma_last_set(smaller, smaller.len() as int);
}

/// With the presets in order, growing takes the smallest one above the present size, and
/// shrinking the largest one below.
pub proof fn sorted_presets_are_taken_in_order(
    presets: Seq<int>,
    present: int,
    larger: Seq<bool>,
    smaller: Seq<bool>,
    cycle: bool,
    other: int,
)
    requires
        larger.len() == presets.len(),
        smaller.len() == presets.len(),
        forall|i: int, j: int| 0 <= i <= j < presets.len() ==> presets[i] <= presets[j],
        forall|k: int| 0 <= k < presets.len() ==> #[trigger] larger[k] == (presets[k] > present),
        forall|k: int| 0 <= k < presets.len() ==> #[trigger] smaller[k] == (presets[k] < present),
        0 <= other < presets.len(),
    ensures
        ({
            let grown = next_preset_of(larger, smaller, ResizeDirection::Grow, cycle)->0;
            let shrunk = next_preset_of(larger, smaller, ResizeDirection::Shrink, cycle)->0;
            &&& presets[other] > present ==> present < presets[grown] <= presets[other]
            &&& presets[other] < present ==> presets[other] <= presets[shrunk] < present
        }),
{
    presets_go_one_by_one(larger, smaller, cycle, other);
    assert(larger[other] == (presets[other] > present));
    assert(smaller[other] == (presets[other] < present));
}

/// The request gives the window the height, at its width.
pub open spec fn heightened_at(
    item: Seq<Entity>,
    windows: Seq<WindowRecord>,
    height: i32,
    k: int,
    request: Request,
) -> bool {
    &&& 0 < height
    &&& place_of(windows, item[k]) matches Some(place) && place.size.x > 0 && request == (
    Request::Resize { entity: item[k], size: Size { x: place.size.x, y: height } })
}

proof fn lemma_heightened(
    item: Seq<Entity>,
    windows: Seq<WindowRecord>,
    height: i32,
    n: int,
    request: Request,
)
    requires
        0 <= n <= item.len(),
    ensures
        height_requests(item, windows, height, n).contains(request) == (exists|k: int|
            0 <= k < n && heightened_at(item, windows, height, k, request)),
    decreases n,
{
    if n > 0 {
        let before = height_requests(item, windows, height, n - 1);
        let after = height_requests(item, windows, height, n);
        lemma_heightened(item, windows, height, n - 1, request);
        if let Some(place) = place_of(windows, item[n - 1]) {
            let size = Size { x: place.size.x, y: height };
            lemma_resizing(item[n - 1], size, request);
            lemma_either(before, resizing(item[n - 1], size), request);
        }
        if before.contains(request) {
            let k = choose|k: int| 0 <= k < n - 1 && heightened_at(item, windows, height, k, request);
            assert(0 <= k < n && heightened_at(item, windows, height, k, request));
        } else if after.contains(request) {
            assert(heightened_at(item, windows, height, n - 1, request));
        }
        if exists|k: int| 0 <= k < n && heightened_at(item, windows, height, k, request) {
            let k = choose|k: int| 0 <= k < n && heightened_at(item, windows, height, k, request);
            if k < n - 1 {
                assert(0 <= k < n - 1 && heightened_at(item, windows, height, k, request));
            }
        }
    }
}

/// The row that takes up a change of height is the one right below, or right above the
/// last row; a window alone in its column has none.
pub proof fn heights_are_shared_with_the_row_beside(
    columns: Seq<ColumnView>,
    windows: Seq<WindowRecord>,
    entity: Entity,
    column: int,
    row: int,
    pair: VerticalPair,
)
    requires
        stands_at(columns, entity, column, row),
        is_vertical_pair(entity, columns, windows, pair),
    ensures
        columns[column].kind == ColumnKind::Stack,
        pair.column == column,
        pair.position == row,
        row + 1 < columns[column].items.len() ==> pair.neighbour == row + 1,
        row + 1 == columns[column].items.len() ==> pair.neighbour == row - 1,
        columns[column].items.len() >= 2,
{
    places_are_found(columns, entity, column, row);
}

/// Of a pair of rows that is high enough for two windows, every window of the one gets
/// the height that is wanted, as far as both keep the least one, and every window of the
/// other the rest of their total.
pub proof fn pairs_keep_their_total(
    column: ColumnView,
    pair: VerticalPair,
    windows: Seq<WindowRecord>,
    wanted: int,
    least: int,
    k: int,
    place: Placement,
)
    requires
        0 < least,
        2 * least <= pair.height + pair.neighbour_height,
        fits(pair.height + pair.neighbour_height),
        0 < place.size.x,
    ensures
        ({
            let asked = pair_requests(column, pair, windows, wanted, least);
            let total = pair.height + pair.neighbour_height;
            let height = shared_height(wanted, total, least);
            let own = column.items[pair.position as int];
            let other = column.items[pair.neighbour as int];
            &&& least <= height <= total - least
            &&& least <= wanted <= total - least ==> height == wanted
            &&& wanted < least ==> height == least
            &&& wanted > total - least ==> height == total - least
            &&& 0 <= k < own.len() && place_of(windows, own[k]) == Some(place) ==> asked.contains(
                Request::Resize {
                    entity: own[k],
                    size: Size { x: place.size.x, y: height as i32 },
                },
            )
            &&& 0 <= k < other.len() && place_of(windows, other[k]) == Some(place)
                ==> asked.contains(
                Request::Resize {
                    entity: other[k],
                    size: Size { x: place.size.x, y: (total - height) as i32 },
                },
            )
        }),
{
    let total = pair.height + pair.neighbour_height;
    let height = shared_height(wanted, total, least);
    let own = column.items[pair.position as int];
    let other = column.items[pair.neighbour as int];
    let first = height_requests(own, windows, height as i32, own.len() as int);
    let second = height_requests(other, windows, (total - height) as i32, other.len() as int);
    if 0 <= k < own.len() && place_of(windows, own[k]) == Some(place) {
        let request = Request::Resize {
            entity: own[k],
            size: Size { x: place.size.x, y: height as i32 },
        };
        assert(heightened_at(own, windows, height as i32, k, request));
        lemma_heightened(own, windows, height as i32, own.len() as int, request);
        lemma_either(first, second, request);
    }
    if 0 <= k < other.len() && place_of(windows, other[k]) == Some(place) {
        let request = Request::Resize {
            entity: other[k],
            size: Size { x: place.size.x, y: (total - height) as i32 },
        };
        assert(heightened_at(other, windows, (total - height) as i32, k, request));
        lemma_heightened(other, windows, (total - height) as i32, other.len() as int, request);
        lemma_either(first, second, request);
    }
}

/// A change of height touches the two rows of its pair only, and nothing at all where
/// they are too low for two windows.
pub proof fn pairs_leave_the_other_rows_alone(
    column: ColumnView,
    pair: VerticalPair,
    windows: Seq<WindowRecord>,
    wanted: int,
    least: int,
    request: Request,
)
    requires
        pair_requests(column, pair, windows, wanted, least).contains(request),
    ensures
        2 * least <= pair.height + pair.neighbour_height,
        request matches Request::Resize { entity, size } && (
        column.items[pair.position as int].contains(entity)
            || column.items[pair.neighbour as int].contains(entity)),
{
    let total = pair.height + pair.neighbour_height;
    let height = shared_height(wanted, total, least);
    let own = column.items[pair.position as int];
    let other = column.items[pair.neighbour as int];
    if total >= 2 * least {
        let high = height as i32;
        let rest = (total - height) as i32;
        let first = height_requests(own, windows, high, own.len() as int);
        let second = height_requests(other, windows, rest, other.len() as int);
        lemma_either(first, second, request);
        lemma_heightened(own, windows, high, own.len() as int, request);
        lemma_heightened(other, windows, rest, other.len() as int, request);
        if first.contains(request) {
            let k = choose|k: int|
                0 <= k < own.len() && heightened_at(own, windows, high, k, request);
            assert(own.contains(own[k]));
        } else {
            let k = choose|k: int|
                0 <= k < other.len() && heightened_at(
                    other,
                    windows,
                    rest,
                    k,
                    request,
                );
            assert(other.contains(other[k]));
        }
    }
}

/// A window that comes to fill its display gets the whole viewport, at its corner; one
/// that filled it gets its width back, at the height of the viewport, where it is.
pub proof fn filling_and_unfilling(
    entity: Entity,
    viewport: IRect,
    previous_width: i32,
    request: Request,
)
    requires
        viewport.measurable(),
        0 < viewport.spec_width(),
        0 < viewport.spec_height(),
        0 < previous_width,
    ensures
        ({
            let filling = fill_requests(entity, false, viewport, previous_width);
            let unfilling = fill_requests(entity, true, viewport, previous_width);
            let height = (viewport.max.y - viewport.min.y) as i32;
            let whole = Size { x: (viewport.max.x - viewport.min.x) as i32, y: height };
            &&& filling.contains(Request::FillWidth { entity })
            &&& filling.contains(Request::Reposition { entity, origin: viewport.min })
            &&& filling.contains(Request::Resize { entity, size: whole })
            &&& filling.contains(Request::Reshuffle { entity, force: false })
            &&& unfilling.contains(Request::ForgetWidth { entity })
            &&& unfilling.contains(
                Request::Resize { entity, size: Size { x: previous_width, y: height } },
            )
            &&& filling.contains(request) ==> !(request is ForgetWidth) && (request is Resize
                ==> request == (Request::Resize { entity, size: whole }))
            &&& unfilling.contains(request) ==> !(request is FillWidth) && !(request is Reposition)
                && (request is Resize ==> request == (Request::Resize {
                entity,
                size: Size { x: previous_width, y: height },
            }))
        }),
{
    let filling = fill_requests(entity, false, viewport, previous_width);
    let unfilling = fill_requests(entity, true, viewport, previous_width);
    let height = (viewport.max.y - viewport.min.y) as i32;
    let whole = Size { x: (viewport.max.x - viewport.min.x) as i32, y: height };
    assert(viewport.spec_size() == whole);
    assert(filling[0] == (Request::FillWidth { entity }));
    assert(filling[1] == (Request::Reposition { entity, origin: viewport.min }));
    assert(filling[2] == (Request::Resize { entity, size: whole }));
    assert(filling[3] == (Request::Reshuffle { entity, force: false }));
    assert(unfilling[0] == (Request::ForgetWidth { entity }));
    assert(unfilling[1] == (Request::Resize { entity, size: Size { x: previous_width, y: height } }));
}

proof fn lemma_column_heights(
    column: ColumnView,
    windows: Seq<WindowRecord>,
    height: i32,
    n: int,
    request: Request,
)
    requires
        0 <= n <= column.items.len(),
    ensures
        column_heights(column, windows, height, n).contains(request) == (exists|r: int, k: int|
            0 <= r < n && 0 <= k < column.items[r].len() && #[trigger] heightened_at(
                column.items[r],
                windows,
                height,
                k,
                request,
            )),
    decreases n,
{
    if n > 0 {
        let before = column_heights(column, windows, height, n - 1);
        let item = column.items[n - 1];
        let own = height_requests(item, windows, height, item.len() as int);
        lemma_column_heights(column, windows, height, n - 1, request);
        lemma_heightened(item, windows, height, item.len() as int, request);
        lemma_either(before, own, request);
        if before.contains(request) {
            let (r, k) = choose|r: int, k: int|
                0 <= r < n - 1 && 0 <= k < column.items[r].len() && #[trigger] heightened_at(
                    column.items[r],
                    windows,
                    height,
                    k,
                    request,
                );
            assert(heightened_at(column.items[r], windows, height, k, request));
        } else if own.contains(request) {
            let k = choose|k: int|
                0 <= k < item.len() && heightened_at(item, windows, height, k, request);
            assert(heightened_at(column.items[n - 1], windows, height, k, request));
        }
    }
}

/// Every window of the focused window's stack gets an equal share of the height of the
/// viewport and keeps its width; the shares fill it but for less than a pixel each. No
/// other window gets a size, and none at all outside a stack.
pub proof fn stacks_share_the_height_equally(
    columns: Seq<ColumnView>,
    focused: Entity,
    windows: Seq<WindowRecord>,
    viewport: IRect,
    column: int,
    row: int,
    other_row: int,
    k: int,
    place: Placement,
    share: int,
)
    requires
        stands_at(columns, focused, column, row),
        columns[column].kind == ColumnKind::Stack,
        viewport.measurable(),
        share == equal_share(viewport.spec_height(), columns[column].items.len() as int),
        0 < share,
        0 < viewport.spec_height(),
        0 <= other_row < columns[column].items.len(),
        0 <= k < columns[column].items[other_row].len(),
        place_of(windows, columns[column].items[other_row][k]) == Some(place),
        0 < place.size.x,
    ensures
        equal_requests(columns, focused, windows, viewport).contains(
            Request::Resize {
                entity: columns[column].items[other_row][k],
                size: Size { x: place.size.x, y: share as i32 },
            },
        ),
        0 <= (viewport.max.y - viewport.min.y) - columns[column].items.len() * share
            < columns[column].items.len(),
{
    let own = columns[column];
    let count = own.items.len() as int;
    let entity = own.items[other_row][k];
    let request = Request::Resize { entity, size: Size { x: place.size.x, y: share as i32 } };
    places_are_found(columns, focused, column, row);
    equal_shares_fill_the_height(viewport.spec_height(), count);
    assert(share <= viewport.spec_height()) by (nonlinear_arith)
        requires
            share >= 0,
            count >= 1,
            viewport.spec_height() - count * share >= 0,
    ;
    assert(heightened_at(own.items[other_row], windows, share as i32, k, request));
    lemma_column_heights(own, windows, share as i32, count, request);
}

/// Equal heights touch the windows of the focused window's own stack only.
pub proof fn equal_heights_leave_the_others_alone(
    columns: Seq<ColumnView>,
    focused: Entity,
    windows: Seq<WindowRecord>,
    viewport: IRect,
    column: int,
    row: int,
    entity: Entity,
    size: Size,
)
    requires
        stands_at(columns, focused, column, row),
        equal_requests(columns, focused, windows, viewport).contains(
            Request::Resize { entity, size },
        ),
    ensures
        columns[column].kind == ColumnKind::Stack,
        exists|r: int| #[trigger] holds_at(columns, column, r, entity),
        place_of(windows, entity) matches Some(place) && size.x == place.size.x,
{
    let request = Request::Resize { entity, size };
    places_are_found(columns, focused, column, row);
    let own = columns[column];
    let count = own.items.len() as int;
    assert(own.kind == ColumnKind::Stack);
    let height = equal_share(viewport.spec_height(), count) as i32;
    if column_heights(own, windows, height, count).contains(request) {
        lemma_column_heights(own, windows, height, count, request);
        let (r, k) = choose|r: int, k: int|
            0 <= r < count && 0 <= k < own.items[r].len() && #[trigger] heightened_at(
                own.items[r],
                windows,
                height,
                k,
                request,
            );
        assert(heightened_at(own.items[r], windows, height, k, request));
        assert(request is Resize);
        assert(own.items[r].contains(own.items[r][k]));
        assert(holds_at(columns, column, r, own.items[r][k]));
    }
}

/// What balancing asks of one window: the width at its height, and that it no longer
/// fills its display if it did.
pub open spec fn balanced_at(
    members: Seq<Entity>,
    windows: Seq<WindowRecord>,
    width: i32,
    k: int,
    request: Request,
) -> bool {
    let entity = members[k];
    ||| fills_width(windows, entity) && request == (Request::ForgetWidth { entity })
    ||| 0 < width && (place_of(windows, entity) matches Some(place) && place.size.y > 0 && request
        == (Request::Resize { entity, size: Size { x: width, y: place.size.y } }))
}

proof fn lemma_balanced(
    members: Seq<Entity>,
    windows: Seq<WindowRecord>,
    width: i32,
    n: int,
    request: Request,
)
    requires
        0 <= n <= members.len(),
    ensures
        balance_members(members, windows, width, n).contains(request) == (exists|k: int|
            0 <= k < n && balanced_at(members, windows, width, k, request)),
    decreases n,
{
    if n > 0 {
        let entity = members[n - 1];
        let before = balance_members(members, windows, width, n - 1);
        let after = balance_members(members, windows, width, n);
        let forget = Request::ForgetWidth { entity };
        let cleared = if fills_width(windows, entity) {
            before.push(forget)
        } else {
            before
        };
        lemma_balanced(members, windows, width, n - 1, request);
        lemma_pushed(before, forget, request);
        if let Some(place) = place_of(windows, entity) {
            let size = Size { x: width, y: place.size.y };
            lemma_resizing(entity, size, request);
            lemma_either(cleared, resizing(entity, size), request);
        }
        if before.contains(request) {
            let k = choose|k: int| 0 <= k < n - 1 && balanced_at(members, windows, width, k, request);
            assert(0 <= k < n && balanced_at(members, windows, width, k, request));
        } else if after.contains(request) {
            assert(balanced_at(members, windows, width, n - 1, request));
        }
        if exists|k: int| 0 <= k < n && balanced_at(members, windows, width, k, request) {
            let k = choose|k: int| 0 <= k < n && balanced_at(members, windows, width, k, request);
            if k < n - 1 {
                assert(0 <= k < n - 1 && balanced_at(members, windows, width, k, request));
            }
        }
    }
}

proof fn lemma_balanced_columns(
    columns: Seq<ColumnView>,
    windows: Seq<WindowRecord>,
    width: i32,
    n: int,
    request: Request,
)
    requires
        0 <= n <= columns.len(),
    ensures
        balance_columns(columns, windows, width, n).contains(request) == (exists|c: int, k: int|
            0 <= c < n && columns[c].kind != ColumnKind::Fullscreen && 0 <= k
                < columns[c].members().len() && #[trigger] balanced_at(
                columns[c].members(),
                windows,
                width,
                k,
                request,
            )),
    decreases n,
{
    if n > 0 {
        let before = balance_columns(columns, windows, width, n - 1);
        let members = columns[n - 1].members();
        let own = balance_members(members, windows, width, members.len() as int);
        lemma_balanced_columns(columns, windows, width, n - 1, request);
        lemma_balanced(members, windows, width, members.len() as int, request);
        lemma_either(before, own, request);
        if before.contains(request) {
            let (c, k) = choose|c: int, k: int|
                0 <= c < n - 1 && columns[c].kind != ColumnKind::Fullscreen && 0 <= k
                    < columns[c].members().len() && #[trigger] balanced_at(
                    columns[c].members(),
                    windows,
                    width,
                    k,
                    request,
                );
            assert(balanced_at(columns[c].members(), windows, width, k, request));
        } else if own.contains(request) {
            let k = choose|k: int|
                0 <= k < members.len() && balanced_at(members, windows, width, k, request);
            assert(balanced_at(columns[n - 1].members(), windows, width, k, request));
        }
    }
}

/// Balancing gives every window with a size, of every column but the fullscreen ones,
/// the width of the focused window and lets it keep its height; none of them fills its
/// display any more. The strip is laid out around the focused window.
pub proof fn balanced_columns_have_one_width(
    columns: Seq<ColumnView>,
    windows: Seq<WindowRecord>,
    focused: Entity,
    width: i32,
    column: int,
    row: int,
    entity: Entity,
    place: Placement,
)
    requires
        holds_at(columns, column, row, entity),
        columns[column].kind != ColumnKind::Fullscreen,
        place_of(windows, entity) == Some(place),
        0 < width,
        0 < place.size.y,
    ensures
        ({
            let asked = balance_requests(columns, windows, focused, width);
            &&& asked.contains(
                Request::Resize { entity, size: Size { x: width, y: place.size.y } },
            )
            &&& fills_width(windows, entity) ==> asked.contains(Request::ForgetWidth { entity })
            &&& asked.contains(Request::Reshuffle { entity: focused, force: false })
        }),
{
    let members = columns[column].members();
    let all = balance_columns(columns, windows, width, columns.len() as int);
    let again = Request::Reshuffle { entity: focused, force: false };
    let resize = Request::Resize { entity, size: Size { x: width, y: place.size.y } };
    let forget = Request::ForgetWidth { entity };
    lemma_flat_members(columns[column]);
    lemma_flat_has(columns[column].items, entity);
    assert(columns[column].items[row].contains(entity));
    let k = choose|k: int| 0 <= k < members.len() && members[k] == entity;
    assert(balanced_at(columns[column].members(), windows, width, k, resize));
    lemma_balanced_columns(columns, windows, width, columns.len() as int, resize);
    lemma_pushed(all, again, resize);
    lemma_pushed(all, again, again);
    if fills_width(windows, entity) {
        assert(balanced_at(columns[column].members(), windows, width, k, forget));
        lemma_balanced_columns(columns, windows, width, columns.len() as int, forget);
        lemma_pushed(all, again, forget);
    }
}

/// Balancing gives a size to windows of the strip outside fullscreen columns only, and
/// no other width.
pub proof fn balancing_leaves_the_others_alone(
    columns: Seq<ColumnView>,
    windows: Seq<WindowRecord>,
    focused: Entity,
    width: i32,
    entity: Entity,
    size: Size,
)
    requires
        balance_requests(columns, windows, focused, width).contains(
            Request::Resize { entity, size },
        ),
    ensures
        size.x == width,
        place_of(windows, entity) matches Some(place) && size.y == place.size.y,
        exists|c: int, r: int| #[trigger]
            holds_at(columns, c, r, entity) && columns[c].kind != ColumnKind::Fullscreen,
{
    let request = Request::Resize { entity, size };
    let all = balance_columns(columns, windows, width, columns.len() as int);
    lemma_pushed(all, Request::Reshuffle { entity: focused, force: false }, request);
    lemma_balanced_columns(columns, windows, width, columns.len() as int, request);
    let (c, k) = choose|c: int, k: int|
        0 <= c < columns.len() && columns[c].kind != ColumnKind::Fullscreen && 0 <= k
            < columns[c].members().len() && #[trigger] balanced_at(
            columns[c].members(),
            windows,
            width,
            k,
            request,
        );
    lemma_flat_members(columns[c]);
    lemma_flat_has(columns[c].items, entity);
    assert(columns[c].members().contains(columns[c].members()[k]));
    let items = columns[c].items;
    let r = choose|r: int| 0 <= r < items.len() && (#[trigger] items[r]).contains(entity);
    assert(holds_at(columns, c, r, entity));
}

/// Snapping brings a window that fits the viewport fully into view, and leaves the strip
/// alone on an axis on which it is in view already.
pub proof fn snapped_windows_are_in_view(frame: IRect, slot: Origin, viewport: IRect)
    requires
        snap_fits(frame, slot, viewport),
        frame.min.x <= frame.max.x,
        frame.min.y <= frame.max.y,
    ensures
        ({
            let offset = snapped(frame, slot, viewport);
            let left = slot.x + offset.x;
            let top = slot.y + offset.y;
            let width = frame.max.x - frame.min.x;
            let height = frame.max.y - frame.min.y;
            &&& width <= viewport.max.x - viewport.min.x ==> viewport.min.x <= left && left + width
                <= viewport.max.x
            &&& height <= viewport.max.y - viewport.min.y ==> viewport.min.y <= top && top + height
                <= viewport.max.y
            &&& viewport.min.x <= frame.min.x && frame.max.x <= viewport.max.x ==> left
                == frame.min.x
            &&& viewport.min.y <= frame.min.y && frame.max.y <= viewport.max.y ==> top
                == frame.min.y
            &&& frame.min.x < viewport.min.x ==> left == viewport.min.x
            &&& frame.max.x > viewport.max.x && width <= viewport.max.x - viewport.min.x ==> left
                + width == viewport.max.x
        }),
{
}

/// Centring puts the middle of a window at the middle of the display and leaves its
/// height on the screen: a tiled window by the offset of its strip, which is remembered,
/// any other one by its own place. The pointer goes to the middle of the display.
pub proof fn centered_windows_are_in_the_middle(
    entity: Entity,
    place: Placement,
    bounds: IRect,
    strip: Entity,
    request: Request,
)
    requires
        bounds.centerable(),
        0 <= place.size.x,
        fits(bounds.spec_center().x - place.size.x / 2),
        fits(bounds.spec_center().x - place.size.x / 2 - place.layout.x),
        fits(place.position.y - place.layout.y),
    ensures
        ({
            let tiled = center_requests(entity, place, bounds, Some(strip));
            let loose = center_requests(entity, place, bounds, None);
            let at = Origin {
                x: (bounds.spec_center().x - place.size.x / 2) as i32,
                y: place.position.y,
            };
            let offset = Origin {
                x: (at.x - place.layout.x) as i32,
                y: (at.y - place.layout.y) as i32,
            };
            let warp = Request::WarpMouse { point: bounds.spec_center() };
            &&& distance(2 * at.x + place.size.x, bounds.min.x + bounds.max.x) <= 2
            &&& tiled.contains(Request::Reposition { entity: strip, origin: offset })
            &&& tiled.contains(Request::PinOffset { strip })
            &&& tiled.contains(warp)
            &&& loose.contains(Request::Reposition { entity, origin: at })
            &&& loose.contains(warp)
            &&& tiled.contains(request) && request is Reposition ==> request
                == (Request::Reposition { entity: strip, origin: offset })
            &&& loose.contains(request) ==> !(request is PinOffset) && (request is Reposition
                ==> request == (Request::Reposition { entity, origin: at }))
        }),
{
    let tiled = center_requests(entity, place, bounds, Some(strip));
    let loose = center_requests(entity, place, bounds, None);
    let warp = Request::WarpMouse { point: bounds.spec_center() };
    assert(tiled[1] == (Request::PinOffset { strip }));
    assert(tiled[2] == warp);
    assert(loose[1] == warp);
    let at = Origin {
        x: (bounds.spec_center().x - place.size.x / 2) as i32,
        y: place.position.y,
    };
    let offset = Origin {
        x: (at.x - place.layout.x) as i32,
        y: (at.y - place.layout.y) as i32,
    };
    assert(tiled[0] == (Request::Reposition { entity: strip, origin: offset }));
    assert(loose[0] == (Request::Reposition { entity, origin: at }));
}

} // verus!

//! Where windows end up that are moved to another display or swapped on their strip.
use vstd::prelude::*;

use crate::commands::directions::{
    counted_steps_go_to_the_top, steps_sideways_go_column_by_column,
    steps_up_and_down_go_row_by_row, strangers_have_no_neighbours,
};
use crate::commands::displays::{
    arrival_strip, attach_requests, closing, columns_swapped, departure_requests, follow_requests,
    landed_size, landing_origin, mouse_move_in, move_requests, narrowing, refresh_requests,
    is_known, known_on, known_width, report_order, reported_strips, shown_width, slot_in, swap_partner, traveller,
    warp_requests, widest_to, DisplayEntry, REFRESH_DELAY_MS,
};
use crate::commands::{in_workspace, Command, Direction, MouseMove, MoveFocus};
use crate::ecs::layout::membership::{distinct, windows_in};
use crate::ecs::layout::places::{
    holds_at, places_are_found, row_beside, shown_at, shown_windows_are_held, stands_at,
    windows_stand_in_one_place,
};
use crate::ecs::layout::{
    column_of, strip_wf, windows_to, ColumnKind, ColumnView,
};
use crate::ecs::params::{
    focus_of, frame_of, has_id, is_entity, neighbour_in, place_of, ring_before,
    ring_is_a_sorted_arrangement, ring_of, size_of, DisplaySnapshot, Placement, StripEntry,
    WindowRecord,
};
use crate::ecs::{resizing, Request, Timeout};
use crate::geometry::{distance, fits, Entity, IRect, Size, WorkspaceId};
use crate::seqs::{
    find_where, lemma_either, lemma_first_from, lemma_first_is, lemma_kept, lemma_pushed,
};
use crate::time::Duration;

verus! {

proof fn lemma_departure(
    entity: Entity,
    size: Size,
    target: IRect,
    move_focus: MoveFocus,
    heir: Option<Entity>,
    request: Request,
)
    ensures
        departure_requests(entity, size, target, move_focus, heir).contains(request) == ({
            ||| request == (Request::Reposition { entity, origin: landing_origin(size, target) })
            ||| move_focus == MoveFocus::Follow && request == (Request::WarpMouse {
                point: target.spec_center(),
            })
            ||| heir matches Some(neighbour) && request == (Request::Reshuffle {
                entity: neighbour,
                force: true,
            })
            ||| heir matches Some(neighbour) && move_focus == MoveFocus::Stay && request
                == (Request::Focus { entity: neighbour, raise: false })
        }),
{
    let first = Request::Reposition { entity, origin: landing_origin(size, target) };
    let moved = seq![first];
    let warp = Request::WarpMouse { point: target.spec_center() };
    let warped = if move_focus == MoveFocus::Follow {
        moved.push(warp)
    } else {
        moved
    };
    assert(moved =~= Seq::<Request>::empty().push(first));
    lemma_pushed(Seq::empty(), first, request);
    lemma_pushed(moved, warp, request);
    lemma_either(warped, closing(heir), request);
    if let Some(neighbour) = heir {
        let again = Request::Reshuffle { entity: neighbour, force: true };
        assert(closing(heir) =~= Seq::<Request>::empty().push(again));
        lemma_pushed(Seq::empty(), again, request);
        lemma_pushed(
            warped + closing(heir),
            Request::Focus { entity: neighbour, raise: false },
            request,
        );
    }
}

pub(crate) proof fn lemma_resizing(entity: Entity, size: Size, request: Request)
    ensures
        resizing(entity, size).contains(request) == (size.x > 0 && size.y > 0 && request == (
        Request::Resize { entity, size })),
{
    if size.x > 0 && size.y > 0 {
        assert(resizing(entity, size)[0] == (Request::Resize { entity, size }));
    }
}

proof fn lemma_attach(
    entity: Entity,
    display: Entity,
    target_width: int,
    size: Size,
    taken_width: i32,
    source_width: Option<i32>,
    request: Request,
)
    requires
        fits(target_width),
    ensures
        attach_requests(
            entity,
            display,
            target_width,
            size,
            taken_width,
            source_width,
        ).contains(request) == ({
            ||| size.x > target_width && target_width > 0 && size.y > 0 && request
                == (Request::Resize { entity, size: Size { x: target_width as i32, y: size.y } })
            ||| request == (Request::Reshuffle { entity, force: false })
            ||| request == (Request::RefreshSize {
                entity,
                display,
                width: taken_width,
                source_width,
                timeout: Timeout::lasting(Duration::millis(REFRESH_DELAY_MS)),
            })
        }),
{
    let narrow = Size { x: target_width as i32, y: size.y };
    let narrowed = if size.x > target_width {
        resizing(entity, narrow)
    } else {
        Seq::empty()
    };
    let again = Request::Reshuffle { entity, force: false };
    let refresh = Request::RefreshSize {
        entity,
        display,
        width: taken_width,
        source_width,
        timeout: Timeout::lasting(Duration::millis(REFRESH_DELAY_MS)),
    };
    let rest = seq![again, refresh];
    assert(rest =~= Seq::<Request>::empty().push(again).push(refresh));
    lemma_resizing(entity, narrow, request);
    lemma_pushed(Seq::empty(), again, request);
    lemma_pushed(Seq::empty().push(again), refresh, request);
    lemma_either(narrowed, rest, request);
}

proof fn lemma_follow(entity: Entity, display: Entity, move_focus: MoveFocus, request: Request)
    ensures
        follow_requests(entity, display, move_focus).contains(request) == (move_focus
            == MoveFocus::Follow && ({
            ||| request == (Request::Focus { entity, raise: true })
            ||| request == (Request::ActivateDisplay { display })
            ||| request == (Request::Reveal { entity, snap: false })
        })),
{
    if move_focus == MoveFocus::Follow {
        let asked = follow_requests(entity, display, move_focus);
        assert(asked[0] == (Request::Focus { entity, raise: true }));
        assert(asked[1] == (Request::ActivateDisplay { display }));
        assert(asked[2] == (Request::Reveal { entity, snap: false }));
    }
}

proof fn lemma_move(
    entity: Entity,
    size: Size,
    target: IRect,
    move_focus: MoveFocus,
    heir: Option<Entity>,
    arrival: Option<Entity>,
    source_width: Option<i32>,
    request: Request,
)
    requires
        fits(target.spec_width()),
    ensures
        move_requests(entity, size, target, move_focus, heir, arrival, source_width).contains(
            request,
        ) == ({
            ||| departure_requests(entity, size, target, move_focus, heir).contains(request)
            ||| arrival matches Some(display) && attach_requests(
                entity,
                display,
                target.spec_width(),
                landed_size(size, target),
                size.x,
                source_width,
            ).contains(request)
            ||| arrival matches Some(display) && follow_requests(
                entity,
                display,
                move_focus,
            ).contains(request)
        }),
{
    let left = departure_requests(entity, size, target, move_focus, heir);
    if let Some(display) = arrival {
        let attached = attach_requests(
            entity,
            display,
            target.spec_width(),
            landed_size(size, target),
            size.x,
            source_width,
        );
        let followed = follow_requests(entity, display, move_focus);
        lemma_either(attached, followed, request);
        lemma_either(left, attached + followed, request);
    } else {
        lemma_either(left, Seq::empty(), request);
    }
}

/// A window that the focus follows to another display has the focus there, raised, and
/// no other window gets it. The display becomes the active one, the pointer goes to its
/// middle, and the window is shown. A display without a parked strip gets none of that
/// but the pointer.
pub proof fn the_focus_follows_the_window(
    entity: Entity,
    size: Size,
    target: IRect,
    heir: Option<Entity>,
    arrival: Option<Entity>,
    source_width: Option<i32>,
    request: Request,
)
    requires
        fits(target.spec_width()),
    ensures
        ({
            let asked = move_requests(
                entity,
                size,
                target,
                MoveFocus::Follow,
                heir,
                arrival,
                source_width,
            );
            &&& arrival matches Some(display) ==> {
                &&& asked.contains(Request::Focus { entity, raise: true })
                &&& asked.contains(Request::ActivateDisplay { display })
                &&& asked.contains(Request::Reveal { entity, snap: false })
            }
            &&& asked.contains(Request::WarpMouse { point: target.spec_center() })
            &&& asked.contains(request) && request is Focus ==> arrival is Some && request
                == (Request::Focus { entity, raise: true })
            &&& asked.contains(request) && request is ActivateDisplay ==> (arrival matches Some(
                display,
            ) && request == (Request::ActivateDisplay { display }))
            &&& asked.contains(request) && request is WarpMouse ==> request
                == (Request::WarpMouse { point: target.spec_center() })
            &&& asked.contains(request) && request is Reveal ==> request == (Request::Reveal {
                entity,
                snap: false,
            })
        }),
{
    let focus = MoveFocus::Follow;
    let warp = Request::WarpMouse { point: target.spec_center() };
    lemma_departure(entity, size, target, focus, heir, warp);
    lemma_move(entity, size, target, focus, heir, arrival, source_width, warp);
    lemma_departure(entity, size, target, focus, heir, request);
    lemma_move(entity, size, target, focus, heir, arrival, source_width, request);
    if let Some(display) = arrival {
        let width = target.spec_width();
        let landed = landed_size(size, target);
        let own = Request::Focus { entity, raise: true };
        let active = Request::ActivateDisplay { display };
        let shown = Request::Reveal { entity, snap: false };
        lemma_follow(entity, display, focus, own);
        lemma_follow(entity, display, focus, active);
        lemma_follow(entity, display, focus, shown);
        lemma_follow(entity, display, focus, request);
        lemma_attach(entity, display, width, landed, size.x, source_width, request);
        lemma_move(entity, size, target, focus, heir, arrival, source_width, own);
        lemma_move(entity, size, target, focus, heir, arrival, source_width, active);
        lemma_move(entity, size, target, focus, heir, arrival, source_width, shown);
    }
}

/// A focus that stays goes to the neighbour that takes the place of the window, without
/// raising it, and to no other. The active display, the pointer and the view stay.
pub proof fn the_focus_stays_with_the_neighbour(
    entity: Entity,
    size: Size,
    target: IRect,
    heir: Option<Entity>,
    arrival: Option<Entity>,
    source_width: Option<i32>,
    request: Request,
)
    requires
        fits(target.spec_width()),
    ensures
        ({
            let asked = move_requests(
                entity,
                size,
                target,
                MoveFocus::Stay,
                heir,
                arrival,
                source_width,
            );
            &&& heir matches Some(neighbour) ==> asked.contains(
                Request::Focus { entity: neighbour, raise: false },
            )
            &&& asked.contains(request) && request is Focus ==> (heir matches Some(neighbour)
                && request == (Request::Focus { entity: neighbour, raise: false }))
            &&& asked.contains(request) ==> !(request is ActivateDisplay) && !(request is WarpMouse)
                && !(request is Reveal)
        }),
{
    let focus = MoveFocus::Stay;
    if let Some(neighbour) = heir {
        let own = Request::Focus { entity: neighbour, raise: false };
        lemma_departure(entity, size, target, focus, heir, own);
        lemma_move(entity, size, target, focus, heir, arrival, source_width, own);
    }
    lemma_departure(entity, size, target, focus, heir, request);
    lemma_move(entity, size, target, focus, heir, arrival, source_width, request);
    if let Some(display) = arrival {
        let landed = landed_size(size, target);
        lemma_follow(entity, display, focus, request);
        lemma_attach(
            entity,
            display,
            target.spec_width(),
            landed,
            size.x,
            source_width,
            request,
        );
    }
}

/// A window that goes to another display lands at its top, with its middle at the
/// middle of the display, no wider than the display; nothing else is moved and no
/// window gets a size yet. The gap that it leaves closes, the strip that it comes to is
/// laid out around it, and its size is refreshed later from the width that it had.
pub proof fn moved_windows_land_in_the_middle(
    entity: Entity,
    size: Size,
    target: IRect,
    move_focus: MoveFocus,
    heir: Option<Entity>,
    arrival: Option<Entity>,
    source_width: Option<i32>,
    request: Request,
)
    requires
        fits(target.spec_width()),
        target.centerable(),
        0 < size.x,
        0 < target.spec_width(),
        fits(target.spec_center().x - landed_size(size, target).x / 2),
    ensures
        ({
            let asked = move_requests(
                entity,
                size,
                target,
                move_focus,
                heir,
                arrival,
                source_width,
            );
            let width = if size.x < target.max.x - target.min.x {
                size.x as int
            } else {
                target.max.x - target.min.x
            };
            let origin = landing_origin(size, target);
            &&& asked.contains(Request::Reposition { entity, origin })
            &&& origin.y == target.min.y
            &&& distance(2 * origin.x + width, target.min.x + target.max.x) <= 2
            &&& asked.contains(request) && request is Reposition ==> request
                == (Request::Reposition { entity, origin })
            &&& asked.contains(request) ==> !(request is Resize)
            &&& heir matches Some(neighbour) ==> asked.contains(
                Request::Reshuffle { entity: neighbour, force: true },
            )
            &&& arrival matches Some(display) ==> {
                &&& asked.contains(Request::Reshuffle { entity, force: false })
                &&& asked.contains(
                    Request::RefreshSize {
                        entity,
                        display,
                        width: size.x,
                        source_width,
                        timeout: Timeout::lasting(Duration::millis(150)),
                    },
                )
            }
            &&& arrival is None && asked.contains(request) ==> !(request is RefreshSize)
        }),
{
    let origin = landing_origin(size, target);
    let place = Request::Reposition { entity, origin };
    lemma_departure(entity, size, target, move_focus, heir, place);
    lemma_move(entity, size, target, move_focus, heir, arrival, source_width, place);
    lemma_departure(entity, size, target, move_focus, heir, request);
    lemma_move(entity, size, target, move_focus, heir, arrival, source_width, request);
    if let Some(neighbour) = heir {
        let close = Request::Reshuffle { entity: neighbour, force: true };
        lemma_departure(entity, size, target, move_focus, heir, close);
        lemma_move(entity, size, target, move_focus, heir, arrival, source_width, close);
    }
    if let Some(display) = arrival {
        let width = target.spec_width();
        let landed = landed_size(size, target);
        let again = Request::Reshuffle { entity, force: false };
        let refresh = Request::RefreshSize {
            entity,
            display,
            width: size.x,
            source_width,
            timeout: Timeout::lasting(Duration::millis(150)),
        };
        lemma_attach(entity, display, width, landed, size.x, source_width, again);
        lemma_attach(entity, display, width, landed, size.x, source_width, refresh);
        lemma_attach(entity, display, width, landed, size.x, source_width, request);
        lemma_follow(entity, display, move_focus, request);
        lemma_move(entity, size, target, move_focus, heir, arrival, source_width, again);
        lemma_move(entity, size, target, move_focus, heir, arrival, source_width, refresh);
    }
}

/// The focused window travels if it is tiled and has a place, and no other window does.
pub proof fn tiled_windows_travel(windows: Seq<WindowRecord>, window: WindowRecord)
    requires
        focus_of(windows) == Some(window),
        find_where(windows, is_entity(window.entity)) == Some(window),
    ensures
        traveller(windows) == (match window.placement {
            Some(place) => if window.unmanaged is None {
                Some((window.entity, place.size))
            } else {
                None
            },
            None => None,
        }),
{
}

/// Without a focus nothing travels.
pub proof fn without_focus_nothing_travels(windows: Seq<WindowRecord>)
    requires
        focus_of(windows) is None,
    ensures
        traveller(windows) is None,
{
}

/// A window arrives on the first parked strip of the space that the display shows.
pub proof fn windows_arrive_on_the_shown_space(strips: Seq<StripEntry>, space: WorkspaceId, other: int)
    requires
        0 <= other < strips.len(),
    ensures
        ({
            let at = arrival_strip(strips, Some(space));
            &&& strips[other].strip.id == space ==> at <= other
            &&& at < strips.len() ==> 0 <= at && strips[at].strip.id == space
            &&& arrival_strip(strips, None) >= strips.len()
        }),
{
    lemma_first_from(strips, in_workspace(space), 0);
    assert((in_workspace(space))(strips[other]) == (strips[other].strip.id == space));
}

/// A slot puts a column where it says, and the ones behind it one place further; without
/// a slot, or with one beyond the end, the column comes last.
pub proof fn slots_are_kept(columns: Seq<ColumnView>, slot: Option<usize>, column: ColumnView)
    ensures
        ({
            let at = slot_in(columns, slot);
            let after = columns.insert(at, column);
            &&& 0 <= at <= columns.len()
            &&& after[at] == column
            &&& slot matches Some(index) ==> (index <= columns.len() ==> at == index)
            &&& (slot is None || slot->0 >= columns.len()) ==> at == columns.len()
        }),
{
}

/// A window that is put on a display wider than it keeps its size; one that is wider
/// than the display gets the width of the display and keeps its height.
pub proof fn arrivals_fit_their_display(
    entity: Entity,
    display: Entity,
    target_width: int,
    size: Size,
    taken_width: i32,
    source_width: Option<i32>,
    request: Request,
)
    requires
        fits(target_width),
        0 < target_width,
        0 < size.y,
    ensures
        ({
            let asked = attach_requests(
                entity,
                display,
                target_width,
                size,
                taken_width,
                source_width,
            );
            let narrow = Request::Resize {
                entity,
                size: Size { x: target_width as i32, y: size.y },
            };
            &&& asked.contains(narrow) <==> size.x > target_width
            &&& asked.contains(request) && request is Resize ==> request == narrow
            &&& asked.contains(Request::Reshuffle { entity, force: false })
        }),
{
    let narrow = Request::Resize { entity, size: Size { x: target_width as i32, y: size.y } };
    let again = Request::Reshuffle { entity, force: false };
    lemma_attach(entity, display, target_width, size, taken_width, source_width, narrow);
    lemma_attach(entity, display, target_width, size, taken_width, source_width, again);
    lemma_attach(entity, display, target_width, size, taken_width, source_width, request);
}

proof fn lemma_narrowing(
    members: Seq<Entity>,
    windows: Seq<WindowRecord>,
    width: int,
    n: int,
    request: Request,
)
    requires
        0 <= n <= members.len(),
        fits(width),
    ensures
        narrowing(members, windows, width, n).contains(request) == (exists|k: int|
            0 <= k < n && narrowed_at(members, windows, width, k, request)),
    decreases n,
{
    if n > 0 {
        let before = narrowing(members, windows, width, n - 1);
        lemma_narrowing(members, windows, width, n - 1, request);
        if let Some(size) = size_of(windows, members[n - 1]) {
            let narrow = Size { x: width as i32, y: size.y };
            lemma_resizing(members[n - 1], narrow, request);
            lemma_either(before, resizing(members[n - 1], narrow), request);
        }
        let after = narrowing(members, windows, width, n);
        if after.contains(request) && before.contains(request) {
            let k = choose|k: int| 0 <= k < n - 1 && narrowed_at(members, windows, width, k, request);
            assert(0 <= k < n && narrowed_at(members, windows, width, k, request));
        }
        if after.contains(request) && !before.contains(request) {
            assert(narrowed_at(members, windows, width, n - 1, request));
        }
        if exists|k: int| 0 <= k < n && narrowed_at(members, windows, width, k, request) {
            let k = choose|k: int| 0 <= k < n && narrowed_at(members, windows, width, k, request);
            if k < n - 1 {
                assert(0 <= k < n - 1 && narrowed_at(members, windows, width, k, request));
            }
        }
    }
}

/// The request narrows that member, which is wider than the width given.
pub open spec fn narrowed_at(
    members: Seq<Entity>,
    windows: Seq<WindowRecord>,
    width: int,
    k: int,
    request: Request,
) -> bool {
    &&& 0 < width
    &&& place_of(windows, members[k]) matches Some(place) && place.size.x > width && place.size.y
        > 0 && request == (Request::Resize {
        entity: members[k],
        size: Size { x: width as i32, y: place.size.y },
    })
}

/// Of a column that is put on another display, exactly those members are narrowed that
/// are wider than the display, to its width and at their height.
pub proof fn wide_members_are_narrowed(
    members: Seq<Entity>,
    windows: Seq<WindowRecord>,
    width: int,
    k: int,
    place: Placement,
    request: Request,
)
    requires
        fits(width),
        0 < width,
        0 <= k < members.len(),
        place_of(windows, members[k]) == Some(place),
        place.size.y > 0,
    ensures
        ({
            let asked = narrowing(members, windows, width, members.len() as int);
            &&& place.size.x > width ==> asked.contains(
                Request::Resize {
                    entity: members[k],
                    size: Size { x: width as i32, y: place.size.y },
                },
            )
            &&& asked.contains(request) ==> exists|i: int|
                0 <= i < members.len() && #[trigger] narrowed_at(
                    members,
                    windows,
                    width,
                    i,
                    request,
                )
        }),
{
    let n = members.len() as int;
    let narrow = Request::Resize {
        entity: members[k],
        size: Size { x: width as i32, y: place.size.y },
    };
    lemma_narrowing(members, windows, width, n, narrow);
    lemma_narrowing(members, windows, width, n, request);
    if place.size.x > width {
        assert(narrowed_at(members, windows, width, k, narrow));
    }
}

/// Once its new display has settled, a window is as high as the viewport and no wider
/// than it, and as wide as its share says, or as it was. The strip is laid out around
/// it. Nothing is asked of a window or a display that is gone.
pub proof fn settled_windows_fit_the_viewport(
    entity: Entity,
    present: Size,
    viewport: IRect,
    share: Option<i32>,
    request: Request,
)
    requires
        viewport.measurable(),
        0 < viewport.spec_width(),
        0 < viewport.spec_height(),
        0 < present.x,
        share matches Some(width) ==> 0 < width,
    ensures
        ({
            let asked = refresh_requests(entity, Some(present), Some(viewport), share);
            let wanted = match share {
                Some(width) => width as int,
                None => present.x as int,
            };
            let width = if wanted < viewport.max.x - viewport.min.x {
                wanted
            } else {
                viewport.max.x - viewport.min.x
            };
            let fitted = Request::Resize {
                entity,
                size: Size { x: width as i32, y: (viewport.max.y - viewport.min.y) as i32 },
            };
            &&& asked.contains(fitted)
            &&& asked.contains(Request::Reshuffle { entity, force: false })
            &&& asked.contains(request) ==> request == fitted || request == (Request::Reshuffle {
                entity,
                force: false,
            })
            &&& refresh_requests(entity, None, Some(viewport), share).len() == 0
            &&& refresh_requests(entity, Some(present), None, share).len() == 0
        }),
{
    let wanted = match share {
        Some(width) => width,
        None => present.x,
    };
    let size = crate::commands::displays::refreshed(wanted, viewport);
    let again = Request::Reshuffle { entity, force: false };
    let fitted = Request::Resize { entity, size };
    lemma_resizing(entity, size, fitted);
    lemma_resizing(entity, size, request);
    lemma_pushed(resizing(entity, size), again, fitted);
    lemma_pushed(resizing(entity, size), again, again);
    lemma_pushed(resizing(entity, size), again, request);
}

/// The strip after a column moved to another index: the column stands there, and the
/// others keep their order.
pub open spec fn column_moved(
    before: Seq<ColumnView>,
    after: Seq<ColumnView>,
    from: int,
    to: int,
) -> bool {
    &&& after.len() == before.len()
    &&& after[to] == before[from]
    &&& after.remove(to) == before.remove(from)
}

proof fn lemma_moved_place(
    before: Seq<ColumnView>,
    after: Seq<ColumnView>,
    from: int,
    to: int,
    entity: Entity,
    row: int,
)
    requires
        0 <= from < before.len(),
        0 <= to < before.len(),
        column_moved(before, after, from, to),
        stands_at(before, entity, from, row),
    ensures
        stands_at(after, entity, to, row),
{
    assert(holds_at(after, to, row, entity));
    assert forall|c: int, r: int| #[trigger] holds_at(after, c, r, entity) implies c == to && r
        == row by {
        if c != to {
            let k = if c < to {
                c
            } else {
                c - 1
            };
            let was = if k < from {
                k
            } else {
                k + 1
            };
            assert(after.remove(to)[k] == after[c]);
            assert(before.remove(from)[k] == before[was]);
            assert(holds_at(before, was, r, entity));
        } else {
            assert(holds_at(before, from, r, entity));
        }
    }
}

/// A swap of windows in different columns puts the column of the focused window where
/// the other one's column was; the other columns keep their order. The window stands in
/// its row of the column there.
pub proof fn swapped_columns_take_the_place(
    columns: Seq<ColumnView>,
    current: Entity,
    other: Entity,
    from: int,
    from_row: int,
    to: int,
    to_row: int,
)
    requires
        stands_at(columns, current, from, from_row),
        stands_at(columns, other, to, to_row),
        from != to,
    ensures
        column_moved(columns, columns_swapped(columns, current, other), from, to),
        stands_at(columns_swapped(columns, current, other), current, to, from_row),
        column_of(columns_swapped(columns, current, other), current) == column_of(columns, other),
{
    places_are_found(columns, current, from, from_row);
    places_are_found(columns, other, to, to_row);
    let after = columns_swapped(columns, current, other);
    assert(after.remove(to) =~= columns.remove(from));
    lemma_moved_place(columns, after, from, to, current, from_row);
    places_are_found(after, current, to, from_row);
}

/// What the swap command makes of the columns of a strip.
pub open spec fn after_swap(
    direction: Direction,
    windows: Seq<WindowRecord>,
    columns: Seq<ColumnView>,
) -> Seq<ColumnView> {
    match swap_partner(direction, windows, columns) {
        Some((current, other)) => columns_swapped(columns, current, other),
        None => columns,
    }
}

/// The strip with two columns exchanged.
pub open spec fn exchanged(columns: Seq<ColumnView>, a: int, b: int) -> Seq<ColumnView> {
    columns.update(a, columns[b]).update(b, columns[a])
}

proof fn lemma_exchanged(
    columns: Seq<ColumnView>,
    a: int,
    b: int,
    entity: Entity,
    column: int,
    row: int,
)
    requires
        strip_wf(columns),
        0 <= a < columns.len(),
        0 <= b < columns.len(),
        stands_at(columns, entity, column, row),
    ensures
        strip_wf(exchanged(columns, a, b)),
        exchanged(exchanged(columns, a, b), b, a) == columns,
        stands_at(
            exchanged(columns, a, b),
            entity,
            if column == a {
                b
            } else if column == b {
                a
            } else {
                column
            },
            row,
        ),
{
    let after = exchanged(columns, a, b);
    assert forall|c: int| 0 <= c < after.len() implies (#[trigger] after[c]).wf() by {
        assert(columns[a].wf() && columns[b].wf() && columns[c].wf());
    }
    assert(exchanged(after, b, a) =~= columns);
    let to = if column == a {
        b
    } else if column == b {
        a
    } else {
        column
    };
    assert(holds_at(after, to, row, entity));
    assert forall|c: int, r: int| #[trigger] holds_at(after, c, r, entity) implies c == to && r
        == row by {
        let was = if c == a {
            b
        } else if c == b {
            a
        } else {
            c
        };
        assert(holds_at(columns, was, r, entity));
    }
}

proof fn lemma_swap_exchanges(
    windows: Seq<WindowRecord>,
    window: WindowRecord,
    columns: Seq<ColumnView>,
    a: int,
    b: int,
    row: int,
)
    requires
        focus_of(windows) == Some(window),
        strip_wf(columns),
        stands_at(columns, window.entity, a, row),
        0 <= b < columns.len(),
        b == a + 1 || b == a - 1,
        ({
            let beside = row_beside(columns[b], row);
            stands_at(columns, shown_at(columns, b, beside), b, beside)
        }),
    ensures
        after_swap(
            if b == a + 1 {
                Direction::East
            } else {
                Direction::West
            },
            windows,
            columns,
        ) == exchanged(columns, a, b),
{
    let entity = window.entity;
    steps_sideways_go_column_by_column(columns, entity, a, row);
    let beside = row_beside(columns[b], row);
    let partner = shown_at(columns, b, beside);
    places_are_found(columns, partner, b, beside);
    places_are_found(columns, entity, a, row);
    assert(columns_swapped(columns, entity, partner) =~= exchanged(columns, a, b));
}

/// A swap to the right exchanges the column of the focused window with the next one, and
/// one to the left with the one before; at the ends of the strip nothing happens.
pub proof fn swaps_sideways_exchange_neighbours(
    windows: Seq<WindowRecord>,
    window: WindowRecord,
    columns: Seq<ColumnView>,
    column: int,
    row: int,
)
    requires
        focus_of(windows) == Some(window),
        strip_wf(columns),
        distinct(columns),
        stands_at(columns, window.entity, column, row),
    ensures
        after_swap(Direction::East, windows, columns) == (if column + 1 < columns.len() {
            exchanged(columns, column, column + 1)
        } else {
            columns
        }),
        after_swap(Direction::West, windows, columns) == (if column > 0 {
            exchanged(columns, column, column - 1)
        } else {
            columns
        }),
{
    steps_sideways_go_column_by_column(columns, window.entity, column, row);
    if column + 1 < columns.len() {
        lemma_partner(columns, column + 1, row);
        lemma_swap_exchanges(windows, window, columns, column, column + 1, row);
    }
    if column > 0 {
        lemma_partner(columns, column - 1, row);
        lemma_swap_exchanges(windows, window, columns, column, column - 1, row);
    }
}

proof fn lemma_partner(columns: Seq<ColumnView>, column: int, row: int)
    requires
        strip_wf(columns),
        distinct(columns),
        0 <= column < columns.len(),
        0 <= row,
    ensures
        ({
            let beside = row_beside(columns[column], row);
            stands_at(columns, shown_at(columns, column, beside), column, beside)
        }),
{
    assert(columns[column].wf());
    let beside = row_beside(columns[column], row);
    shown_windows_are_held(columns, column, beside);
    windows_stand_in_one_place(columns, shown_at(columns, column, beside), column, beside);
}

/// A swap back undoes a swap: after one to the right, one to the left restores the
/// strip, and the other way round.
pub proof fn swaps_sideways_undo_each_other(
    windows: Seq<WindowRecord>,
    window: WindowRecord,
    columns: Seq<ColumnView>,
    column: int,
    row: int,
)
    requires
        focus_of(windows) == Some(window),
        strip_wf(columns),
        distinct(columns),
        stands_at(columns, window.entity, column, row),
    ensures
        column + 1 < columns.len() ==> after_swap(
            Direction::West,
            windows,
            after_swap(Direction::East, windows, columns),
        ) == columns,
        column > 0 ==> after_swap(
            Direction::East,
            windows,
            after_swap(Direction::West, windows, columns),
        ) == columns,
{
    swaps_sideways_exchange_neighbours(windows, window, columns, column, row);
    if column + 1 < columns.len() {
        lemma_swap_back(windows, window, columns, column, column + 1, row);
    }
    if column > 0 {
        lemma_swap_back(windows, window, columns, column, column - 1, row);
    }
}

proof fn lemma_swap_back(
    windows: Seq<WindowRecord>,
    window: WindowRecord,
    columns: Seq<ColumnView>,
    a: int,
    b: int,
    row: int,
)
    requires
        focus_of(windows) == Some(window),
        strip_wf(columns),
        distinct(columns),
        stands_at(columns, window.entity, a, row),
        0 <= b < columns.len(),
        b == a + 1 || b == a - 1,
    ensures
        after_swap(
            if b == a + 1 {
                Direction::West
            } else {
                Direction::East
            },
            windows,
            exchanged(columns, a, b),
        ) == columns,
{
    let after = exchanged(columns, a, b);
    let beside = row_beside(columns[b], row);
    lemma_partner(columns, b, row);
    lemma_exchanged(columns, a, b, window.entity, a, row);
    lemma_exchanged(columns, a, b, shown_at(columns, b, beside), b, beside);
    assert(after[a] == columns[b]);
    lemma_swap_exchanges(windows, window, after, b, a, row);
}

/// A swap up or down exchanges the rows of a stack, and a swap back restores the
/// strip; at the ends of a column nothing happens.
pub proof fn swaps_up_and_down_exchange_rows(
    windows: Seq<WindowRecord>,
    window: WindowRecord,
    columns: Seq<ColumnView>,
    column: int,
    row: int,
)
    requires
        focus_of(windows) == Some(window),
        strip_wf(columns),
        distinct(columns),
        stands_at(columns, window.entity, column, row),
        columns[column].kind == ColumnKind::Stack,
    ensures
        after_swap(Direction::South, windows, columns) == (if row + 1 < columns[column].items.len() {
            rows_exchanged(columns, column, row, row + 1)
        } else {
            columns
        }),
        after_swap(Direction::North, windows, columns) == (if row > 0 {
            rows_exchanged(columns, column, row, row - 1)
        } else {
            columns
        }),
{
    steps_up_and_down_go_row_by_row(columns, window.entity, column, row);
    if row + 1 < columns[column].items.len() {
        lemma_partner_row(columns, column, row + 1);
        lemma_swap_rows(windows, window, columns, column, row, row + 1);
    }
    if row > 0 {
        lemma_partner_row(columns, column, row - 1);
        lemma_swap_rows(windows, window, columns, column, row, row - 1);
    }
}

/// After a swap down, one up restores the strip, and the other way round.
pub proof fn swaps_up_and_down_undo_each_other(
    windows: Seq<WindowRecord>,
    window: WindowRecord,
    columns: Seq<ColumnView>,
    column: int,
    row: int,
)
    requires
        focus_of(windows) == Some(window),
        strip_wf(columns),
        distinct(columns),
        stands_at(columns, window.entity, column, row),
        columns[column].kind == ColumnKind::Stack,
    ensures
        row + 1 < columns[column].items.len() ==> after_swap(
            Direction::North,
            windows,
            after_swap(Direction::South, windows, columns),
        ) == columns,
        row > 0 ==> after_swap(
            Direction::South,
            windows,
            after_swap(Direction::North, windows, columns),
        ) == columns,
{
    swaps_up_and_down_exchange_rows(windows, window, columns, column, row);
    if row + 1 < columns[column].items.len() {
        lemma_swap_rows_back(windows, window, columns, column, row, row + 1);
    }
    if row > 0 {
        lemma_swap_rows_back(windows, window, columns, column, row, row - 1);
    }
}

/// The strip with two rows of a column exchanged.
pub open spec fn rows_exchanged(columns: Seq<ColumnView>, column: int, a: int, b: int) -> Seq<
    ColumnView,
> {
    let items = columns[column].items;
    columns.update(
        column,
        ColumnView {
            kind: columns[column].kind,
            items: items.update(a, items[b]).update(b, items[a]),
        },
    )
}

proof fn lemma_partner_row(columns: Seq<ColumnView>, column: int, row: int)
    requires
        strip_wf(columns),
        distinct(columns),
        0 <= column < columns.len(),
        0 <= row < columns[column].items.len(),
    ensures
        stands_at(columns, shown_at(columns, column, row), column, row),
{
    shown_windows_are_held(columns, column, row);
    windows_stand_in_one_place(columns, shown_at(columns, column, row), column, row);
}

proof fn lemma_swap_rows(
    windows: Seq<WindowRecord>,
    window: WindowRecord,
    columns: Seq<ColumnView>,
    column: int,
    a: int,
    b: int,
)
    requires
        focus_of(windows) == Some(window),
        strip_wf(columns),
        stands_at(columns, window.entity, column, a),
        columns[column].kind == ColumnKind::Stack,
        0 <= b < columns[column].items.len(),
        b == a + 1 || b == a - 1,
        stands_at(columns, shown_at(columns, column, b), column, b),
    ensures
        after_swap(
            if b == a + 1 {
                Direction::South
            } else {
                Direction::North
            },
            windows,
            columns,
        ) == rows_exchanged(columns, column, a, b),
{
    let entity = window.entity;
    let partner = shown_at(columns, column, b);
    steps_up_and_down_go_row_by_row(columns, entity, column, a);
    places_are_found(columns, entity, column, a);
    places_are_found(columns, partner, column, b);
    assert(columns_swapped(columns, entity, partner) =~= rows_exchanged(columns, column, a, b));
}

proof fn lemma_rows_exchanged(
    columns: Seq<ColumnView>,
    column: int,
    a: int,
    b: int,
    entity: Entity,
    row: int,
)
    requires
        strip_wf(columns),
        0 <= column < columns.len(),
        0 <= a < columns[column].items.len(),
        0 <= b < columns[column].items.len(),
        stands_at(columns, entity, column, row),
    ensures
        strip_wf(rows_exchanged(columns, column, a, b)),
        rows_exchanged(rows_exchanged(columns, column, a, b), column, b, a) == columns,
        stands_at(
            rows_exchanged(columns, column, a, b),
            entity,
            column,
            if row == a {
                b
            } else if row == b {
                a
            } else {
                row
            },
        ),
{
    let after = rows_exchanged(columns, column, a, b);
    let items = columns[column].items;
    assert forall|c: int| 0 <= c < after.len() implies (#[trigger] after[c]).wf() by {
        assert(columns[c].wf());
        if c == column {
            assert forall|r: int| 0 <= r < after[c].items.len() implies (
            #[trigger] after[c].items[r]).len() >= 1 by {
                assert(items[r].len() >= 1 && items[a].len() >= 1 && items[b].len() >= 1);
            }
        }
    }
    let back = rows_exchanged(after, column, b, a);
    assert(back[column].items =~= items);
    assert(back =~= columns);
    let to = if row == a {
        b
    } else if row == b {
        a
    } else {
        row
    };
    assert(holds_at(after, column, to, entity));
    assert forall|c: int, r: int| #[trigger] holds_at(after, c, r, entity) implies c == column
        && r == to by {
        let was = if c != column {
            r
        } else if r == a {
            b
        } else if r == b {
            a
        } else {
            r
        };
        assert(holds_at(columns, c, was, entity));
    }
}

proof fn lemma_swap_rows_back(
    windows: Seq<WindowRecord>,
    window: WindowRecord,
    columns: Seq<ColumnView>,
    column: int,
    a: int,
    b: int,
)
    requires
        focus_of(windows) == Some(window),
        strip_wf(columns),
        distinct(columns),
        stands_at(columns, window.entity, column, a),
        columns[column].kind == ColumnKind::Stack,
        0 <= b < columns[column].items.len(),
        b == a + 1 || b == a - 1,
    ensures
        after_swap(
            if b == a + 1 {
                Direction::North
            } else {
                Direction::South
            },
            windows,
            rows_exchanged(columns, column, a, b),
        ) == columns,
{
    let after = rows_exchanged(columns, column, a, b);
    lemma_rows_exchanged(columns, column, a, b, window.entity, a);
    lemma_partner_row(columns, column, b);
    lemma_rows_exchanged(columns, column, a, b, shown_at(columns, column, b), b);
    assert(shown_at(after, column, a) == shown_at(columns, column, b));
    lemma_swap_rows(windows, window, after, column, b, a);
}

/// A swap with the first or the last column takes the column of the focused window
/// there, and the others close up in their order.
pub proof fn swaps_with_the_ends_take_the_column_there(
    windows: Seq<WindowRecord>,
    window: WindowRecord,
    columns: Seq<ColumnView>,
    column: int,
    row: int,
)
    requires
        focus_of(windows) == Some(window),
        strip_wf(columns),
        distinct(columns),
        stands_at(columns, window.entity, column, row),
    ensures
        column != 0 ==> column_moved(
            columns,
            after_swap(Direction::First, windows, columns),
            column,
            0,
        ),
        column != columns.len() - 1 ==> column_moved(
            columns,
            after_swap(Direction::Last, windows, columns),
            column,
            columns.len() - 1,
        ),
{
    let last = columns.len() - 1;
    counted_steps_go_to_the_top(columns, window.entity, column, row, 0);
    assert(columns[0].wf() && columns[last].wf());
    lemma_partner_row(columns, 0, 0);
    lemma_partner_row(columns, last, 0);
    places_are_found(columns, shown_at(columns, 0, 0), 0, 0);
    places_are_found(columns, shown_at(columns, last, 0), last, 0);
    if column != 0 {
        swapped_columns_take_the_place(
            columns,
            window.entity,
            shown_at(columns, 0, 0),
            column,
            row,
            0,
            0,
        );
    }
    if column != last {
        swapped_columns_take_the_place(
            columns,
            window.entity,
            shown_at(columns, last, 0),
            column,
            row,
            last,
            0,
        );
    }
}

/// Without a focus, or from a window that is not on the strip, nothing is swapped.
pub proof fn nothing_swaps_without_a_partner(
    direction: Direction,
    windows: Seq<WindowRecord>,
    columns: Seq<ColumnView>,
)
    requires
        focus_of(windows) matches Some(window) ==> !windows_in(columns).contains(window.entity),
    ensures
        swap_partner(direction, windows, columns) is None,
        after_swap(direction, windows, columns) == columns,
{
    if let Some(window) = focus_of(windows) {
        strangers_have_no_neighbours(columns, window.entity, direction);
    }
}

proof fn lemma_widest(target: IRect, entities: Seq<Entity>, windows: Seq<WindowRecord>, n: int)
    requires
        0 <= n <= entities.len(),
    ensures
        widest_to(target, entities, windows, n) matches Some(best) ==> {
            &&& entities.contains(best)
            &&& frame_of(windows, best) is Some
            &&& forall|k: int|
                0 <= k < n && frame_of(windows, #[trigger] entities[k]) is Some ==> shown_width(
                    target,
                    windows,
                    entities[k],
                ) <= shown_width(target, windows, best)
        },
        widest_to(target, entities, windows, n) is None ==> forall|k: int|
            0 <= k < n ==> frame_of(windows, #[trigger] entities[k]) is None,
    decreases n,
{
    if n > 0 {
        lemma_widest(target, entities, windows, n - 1);
    }
}

/// The pointer that goes to a display lands on the window of its strip that shows
/// widest there, in the middle of what shows of it, and that window gets the focus.
pub proof fn pointers_land_on_the_widest_window(
    target: IRect,
    columns: Seq<ColumnView>,
    windows: Seq<WindowRecord>,
    other: Entity,
) -> (best: Entity)
    requires
        windows_in(columns).contains(other),
        frame_of(windows, other) is Some,
    ensures
        windows_in(columns).contains(best),
        frame_of(windows, best) is Some,
        shown_width(target, windows, other) <= shown_width(target, windows, best),
        warp_requests(target, Some(columns), windows) == seq![
            Request::WarpMouse {
                point: target.overlap(frame_of(windows, best)->0).spec_center(),
            },
            Request::Focus { entity: best, raise: true },
        ],
{
    let all = windows_to(columns, columns.len() as int);
    lemma_widest(target, all, windows, all.len() as int);
    let k = choose|k: int| 0 <= k < all.len() && all[k] == other;
    assert(frame_of(windows, all[k]) is Some);
    widest_to(target, all, windows, all.len() as int)->0
}

/// On a strip without a known window the pointer lands in the middle of the display, and
/// nothing gets the focus; on a display without a strip it does not go there at all.
pub proof fn pointers_land_in_the_middle_of_an_empty_display(
    target: IRect,
    columns: Seq<ColumnView>,
    windows: Seq<WindowRecord>,
)
    requires
        forall|entity: Entity| #[trigger]
            windows_in(columns).contains(entity) ==> frame_of(windows, entity) is None,
    ensures
        warp_requests(target, Some(columns), windows) == seq![
            Request::WarpMouse { point: target.spec_center() },
        ],
        warp_requests(target, None, windows).len() == 0,
{
    let all = windows_to(columns, columns.len() as int);
    lemma_widest(target, all, windows, all.len() as int);
    if let Some(best) = widest_to(target, all, windows, all.len() as int) {
        assert(windows_in(columns).contains(best));
    }
}

/// The first command that moves the pointer says which way it goes.
pub proof fn the_first_mouse_command_decides(commands: Seq<Command>, from: int, at: int)
    requires
        0 <= from <= at <= commands.len(),
        forall|k: int| from <= k < at ==> !(#[trigger] commands[k] is Mouse),
        at < commands.len() ==> commands[at] is Mouse,
    ensures
        at == commands.len() ==> mouse_move_in(commands, from) is None,
        at < commands.len() && commands[at] == Command::Mouse(MouseMove::ToNextDisplay)
            ==> mouse_move_in(commands, from) == Some(true),
        at < commands.len() && commands[at] == Command::Mouse(MouseMove::ToPreviousDisplay)
            ==> mouse_move_in(commands, from) == Some(false),
    decreases at - from,
{
    if from < at {
        assert(!(commands[from] is Mouse));
        the_first_mouse_command_decides(commands, from + 1, at);
    }
}

/// The ring goes through the displays from left to right, from top to bottom where they
/// begin at the same place sideways, and by number where they begin at the same place.
pub proof fn the_ring_goes_from_left_to_right(displays: Seq<DisplaySnapshot>, i: int, j: int)
    requires
        0 <= i < j < ring_of(displays).len(),
    ensures
        ({
            let (one, next) = (ring_of(displays)[i], ring_of(displays)[j]);
            &&& one.1.min.x <= next.1.min.x
            &&& one.1.min.x == next.1.min.x ==> one.1.min.y <= next.1.min.y
            &&& one.1.min.x == next.1.min.x && one.1.min.y == next.1.min.y ==> one.0 <= next.0
        }),
{
    ring_is_a_sorted_arrangement(displays);
    assert(!ring_before(ring_of(displays)[j], ring_of(displays)[i]));
}

/// The next display of the ring comes right after, and the previous one right before;
/// the ends of the ring meet.
pub proof fn the_ring_goes_display_by_display(ring: Seq<DisplaySnapshot>, at: int)
    requires
        0 <= at < ring.len(),
        2 <= ring.len(),
        forall|j: int| 0 <= j < ring.len() && j != at ==> (#[trigger] ring[j]).0 != ring[at].0,
    ensures
        neighbour_in(ring[at].0, ring, true) == Some(
            if at == ring.len() - 1 {
                ring[0]
            } else {
                ring[at + 1]
            },
        ),
        neighbour_in(ring[at].0, ring, false) == Some(
            if at == 0 {
                ring[ring.len() - 1]
            } else {
                ring[at - 1]
            },
        ),
{
    assert((has_id(ring[at].0))(ring[at]));
    lemma_first_is(ring, has_id(ring[at].0), at);
}

proof fn lemma_reported(strips: Seq<StripEntry>, display: Entity, n: int, k: int)
    requires
        0 <= n <= strips.len(),
    ensures
        reported_strips(strips, display, n).contains(k) == (0 <= k < n && strips[k].display
            == display),
    decreases n,
{
    if n > 0 {
        lemma_reported(strips, display, n - 1, k);
        lemma_pushed(reported_strips(strips, display, n - 1), n - 1, k);
    }
}

proof fn lemma_report_order(
    displays: Seq<DisplayEntry>,
    strips: Seq<StripEntry>,
    n: int,
    display: Entity,
    k: int,
)
    requires
        0 <= n <= displays.len(),
    ensures
        report_order(displays, strips, n).contains((display, k)) == (0 <= k < strips.len()
            && strips[k].display == display && exists|d: int|
            0 <= d < n && (#[trigger] displays[d]).entity == display),
    decreases n,
{
    if n > 0 {
        let last = displays[n - 1].entity;
        let before = report_order(displays, strips, n - 1);
        let own = reported_strips(strips, last, strips.len() as int);
        let named = own.map_values(|at: int| (displays[n - 1].entity, at));
        lemma_report_order(displays, strips, n - 1, display, k);
        lemma_reported(strips, last, strips.len() as int, k);
        lemma_either(before, named, (display, k));
        if own.contains(k) {
            let i = choose|i: int| 0 <= i < own.len() && own[i] == k;
            assert(named[i] == (last, k));
        }
        if named.contains((display, k)) {
            let i = choose|i: int| 0 <= i < named.len() && named[i] == (display, k);
            assert(own[i] == k);
        }
    }
}

/// The report names every strip of every display that it is asked for, and no other.
pub proof fn every_strip_is_reported(
    displays: Seq<DisplayEntry>,
    strips: Seq<StripEntry>,
    d: int,
    k: int,
)
    requires
        0 <= d < displays.len(),
    ensures
        report_order(displays, strips, displays.len() as int).contains((displays[d].entity, k))
            <==> 0 <= k < strips.len() && strips[k].display == displays[d].entity,
{
    lemma_report_order(displays, strips, displays.len() as int, displays[d].entity, k);
}

/// The report lists the windows of a strip that are known, and no other.
pub proof fn known_windows_are_reported(
    columns: Seq<ColumnView>,
    windows: Seq<WindowRecord>,
    entity: Entity,
)
    ensures
        known_on(columns, windows).contains(entity) <==> windows_in(columns).contains(entity)
            && find_where(windows, is_entity(entity)) is Some,
{
    let all = windows_in(columns);
    lemma_kept(all, is_known(windows), all.len() as int, entity);
    assert(all.take(all.len() as int) =~= all);
}

/// The width that a window takes its share of is known only where there is one.
pub proof fn only_real_widths_are_known(width: int)
    requires
        fits(width),
    ensures
        width > 0 ==> (known_width(width) matches Some(known) && known == width),
        width <= 0 ==> known_width(width) is None,
{
}

/// What shows of a window on a display is as wide as the part that lies between the sides
/// of both, and nothing where they lie apart.
pub proof fn what_shows_lies_on_both(target: IRect, windows: Seq<WindowRecord>, entity: Entity, frame: IRect)
    requires
        frame_of(windows, entity) == Some(frame),
        target.ordered(),
        frame.ordered(),
    ensures
        frame.max.x <= target.min.x || target.max.x <= frame.min.x ==> shown_width(
            target,
            windows,
            entity,
        ) == 0,
        target.min.x <= frame.min.x && frame.max.x <= target.max.x ==> shown_width(
            target,
            windows,
            entity,
        ) == frame.max.x - frame.min.x,
        frame.min.x <= target.min.x && target.min.x <= frame.max.x <= target.max.x ==> shown_width(
            target,
            windows,
            entity,
        ) == frame.max.x - target.min.x,
        target.min.x <= frame.min.x <= target.max.x && target.max.x <= frame.max.x ==> shown_width(
            target,
            windows,
            entity,
        ) == target.max.x - frame.min.x,
{
}

} // verus!

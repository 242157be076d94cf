//! What a press takes hold of, what a drag moves along, and what a release leaves behind.
use vstd::prelude::*;

use crate::commands::travel::{column_moved, lemma_resizing};
use crate::ecs::layout::membership::{lemma_column_has, lemma_flat_members};
use crate::ecs::layout::places::{places_are_found, stands_at};
use crate::ecs::layout::{column_has, column_of, strip_has, ColumnView, LayoutStrip};
use crate::ecs::mouse::drag::{
    armed_on, drag_effect, drag_moves, drag_painted, landing_of, end_to, far_edge,
    moved_to, transfer_of, transferred, DragEffect, DragSettings, Held, Landing,
};
use crate::ecs::mouse::warp::{
    resize_event, resize_step, resize_step_fits, resize_step_requests, side_moved, MouseResizeState,
    ResizeView,
};
use crate::ecs::mouse::{
    columns_reordered, confirmations_to, glides_to, halts_to, homing_requests, hover_counts,
    press_outcome, pushes_to, release_of, release_requests, released_members, scrolled,
    unsettled, unsettled_to, DragPaintState, HoverSettings,
    PressTarget, Release, ReleaseFacts, SettleRead,
};
use crate::ecs::params::{
    frame_of, holds_window, is_window, place_of, tiled, DisplaySnapshot, GlobalState, Placement,
    StripEntry, WindowRecord, Windows,
};
use crate::ecs::{resizing, Request};
use crate::geometry::{
    fits, DisplayId, Entity, IRect, Origin, WinID, WorkspaceId,
};
use crate::seqs::{
    any_where, find_where, lemma_either, lemma_first_from, lemma_pushed,
};
use crate::time::Duration;

verus! {

/// A press on the header lies inside the window, away from the edges that resize it. A
/// window on a full screen and a child window have no header; a toolbar is the header
/// where there is one, and otherwise a band along the top edge.
pub proof fn headers_lie_inside_the_edges(target: PressTarget, point: Origin, other: Origin)
    requires
        target.horizontal_padding >= 0,
        target.vertical_padding >= 0,
    ensures
        target.on_header(point) ==> {
            &&& target.frame.min.x + 6 <= point.x
            &&& point.x + 6 < target.frame.max.x
            &&& target.frame.min.y + 6 <= point.y
        },
        target.full_screen || target.child ==> !target.on_header(point),
        target.toolbar matches Some(toolbar) ==> (target.on_header(point) ==> toolbar.holds(point)),
        target.toolbar is None && target.on_header(point) ==> point.y < target.frame.min.y
            + target.vertical_padding + 28,
        target.toolbar is None && target.on_header(point) && target.frame.min.y
            + target.vertical_padding + 6 <= other.y <= point.y && other.x == point.x
            ==> target.on_header(other),
{
}

/// A press takes hold of the window that it hits, and of nothing where it hits none. The
/// shortcut arms the way to another display; without it, the header of a tiled window
/// arms the scroll of its strip, where that is set. Never are both armed.
pub proof fn presses_arm_one_way(
    window: WindowRecord,
    shortcut: bool,
    scrolls_strip: bool,
    header: bool,
    windows: Seq<WindowRecord>,
)
    ensures
        ({
            let hit = press_outcome(Some(window), shortcut, scrolls_strip, header, windows);
            let missed = press_outcome(None, shortcut, scrolls_strip, header, windows);
            &&& hit.held == Some(window.entity)
            &&& shortcut <==> hit.display_armed
            &&& !(hit.display_armed && hit.scroll_armed)
            &&& !shortcut && scrolls_strip && header && tiled(windows, window.entity)
                ==> hit.scroll_armed
            &&& hit.scroll_armed ==> scrolls_strip && header && tiled(windows, window.entity)
            &&& missed.held is None && !missed.display_armed && !missed.scroll_armed
        }),
{
}

/// The request that ends the glide of a strip, or the settle of one.
pub open spec fn halts(strip: Entity, glides: bool, request: Request) -> bool {
    ||| request == (Request::DropSettle { strip })
    ||| glides && request == (Request::DropGlide { strip })
}

/// A press stops every strip: none settles any more, and those that glide no longer do.
/// It asks nothing else of them.
pub proof fn presses_stop_every_strip(strips: Seq<(Entity, bool)>, n: int, k: int, request: Request)
    requires
        0 <= n <= strips.len(),
        0 <= k < n,
    ensures
        ({
            let asked = halts_to(strips, n);
            &&& asked.contains(Request::DropSettle { strip: strips[k].0 })
            &&& strips[k].1 ==> asked.contains(Request::DropGlide { strip: strips[k].0 })
            &&& asked.contains(request) ==> exists|i: int|
                0 <= i < n && halts((#[trigger] strips[i]).0, strips[i].1, request)
        }),
    decreases n,
{
    let (strip, glides) = strips[n - 1];
    let start = halts_to(strips, n - 1);
    let before = if glides {
        start.push(Request::DropGlide { strip })
    } else {
        start
    };
    let settle = Request::DropSettle { strip: strips[k].0 };
    let glide = Request::DropGlide { strip: strips[k].0 };
    lemma_pushed(start, Request::DropGlide { strip }, settle);
    lemma_pushed(start, Request::DropGlide { strip }, glide);
    lemma_pushed(start, Request::DropGlide { strip }, request);
    lemma_pushed(before, Request::DropSettle { strip }, settle);
    lemma_pushed(before, Request::DropSettle { strip }, glide);
    lemma_pushed(before, Request::DropSettle { strip }, request);
    if k < n - 1 {
        presses_stop_every_strip(strips, n - 1, k, request);
    }
    if halts_to(strips, n).contains(request) {
        if start.contains(request) {
            if n == 1 {
                assert(start.len() == 0);
            } else {
                presses_stop_every_strip(strips, n - 1, 0, request);
                let i = choose|i: int|
                    0 <= i < n - 1 && halts((#[trigger] strips[i]).0, strips[i].1, request);
                assert(halts(strips[i].0, strips[i].1, request));
            }
        } else {
            assert(halts(strips[n - 1].0, strips[n - 1].1, request));
        }
    }
}

/// A hover asks for nothing while windows are resized, where the focus does not follow
/// the mouse or follows it already, or within a twentieth of a second of the last one.
pub proof fn hovers_wait_their_turn(
    point: Origin,
    settings: HoverSettings,
    displays: Seq<(IRect, IRect)>,
    state: GlobalState,
    focused: Option<(WinID, IRect)>,
    windows: Seq<(WinID, IRect)>,
    last: Duration,
    now: Duration,
)
    requires
        settings.resizing || !settings.focus_follows_mouse || state.focus_follows_mouse_id is Some
            || now.nanos < last.nanos + 50_000_000,
    ensures
        !hover_counts(
            point,
            settings,
            displays,
            state,
            focused,
            windows,
            Some(last),
            now,
        ),
{
}

/// A hover over a window without the focus asks for it, away from the corners of the
/// displays.
pub proof fn hovers_over_other_windows_count(
    point: Origin,
    settings: HoverSettings,
    displays: Seq<(IRect, IRect)>,
    state: GlobalState,
    focused: (WinID, IRect),
    windows: Seq<(WinID, IRect)>,
    now: Duration,
)
    requires
        !settings.resizing,
        settings.focus_follows_mouse,
        state.focus_follows_mouse_id is None,
        !focused.1.holds(point),
        forall|k: int|
            0 <= k < displays.len() ==> (#[trigger] displays[k]).1.max.x - 30 > point.x
                || displays[k].1.max.y - 30 > point.y,
    ensures
        hover_counts(point, settings, displays, state, Some(focused), windows, None, now),
{
    lemma_first_from(displays, crate::ecs::mouse::dead_on(point), 0);
    assert forall|k: int| 0 <= k < displays.len() implies !(crate::ecs::mouse::dead_on(point))(
        #[trigger] displays[k],
    ) by {}
}

/// A column that is dropped at a slot stands there among the others, which keep their
/// order: as many columns come before it as came before the slot, itself not counted.
pub proof fn dropped_columns_stand_at_their_slot(
    columns: Seq<ColumnView>,
    entity: Entity,
    column: int,
    row: int,
    slot: int,
)
    requires
        stands_at(columns, entity, column, row),
        0 <= slot <= columns.len(),
    ensures
        column_moved(
            columns,
            columns_reordered(columns, entity, slot),
            column,
            if slot > column {
                slot - 1
            } else {
                slot
            },
        ),
{
    places_are_found(columns, entity, column, row);
    let to = if slot > column {
        slot - 1
    } else {
        slot
    };
    assert(columns_reordered(columns, entity, slot).remove(to) =~= columns.remove(column));
}

/// During the warm-up a release only arms the shield. A drag that scrolled the strip
/// leaves it where it is, a drag by the shortcut drops the column, and every other
/// release, a click among them, sends the windows home.
pub proof fn releases_follow_their_press(
    cold: bool,
    display_armed: bool,
    scroll_armed: bool,
    distance: u64,
    shortcut: bool,
)
    ensures
        ({
            let release = release_of(cold, display_armed, scroll_armed, distance, shortcut);
            &&& release == Release::Shield <==> cold
            &&& release == Release::Scrolled <==> !cold && scroll_armed && distance > 4
            &&& !cold && display_armed && shortcut && !scroll_armed ==> release == Release::Drop
            &&& release == Release::Drop ==> display_armed && shortcut
            &&& !cold && !display_armed && !scroll_armed ==> release == Release::Home
            &&& !cold && !display_armed && distance <= 4 ==> release == Release::Home
        }),
{
}

proof fn lemma_glides(members: Seq<Entity>, homes: Seq<Option<Origin>>, n: int, request: Request)
    requires
        0 <= n <= members.len(),
        homes.len() == members.len(),
    ensures
        glides_to(members, homes, n).contains(request) == (exists|k: int|
            0 <= k < n && homed_at(members, homes, k, request)),
        glides_to(members, homes, n).len() > 0 <==> exists|k: int|
            0 <= k < n && (#[trigger] homes[k]) is Some,
    decreases n,
{
    if n > 0 {
        let before = glides_to(members, homes, n - 1);
        let after = glides_to(members, homes, n);
        lemma_glides(members, homes, n - 1, request);
        if let Some(origin) = homes[n - 1] {
            lemma_pushed(before, Request::Reposition { entity: members[n - 1], origin }, request);
        }
        if before.contains(request) {
            let k = choose|k: int| 0 <= k < n - 1 && homed_at(members, homes, k, request);
            assert(0 <= k < n && homed_at(members, homes, k, request));
        } else if after.contains(request) {
            assert(homed_at(members, homes, n - 1, request));
        }
        if exists|k: int| 0 <= k < n && homed_at(members, homes, k, request) {
            let k = choose|k: int| 0 <= k < n && homed_at(members, homes, k, request);
            if k < n - 1 {
                assert(0 <= k < n - 1 && homed_at(members, homes, k, request));
            }
        }
        if before.len() > 0 {
            let k = choose|k: int| 0 <= k < n - 1 && (#[trigger] homes[k]) is Some;
            assert(homes[k] is Some);
        }
    }
}

/// The request sends that window home.
pub open spec fn homed_at(
    members: Seq<Entity>,
    homes: Seq<Option<Origin>>,
    k: int,
    request: Request,
) -> bool {
    homes[k] matches Some(origin) && request == (Request::Reposition {
        entity: members[k],
        origin,
    })
}

proof fn lemma_confirmations(members: Seq<Entity>, n: int, request: Request)
    requires
        0 <= n <= members.len(),
    ensures
        confirmations_to(members, n).contains(request) == (exists|k: int|
            0 <= k < n && request == confirming(#[trigger] members[k])),
    decreases n,
{
    if n > 0 {
        lemma_confirmations(members, n - 1, request);
        lemma_pushed(
            confirmations_to(members, n - 1),
            Request::Verify { entity: members[n - 1] },
            request,
        );
        if confirmations_to(members, n - 1).contains(request) {
            let k = choose|k: int| 0 <= k < n - 1 && request == confirming(#[trigger] members[k]);
            assert(request == confirming(members[k]));
        } else if confirmations_to(members, n).contains(request) {
            assert(request == confirming(members[n - 1]));
        }
    }
}

/// The request that confirms the place of a window.
pub open spec fn confirming(entity: Entity) -> Request {
    Request::Verify { entity }
}

/// A release sends every window home that is away from it, and confirms the places of
/// all where none is. The strip is laid out only for a click, where that is set, and the
/// window that shows most is revealed, where one is named.
pub proof fn released_windows_go_home(
    entity: Entity,
    members: Seq<Entity>,
    homes: Seq<Option<Origin>>,
    click_reshuffles: bool,
    most_visible: Option<Entity>,
    k: int,
    request: Request,
)
    requires
        homes.len() == members.len(),
        0 <= k < members.len(),
    ensures
        ({
            let asked = homing_requests(entity, members, homes, click_reshuffles, most_visible);
            let away = exists|i: int| 0 <= i < homes.len() && (#[trigger] homes[i]) is Some;
            let again = Request::Reshuffle { entity, force: false };
            &&& homes[k] matches Some(origin) ==> asked.contains(
                Request::Reposition { entity: members[k], origin },
            )
            &&& !away ==> asked.contains(Request::Verify { entity: members[k] })
            &&& asked.contains(again) <==> !away && click_reshuffles
            &&& most_visible matches Some(winner) ==> asked.contains(
                Request::Reveal { entity: winner, snap: false },
            )
            &&& asked.contains(request) && request is Reveal ==> most_visible is Some
            &&& asked.contains(request) && request is Verify ==> !away
        }),
{
    let count = members.len() as int;
    let glides = glides_to(members, homes, count);
    let again = Request::Reshuffle { entity, force: false };
    let verify = Request::Verify { entity: members[k] };
    let confirmed = confirmations_to(members, count);
    let homed = if glides.len() > 0 {
        glides
    } else if click_reshuffles {
        confirmed.push(again)
    } else {
        confirmed
    };
    let home = Request::Reposition {
        entity: members[k],
        origin: match homes[k] {
            Some(origin) => origin,
            None => Origin { x: 0, y: 0 },
        },
    };
    let reveal = match most_visible {
        Some(winner) => Request::Reveal { entity: winner, snap: false },
        None => Request::Reveal { entity, snap: false },
    };
    lemma_glides(members, homes, count, home);
    lemma_glides(members, homes, count, verify);
    lemma_glides(members, homes, count, again);
    lemma_glides(members, homes, count, request);
    lemma_confirmations(members, count, home);
    lemma_confirmations(members, count, verify);
    lemma_confirmations(members, count, again);
    lemma_confirmations(members, count, request);
    lemma_pushed(confirmed, again, home);
    lemma_pushed(confirmed, again, verify);
    lemma_pushed(confirmed, again, again);
    lemma_pushed(confirmed, again, request);
    lemma_pushed(homed, reveal, home);
    lemma_pushed(homed, reveal, verify);
    lemma_pushed(homed, reveal, again);
    lemma_pushed(homed, reveal, request);
    lemma_pushed(homed, reveal, reveal);
    if homes[k] is Some {
        assert(homed_at(members, homes, k, home));
    }
    assert(verify == confirming(members[k]));
}

/// What a release asks for by its kind: nothing for the shield, a settle of its strip
/// after a scroll, a layout of the strip for a column that was dropped elsewhere, and
/// the way home for all others.
pub proof fn releases_ask_by_their_kind(
    facts: ReleaseFacts,
    strips: Seq<StripEntry>,
    windows: Seq<WindowRecord>,
    homes: Seq<Option<Origin>>,
    distance: u64,
    entry: StripEntry,
)
    requires
        find_where(strips, holds_window(facts.entity)) == Some(entry),
    ensures
        ({
            let asked = release_requests(facts, strips, windows, homes, distance);
            let moves = crate::ecs::mouse::drop_moves(facts, strips, windows, distance);
            let members = entry.strip@[column_of(entry.strip@, facts.entity)].members();
            &&& facts.cold ==> asked.len() == 0
            &&& !facts.cold && facts.scroll_armed && distance > 4 && (facts.display_width
                matches Some(width) && width > 0) ==> asked == seq![
                Request::ArmSettle { strip: entry.entity },
            ]
            &&& moves ==> asked == seq![Request::Reshuffle { entity: facts.entity, force: false }]
                && facts.display_armed && facts.shortcut
            &&& !facts.cold && !(facts.scroll_armed && distance > 4) && !moves ==> asked
                == homing_requests(
                facts.entity,
                members,
                homes,
                facts.click_reshuffles,
                facts.most_visible,
            )
        }),
{
}

/// A release concerns every window of the column that the window stands in, itself among
/// them; a window on no strip stands for itself.
pub proof fn releases_take_the_whole_column(strips: Seq<StripEntry>, entity: Entity)
    ensures
        released_members(strips, entity).contains(entity),
        find_where(strips, holds_window(entity)) is None ==> released_members(strips, entity)
            == seq![entity],
{
    if let Some(entry) = find_where(strips, holds_window(entity)) {
        lemma_first_from(strips, holds_window(entity), 0);
        let columns = entry.strip@;
        lemma_first_from(columns, column_has(entity), 0);
        let column = columns[column_of(columns, entity)];
        assert((column_has(entity))(column));
        lemma_flat_members(column);
        lemma_column_has(column, entity);
    } else {
        assert(seq![entity][0] == entity);
    }
}

/// Every window that is read away from its slot is pushed back there, and only such a
/// window is. It stays in the watch, as does one that cannot be read; one at its slot,
/// or gone, leaves it.
pub proof fn settling_windows_are_pushed_to_their_slot(
    members: Seq<Entity>,
    reads: Seq<SettleRead>,
    n: int,
    k: int,
    pushed: (Entity, Origin),
)
    requires
        0 <= k < n <= members.len(),
        reads.len() == members.len(),
    ensures
        ({
            let pushes = pushes_to(members, reads, n);
            let left = unsettled_to(members, reads, n);
            &&& reads[k] matches SettleRead::Live { live, slot } ==> (!live.near(slot, 1)
                ==> pushes.contains((members[k], slot)) && left.contains(members[k]))
            &&& reads[k] is Unread ==> left.contains(members[k])
            &&& pushes.contains(pushed) ==> exists|i: int|
                0 <= i < n && (#[trigger] reads[i] matches SettleRead::Live { live, slot }
                    && !live.near(slot, 1) && pushed == (members[i], slot))
            &&& left.contains(pushed.0) ==> exists|i: int|
                0 <= i < n && members[i] == pushed.0 && !((#[trigger] reads[i]) is Gone) && (
                reads[i] matches SettleRead::Live { live, slot } ==> !live.near(slot, 1))
        }),
    decreases n,
{
    let before = pushes_to(members, reads, n - 1);
    let left = unsettled_to(members, reads, n - 1);
    let own = match reads[k] {
        SettleRead::Live { live, slot } => (members[k], slot),
        _ => (members[k], Origin { x: 0, y: 0 }),
    };
    let last = match reads[n - 1] {
        SettleRead::Live { live, slot } => (members[n - 1], slot),
        _ => (members[n - 1], Origin { x: 0, y: 0 }),
    };
    lemma_pushed(before, last, own);
    lemma_pushed(before, last, pushed);
    lemma_pushed(left, members[n - 1], members[k]);
    lemma_pushed(left, members[n - 1], pushed.0);
    if k < n - 1 {
        settling_windows_are_pushed_to_their_slot(members, reads, n - 1, k, pushed);
    } else if n > 1 {
        settling_windows_are_pushed_to_their_slot(members, reads, n - 1, 0, pushed);
    } else {
        assert(before.len() == 0 && left.len() == 0);
    }
    if before.contains(pushed) {
        let i = choose|i: int|
            0 <= i < n - 1 && (#[trigger] reads[i] matches SettleRead::Live { live, slot }
                && !live.near(slot, 1) && pushed == (members[i], slot));
        assert(0 <= i < n && reads[i] is Live);
    } else if pushes_to(members, reads, n).contains(pushed) {
        assert(reads[n - 1] is Live);
    }
    if left.contains(pushed.0) {
        let i = choose|i: int|
            0 <= i < n - 1 && members[i] == pushed.0 && !((#[trigger] reads[i]) is Gone) && (
            reads[i] matches SettleRead::Live { live, slot } ==> !live.near(slot, 1));
        assert(0 <= i < n && !(reads[i] is Gone));
    } else if unsettled_to(members, reads, n).contains(pushed.0) {
        assert(unsettled(reads[n - 1]));
        assert(!(reads[n - 1] is Gone));
    }
}

/// The painted frame of a held window is the frame that was grabbed, moved along with the
/// pointer: it keeps its size, and steps of the pointer add up. Nothing is painted for
/// another window.
pub proof fn painted_frames_follow_the_pointer(
    paint: DragPaintState,
    target: Entity,
    grab: IRect,
    effect: DragEffect,
    step: Origin,
    now: Duration,
    other: Entity,
)
    requires
        paint.target == Some(target),
        paint.grab_frame == Some(grab),
        grab.ordered(),
        effect != DragEffect::Nothing,
        paint.offset.sum_fits(step),
        grab.min.sum_fits(paint.offset),
        grab.max.sum_fits(paint.offset),
        grab.min.sum_fits(paint.offset.spec_plus(step)),
        grab.max.sum_fits(paint.offset.spec_plus(step)),
        other != target,
    ensures
        ({
            let before = paint.painted(target)->0;
            let after = drag_painted(effect, paint, target, step, now);
            let frame = after.painted(target)->0;
            &&& paint.painted(target) is Some
            &&& after.painted(target) is Some
            &&& frame.min.x - before.min.x == step.x
            &&& frame.min.y - before.min.y == step.y
            &&& frame.max.x - frame.min.x == grab.max.x - grab.min.x
            &&& frame.max.y - frame.min.y == grab.max.y - grab.min.y
            &&& after.painted(other) is None
            &&& drag_painted(DragEffect::Nothing, paint, target, step, now) == paint
        }),
{
}

/// A drag of a tiled window has an effect only once the pointer has moved. During the
/// warm-up it is only painted; one that was armed to scroll scrolls the strip; one that
/// was armed for another display moves the column.
pub proof fn drags_follow_their_press(
    from: Origin,
    point: Origin,
    grab: Held,
    settings: DragSettings,
    windows: Seq<WindowRecord>,
)
    ensures
        ({
            let effect = drag_effect(Some(from), point, Some(grab), settings, windows);
            &&& from == point || !tiled(windows, grab.target) <==> effect == DragEffect::Nothing
            &&& effect == DragEffect::Scrolled ==> !settings.cold && grab.scroll_armed
            &&& effect == DragEffect::Moved ==> !settings.cold && !grab.scroll_armed
            &&& from != point && tiled(windows, grab.target) && settings.cold ==> effect
                == DragEffect::Painted
            &&& from != point && tiled(windows, grab.target) && !settings.cold && grab.scroll_armed
                ==> effect == DragEffect::Scrolled
            &&& from != point && tiled(windows, grab.target) && !settings.cold
                && !grab.scroll_armed && grab.display_armed ==> effect == DragEffect::Moved
            &&& drag_effect(None, point, Some(grab), settings, windows) == DragEffect::Nothing
            &&& drag_effect(Some(from), point, None, settings, windows) == DragEffect::Nothing
        }),
{
}

proof fn lemma_moved(
    members: Seq<Entity>,
    windows: Seq<WindowRecord>,
    delta: Origin,
    n: int,
    moved: (Entity, Origin),
)
    requires
        0 <= n <= members.len(),
    ensures
        moved_to(members, windows, delta, n).contains(moved) == (exists|k: int|
            0 <= k < n && shifted_at(members, windows, delta, k, moved)),
    decreases n,
{
    if n > 0 {
        let before = moved_to(members, windows, delta, n - 1);
        let after = moved_to(members, windows, delta, n);
        lemma_moved(members, windows, delta, n - 1, moved);
        if let Some(place) = place_of(windows, members[n - 1]) {
            lemma_pushed(before, (members[n - 1], place.position.spec_plus(delta)), moved);
        }
        if before.contains(moved) {
            let k = choose|k: int| 0 <= k < n - 1 && shifted_at(members, windows, delta, k, moved);
            assert(0 <= k < n && shifted_at(members, windows, delta, k, moved));
        } else if after.contains(moved) {
            assert(shifted_at(members, windows, delta, n - 1, moved));
        }
        if exists|k: int| 0 <= k < n && shifted_at(members, windows, delta, k, moved) {
            let k = choose|k: int| 0 <= k < n && shifted_at(members, windows, delta, k, moved);
            if k < n - 1 {
                assert(0 <= k < n - 1 && shifted_at(members, windows, delta, k, moved));
            }
        }
    }
}

/// The window is moved by the step from where it is.
pub open spec fn shifted_at(
    members: Seq<Entity>,
    windows: Seq<WindowRecord>,
    delta: Origin,
    k: int,
    moved: (Entity, Origin),
) -> bool {
    place_of(windows, members[k]) matches Some(place) && moved == (
        members[k],
        Origin { x: (place.position.x + delta.x) as i32, y: (place.position.y + delta.y) as i32 },
    )
}

/// A drag that moves a column moves every window of it by the step of the pointer, the
/// held one among them, and no other window. All other drags move none.
pub proof fn columns_move_with_the_pointer(
    strips: Seq<StripEntry>,
    grab: Held,
    windows: Seq<WindowRecord>,
    delta: Origin,
    member: Entity,
    place: Placement,
    moved: (Entity, Origin),
)
    requires
        released_members(strips, grab.target).contains(member),
        place_of(windows, member) == Some(place),
    ensures
        ({
            let moves = drag_moves(DragEffect::Moved, strips, grab, windows, delta);
            &&& moves.contains(
                (
                    member,
                    Origin {
                        x: (place.position.x + delta.x) as i32,
                        y: (place.position.y + delta.y) as i32,
                    },
                ),
            )
            &&& moves.contains(moved) ==> released_members(strips, grab.target).contains(moved.0)
            &&& drag_moves(DragEffect::Painted, strips, grab, windows, delta).len() == 0
            &&& drag_moves(DragEffect::Scrolled, strips, grab, windows, delta).len() == 0
            &&& drag_moves(DragEffect::Nothing, strips, grab, windows, delta).len() == 0
        }),
{
    let members = released_members(strips, grab.target);
    let n = members.len() as int;
    let k = choose|k: int| 0 <= k < members.len() && members[k] == member;
    let own = (
        member,
        Origin { x: (place.position.x + delta.x) as i32, y: (place.position.y + delta.y) as i32 },
    );
    assert(shifted_at(members, windows, delta, k, own));
    lemma_moved(members, windows, delta, n, own);
    lemma_moved(members, windows, delta, n, moved);
    if moved_to(members, windows, delta, n).contains(moved) {
        let i = choose|i: int| 0 <= i < n && shifted_at(members, windows, delta, i, moved);
        assert(members.contains(members[i]));
    }
}

/// A header drag scrolls the strip that holds the window along with the pointer,
/// sideways only.
pub proof fn strips_scroll_with_the_pointer(
    target: Entity,
    delta_x: i32,
    strips: Seq<StripEntry>,
    now: Duration,
    entry: StripEntry,
)
    requires
        find_where(strips, holds_window(target)) == Some(entry),
        fits(entry.position.x + delta_x),
    ensures
        scrolled(target, delta_x, strips, now) matches Some(drive) && drive.strip == entry.entity
            && drive.offset.x - entry.position.x == delta_x && drive.offset.y == entry.position.y
            && drive.at == now,
{
}

/// A held window goes to another display only if its drag is armed for that, the shortcut
/// is held, it is tiled and on the strip that it is taken from, and its middle lies on
/// the other display.
pub proof fn windows_cross_by_their_middle(
    window_id: WinID,
    window: WindowRecord,
    held: Seq<Held>,
    shortcut: bool,
    windows: Seq<WindowRecord>,
    columns: Seq<ColumnView>,
    active: DisplayId,
    others: Seq<DisplaySnapshot>,
    spaces: Seq<(DisplayId, WorkspaceId)>,
    strips: Seq<StripEntry>,
)
    requires
        find_where(windows, is_window(window_id)) == Some(window),
    ensures
        transfer_of(
            window_id,
            held,
            shortcut,
            windows,
            columns,
            active,
            others,
            spaces,
            strips,
        ) matches Some((entity, landing)) ==> {
            &&& entity == window.entity
            &&& shortcut
            &&& any_where(held, armed_on(entity))
            &&& tiled(windows, entity)
            &&& strip_has(columns, entity)
            &&& landing.display != active
            &&& others.contains((landing.display, landing.bounds))
            &&& frame_of(windows, entity) matches Some(frame) && landing.bounds.holds(
                frame.spec_center(),
            )
            &&& exists|k: int|
                0 <= k < strips.len() && (#[trigger] strips[k]).strip.id == landing.space
                    && strips[k].display == landing.entity
        },
{
    if let Some(frame) = frame_of(windows, window.entity) {
        let center = frame.spec_center();
        if let Some(landing) = landing_of(center, active, others, spaces, strips) {
            let under = crate::ecs::mouse::drag::foreign_under(center, active);
            lemma_first_from(others, under, 0);
            let at = crate::seqs::first_where(others, under);
            assert(others[at] == (landing.display, landing.bounds));
            let listed = crate::commands::in_workspace(landing.space);
            lemma_first_from(strips, listed, 0);
            let k = crate::seqs::first_where(strips, listed);
            assert(listed(strips[k]));
        }
    }
}

/// A column that crosses to another display leaves its strip whole and comes whole to
/// the other one; its window has the focus there, on the display that is active then.
pub proof fn crossing_columns_take_the_focus(
    entity: Entity,
    landing: Landing,
    mid: Option<(usize, i32)>,
    windows: Seq<WindowRecord>,
    source: (Seq<ColumnView>, Seq<ColumnView>),
    strips: (Seq<StripEntry>, Seq<StripEntry>),
    requests: (Seq<Request>, Seq<Request>),
    column: int,
    row: int,
)
    requires
        transferred(Some((entity, landing)), mid, windows, source, strips, requests),
        stands_at(source.0, entity, column, row),
    ensures
        source.1 == source.0.remove(column),
        ({
            let n = requests.1.len() as int;
            &&& n >= 3
            &&& requests.1[n - 1] == (Request::ActivateDisplay { display: landing.entity })
            &&& requests.1[n - 2] == (Request::Focus { entity, raise: true })
            &&& requests.1[n - 3] == (Request::Reshuffle { entity, force: false })
        }),
        ({
            let at = crate::commands::displays::arrival_strip(strips.0, Some(landing.space));
            &&& strips.1[at].strip@.contains(source.0[column])
            &&& strips.1[at].strip@.len() == strips.0[at].strip@.len() + 1
        }),
{
    places_are_found(source.0, entity, column, row);
    let at = crate::commands::displays::arrival_strip(strips.0, Some(landing.space));
    let columns = strips.0[at].strip@;
    let slot = crate::ecs::mouse::drag::transfer_slot(entity, landing, columns, mid, windows).0;
    let to = crate::geometry::spec_min(slot, columns.len() as int);
    assert(strips.1[at].strip@[to] == source.0[column]);
}

/// The end of a strip lies behind every column that is known, and one of them ends there.
pub proof fn strips_end_behind_their_columns(
    tops: Seq<Entity>,
    windows: Seq<WindowRecord>,
    n: int,
    k: int,
    edge: int,
)
    requires
        0 <= k < n <= tops.len(),
        far_edge(windows, tops[k]) == Some(edge),
    ensures
        end_to(tops, windows, n) matches Some(end) && edge <= end,
        end_to(tops, windows, n) matches Some(end) && exists|i: int|
            0 <= i < n && far_edge(windows, #[trigger] tops[i]) == Some(end),
    decreases n,
{
    lemma_end(tops, windows, n);
    if k < n - 1 {
        strips_end_behind_their_columns(tops, windows, n - 1, k, edge);
    }
}

proof fn lemma_end(tops: Seq<Entity>, windows: Seq<WindowRecord>, n: int)
    requires
        0 <= n <= tops.len(),
    ensures
        end_to(tops, windows, n) matches Some(end) ==> exists|i: int|
            0 <= i < n && far_edge(windows, #[trigger] tops[i]) == Some(end),
    decreases n,
{
    if n > 0 {
        lemma_end(tops, windows, n - 1);
        if let Some(end) = end_to(tops, windows, n) {
            if far_edge(windows, tops[n - 1]) != Some(end) {
                let i = choose|i: int|
                    0 <= i < n - 1 && far_edge(windows, #[trigger] tops[i]) == Some(end);
                assert(far_edge(windows, tops[i]) == Some(end));
            }
        }
    }
}

/// A resize by the mouse moves the side that the pointer is on and leaves the other one
/// where it is: the width changes by the step, and for the left side the window, or the
/// strip that it is on, moves along.
pub proof fn resizes_move_the_near_side(
    entity: Entity,
    frame: IRect,
    pointer: Origin,
    dx: int,
    floating: Option<Origin>,
    strip: Entity,
    strip_position: Origin,
    request: Request,
)
    requires
        resize_step_fits(frame, pointer, dx, floating, strip_position),
    ensures
        ({
            let asked = resize_step_requests(
                entity,
                frame,
                pointer,
                dx,
                floating,
                strip,
                strip_position,
            );
            let left = pointer.x < frame.spec_center().x;
            let width = if left {
                frame.max.x - frame.min.x - dx
            } else {
                frame.max.x - frame.min.x + dx
            };
            let moved = match floating {
                Some(origin) => Request::Reposition {
                    entity,
                    origin: Origin { x: (origin.x + dx) as i32, y: origin.y },
                },
                None => Request::Reposition {
                    entity: strip,
                    origin: Origin { x: (strip_position.x + dx) as i32, y: strip_position.y },
                },
            };
            let resized = Request::Resize {
                entity,
                size: Origin { x: width as i32, y: (frame.max.y - frame.min.y) as i32 },
            };
            &&& asked.contains(resized) <==> 0 < width && frame.min.y < frame.max.y
            &&& asked.contains(moved) <==> left
            &&& asked.contains(request) ==> request == moved || request == resized
        }),
{
    let left = pointer.x < frame.spec_center().x;
    let moved = match floating {
        Some(origin) => Request::Reposition {
            entity,
            origin: Origin { x: (origin.x + dx) as i32, y: origin.y },
        },
        None => Request::Reposition {
            entity: strip,
            origin: Origin { x: (strip_position.x + dx) as i32, y: strip_position.y },
        },
    };
    let first = if left {
        seq![moved]
    } else {
        Seq::empty()
    };
    let size = side_moved(frame, pointer, dx).spec_size();
    let second = resizing(entity, size);
    let resized = Request::Resize { entity, size };
    if left {
        assert(first[0] == moved);
    }
    lemma_resizing(entity, size, resized);
    lemma_resizing(entity, size, moved);
    lemma_resizing(entity, size, request);
    lemma_either(first, second, resized);
    lemma_either(first, second, moved);
    lemma_either(first, second, request);
}

/// Without the shortcut a resize by the mouse ends, and nothing changes. The first event
/// only remembers the pointer, and so does one that did not move sideways. A window that
/// is held for another display is not resized.
pub proof fn resizes_need_a_step(
    pointer: Origin,
    under_pointer: Option<WinID>,
    windows: Windows,
    strip: LayoutStrip,
    held: Seq<Held>,
    view: ResizeView,
    state: MouseResizeState,
)
    ensures
        ({
            let off = resize_event(
                pointer,
                false,
                under_pointer,
                windows,
                strip,
                held,
                view,
                state,
            );
            let on = resize_event(pointer, true, under_pointer, windows, strip, held, view, state);
            &&& off.0.last_point is None && off.0.window_id is None && off.1.len() == 0
            &&& state.last_point is None ==> on.0.last_point == Some(pointer) && on.1.len() == 0
            &&& state.last_point matches Some(last) ==> (last.x == pointer.x ==> on.1.len() == 0)
            &&& state.window_id matches Some(id) ==> (on.0.last_point is Some ==> on.0.window_id
                == Some(id))
            &&& state.window_id is None && under_pointer is None ==> on.1.len() == 0
            &&& state.last_point matches Some(last) ==> (resize_step(last, pointer) > 0 <==> last.x
                < pointer.x)
        }),
{
}

} // verus!

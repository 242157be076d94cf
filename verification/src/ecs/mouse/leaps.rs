//! Where a pointer lands that leaps to a display above or below, and what a drop leaves
//! behind.
use vstd::prelude::*;

use crate::commands::travel::column_moved;
use crate::ecs::layout::places::stands_at;
use crate::ecs::mouse::drag::{ghost_width, widest_member};
use crate::ecs::mouse::grip::dropped_columns_stand_at_their_slot;
use crate::ecs::mouse::slots::{facts_at_drop, slot_under};
use crate::ecs::mouse::warp::{
    at_edge, holding, jump_to, landing_x, warp_of, WarpVelocityState,
};
use crate::ecs::mouse::{
    drop_index, drop_moves, released, released_members, DragScrollState, ReleaseFacts,
};
use crate::ecs::params::{holds_window, moving_frame_of, StripEntry, WindowRecord};
use crate::geometry::{distance, Entity, IRect, Origin};
use crate::seqs::{find_where, first_where};
use crate::time::Duration;

verus! {

/// A leap goes to a display that it leads to, and no other such display is nearer.
pub proof fn leaps_go_to_the_nearest_display(
    from: IRect,
    displays: Seq<IRect>,
    on_left: bool,
    direction: i16,
    n: int,
    k: int,
)
    requires
        0 <= k < n <= displays.len(),
    ensures
        ({
            let below = on_left == (direction > 0);
            let found = jump_to(from, displays, on_left, direction, n);
            &&& found matches Some(target) ==> displays.contains(target) && (if below {
                target.min.y > from.min.y
            } else {
                target.min.y < from.min.y
            })
            &&& (if below {
                displays[k].min.y > from.min.y
            } else {
                displays[k].min.y < from.min.y
            }) ==> (found matches Some(target) && distance(target.min.y as int, from.min.y as int)
                <= distance(displays[k].min.y as int, from.min.y as int))
        }),
    decreases n,
{
    if n > 1 {
        leaps_go_to_the_nearest_display(
            from,
            displays,
            on_left,
            direction,
            n - 1,
            if k < n - 1 {
                k
            } else {
                0
            },
        );
    } else {
        assert(jump_to(from, displays, on_left, direction, 0) is None);
    }
}

/// A pointer away from both edges of its display does not leap. One that leaps from the
/// left edge lands at the right edge of the other display, and from the right edge at the
/// left one, moved by no more than the carry.
pub proof fn leaps_land_at_the_other_edge(
    point: Origin,
    direction: i16,
    displays: Seq<IRect>,
    offset: int,
    from: IRect,
    target: IRect,
    carry: int,
)
    requires
        find_where(displays, holding(point)) == Some(from),
        target.min.x + 200 <= target.max.x,
        -80 <= carry <= 80,
    ensures
        !at_edge(point.x as int, from.min.x as int) && !at_edge(point.x as int, from.max.x as int)
            ==> warp_of(point, carry, direction, displays, offset) is None,
        landing_x(target, true, 0) > landing_x(target, false, 0),
        distance(landing_x(target, true, carry), target.max.x as int) <= 100,
        distance(landing_x(target, false, carry), target.min.x as int) <= 100,
        distance(landing_x(target, true, carry), landing_x(target, true, 0)) <= distance(carry, 0),
{
}

/// A step of the pointer counts only if it is recent and took time.
pub proof fn old_steps_do_not_count(state: WarpVelocityState, point: Origin, now: Duration)
    ensures
        state.last is None ==> state.step(point, now) is None,
        now.nanos <= state.at.nanos || now.nanos > state.at.nanos + 80_000_000 ==> state.step(
            point,
            now,
        ) is None,
        state.step(point, now) matches Some(step) ==> state.last matches Some(last) && step.dx
            == point.x - last.x && step.dt.nanos == now.nanos - state.at.nanos,
{
}

/// A release that drops a column elsewhere moves that column, to the slot that it is
/// nearest to, and nothing else; every other release leaves all strips as they are and
/// shields the windows of the column for a second.
pub proof fn drops_move_one_column(
    facts: ReleaseFacts,
    strips: (Seq<StripEntry>, Seq<StripEntry>),
    windows: Seq<WindowRecord>,
    scroll: (DragScrollState, DragScrollState),
    now: Duration,
    column: int,
    row: int,
    other: int,
)
    requires
        released(facts, strips, windows, scroll, now),
        now.nanos + 1_000_000_000 <= u128::MAX,
    ensures
        ({
            let at = first_where(strips.0, holds_window(facts.entity));
            let slot = drop_index(facts.entity, strips.0[at], windows, facts.nearest);
            let moves = drop_moves(facts, strips.0, windows, scroll.0.distance_px);
            &&& moves && stands_at(strips.0[at].strip@, facts.entity, column, row) && 0 <= slot
                <= strips.0[at].strip@.len() ==> column_moved(
                strips.0[at].strip@,
                strips.1[at].strip@,
                column,
                if slot > column {
                    slot - 1
                } else {
                    slot
                },
            )
            &&& 0 <= other < strips.0.len() && other != at ==> strips.1[other] == strips.0[other]
            &&& !moves ==> strips.1 == strips.0 && scroll.1.members@ == released_members(
                strips.0,
                facts.entity,
            ) && (scroll.1.settle_deadline matches Some(deadline) && deadline.nanos - now.nanos
                == 1_000_000_000)
        }),
{
    let at = first_where(strips.0, holds_window(facts.entity));
    let slot = drop_index(facts.entity, strips.0[at], windows, facts.nearest);
    if stands_at(strips.0[at].strip@, facts.entity, column, row) && 0 <= slot
        <= strips.0[at].strip@.len() {
        dropped_columns_stand_at_their_slot(
            strips.0[at].strip@,
            facts.entity,
            column,
            row,
            slot,
        );
    }
}

/// A drop on the strip of the window is at the slot that the window is over there; all
/// else is as the release says.
pub proof fn drops_are_at_the_slot_under_the_window(
    facts: ReleaseFacts,
    strips: Seq<StripEntry>,
    windows: Seq<WindowRecord>,
)
    ensures
        ({
            let at = facts_at_drop(facts, strips, windows);
            &&& find_where(strips, holds_window(facts.entity)) matches Some(entry) ==> at.nearest
                == slot_under(facts.entity, entry, windows)
            &&& at == (ReleaseFacts { nearest: at.nearest, ..facts })
            &&& find_where(strips, holds_window(facts.entity)) is None ==> at == facts
        }),
{
}

proof fn lemma_widest_member(members: Seq<Entity>, windows: Seq<WindowRecord>, n: int)
    requires
        0 <= n <= members.len(),
    ensures
        widest_member(members, windows, n) matches Some(width) ==> forall|k: int|
            0 <= k < n ==> (moving_frame_of(windows, #[trigger] members[k]) matches Some(frame)
                ==> frame.spec_width() <= width),
        widest_member(members, windows, n) is None ==> forall|k: int|
            0 <= k < n ==> moving_frame_of(windows, #[trigger] members[k]) is None,
    decreases n,
{
    if n > 0 {
        lemma_widest_member(members, windows, n - 1);
    }
}

/// The ghost of a dragged column is as wide as its widest window.
pub proof fn ghosts_are_as_wide_as_their_column(
    entity: Entity,
    frame: IRect,
    strips: Seq<StripEntry>,
    windows: Seq<WindowRecord>,
    k: int,
)
    ensures
        ({
            let members = released_members(strips, entity);
            let width = ghost_width(entity, frame, strips, windows);
            &&& find_where(strips, holds_window(entity)) is Some && 0 <= k < members.len() ==> (
            moving_frame_of(windows, members[k]) matches Some(wide) ==> (0 < wide.spec_width()
                ==> wide.spec_width() <= width))
            &&& find_where(strips, holds_window(entity)) is None ==> width == frame.max.x
                - frame.min.x
        }),
{
    let members = released_members(strips, entity);
    lemma_widest_member(members, windows, members.len() as int);
}

} // verus!

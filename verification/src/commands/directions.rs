//! Where the steps of the focus lead.
use vstd::prelude::*;

use crate::commands::{
    arrived, centers_on_arrival, centers_to, found_in_direction, in_cone, nearest_to,
    pending_after, picked_is_nearest, square_distance, visible_floats, Direction, FocusScene,
    FocusStep,
};
use crate::ecs::focus::centering_fits;
use crate::ecs::layout::membership::{distinct, membership_is_listing, windows_in};
use crate::ecs::layout::places::{
    holds_at, places_are_found, row_beside, shown_at, shown_windows_are_held, stands_at,
    windows_stand_in_one_place,
};
use crate::ecs::layout::{behind_a_tab, strip_wf, ColumnView};
use crate::ecs::params::{
    floats, focus_of, frame_of, holds_window, place_of, tiled, Placement, WindowRecord,
};
use crate::ecs::Request;
use crate::geometry::{distance, halved, Entity, IRect, IVec2, Origin};
use crate::seqs::{first_where, lemma_first_from, lemma_first_is};

verus! {

/// A step down goes to the window shown in the next row of the stack, and a step up to
/// the one shown in the row before: no row is jumped over, and the ends of a column
/// lead nowhere.
pub proof fn steps_up_and_down_go_row_by_row(
    columns: Seq<ColumnView>,
    entity: Entity,
    column: int,
    row: int,
)
    requires
        strip_wf(columns),
        stands_at(columns, entity, column, row),
    ensures
        found_in_direction(Direction::South, entity, columns) == (if row + 1
            < columns[column].items.len() {
            Some(shown_at(columns, column, row + 1))
        } else {
            None
        }),
        found_in_direction(Direction::North, entity, columns) == (if row > 0 {
            Some(shown_at(columns, column, row - 1))
        } else {
            None
        }),
{
    places_are_found(columns, entity, column, row);
    assert(columns[column].wf());
    if row + 1 < columns[column].items.len() {
        assert(columns[column].items[row + 1].len() >= 1);
    }
    if row > 0 {
        assert(columns[column].items[row - 1].len() >= 1);
    }
}

/// A step up undoes a step down, and a step down a step up: it leads back to the window
/// that the row left behind shows.
pub proof fn steps_up_undo_steps_down(
    columns: Seq<ColumnView>,
    entity: Entity,
    column: int,
    row: int,
)
    requires
        strip_wf(columns),
        distinct(columns),
        stands_at(columns, entity, column, row),
    ensures
        found_in_direction(Direction::South, entity, columns) matches Some(below)
            ==> found_in_direction(Direction::North, below, columns) == Some(
            shown_at(columns, column, row),
        ),
        found_in_direction(Direction::North, entity, columns) matches Some(above)
            ==> found_in_direction(Direction::South, above, columns) == Some(
            shown_at(columns, column, row),
        ),
{
    steps_up_and_down_go_row_by_row(columns, entity, column, row);
    if row + 1 < columns[column].items.len() {
        let below = shown_at(columns, column, row + 1);
        shown_windows_are_held(columns, column, row + 1);
        windows_stand_in_one_place(columns, below, column, row + 1);
        steps_up_and_down_go_row_by_row(columns, below, column, row + 1);
    }
    if row > 0 {
        let above = shown_at(columns, column, row - 1);
        shown_windows_are_held(columns, column, row - 1);
        windows_stand_in_one_place(columns, above, column, row - 1);
        steps_up_and_down_go_row_by_row(columns, above, column, row - 1);
    }
}

/// A step sideways goes to the column right beside, in the same row, or in the last one
/// of a lower column; the ends of the strip lead nowhere.
pub proof fn steps_sideways_go_column_by_column(
    columns: Seq<ColumnView>,
    entity: Entity,
    column: int,
    row: int,
)
    requires
        strip_wf(columns),
        stands_at(columns, entity, column, row),
    ensures
        found_in_direction(Direction::East, entity, columns) == (if column + 1 < columns.len() {
            Some(shown_at(columns, column + 1, row_beside(columns[column + 1], row)))
        } else {
            None
        }),
        found_in_direction(Direction::West, entity, columns) == (if column > 0 {
            Some(shown_at(columns, column - 1, row_beside(columns[column - 1], row)))
        } else {
            None
        }),
{
    places_are_found(columns, entity, column, row);
    if column + 1 < columns.len() {
        assert(columns[column + 1].wf());
        assert(columns[column + 1].items[row_beside(columns[column + 1], row)].len() >= 1);
    }
    if column > 0 {
        assert(columns[column - 1].wf());
        assert(columns[column - 1].items[row_beside(columns[column - 1], row)].len() >= 1);
    }
}

/// A step back sideways leads to the column that was left: to the row that was left, or
/// to the last one that the other column has too.
pub proof fn steps_sideways_undo_each_other(
    columns: Seq<ColumnView>,
    entity: Entity,
    column: int,
    row: int,
)
    requires
        strip_wf(columns),
        distinct(columns),
        stands_at(columns, entity, column, row),
    ensures
        found_in_direction(Direction::East, entity, columns) matches Some(right)
            ==> found_in_direction(Direction::West, right, columns) == Some(
            shown_at(columns, column, row_beside(columns[column + 1], row)),
        ),
        found_in_direction(Direction::West, entity, columns) matches Some(left)
            ==> found_in_direction(Direction::East, left, columns) == Some(
            shown_at(columns, column, row_beside(columns[column - 1], row)),
        ),
{
    steps_sideways_go_column_by_column(columns, entity, column, row);
    if column + 1 < columns.len() {
        assert(columns[column + 1].wf());
        let beside = row_beside(columns[column + 1], row);
        shown_windows_are_held(columns, column + 1, beside);
        let right = shown_at(columns, column + 1, beside);
        windows_stand_in_one_place(columns, right, column + 1, beside);
        steps_sideways_go_column_by_column(columns, right, column + 1, beside);
    }
    if column > 0 {
        assert(columns[column - 1].wf());
        let beside = row_beside(columns[column - 1], row);
        shown_windows_are_held(columns, column - 1, beside);
        let left = shown_at(columns, column - 1, beside);
        windows_stand_in_one_place(columns, left, column - 1, beside);
        steps_sideways_go_column_by_column(columns, left, column - 1, beside);
    }
}

/// The first, the last and a counted column are found from anywhere on the strip, each
/// by the window at its top; a number beyond the last column leads nowhere.
pub proof fn counted_steps_go_to_the_top(
    columns: Seq<ColumnView>,
    entity: Entity,
    column: int,
    row: int,
    index: usize,
)
    requires
        strip_wf(columns),
        stands_at(columns, entity, column, row),
    ensures
        found_in_direction(Direction::First, entity, columns) == Some(shown_at(columns, 0, 0)),
        found_in_direction(Direction::Last, entity, columns) == Some(
            shown_at(columns, columns.len() - 1, 0),
        ),
        found_in_direction(Direction::Nth(index), entity, columns) == (if index < columns.len() {
            Some(shown_at(columns, index as int, 0))
        } else {
            None
        }),
{
    places_are_found(columns, entity, column, row);
    assert(columns[0].wf() && columns[0].items[0].len() >= 1);
    let last = columns.len() - 1;
    assert(columns[last].wf() && columns[last].items[0].len() >= 1);
    if index < columns.len() {
        assert(columns[index as int].wf() && columns[index as int].items[0].len() >= 1);
    }
}

/// No direction leads anywhere from a window that the strip does not list.
pub proof fn strangers_have_no_neighbours(
    columns: Seq<ColumnView>,
    entity: Entity,
    direction: Direction,
)
    requires
        !windows_in(columns).contains(entity),
    ensures
        found_in_direction(direction, entity, columns) is None,
{
    membership_is_listing(columns, entity);
}

/// Every step leads to another window than the one that it starts from, except a
/// counted one.
pub proof fn steps_leave_the_window(
    columns: Seq<ColumnView>,
    entity: Entity,
    column: int,
    row: int,
    direction: Direction,
)
    requires
        strip_wf(columns),
        distinct(columns),
        stands_at(columns, entity, column, row),
        direction == Direction::North || direction == Direction::South || direction
            == Direction::East || direction == Direction::West,
    ensures
        found_in_direction(direction, entity, columns) != Some(entity),
{
    steps_up_and_down_go_row_by_row(columns, entity, column, row);
    steps_sideways_go_column_by_column(columns, entity, column, row);
    if row + 1 < columns[column].items.len() {
        shown_windows_are_held(columns, column, row + 1);
    }
    if row > 0 {
        shown_windows_are_held(columns, column, row - 1);
    }
    if column + 1 < columns.len() {
        assert(columns[column + 1].wf());
        shown_windows_are_held(columns, column + 1, row_beside(columns[column + 1], row));
    }
    if column > 0 {
        assert(columns[column - 1].wf());
        shown_windows_are_held(columns, column - 1, row_beside(columns[column - 1], row));
    }
}

/// Where the focus commands lead from a tiled window of the strip on screen.
pub proof fn the_focus_follows_the_columns<'a>(
    scene: FocusScene<'a>,
    focused: Entity,
    column: int,
    row: int,
    index: usize,
)
    requires
        scene.active.fullscreen is None,
        !floats(scene.windows.all@, focused),
        strip_wf(scene.active_strip@),
        stands_at(scene.active_strip@, focused, column, row),
    ensures
        ({
            let columns = scene.active_strip@;
            &&& arrived(scene.step(Direction::South, focused), focused) == (if row + 1
                < columns[column].items.len() {
                Some(shown_at(columns, column, row + 1))
            } else {
                None
            })
            &&& arrived(scene.step(Direction::North, focused), focused) == (if row > 0 {
                Some(shown_at(columns, column, row - 1))
            } else {
                None
            })
            &&& column + 1 < columns.len() ==> arrived(
                scene.step(Direction::East, focused),
                focused,
            ) == Some(shown_at(columns, column + 1, row_beside(columns[column + 1], row)))
            &&& arrived(scene.step(Direction::West, focused), focused) == (if column > 0 {
                Some(shown_at(columns, column - 1, row_beside(columns[column - 1], row)))
            } else {
                None
            })
            &&& arrived(scene.step(Direction::First, focused), focused) == Some(
                shown_at(columns, 0, 0),
            )
            &&& arrived(scene.step(Direction::Last, focused), focused) == Some(
                shown_at(columns, columns.len() - 1, 0),
            )
            &&& arrived(scene.step(Direction::Nth(index), focused), focused) == (if index
                < columns.len() {
                Some(shown_at(columns, index as int, 0))
            } else {
                None
            })
        }),
{
    let columns = scene.active_strip@;
    places_are_found(columns, focused, column, row);
    steps_up_and_down_go_row_by_row(columns, focused, column, row);
    steps_sideways_go_column_by_column(columns, focused, column, row);
    counted_steps_go_to_the_top(columns, focused, column, row, index);
}

/// From the last column, a step to the right goes on to a fullscreen space of the same
/// display, the first one that is listed, and nowhere where there is none.
pub proof fn the_right_end_leads_to_fullscreen<'a>(
    scene: FocusScene<'a>,
    focused: Entity,
    row: int,
    at: int,
)
    requires
        scene.active.fullscreen is None,
        !floats(scene.windows.all@, focused),
        strip_wf(scene.active_strip@),
        stands_at(scene.active_strip@, focused, scene.active_strip@.len() - 1, row),
        0 <= at <= scene.strips@.len(),
        forall|j: int|
            0 <= j < at ==> !((#[trigger] scene.strips@[j]).native_fullscreen
                && scene.strips@[j].strip.id != scene.active_strip.id && scene.strips@[j].display
                == scene.active.entity),
        at < scene.strips@.len() ==> scene.strips@[at].native_fullscreen
            && scene.strips@[at].strip.id != scene.active_strip.id && scene.strips@[at].display
            == scene.active.entity && strip_wf(scene.strips@[at].strip@),
    ensures
        arrived(scene.step(Direction::East, focused), focused) == (if at < scene.strips@.len()
            && scene.strips@[at].strip@.len() > 0 {
            Some(shown_at(scene.strips@[at].strip@, 0, 0))
        } else {
            None
        }),
{
    let columns = scene.active_strip@;
    let beside = crate::commands::fullscreen_beside(scene.active_strip.id, scene.active.entity);
    places_are_found(columns, focused, columns.len() - 1, row);
    steps_sideways_go_column_by_column(columns, focused, columns.len() - 1, row);
    lemma_first_from(scene.strips@, beside, 0);
    assert forall|j: int| 0 <= j < at implies !beside(#[trigger] scene.strips@[j]) by {}
    if at < scene.strips@.len() {
        assert(beside(scene.strips@[at]));
        lemma_first_is(scene.strips@, beside, at);
        if scene.strips@[at].strip@.len() > 0 {
            assert(scene.strips@[at].strip@[0].wf());
            assert(scene.strips@[at].strip@[0].items[0].len() >= 1);
        }
    } else {
        let found = first_where(scene.strips@, beside);
        if found < scene.strips@.len() {
            assert(beside(scene.strips@[found]));
        }
    }
}

/// From a window that is not on the strip on screen, the strip is entered from the side
/// that the command comes from.
pub proof fn strips_are_entered_from_their_side<'a>(
    scene: FocusScene<'a>,
    focused: Entity,
    index: usize,
)
    requires
        scene.active.fullscreen is None,
        !floats(scene.windows.all@, focused),
        strip_wf(scene.active_strip@),
        scene.active_strip@.len() > 0,
        !windows_in(scene.active_strip@).contains(focused),
    ensures
        ({
            let columns = scene.active_strip@;
            let first = Some(shown_at(columns, 0, 0));
            let last = Some(shown_at(columns, columns.len() - 1, 0));
            &&& arrived(scene.step(Direction::East, focused), focused) == first
            &&& arrived(scene.step(Direction::First, focused), focused) == first
            &&& arrived(scene.step(Direction::West, focused), focused) == last
            &&& arrived(scene.step(Direction::Last, focused), focused) == last
            &&& arrived(scene.step(Direction::North, focused), focused) is None
            &&& arrived(scene.step(Direction::South, focused), focused) is None
            &&& arrived(scene.step(Direction::Nth(index), focused), focused) == (if index
                < columns.len() {
                Some(shown_at(columns, index as int, 0))
            } else {
                None
            })
        }),
{
    let columns = scene.active_strip@;
    membership_is_listing(columns, focused);
    assert(columns[0].wf() && columns[0].items[0].len() >= 1);
    let last = columns.len() - 1;
    assert(columns[last].wf() && columns[last].items[0].len() >= 1);
    if index < columns.len() {
        assert(columns[index as int].wf() && columns[index as int].items[0].len() >= 1);
    }
}

/// From a fullscreen space, the command to the left leads to the last column of the
/// strip that its window came from.
pub proof fn fullscreen_leads_back_west<'a>(scene: FocusScene<'a>, focused: Entity, at: int)
    requires
        scene.active.fullscreen is Some,
        0 <= at < scene.strips@.len(),
        scene.strips@[at].entity == scene.active.fullscreen->0.layout_strip,
        forall|j: int|
            0 <= j < at ==> (#[trigger] scene.strips@[j]).entity
                != scene.active.fullscreen->0.layout_strip,
        strip_wf(scene.strips@[at].strip@),
        scene.strips@[at].strip@.len() > 0,
    ensures
        ({
            let origin = scene.strips@[at].strip@;
            let target = shown_at(origin, origin.len() - 1, 0);
            &&& arrived(scene.step(Direction::West, focused), focused) == Some(target)
            &&& scene.step_requests(scene.step(Direction::West, focused)) == seq![
                Request::Focus { entity: target, raise: true },
            ]
        }),
{
    let marker = scene.active.fullscreen->0;
    let same = crate::commands::is_strip(marker.layout_strip);
    assert(same(scene.strips@[at]));
    assert forall|j: int| 0 <= j < at implies !same(#[trigger] scene.strips@[j]) by {}
    lemma_first_is(scene.strips@, same, at);
    let origin = scene.strips@[at].strip@;
    assert(origin[origin.len() - 1].wf());
    assert(origin[origin.len() - 1].items[0].len() >= 1);
}

/// A focus command asks for the focus of the window that it arrives at, raised, and of
/// no other window; that window is then the one whose focus is awaited. A command that
/// arrives nowhere, or stays, asks for nothing.
pub proof fn steps_ask_for_one_focus<'a>(
    scene: FocusScene<'a>,
    direction: Direction,
    focused: Entity,
    pending: Option<Entity>,
    other: Entity,
    raise: bool,
)
    ensures
        ({
            let step = scene.step(direction, focused);
            let asked = scene.step_requests(step);
            match arrived(step, focused) {
                Some(target) => if step is Stay {
                    target == focused && asked.len() == 0 && pending_after(step, pending)
                        == pending
                } else {
                    &&& asked.contains(Request::Focus { entity: target, raise: true })
                    &&& asked.contains(Request::Focus { entity: other, raise }) ==> other == target
                        && raise
                    &&& pending_after(step, pending) == Some(target)
                },
                None => asked.len() == 0 && pending_after(step, pending) == pending,
            }
        }),
{
    let step = scene.step(direction, focused);
    let asked = scene.step_requests(step);
    match step {
        FocusStep::Jump(entity) => {
            assert(asked[0] == Request::Focus { entity, raise: true });
        },
        FocusStep::Within(entity) => {
            assert(asked[0] == Request::Focus { entity, raise: true } || asked[1]
                == Request::Focus { entity, raise: true });
        },
        _ => {},
    }
}

/// A step within the strip shows its window: either the strip is laid out around it, or
/// the strip that holds it moves so that its middle comes to the middle of the display.
/// Nothing else moves, and nothing is centred that is not asked for.
pub proof fn steps_show_their_window<'a>(
    scene: FocusScene<'a>,
    target: Entity,
    at: int,
    place: Placement,
    other: Entity,
    origin: Origin,
)
    requires
        scene.wf(),
        0 <= at < scene.strips@.len(),
        windows_in(scene.strips@[at].strip@).contains(target),
        forall|j: int|
            0 <= j < at ==> !windows_in((#[trigger] scene.strips@[j]).strip@).contains(target),
        place_of(scene.windows.all@, target) == Some(place),
    ensures
        ({
            let asked = scene.step_requests(FocusStep::Within(target));
            let laid_out = asked.contains(Request::Reshuffle { entity: target, force: false });
            let strip = scene.strips@[at].entity;
            let bounds = scene.active.bounds;
            &&& laid_out || exists|to: Origin|
                #[trigger] asked.contains(Request::Reposition { entity: strip, origin: to })
            &&& asked.contains(Request::Reposition { entity: other, origin }) ==> {
                &&& !laid_out
                &&& other == strip
                &&& origin.x + place.layout.x + halved(place.size.x as int)
                    == bounds.spec_center().x
                &&& origin.y == bounds.min.y
            }
            &&& laid_out <==> !scene.guards.auto_center || scene.guards.mouse_held
                || scene.guards.state.skip_reshuffle || scene.guards.state.initializing
                || scene.restored@.contains(target) || behind_a_tab(scene.active_strip@, target)
                || !tiled(scene.windows.all@, target)
        }),
{
    let asked = scene.step_requests(FocusStep::Within(target));
    let holder = holds_window(target);
    membership_is_listing(scene.strips@[at].strip@, target);
    assert(holder(scene.strips@[at]));
    assert forall|j: int| 0 <= j < at implies !holder(#[trigger] scene.strips@[j]) by {
        membership_is_listing(scene.strips@[j].strip@, target);
    }
    lemma_first_is(scene.strips@, holder, at);
    assert(centering_fits(scene.active.bounds, place.size, place.layout));
    let strip = scene.strips@[at].entity;
    let bounds = scene.active.bounds;
    let to = Origin {
        x: (bounds.spec_center().x - halved(place.size.x as int) - place.layout.x) as i32,
        y: bounds.min.y,
    };
    let goes = Request::Reposition { entity: strip, origin: to };
    let focus = Request::Focus { entity: target, raise: true };
    let around = Request::Reshuffle { entity: target, force: false };
    if centers_on_arrival(
        target,
        scene.windows.all@,
        scene.strips@,
        scene.active_strip@,
        scene.restored@,
        scene.guards,
    ) {
        assert(asked =~= seq![goes, focus]);
        assert(asked[0] == goes && asked[1] == focus);
        assert(asked.contains(goes));
    } else {
        assert(asked =~= seq![focus, around]);
        assert(asked[0] == focus && asked[1] == around);
    }
}

proof fn lemma_centers(
    entities: Seq<Entity>,
    focused: Entity,
    windows: Seq<WindowRecord>,
    n: int,
)
    requires
        0 <= n <= entities.len(),
    ensures
        forall|i: int|
            0 <= i < centers_to(entities, focused, windows, n).len() ==> ({
                let (entity, center) = #[trigger] centers_to(entities, focused, windows, n)[i];
                &&& entities.contains(entity)
                &&& entity != focused
                &&& frame_of(windows, entity) matches Some(frame) && center == frame.spec_center()
            }),
        forall|k: int|
            0 <= k < n && (#[trigger] entities[k]) != focused ==> (frame_of(windows, entities[k])
                matches Some(frame) ==> centers_to(entities, focused, windows, n).contains(
                (entities[k], frame.spec_center()),
            )),
    decreases n,
{
    if n > 0 {
        lemma_centers(entities, focused, windows, n - 1);
        let before = centers_to(entities, focused, windows, n - 1);
        let after = centers_to(entities, focused, windows, n);
        let last = entities[n - 1];
        assert forall|i: int| 0 <= i < after.len() implies ({
            let (entity, center) = #[trigger] after[i];
            &&& entities.contains(entity)
            &&& entity != focused
            &&& frame_of(windows, entity) matches Some(frame) && center == frame.spec_center()
        }) by {
            if i < before.len() {
                assert(after[i] == before[i]);
            }
        }
        assert forall|k: int| 0 <= k < n && (#[trigger] entities[k]) != focused implies (frame_of(
            windows,
            entities[k],
        ) matches Some(frame) ==> after.contains((entities[k], frame.spec_center()))) by {
            if let Some(frame) = frame_of(windows, entities[k]) {
                let pair = (entities[k], frame.spec_center());
                if k < n - 1 {
                    let i = choose|i: int| 0 <= i < before.len() && before[i] == pair;
                    assert(after[i] == pair);
                } else {
                    assert(after[after.len() - 1] == pair);
                }
            }
        }
    }
}

/// From a floating window, a command leads to another floating window that shows: one
/// that lies in the direction, and none that does is nearer. Where none lies there the
/// focus stays.
pub proof fn floating_steps_go_to_the_nearest<'a>(
    scene: FocusScene<'a>,
    direction: Direction,
    focused: Entity,
    frame: IRect,
    other: Entity,
    far: IRect,
)
    requires
        scene.active.fullscreen is None,
        floats(scene.windows.all@, focused),
        !(direction is Nth),
        frame_of(scene.windows.all@, focused) == Some(frame),
        visible_floats(
            scene.windows.all@,
            scene.workspace_windows@,
            scene.active.bounds,
        ).contains(other),
        other != focused,
        frame_of(scene.windows.all@, other) == Some(far),
        in_cone(direction, frame.spec_center(), far.spec_center()),
    ensures
        arrived(scene.step(direction, focused), focused) matches Some(target) && target != focused
            && visible_floats(
            scene.windows.all@,
            scene.workspace_windows@,
            scene.active.bounds,
        ).contains(target) && (frame_of(scene.windows.all@, target) matches Some(near) && in_cone(
            direction,
            frame.spec_center(),
            near.spec_center(),
        ) && square_distance(frame.spec_center(), near.spec_center()) <= square_distance(
            frame.spec_center(),
            far.spec_center(),
        )),
{
    let windows = scene.windows.all@;
    let floating = visible_floats(windows, scene.workspace_windows@, scene.active.bounds);
    let candidates = centers_to(floating, focused, windows, floating.len() as int);
    let from = frame.spec_center();
    lemma_centers(floating, focused, windows, floating.len() as int);
    picked_is_nearest(direction, from, candidates, candidates.len() as int);
    let k = choose|k: int| 0 <= k < floating.len() && floating[k] == other;
    assert(candidates.contains((floating[k], far.spec_center())));
    let j = choose|j: int| 0 <= j < candidates.len() && candidates[j] == (other, far.spec_center());
    assert(in_cone(direction, from, candidates[j].1));
    let at = nearest_to(direction, from, candidates, candidates.len() as int)->0;
    assert(candidates[at].0 != focused);
}

/// From a floating window with none that way, the focus stays where it is: nothing is
/// asked for, and the command goes on to no other display.
pub proof fn lonely_floating_windows_keep_the_focus<'a>(
    scene: FocusScene<'a>,
    direction: Direction,
    focused: Entity,
    frame: IRect,
)
    requires
        scene.active.fullscreen is None,
        floats(scene.windows.all@, focused),
        !(direction is Nth),
        frame_of(scene.windows.all@, focused) == Some(frame),
        forall|other: Entity|
            #[trigger] visible_floats(
                scene.windows.all@,
                scene.workspace_windows@,
                scene.active.bounds,
            ).contains(other) && other != focused ==> (frame_of(scene.windows.all@, other)
                matches Some(far) ==> !in_cone(direction, frame.spec_center(), far.spec_center())),
    ensures
        arrived(scene.step(direction, focused), focused) == Some(focused),
        scene.step_requests(scene.step(direction, focused)).len() == 0,
        scene.step(direction, focused) != FocusStep::Nowhere,
{
    let windows = scene.windows.all@;
    let floating = visible_floats(windows, scene.workspace_windows@, scene.active.bounds);
    let candidates = centers_to(floating, focused, windows, floating.len() as int);
    let from = frame.spec_center();
    lemma_centers(floating, focused, windows, floating.len() as int);
    picked_is_nearest(direction, from, candidates, candidates.len() as int);
    assert forall|j: int| 0 <= j < candidates.len() implies !in_cone(
        direction,
        from,
        (#[trigger] candidates[j]).1,
    ) by {
        assert(floating.contains(candidates[j].0));
    }
}

/// How far a window is away goes by both of its distances, sideways and up or down: the
/// larger either is, the further it is.
pub proof fn nearness_goes_by_both_distances(from: IVec2, a: IVec2, b: IVec2)
    requires
        distance(from.x as int, a.x as int) <= distance(from.x as int, b.x as int),
        distance(from.y as int, a.y as int) <= distance(from.y as int, b.y as int),
    ensures
        square_distance(from, a) <= square_distance(from, b),
        square_distance(from, a) == square_distance(from, b) ==> distance(
            from.x as int,
            a.x as int,
        ) == distance(from.x as int, b.x as int) && distance(from.y as int, a.y as int) == distance(
            from.y as int,
            b.y as int,
        ),
        square_distance(from, a) == square_distance(a, from),
{
    let ax = distance(from.x as int, a.x as int);
    let ay = distance(from.y as int, a.y as int);
    let bx = distance(from.x as int, b.x as int);
    let by = distance(from.y as int, b.y as int);
    lemma_square(a.x - from.x, ax);
    lemma_square(a.y - from.y, ay);
    lemma_square(b.x - from.x, bx);
    lemma_square(b.y - from.y, by);
    lemma_square(from.x - a.x, ax);
    lemma_square(from.y - a.y, ay);
    lemma_squares_grow(ax, bx);
    lemma_squares_grow(ay, by);
}

proof fn lemma_square(v: int, length: int)
    requires
        v == length || v == -length,
    ensures
        v * v == length * length,
{
    assert(v * v == length * length) by (nonlinear_arith)
        requires
            v == length || v == -length,
    ;
}

proof fn lemma_squares_grow(a: int, b: int)
    requires
        0 <= a <= b,
    ensures
        a * a <= b * b,
        a < b ==> a * a < b * b,
{
    assert(a * a <= b * b) by (nonlinear_arith)
        requires
            0 <= a <= b,
    ;
    if a < b {
        assert(a * a < b * b) by (nonlinear_arith)
            requires
                0 <= a < b,
        ;
    }
}

/// A quarter of the plane that opens in a direction: what lies that way, and no less far
/// than to either side.
pub proof fn directions_open_quarters(from: IVec2, to: IVec2)
    ensures
        in_cone(Direction::East, from, to) ==> from.x < to.x,
        in_cone(Direction::West, from, to) ==> to.x < from.x,
        in_cone(Direction::South, from, to) ==> from.y < to.y,
        in_cone(Direction::North, from, to) ==> to.y < from.y,
        in_cone(Direction::East, from, to) == in_cone(Direction::West, to, from),
        in_cone(Direction::South, from, to) == in_cone(Direction::North, to, from),
        from != to ==> in_cone(Direction::East, from, to) || in_cone(Direction::West, from, to)
            || in_cone(Direction::South, from, to) || in_cone(Direction::North, from, to),
{
}

proof fn lemma_east_run<'a>(
    scene: FocusScene<'a>,
    focused: WindowRecord,
    column: int,
    row: int,
    directions: Seq<Direction>,
    pending: Option<Entity>,
    requests: Seq<Request>,
    n: int,
)
    requires
        scene.active.fullscreen is None,
        strip_wf(scene.active_strip@),
        distinct(scene.active_strip@),
        forall|entity: Entity|
            #[trigger] windows_in(scene.active_strip@).contains(entity) ==> !floats(
                scene.windows.all@,
                entity,
            ),
        focus_of(scene.windows.all@) == Some(focused),
        stands_at(scene.active_strip@, focused.entity, column, row),
        forall|k: int| 0 <= k < directions.len() ==> #[trigger] directions[k] == Direction::East,
        0 <= n <= directions.len(),
        column + n < scene.active_strip@.len(),
    ensures
        n > 0 ==> (scene.run(directions, pending, requests, n).arrival matches Some(target)
            && exists|r: int| #[trigger] holds_at(scene.active_strip@, column + n, r, target)),
        n == 0 ==> scene.run(directions, pending, requests, n).arrival is None,
    decreases n,
{
    let columns = scene.active_strip@;
    if n > 0 {
        lemma_east_run(scene, focused, column, row, directions, pending, requests, n - 1);
        let before = scene.run(directions, pending, requests, n - 1);
        assert(directions[n - 1] == Direction::East);
        let (anchor, r) = if n == 1 {
            (focused.entity, row)
        } else {
            (
                before.arrival->0,
                choose|r: int| #[trigger] holds_at(columns, column + n - 1, r, before.arrival->0),
            )
        };
        windows_stand_in_one_place(columns, anchor, column + n - 1, r);
        crate::ecs::layout::places::placed_windows_are_listed(columns, column + n - 1, r, anchor);
        the_focus_follows_the_columns(scene, anchor, column + n - 1, r, 0);
        assert(columns[column + n].wf());
        shown_windows_are_held(columns, column + n, row_beside(columns[column + n], r));
    }
}

/// Several presses in one batch are several steps: that many presses to the right lead
/// that many columns to the right.
pub proof fn presses_add_up<'a>(
    scene: FocusScene<'a>,
    focused: WindowRecord,
    column: int,
    row: int,
    directions: Seq<Direction>,
    pending: Option<Entity>,
    requests: Seq<Request>,
)
    requires
        scene.active.fullscreen is None,
        strip_wf(scene.active_strip@),
        distinct(scene.active_strip@),
        forall|entity: Entity|
            #[trigger] windows_in(scene.active_strip@).contains(entity) ==> !floats(
                scene.windows.all@,
                entity,
            ),
        focus_of(scene.windows.all@) == Some(focused),
        stands_at(scene.active_strip@, focused.entity, column, row),
        directions.len() > 0,
        forall|k: int| 0 <= k < directions.len() ==> #[trigger] directions[k] == Direction::East,
        column + directions.len() < scene.active_strip@.len(),
    ensures
        ({
            let run = scene.run(directions, pending, requests, directions.len() as int);
            &&& run.arrival matches Some(target) && (exists|r: int| #[trigger]
                holds_at(scene.active_strip@, column + directions.len(), r, target))
                && run.pending == Some(target) && run.requests.contains(
                Request::Focus { entity: target, raise: true },
            )
        }),
{
    let n = directions.len() as int;
    let columns = scene.active_strip@;
    lemma_east_run(scene, focused, column, row, directions, pending, requests, n);
    lemma_east_run(scene, focused, column, row, directions, pending, requests, n - 1);
    let before = scene.run(directions, pending, requests, n - 1);
    let anchor = if n == 1 {
        focused.entity
    } else {
        before.arrival->0
    };
    let r = if n == 1 {
        row
    } else {
        choose|r: int| #[trigger] holds_at(columns, column + n - 1, r, anchor)
    };
    windows_stand_in_one_place(columns, anchor, column + n - 1, r);
    crate::ecs::layout::places::placed_windows_are_listed(columns, column + n - 1, r, anchor);
    the_focus_follows_the_columns(scene, anchor, column + n - 1, r, 0);
    assert(directions[n - 1] == Direction::East);
    let target = scene.run(directions, pending, requests, n).arrival->0;
    steps_ask_for_one_focus(scene, Direction::East, anchor, before.pending, target, true);
    let asked = scene.step_requests(scene.step(Direction::East, anchor));
    let wanted = Request::Focus { entity: target, raise: true };
    let i = choose|i: int| 0 <= i < asked.len() && asked[i] == wanted;
    assert((before.requests + asked)[before.requests.len() + i] == wanted);
}

/// A command leaves the strip only up or down, and only from where no window lies that
/// way.
pub proof fn only_vertical_steps_leave<'a>(
    scene: FocusScene<'a>,
    directions: Seq<Direction>,
    pending: Option<Entity>,
    requests: Seq<Request>,
    n: int,
    k: int,
)
    requires
        0 <= n <= directions.len(),
        0 <= k < scene.run(directions, pending, requests, n).leaving.len(),
    ensures
        ({
            let left = scene.run(directions, pending, requests, n).leaving[k];
            left == Direction::North || left == Direction::South
        }),
    decreases n,
{
    if n > 0 {
        let before = scene.run(directions, pending, requests, n - 1);
        if k < before.leaving.len() {
            only_vertical_steps_leave(scene, directions, pending, requests, n - 1, k);
        }
    }
}

} // verus!

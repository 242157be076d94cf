//! The one place that a window has on a strip: its column, and its row there.
use vstd::prelude::*;

use crate::ecs::layout::membership::{
    distinct, flat, lemma_cut, lemma_flat_cut, lemma_flat_has, membership_is_listing, windows_in,
};
use crate::ecs::layout::{
    column_has, column_of, heir_of, item_has, strip_has, strip_wf, strip_without, ColumnView,
};
use crate::geometry::Entity;
use crate::seqs::lemma_first_from;

verus! {

/// The row of that column holds the window.
pub open spec fn holds_at(columns: Seq<ColumnView>, column: int, row: int, entity: Entity) -> bool {
    &&& 0 <= column < columns.len()
    &&& 0 <= row < columns[column].items.len()
    &&& columns[column].items[row].contains(entity)
}

/// The window stands in that row of that column, and nowhere else.
pub open spec fn stands_at(columns: Seq<ColumnView>, entity: Entity, column: int, row: int) -> bool {
    &&& holds_at(columns, column, row, entity)
    &&& forall|c: int, r: int| #[trigger]
        holds_at(columns, c, r, entity) ==> c == column && r == row
}

/// The window that the row of a column shows: the first of those that share it.
pub open spec fn shown_at(columns: Seq<ColumnView>, column: int, row: int) -> Entity {
    columns[column].items[row][0]
}

/// A window is found in the column and in the row in which it stands.
pub proof fn places_are_found(columns: Seq<ColumnView>, entity: Entity, column: int, row: int)
    requires
        stands_at(columns, entity, column, row),
    ensures
        column_of(columns, entity) == column,
        columns[column].row_of(entity) == row,
        strip_has(columns, entity),
{
    let own = columns[column];
    lemma_first_from(columns, column_has(entity), 0);
    lemma_first_from(own.items, item_has(entity), 0);
    assert((item_has(entity))(own.items[row]));
    assert(own.has(entity));
    assert((column_has(entity))(columns[column]));
    let found = column_of(columns, entity);
    assert((column_has(entity))(columns[found]));
    lemma_first_from(columns[found].items, item_has(entity), 0);
    let at = columns[found].row_of(entity);
    assert((item_has(entity))(columns[found].items[at]));
    assert(holds_at(columns, found, at, entity));
}

/// A window that a strip lists is held by a row.
pub proof fn listed_windows_have_a_place(columns: Seq<ColumnView>, entity: Entity) -> (place: (
    int,
    int,
))
    requires
        windows_in(columns).contains(entity),
    ensures
        holds_at(columns, place.0, place.1, entity),
{
    membership_is_listing(columns, entity);
    lemma_first_from(columns, column_has(entity), 0);
    let column = column_of(columns, entity);
    assert((column_has(entity))(columns[column]));
    lemma_first_from(columns[column].items, item_has(entity), 0);
    let row = columns[column].row_of(entity);
    assert((item_has(entity))(columns[column].items[row]));
    (column, row)
}

/// A window that a row holds is listed.
pub proof fn placed_windows_are_listed(columns: Seq<ColumnView>, column: int, row: int, entity: Entity)
    requires
        holds_at(columns, column, row, entity),
    ensures
        windows_in(columns).contains(entity),
        strip_has(columns, entity),
{
    lemma_first_from(columns, column_has(entity), 0);
    lemma_first_from(columns[column].items, item_has(entity), 0);
    assert((item_has(entity))(columns[column].items[row]));
    assert((column_has(entity))(columns[column]));
    membership_is_listing(columns, entity);
}

/// On a strip that lists every window once, a window stands where a row holds it.
pub proof fn windows_stand_in_one_place(
    columns: Seq<ColumnView>,
    entity: Entity,
    column: int,
    row: int,
)
    requires
        distinct(columns),
        holds_at(columns, column, row, entity),
    ensures
        stands_at(columns, entity, column, row),
{
    let items = columns[column].items;
    let all = windows_in(columns);
    let front = windows_in(columns.take(column));
    let own = flat(items);
    let back = windows_in(columns.skip(column + 1));
    lemma_cut(columns, column);
    lemma_flat_has(items, entity);
    assert(own.contains(entity));
    let spot = choose|k: int| 0 <= k < own.len() && own[k] == entity;
    assert(all[front.len() + spot] == entity);
    assert forall|c: int, r: int| #[trigger] holds_at(columns, c, r, entity) implies c == column
        && r == row by {
        if c < column {
            assert(columns.take(column)[c] == columns[c]);
            assert(holds_at(columns.take(column), c, r, entity));
            placed_windows_are_listed(columns.take(column), c, r, entity);
            let k = choose|k: int| 0 <= k < front.len() && front[k] == entity;
            assert(all[k] == entity);
        } else if c > column {
            assert(columns.skip(column + 1)[c - column - 1] == columns[c]);
            assert(holds_at(columns.skip(column + 1), c - column - 1, r, entity));
            placed_windows_are_listed(columns.skip(column + 1), c - column - 1, r, entity);
            let k = choose|k: int| 0 <= k < back.len() && back[k] == entity;
            assert(all[front.len() + own.len() + k] == entity);
        } else if r != row {
            let low = if r < row {
                r
            } else {
                row
            };
            let high = if r < row {
                row
            } else {
                r
            };
            lemma_flat_cut(items, low);
            let above = flat(items.take(low));
            let below = flat(items.skip(low + 1));
            lemma_flat_has(items.skip(low + 1), entity);
            assert(items.skip(low + 1)[high - low - 1] == items[high]);
            assert(below.contains(entity));
            let i = choose|k: int| 0 <= k < items[low].len() && items[low][k] == entity;
            let j = choose|k: int| 0 <= k < below.len() && below[k] == entity;
            assert(own[above.len() + i] == entity);
            assert(own[above.len() + items[low].len() + j] == entity);
            assert(all[front.len() + above.len() + i] == entity);
            assert(all[front.len() + above.len() + items[low].len() + j] == entity);
        }
    }
}

/// The window shown in a row that is not empty is held by that row.
pub proof fn shown_windows_are_held(columns: Seq<ColumnView>, column: int, row: int)
    requires
        strip_wf(columns),
        0 <= column < columns.len(),
        0 <= row < columns[column].items.len(),
    ensures
        holds_at(columns, column, row, shown_at(columns, column, row)),
{
    assert(columns[column].wf());
    assert(columns[column].items[row].len() >= 1);
    assert(columns[column].items[row][0] == shown_at(columns, column, row));
}

/// The row of a column that lies beside a row of another one: the same, or the last
/// one of a lower column.
pub open spec fn row_beside(column: ColumnView, row: int) -> int {
    if row < column.items.len() {
        row
    } else {
        column.items.len() - 1
    }
}

/// The window that takes over from one that leaves is shown right beside it: in the
/// column to the left, or to the right of the first column. Only the last window of
/// a strip leaves none behind, or one whose own column has others and no neighbour.
pub proof fn heirs_stand_beside(columns: Seq<ColumnView>, entity: Entity, column: int, row: int)
    requires
        strip_wf(columns),
        stands_at(columns, entity, column, row),
    ensures
        heir_of(columns, entity) == (if column > 0 {
            Some(shown_at(columns, column - 1, row_beside(columns[column - 1], row)))
        } else if columns.len() > 1 {
            Some(shown_at(columns, 1, row_beside(columns[1], row)))
        } else {
            None
        }),
        heir_of(columns, entity) matches Some(heir) ==> heir != entity && strip_has(
            strip_without(columns, entity),
            heir,
        ),
{
    places_are_found(columns, entity, column, row);
    if column > 0 {
        assert(columns[column - 1].wf());
        let beside = row_beside(columns[column - 1], row);
        assert(columns[column - 1].items[beside].len() >= 1);
        shown_windows_are_held(columns, column - 1, beside);
        let heir = shown_at(columns, column - 1, beside);
        assert(heir != entity) by {
            if heir == entity {
                assert(holds_at(columns, column - 1, beside, entity));
            }
        }
        placed_windows_are_listed(columns, column - 1, beside, heir);
        crate::ecs::layout::membership::removing_keeps_the_others(columns, entity, heir);
    } else if columns.len() > 1 {
        assert(columns[1].wf());
        let beside = row_beside(columns[1], row);
        assert(columns[1].items[beside].len() >= 1);
        shown_windows_are_held(columns, 1, beside);
        let heir = shown_at(columns, 1, beside);
        assert(heir != entity) by {
            if heir == entity {
                assert(holds_at(columns, 1, beside, entity));
            }
        }
        placed_windows_are_listed(columns, 1, beside, heir);
        crate::ecs::layout::membership::removing_keeps_the_others(columns, entity, heir);
    }
}

} // verus!

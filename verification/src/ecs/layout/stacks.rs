//! Where windows stand after columns were stacked and unstacked.
use vstd::prelude::*;

use crate::ecs::layout::places::{holds_at, places_are_found, stands_at};
use crate::ecs::layout::{
    strip_stacked, strip_tabbed, strip_unstacked, strip_wf, strip_without, tabs_of, ColumnKind,
    ColumnView,
};
use crate::geometry::Entity;
use crate::seqs::lemma_pushed;

verus! {

/// A window that is stacked goes below the windows of the column to its left; that
/// column keeps what it had, in its order, and the columns further right close up. All
/// other columns stay.
pub proof fn stacking_goes_below_the_left_column(
    columns: Seq<ColumnView>,
    entity: Entity,
    column: int,
    row: int,
)
    requires
        stands_at(columns, entity, column, row),
        0 < column,
        columns[column].kind != ColumnKind::Stack,
        columns[column].kind != ColumnKind::Fullscreen,
        columns[column - 1].kind != ColumnKind::Fullscreen,
    ensures
        ({
            let after = strip_stacked(columns, entity);
            &&& after.len() == columns.len() - 1
            &&& after[column - 1].items == columns[column - 1].items + columns[column].items
            &&& forall|k: int| 0 <= k < column - 1 ==> #[trigger] after[k] == columns[k]
            &&& forall|k: int| column <= k < after.len() ==> #[trigger] after[k] == columns[k + 1]
            &&& stands_at(after, entity, column - 1, columns[column - 1].items.len() + row)
        }),
{
    places_are_found(columns, entity, column, row);
    let after = strip_stacked(columns, entity);
    let above = columns[column - 1].items;
    assert(after[column - 1].items[above.len() + row] == columns[column].items[row]);
    assert(holds_at(after, column - 1, above.len() + row, entity));
    assert forall|c: int, r: int| #[trigger] holds_at(after, c, r, entity) implies c == column - 1
        && r == above.len() + row by {
        if c < column - 1 {
            assert(holds_at(columns, c, r, entity));
        } else if c > column - 1 {
            assert(holds_at(columns, c + 1, r, entity));
        } else if r < above.len() {
            assert(holds_at(columns, column - 1, r, entity));
        } else {
            assert(holds_at(columns, column, r - above.len(), entity));
        }
    }
}

/// The first column has nothing to be stacked on; a window that is in a stack already
/// stays there, and fullscreen columns take no part.
pub proof fn stacking_needs_a_column_to_the_left(
    columns: Seq<ColumnView>,
    entity: Entity,
    column: int,
    row: int,
)
    requires
        stands_at(columns, entity, column, row),
        column == 0 || columns[column].kind == ColumnKind::Stack || columns[column].kind
            == ColumnKind::Fullscreen || columns[column - 1].kind == ColumnKind::Fullscreen,
    ensures
        strip_stacked(columns, entity) == columns,
{
    places_are_found(columns, entity, column, row);
}

/// A window that leaves its stack gets a column of its own right beside it, with the
/// tabs that share its row; the stack keeps its other rows in their order, and all
/// other columns stay. A window in no stack stays where it is.
pub proof fn unstacking_opens_a_column_to_the_right(
    columns: Seq<ColumnView>,
    entity: Entity,
    column: int,
    row: int,
)
    requires
        strip_wf(columns),
        stands_at(columns, entity, column, row),
    ensures
        ({
            let after = strip_unstacked(columns, entity);
            if columns[column].kind == ColumnKind::Stack {
                &&& after.len() == columns.len() + 1
                &&& after[column].items == columns[column].items.remove(row)
                &&& after[column + 1].items == seq![columns[column].items[row]]
                &&& forall|k: int| 0 <= k < column ==> #[trigger] after[k] == columns[k]
                &&& forall|k: int|
                    column + 1 < k < after.len() ==> #[trigger] after[k] == columns[k - 1]
                &&& stands_at(after, entity, column + 1, 0)
            } else {
                after == columns
            }
        }),
{
    places_are_found(columns, entity, column, row);
    if columns[column].kind == ColumnKind::Stack {
        let after = strip_unstacked(columns, entity);
        assert(columns[column].wf());
        assert(after[column + 1].items[0] == columns[column].items[row]);
        assert(holds_at(after, column + 1, 0, entity));
        assert forall|c: int, r: int| #[trigger] holds_at(after, c, r, entity) implies c == column
            + 1 && r == 0 by {
            if c < column {
                assert(holds_at(columns, c, r, entity));
            } else if c == column {
                if r < row {
                    assert(holds_at(columns, column, r, entity));
                } else {
                    assert(holds_at(columns, column, r + 1, entity));
                }
            } else if c > column + 1 {
                assert(holds_at(columns, c - 1, r, entity));
            }
        }
    }
}

/// Unstacking undoes stacking: the strip is as it was.
pub proof fn unstacking_undoes_stacking(
    columns: Seq<ColumnView>,
    entity: Entity,
    column: int,
    row: int,
)
    requires
        strip_wf(columns),
        stands_at(columns, entity, column, row),
        0 < column,
        columns[column].kind != ColumnKind::Stack,
        columns[column].kind != ColumnKind::Fullscreen,
        columns[column - 1].kind != ColumnKind::Fullscreen,
    ensures
        strip_unstacked(strip_stacked(columns, entity), entity) == columns,
{
    let after = strip_stacked(columns, entity);
    let above = columns[column - 1].items;
    assert(columns[column].wf() && columns[column - 1].wf());
    places_are_found(columns, entity, column, row);
    stacking_goes_below_the_left_column(columns, entity, column, row);
    places_are_found(after, entity, column - 1, above.len() + row);
    let back = strip_unstacked(after, entity);
    assert(after[column - 1].items.remove((above.len() + row) as int) =~= above);
    assert(seq![after[column - 1].items[above.len() + row]] =~= columns[column].items);
    assert(back =~= columns);
}

/// A window that leaves its strip takes its row along only if no tab shares it, and its
/// column only if it is the last one there. The rows and columns that stay keep their
/// order.
pub proof fn leaving_closes_what_is_empty(
    columns: Seq<ColumnView>,
    entity: Entity,
    column: int,
    row: int,
)
    requires
        strip_wf(columns),
        stands_at(columns, entity, column, row),
    ensures
        ({
            let after = strip_without(columns, entity);
            let items = columns[column].items;
            let alone = items[row].len() == 1;
            &&& alone && items.len() == 1 ==> after == columns.remove(column)
            &&& alone && items.len() > 1 ==> after.len() == columns.len() && after[column].items
                == items.remove(row)
            &&& !alone ==> after.len() == columns.len() && after[column].items.len() == items.len()
                && after[column].items[row].len() == items[row].len() - 1 && (forall|r: int|
                0 <= r < items.len() && r != row ==> #[trigger] after[column].items[r] == items[r])
            &&& !(alone && items.len() == 1) ==> forall|k: int|
                0 <= k < columns.len() && k != column ==> #[trigger] after[k] == columns[k]
        }),
{
    places_are_found(columns, entity, column, row);
    let items = columns[column].items;
    assert(columns[column].wf());
    assert(items[row].contains(entity));
    items[row].index_of_first_ensures(entity);
}

/// A window that becomes a tab of another one shares its row, behind those that share it
/// already; no other row changes.
pub proof fn tabs_share_the_row_of_their_leader(
    columns: Seq<ColumnView>,
    leader: Entity,
    follower: Entity,
    column: int,
    row: int,
)
    requires
        strip_wf(strip_without(columns, follower)),
        stands_at(strip_without(columns, follower), leader, column, row),
        leader != follower,
    ensures
        ({
            let closed = strip_without(columns, follower);
            let after = strip_tabbed(columns, leader, follower);
            &&& after.len() == closed.len()
            &&& after[column].items.len() == closed[column].items.len()
            &&& after[column].items[row] == closed[column].items[row].push(follower)
            &&& forall|r: int|
                0 <= r < closed[column].items.len() && r != row ==> #[trigger] after[column].items[r]
                    == closed[column].items[r]
            &&& forall|c: int| 0 <= c < closed.len() && c != column ==> #[trigger] after[c] == closed[c]
            &&& stands_at(after, leader, column, row)
            &&& tabs_of(after, leader) matches Some(group) && group.contains(follower)
                && group.last() == follower
        }),
{
    let closed = strip_without(columns, follower);
    let after = strip_tabbed(columns, leader, follower);
    let item = closed[column].items[row];
    places_are_found(closed, leader, column, row);
    assert(closed[column].wf() && item.len() >= 1);
    lemma_pushed(item, follower, leader);
    assert(holds_at(after, column, row, leader));
    assert forall|c: int, r: int| #[trigger] holds_at(after, c, r, leader) implies c == column && r
        == row by {
        if c != column || r != row {
            assert(holds_at(closed, c, r, leader));
        }
    }
    places_are_found(after, leader, column, row);
    assert(item.push(follower)[item.len() as int] == follower);
}

} // verus!

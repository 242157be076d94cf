//! Which windows a strip holds, and what becomes of them when columns are
//! stacked, unstacked, opened and closed.
use vstd::prelude::*;
use vstd::seq_lib::lemma_multiset_commutative;

use crate::ecs::layout::{
    column_has, column_of, item_has, item_without, items_without, stackable, strip_has,
    strip_stacked, strip_tabbed, strip_unstacked, strip_wf, strip_without, windows_to, ColumnKind,
    ColumnView,
};
use crate::geometry::Entity;
use crate::seqs::{first_where, lemma_first_from};

verus! {

/// Every window of a strip, from left to right and from top to bottom.
pub open spec fn windows_in(columns: Seq<ColumnView>) -> Seq<Entity> {
    windows_to(columns, columns.len() as int)
}

/// Every window has one place.
pub open spec fn distinct(columns: Seq<ColumnView>) -> bool {
    windows_in(columns).no_duplicates()
}

/// The windows of a list of items, from the top.
pub open spec fn flat(items: Seq<Seq<Entity>>) -> Seq<Entity>
    decreases items.len(),
{
    if items.len() == 0 {
        Seq::empty()
    } else {
        flat(items.drop_last()) + items.last()
    }
}

proof fn lemma_members(column: ColumnView, n: int)
    requires
        0 <= n <= column.items.len(),
    ensures
        column.members_to(n) == flat(column.items.take(n)),
    decreases n,
{
    if n > 0 {
        lemma_members(column, n - 1);
        assert(column.items.take(n).drop_last() =~= column.items.take(n - 1));
    }
}

pub(crate) proof fn lemma_flat_members(column: ColumnView)
    ensures
        column.members() == flat(column.items),
{
    lemma_members(column, column.items.len() as int);
    assert(column.items.take(column.items.len() as int) =~= column.items);
}

proof fn lemma_flat_concat(a: Seq<Seq<Entity>>, b: Seq<Seq<Entity>>)
    ensures
        flat(a + b) == flat(a) + flat(b),
    decreases b.len(),
{
    if b.len() == 0 {
        assert(a + b =~= a);
        assert(flat(a) + flat(b) =~= flat(a));
    } else {
        lemma_flat_concat(a, b.drop_last());
        assert((a + b).drop_last() =~= a + b.drop_last());
        assert(flat(a + b) =~= flat(a) + flat(b));
    }
}

proof fn lemma_flat_one(item: Seq<Entity>)
    ensures
        flat(seq![item]) == item,
{
    reveal_with_fuel(flat, 2);
    assert(seq![item].drop_last() =~= Seq::<Seq<Entity>>::empty());
    assert(flat(seq![item]) =~= item);
}

proof fn lemma_prefix(a: Seq<ColumnView>, b: Seq<ColumnView>, n: int)
    requires
        0 <= n <= a.len(),
        n <= b.len(),
        forall|k: int| 0 <= k < n ==> a[k] == b[k],
    ensures
        windows_to(a, n) == windows_to(b, n),
    decreases n,
{
    if n > 0 {
        lemma_prefix(a, b, n - 1);
    }
}

proof fn lemma_windows_concat(a: Seq<ColumnView>, b: Seq<ColumnView>)
    ensures
        windows_in(a + b) == windows_in(a) + windows_in(b),
    decreases b.len(),
{
    if b.len() == 0 {
        assert(a + b =~= a);
        assert(windows_in(a) + windows_in(b) =~= windows_in(a));
    } else {
        let less = b.drop_last();
        lemma_windows_concat(a, less);
        lemma_prefix(a + b, a + less, (a + less).len() as int);
        lemma_prefix(b, less, less.len() as int);
        assert(windows_in(a + b) =~= windows_in(a) + windows_in(b));
    }
}

proof fn lemma_windows_one(column: ColumnView)
    ensures
        windows_in(seq![column]) == flat(column.items),
{
    lemma_flat_members(column);
    assert(windows_to(seq![column], 0) =~= Seq::<Entity>::empty());
    assert(windows_in(seq![column]) =~= column.members());
}

/// The windows of a strip that is cut in front of a column and behind it.
pub(crate) proof fn lemma_cut(columns: Seq<ColumnView>, at: int)
    requires
        0 <= at < columns.len(),
    ensures
        windows_in(columns) == windows_in(columns.take(at)) + flat(columns[at].items) + windows_in(
            columns.skip(at + 1),
        ),
{
    assert(columns =~= columns.take(at) + seq![columns[at]] + columns.skip(at + 1));
    lemma_windows_concat(columns.take(at) + seq![columns[at]], columns.skip(at + 1));
    lemma_windows_concat(columns.take(at), seq![columns[at]]);
    lemma_windows_one(columns[at]);
}

pub(crate) proof fn lemma_flat_cut(items: Seq<Seq<Entity>>, row: int)
    requires
        0 <= row < items.len(),
    ensures
        flat(items) == flat(items.take(row)) + items[row] + flat(items.skip(row + 1)),
{
    assert(items =~= items.take(row) + seq![items[row]] + items.skip(row + 1));
    lemma_flat_concat(items.take(row) + seq![items[row]], items.skip(row + 1));
    lemma_flat_concat(items.take(row), seq![items[row]]);
    lemma_flat_one(items[row]);
}

pub(crate) proof fn lemma_flat_has(items: Seq<Seq<Entity>>, entity: Entity)
    ensures
        flat(items).contains(entity) <==> exists|r: int|
            0 <= r < items.len() && (#[trigger] items[r]).contains(entity),
    decreases items.len(),
{
    if items.len() > 0 {
        let less = items.drop_last();
        lemma_flat_has(less, entity);
        assert(flat(items) == flat(less) + items.last());
        if flat(items).contains(entity) {
            let k = choose|k: int| 0 <= k < flat(items).len() && flat(items)[k] == entity;
            if k < flat(less).len() {
                assert(flat(less)[k] == entity);
                let r = choose|r: int| 0 <= r < less.len() && (#[trigger] less[r]).contains(entity);
                assert(items[r].contains(entity));
            } else {
                assert(items.last()[k - flat(less).len()] == entity);
                assert(items[items.len() - 1].contains(entity));
            }
        }
        if exists|r: int| 0 <= r < items.len() && (#[trigger] items[r]).contains(entity) {
            let r = choose|r: int| 0 <= r < items.len() && (#[trigger] items[r]).contains(entity);
            if r < less.len() {
                assert(less[r].contains(entity));
                let k = choose|k: int| 0 <= k < flat(less).len() && flat(less)[k] == entity;
                assert(flat(items)[k] == entity);
            } else {
                let k = choose|k: int| 0 <= k < items[r].len() && items[r][k] == entity;
                assert(flat(items)[flat(less).len() + k] == entity);
            }
        }
    }
}

pub(crate) proof fn lemma_column_has(column: ColumnView, entity: Entity)
    ensures
        column.has(entity) <==> flat(column.items).contains(entity),
{
    lemma_first_from(column.items, item_has(entity), 0);
    lemma_flat_has(column.items, entity);
    if column.has(entity) {
        assert((item_has(entity))(column.items[column.row_of(entity)]));
        assert(column.items[column.row_of(entity)].contains(entity));
    } else if flat(column.items).contains(entity) {
        let r = choose|r: int|
            0 <= r < column.items.len() && (#[trigger] column.items[r]).contains(entity);
        assert(!(item_has(entity))(column.items[r]));
    }
}

/// A strip holds a window exactly when the window is among its windows.
pub proof fn membership_is_listing(columns: Seq<ColumnView>, entity: Entity)
    ensures
        strip_has(columns, entity) <==> windows_in(columns).contains(entity),
    decreases columns.len(),
{
    lemma_first_from(columns, column_has(entity), 0);
    if columns.len() > 0 {
        let less = columns.drop_last();
        let last = columns.last();
        membership_is_listing(less, entity);
        lemma_first_from(less, column_has(entity), 0);
        lemma_column_has(last, entity);
        lemma_windows_concat(less, seq![last]);
        lemma_windows_one(last);
        assert(columns =~= less + seq![last]);
        let all = windows_in(columns);
        let front = windows_in(less);
        assert(all == front + flat(last.items));
        if strip_has(columns, entity) {
            let at = column_of(columns, entity);
            assert((column_has(entity))(columns[at]));
            if at < less.len() {
                assert((column_has(entity))(less[at]));
                assert(strip_has(less, entity));
                let k = choose|k: int| 0 <= k < front.len() && front[k] == entity;
                assert(all[k] == entity);
            } else {
                let k = choose|k: int|
                    0 <= k < flat(last.items).len() && flat(last.items)[k] == entity;
                assert(all[front.len() + k] == entity);
            }
        }
        if all.contains(entity) {
            let k = choose|k: int| 0 <= k < all.len() && all[k] == entity;
            if k < front.len() {
                assert(front[k] == entity);
                let at = column_of(less, entity);
                assert((column_has(entity))(less[at]));
                assert((column_has(entity))(columns[at]));
            } else {
                assert(flat(last.items)[k - front.len()] == entity);
                assert((column_has(entity))(columns[columns.len() - 1]));
            }
        }
    }
}

/// The columns of a strip after one of them changed.
proof fn lemma_changed(columns: Seq<ColumnView>, at: int, items: Seq<Seq<Entity>>)
    requires
        0 <= at < columns.len(),
    ensures
        windows_in(columns.update(at, ColumnView::of(items))) == windows_in(columns.take(at))
            + flat(items) + windows_in(columns.skip(at + 1)),
        windows_in(columns.remove(at)) == windows_in(columns.take(at)) + windows_in(
            columns.skip(at + 1),
        ),
{
    let after = columns.update(at, ColumnView::of(items));
    lemma_cut(after, at);
    assert(after.take(at) =~= columns.take(at));
    assert(after.skip(at + 1) =~= columns.skip(at + 1));
    assert(columns.remove(at) =~= columns.take(at) + columns.skip(at + 1));
    lemma_windows_concat(columns.take(at), columns.skip(at + 1));
}

/// Putting a column onto the stack to its left changes neither the windows of
/// the strip nor their order.
pub proof fn stacking_keeps_the_order(columns: Seq<ColumnView>, entity: Entity)
    ensures
        windows_in(strip_stacked(columns, entity)) == windows_in(columns),
{
    if stackable(columns, entity) {
        let at = column_of(columns, entity);
        let left = columns[at - 1].items;
        let own = columns[at].items;
        lemma_cut(columns, at);
        lemma_cut(columns.take(at), at - 1);
        assert(columns.take(at).take(at - 1) =~= columns.take(at - 1));
        assert(columns.take(at).skip(at) =~= Seq::<ColumnView>::empty());
        lemma_flat_concat(left, own);
        let closed = columns.remove(at);
        lemma_changed(closed, at - 1, left + own);
        assert(closed.take(at - 1) =~= columns.take(at - 1));
        assert(closed.skip(at) =~= columns.skip(at + 1));
        assert(windows_in(strip_stacked(columns, entity)) =~= windows_in(columns));
    }
}

/// Two neighbouring runs that change places leave the same windows.
proof fn lemma_runs_change_places(
    front: Seq<Entity>,
    x: Seq<Entity>,
    y: Seq<Entity>,
    back: Seq<Entity>,
)
    ensures
        (front + (x + y) + back).to_multiset() == (front + (y + x) + back).to_multiset(),
{
    lemma_multiset_commutative(x, y);
    lemma_multiset_commutative(y, x);
    lemma_multiset_commutative(front, x + y);
    lemma_multiset_commutative(front, y + x);
    lemma_multiset_commutative(front + (x + y), back);
    lemma_multiset_commutative(front + (y + x), back);
    broadcast use vstd::multiset::group_multiset_axioms;

    assert((x + y).to_multiset() =~= (y + x).to_multiset());
}

/// Where a window that leaves its stack goes: behind the windows that were
/// stacked below it.
proof fn lemma_unstacked(columns: Seq<ColumnView>, at: int, row: int)
    requires
        0 <= at < columns.len(),
        0 <= row < columns[at].items.len(),
    ensures
        ({
            let items = columns[at].items;
            let front = windows_in(columns.take(at)) + flat(items.take(row));
            let below = flat(items.skip(row + 1));
            let back = windows_in(columns.skip(at + 1));
            let after = columns.update(at, ColumnView::of(items.remove(row))).insert(
                at + 1,
                ColumnView::of(seq![items[row]]),
            );
            &&& windows_in(after) == front + (below + items[row]) + back
            &&& windows_in(columns) == front + (items[row] + below) + back
        }),
{
    let items = columns[at].items;
    let own = seq![ColumnView::of(seq![items[row]])];
    let rest = columns.skip(at + 1);
    let above = flat(items.take(row));
    let below = flat(items.skip(row + 1));
    let front = windows_in(columns.take(at));
    let back = windows_in(rest);
    lemma_cut(columns, at);
    lemma_flat_cut(items, row);
    assert(items.remove(row) =~= items.take(row) + items.skip(row + 1));
    lemma_flat_concat(items.take(row), items.skip(row + 1));
    let shrunk = columns.update(at, ColumnView::of(items.remove(row)));
    let head = shrunk.take(at + 1);
    assert(shrunk.insert(at + 1, own[0]) =~= head + (own + rest));
    lemma_windows_concat(head, own + rest);
    lemma_windows_concat(own, rest);
    lemma_windows_one(own[0]);
    lemma_flat_one(items[row]);
    lemma_cut(head, at);
    assert(head.take(at) =~= columns.take(at));
    assert(head.skip(at + 1) =~= Seq::<ColumnView>::empty());
    assert(front + (above + below) + Seq::<Entity>::empty() + (items[row] + back) =~= (front
        + above) + (below + items[row]) + back);
    assert(front + (above + items[row] + below) + back =~= (front + above) + (items[row] + below)
        + back);
}

/// Taking a window out of its stack loses no window and adds none.
pub proof fn unstacking_keeps_the_windows(columns: Seq<ColumnView>, entity: Entity)
    ensures
        windows_in(strip_unstacked(columns, entity)).to_multiset() == windows_in(
            columns,
        ).to_multiset(),
        distinct(columns) ==> distinct(strip_unstacked(columns, entity)),
{
    let at = column_of(columns, entity);
    lemma_first_from(columns, column_has(entity), 0);
    if at < columns.len() && columns[at].kind == ColumnKind::Stack {
        let items = columns[at].items;
        let row = columns[at].row_of(entity);
        assert((column_has(entity))(columns[at]));
        lemma_first_from(items, item_has(entity), 0);
        lemma_unstacked(columns, at, row);
        lemma_runs_change_places(
            windows_in(columns.take(at)) + flat(items.take(row)),
            flat(items.skip(row + 1)),
            items[row],
            windows_in(columns.skip(at + 1)),
        );
        if distinct(columns) {
            windows_in(columns).lemma_multiset_has_no_duplicates();
            windows_in(strip_unstacked(columns, entity)).lemma_multiset_has_no_duplicates_conv();
        }
    }
}

proof fn lemma_remove_between(a: Seq<Entity>, middle: Seq<Entity>, b: Seq<Entity>, spot: int)
    requires
        0 <= spot < middle.len(),
    ensures
        a + middle.remove(spot) + b == (a + middle + b).remove(a.len() + spot),
        (a + middle + b)[a.len() + spot] == middle[spot],
{
    assert(a + middle.remove(spot) + b =~= (a + middle + b).remove(a.len() + spot));
}

/// Where a window that an item holds is among the windows of a column, and what
/// is left of the column without it.
proof fn lemma_column_place(items: Seq<Seq<Entity>>, entity: Entity) -> (spot: int)
    requires
        first_where(items, item_has(entity)) < items.len(),
    ensures
        0 <= spot < flat(items).len(),
        flat(items)[spot] == entity,
        flat(items_without(items, entity)) == flat(items).remove(spot),
{
    let row = first_where(items, item_has(entity));
    lemma_first_from(items, item_has(entity), 0);
    assert((item_has(entity))(items[row]));
    let item = items[row];
    item.index_of_first_ensures(entity);
    let place = item.index_of_first(entity)->0;
    let rest = item_without(item, entity);
    let left = items_without(items, entity);
    let above = flat(items.take(row));
    let below = flat(items.skip(row + 1));
    lemma_flat_cut(items, row);
    lemma_remove_between(above, item, below, place);
    if rest.len() == 0 {
        assert(left =~= items.take(row) + items.skip(row + 1));
        lemma_flat_concat(items.take(row), items.skip(row + 1));
        assert(above + below =~= above + rest + below);
    } else {
        lemma_flat_cut(left, row);
        assert(left.take(row) =~= items.take(row));
        assert(left.skip(row + 1) =~= items.skip(row + 1));
    }
    above.len() + place
}

/// Taking a window out of a strip takes one place of it and leaves all others in
/// their order: the place that is given back.
pub proof fn removing_takes_one_place(columns: Seq<ColumnView>, entity: Entity) -> (place: int)
    requires
        strip_has(columns, entity),
    ensures
        0 <= place < windows_in(columns).len(),
        windows_in(columns)[place] == entity,
        windows_in(strip_without(columns, entity)) == windows_in(columns).remove(place),
{
    let at = column_of(columns, entity);
    lemma_first_from(columns, column_has(entity), 0);
    assert((column_has(entity))(columns[at]));
    let items = columns[at].items;
    let spot = lemma_column_place(items, entity);
    let left = items_without(items, entity);
    let front = windows_in(columns.take(at));
    let back = windows_in(columns.skip(at + 1));
    lemma_cut(columns, at);
    lemma_changed(columns, at, left);
    lemma_remove_between(front, flat(items), back, spot);
    if left.len() == 0 {
        assert(front + back =~= front + flat(left) + back);
    }
    front.len() + spot
}

/// Taking a window out leaves every other window in the strip, and takes the
/// window itself out where it had one place. A strip whose windows each have one
/// place stays such a strip.
pub proof fn removing_keeps_the_others(columns: Seq<ColumnView>, entity: Entity, other: Entity)
    ensures
        other != entity ==> strip_has(strip_without(columns, entity), other) == strip_has(
            columns,
            other,
        ),
        distinct(columns) ==> !strip_has(strip_without(columns, entity), entity) && distinct(
            strip_without(columns, entity),
        ),
{
    if strip_has(columns, entity) {
        let place = removing_takes_one_place(columns, entity);
        let all = windows_in(columns);
        let left = windows_in(strip_without(columns, entity));
        membership_is_listing(columns, other);
        membership_is_listing(strip_without(columns, entity), other);
        membership_is_listing(strip_without(columns, entity), entity);
        if other != entity {
            if all.contains(other) {
                let k = choose|k: int| 0 <= k < all.len() && all[k] == other;
                if k < place {
                    assert(left[k] == other);
                } else {
                    assert(left[k - 1] == other);
                }
            }
            if left.contains(other) {
                let k = choose|k: int| 0 <= k < left.len() && left[k] == other;
                if k < place {
                    assert(all[k] == other);
                } else {
                    assert(all[k + 1] == other);
                }
            }
        }
    }
}

/// A strip stays well formed when a window leaves it, and when its columns are
/// stacked or unstacked.
pub proof fn strips_stay_well_formed(columns: Seq<ColumnView>, entity: Entity)
    requires
        strip_wf(columns),
    ensures
        strip_wf(strip_without(columns, entity)),
        strip_wf(strip_stacked(columns, entity)),
        strip_wf(strip_unstacked(columns, entity)),
{
    let at = column_of(columns, entity);
    lemma_first_from(columns, column_has(entity), 0);
    if at < columns.len() {
        assert(columns[at].wf());
        assert((column_has(entity))(columns[at]));
        let items = columns[at].items;
        let row = columns[at].row_of(entity);
        lemma_first_from(items, item_has(entity), 0);
        assert((item_has(entity))(items[row]));
        let left = items_without(items, entity);
        items[row].index_of_first_ensures(entity);
        if left.len() > 0 {
            assert(ColumnView::of(left).wf()) by {
                assert forall|i: int| 0 <= i < left.len() implies (#[trigger] left[i]).len() >= 1 by {
                    if item_without(items[row], entity).len() == 0 {
                        if i < row {
                            assert(left[i] == items[i]);
                        } else {
                            assert(left[i] == items[i + 1]);
                        }
                    } else if i != row {
                        assert(left[i] == items[i]);
                    }
                }
            }
        }
        if at > 0 {
            assert(columns[at - 1].wf());
            let merged = columns[at - 1].items + items;
            assert(ColumnView::of(merged).wf()) by {
                assert forall|i: int| 0 <= i < merged.len() implies (#[trigger] merged[i]).len()
                    >= 1 by {
                    if i < columns[at - 1].items.len() {
                        assert(merged[i] == columns[at - 1].items[i]);
                    } else {
                        assert(merged[i] == items[i - columns[at - 1].items.len()]);
                    }
                }
            }
        }
        if columns[at].kind == ColumnKind::Stack {
            let rest = items.remove(row);
            assert(ColumnView::of(rest).wf()) by {
                assert forall|i: int| 0 <= i < rest.len() implies (#[trigger] rest[i]).len() >= 1 by {
                    if i < row {
                        assert(rest[i] == items[i]);
                    } else {
                        assert(rest[i] == items[i + 1]);
                    }
                }
            }
            assert(ColumnView::of(seq![items[row]]).wf());
        }
        assert(strip_wf(strip_without(columns, entity)));
        assert(strip_wf(strip_stacked(columns, entity)));
        assert(strip_wf(strip_unstacked(columns, entity)));
    }
}

proof fn lemma_one_more(windows: Seq<Entity>, entity: Entity, at: int, other: Entity)
    requires
        0 <= at <= windows.len(),
        !windows.contains(entity),
        windows.no_duplicates(),
    ensures
        windows.insert(at, entity).no_duplicates(),
        windows.insert(at, entity).contains(entity),
        other != entity ==> windows.insert(at, entity).contains(other) == windows.contains(other),
{
    let after = windows.insert(at, entity);
    assert(after[at] == entity);
    assert forall|i: int, j: int| 0 <= i < j < after.len() implies after[i] != after[j] by {
        if i < at && j == at {
            assert(windows.contains(windows[i]));
        } else if i == at {
            assert(windows.contains(windows[j - 1]));
        }
    }
    if other != entity {
        if windows.contains(other) {
            let k = choose|k: int| 0 <= k < windows.len() && windows[k] == other;
            assert(after[if k < at { k } else { k + 1 }] == other);
        }
        if after.contains(other) {
            let k = choose|k: int| 0 <= k < after.len() && after[k] == other;
            assert(windows[if k < at { k } else { k - 1 }] == other);
        }
    }
}

proof fn lemma_insert_between(
    front: Seq<Entity>,
    above: Seq<Entity>,
    own: Seq<Entity>,
    below: Seq<Entity>,
    back: Seq<Entity>,
    entity: Entity,
)
    ensures
        front + (above + own.push(entity) + below) + back == (front + (above + own + below)
            + back).insert((front.len() + above.len() + own.len()) as int, entity),
{
    assert(front + (above + own.push(entity) + below) + back =~= (front + (above + own + below)
        + back).insert((front.len() + above.len() + own.len()) as int, entity));
}

/// Where a follower goes among the windows of a strip.
proof fn lemma_tab_place(closed: Seq<ColumnView>, leader: Entity, follower: Entity) -> (place: int)
    requires
        strip_has(closed, leader),
    ensures
        ({
            let at = column_of(closed, leader);
            let row = closed[at].row_of(leader);
            let items = closed[at].items;
            let after = closed.update(
                at,
                ColumnView::of(items.update(row, items[row].push(follower))),
            );
            &&& 0 <= place <= windows_in(closed).len()
            &&& windows_in(after) == windows_in(closed).insert(place, follower)
        }),
{
    let at = column_of(closed, leader);
    lemma_first_from(closed, column_has(leader), 0);
    assert((column_has(leader))(closed[at]));
    let items = closed[at].items;
    let row = closed[at].row_of(leader);
    lemma_first_from(items, item_has(leader), 0);
    let now = items.update(row, items[row].push(follower));
    lemma_cut(closed, at);
    lemma_flat_cut(items, row);
    lemma_flat_cut(now, row);
    assert(now.take(row) =~= items.take(row));
    assert(now.skip(row + 1) =~= items.skip(row + 1));
    lemma_changed(closed, at, now);
    let front = windows_in(closed.take(at));
    let above = flat(items.take(row));
    lemma_insert_between(
        front,
        above,
        items[row],
        flat(items.skip(row + 1)),
        windows_in(closed.skip(at + 1)),
        follower,
    );
    (front.len() + above.len() + items[row].len()) as int
}

/// A window that becomes a tab leaves the column it had: it is in the strip once,
/// and every other window stays.
pub proof fn tabs_leave_their_old_column(
    columns: Seq<ColumnView>,
    leader: Entity,
    follower: Entity,
    other: Entity,
)
    requires
        leader != follower,
        strip_has(columns, leader),
        distinct(columns),
    ensures
        strip_has(strip_tabbed(columns, leader, follower), follower),
        distinct(strip_tabbed(columns, leader, follower)),
        other != follower ==> strip_has(strip_tabbed(columns, leader, follower), other)
            == strip_has(columns, other),
{
    let closed = strip_without(columns, follower);
    let after = strip_tabbed(columns, leader, follower);
    removing_keeps_the_others(columns, follower, leader);
    removing_keeps_the_others(columns, follower, other);
    let place = lemma_tab_place(closed, leader, follower);
    membership_is_listing(closed, follower);
    membership_is_listing(closed, other);
    membership_is_listing(after, follower);
    membership_is_listing(after, other);
    lemma_one_more(windows_in(closed), follower, place, other);
}

/// A window that gets a column of its own at the end comes last.
pub proof fn appending_adds_one(columns: Seq<ColumnView>, entity: Entity)
    ensures
        windows_in(columns.push(ColumnView::single(entity))) == windows_in(columns).push(entity),
        strip_wf(columns) ==> strip_wf(columns.push(ColumnView::single(entity))),
        distinct(columns) && !strip_has(columns, entity) ==> distinct(
            columns.push(ColumnView::single(entity)),
        ),
{
    let own = ColumnView::single(entity);
    assert(columns.push(own) =~= columns + seq![own]);
    lemma_windows_concat(columns, seq![own]);
    lemma_windows_one(own);
    lemma_flat_one(seq![entity]);
    assert(windows_in(columns.push(own)) =~= windows_in(columns).push(entity));
    assert(own.wf());
    if distinct(columns) && !strip_has(columns, entity) {
        membership_is_listing(columns, entity);
        lemma_one_more(windows_in(columns), entity, windows_in(columns).len() as int, entity);
        assert(windows_in(columns).insert(windows_in(columns).len() as int, entity)
            =~= windows_in(columns).push(entity));
    }
}

proof fn lemma_trade(p: Seq<Entity>, a: Seq<Entity>, q: Seq<Entity>, b: Seq<Entity>, r: Seq<Entity>)
    ensures
        (p + a + q + b + r).to_multiset() == (p + b + q + a + r).to_multiset(),
{
    lemma_multiset_commutative(p, a);
    lemma_multiset_commutative(p + a, q);
    lemma_multiset_commutative(p + a + q, b);
    lemma_multiset_commutative(p + a + q + b, r);
    lemma_multiset_commutative(p, b);
    lemma_multiset_commutative(p + b, q);
    lemma_multiset_commutative(p + b + q, a);
    lemma_multiset_commutative(p + b + q + a, r);
    broadcast use vstd::multiset::group_multiset_axioms;

    assert((p + a + q + b + r).to_multiset() =~= (p + b + q + a + r).to_multiset());
}

/// Two columns that trade places take their windows along.
pub proof fn swapping_keeps_the_windows(columns: Seq<ColumnView>, a: int, b: int)
    requires
        0 <= a < b < columns.len(),
    ensures
        windows_in(columns.update(a, columns[b]).update(b, columns[a])).to_multiset()
            == windows_in(columns).to_multiset(),
        distinct(columns) ==> distinct(columns.update(a, columns[b]).update(b, columns[a])),
        strip_wf(columns) ==> strip_wf(columns.update(a, columns[b]).update(b, columns[a])),
{
    let after = columns.update(a, columns[b]).update(b, columns[a]);
    let p = windows_in(columns.take(a));
    let q = windows_in(columns.subrange(a + 1, b));
    let r = windows_in(columns.skip(b + 1));
    lemma_cut(columns, b);
    lemma_cut(columns.take(b), a);
    assert(columns.take(b).take(a) =~= columns.take(a));
    assert(columns.take(b).skip(a + 1) =~= columns.subrange(a + 1, b));
    lemma_cut(after, b);
    lemma_cut(after.take(b), a);
    assert(after.take(b).take(a) =~= columns.take(a));
    assert(after.take(b).skip(a + 1) =~= columns.subrange(a + 1, b));
    assert(after.skip(b + 1) =~= columns.skip(b + 1));
    lemma_trade(p, flat(columns[a].items), q, flat(columns[b].items), r);
    if distinct(columns) {
        windows_in(columns).lemma_multiset_has_no_duplicates();
        windows_in(after).lemma_multiset_has_no_duplicates_conv();
    }
}

/// A column that is taken out of a strip takes all its windows along and no other.
pub proof fn closing_takes_a_column(columns: Seq<ColumnView>, at: int)
    requires
        0 <= at < columns.len(),
    ensures
        windows_in(columns).to_multiset() == windows_in(columns.remove(at)).to_multiset().add(
            columns[at].members().to_multiset(),
        ),
{
    let front = windows_in(columns.take(at));
    let own = flat(columns[at].items);
    let back = windows_in(columns.skip(at + 1));
    lemma_flat_members(columns[at]);
    lemma_cut(columns, at);
    lemma_changed(columns, at, columns[at].items);
    lemma_multiset_commutative(front, own);
    lemma_multiset_commutative(front + own, back);
    lemma_multiset_commutative(front, back);
    broadcast use vstd::multiset::group_multiset_axioms;

    assert((front + own + back).to_multiset() =~= (front + back).to_multiset().add(
        own.to_multiset(),
    ));
}

/// A column that is put into a strip brings all its windows and no other.
pub proof fn opening_adds_a_column(columns: Seq<ColumnView>, at: int, column: ColumnView)
    requires
        0 <= at <= columns.len(),
    ensures
        windows_in(columns.insert(at, column)).to_multiset() == windows_in(columns).to_multiset().add(
            column.members().to_multiset(),
        ),
{
    closing_takes_a_column(columns.insert(at, column), at);
    assert(columns.insert(at, column).remove(at) =~= columns);
}

/// A column that goes from one strip to another keeps its windows, and both strips
/// together hold what they held.
pub proof fn columns_travel_whole(
    source: Seq<ColumnView>,
    from: int,
    target: Seq<ColumnView>,
    at: int,
)
    requires
        0 <= from < source.len(),
        0 <= at <= target.len(),
    ensures
        windows_in(source.remove(from)).to_multiset().add(
            windows_in(target.insert(at, source[from])).to_multiset(),
        ) == windows_in(source).to_multiset().add(windows_in(target).to_multiset()),
{
    closing_takes_a_column(source, from);
    opening_adds_a_column(target, at, source[from]);
    broadcast use vstd::multiset::group_multiset_axioms;

    assert(windows_in(source.remove(from)).to_multiset().add(
        windows_in(target.insert(at, source[from])).to_multiset(),
    ) =~= windows_in(source).to_multiset().add(windows_in(target).to_multiset()));
}

/// A window that goes from one strip to a column of its own on another is lost on
/// neither, and no other window moves.
pub proof fn windows_travel_alone(
    source: Seq<ColumnView>,
    target: Seq<ColumnView>,
    entity: Entity,
)
    requires
        strip_has(source, entity),
    ensures
        windows_in(strip_without(source, entity)).to_multiset().add(
            windows_in(target.push(ColumnView::single(entity))).to_multiset(),
        ) == windows_in(source).to_multiset().add(windows_in(target).to_multiset()),
{
    let place = removing_takes_one_place(source, entity);
    appending_adds_one(target, entity);
    broadcast use {
        vstd::multiset::group_multiset_axioms,
        vstd::seq_lib::group_to_multiset_ensures,
    };

    let all = windows_in(source);
    assert(all.to_multiset().contains(all[place]));
    assert(all.remove(place).to_multiset() =~= all.to_multiset().remove(all[place]));
    assert(windows_in(target).push(entity).to_multiset() =~= windows_in(target).to_multiset().insert(
        entity,
    ));
    assert(all.remove(place).to_multiset().add(windows_in(target).push(entity).to_multiset())
        =~= all.to_multiset().add(windows_in(target).to_multiset()));
}

} // verus!

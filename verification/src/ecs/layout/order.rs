//! Putting the columns of a strip in order, and making a strip hold exactly the
//! windows of its space.
use vstd::prelude::*;

use crate::ecs::layout::membership::{
    appending_adds_one, distinct, membership_is_listing, removing_keeps_the_others,
    strips_stay_well_formed, windows_in,
};
use crate::ecs::layout::{list_contains, strip_has, strip_wf, strip_without, ColumnView, LayoutStrip};
use crate::geometry::Entity;
use crate::seqs::{first_from, first_where, lemma_first_from};

verus! {

/// A column and where it is on the screen, from left to right.
#[verifier::ext_equal]
pub struct PlacedColumn {
    pub column: ColumnView,
    pub x: Option<i32>,
}

/// Whether a place is to the right of another; what has no place comes last.
pub open spec fn is_right_of(a: Option<i32>, b: Option<i32>) -> bool {
    match (a, b) {
        (Some(a), Some(b)) => a > b,
        (None, Some(_)) => true,
        _ => false,
    }
}

/// The condition of belonging behind something with that place.
pub open spec fn behind(x: Option<i32>) -> spec_fn(PlacedColumn) -> bool {
    |placed: PlacedColumn| is_right_of(placed.x, x)
}

/// The columns with one more, in front of the first that belongs behind it.
pub open spec fn placed_with(sorted: Seq<PlacedColumn>, more: PlacedColumn) -> Seq<PlacedColumn> {
    sorted.insert(first_where(sorted, behind(more.x)), more)
}

/// The columns from left to right; those with the same place keep their order.
pub open spec fn left_to_right(columns: Seq<PlacedColumn>) -> Seq<PlacedColumn>
    decreases columns.len(),
{
    if columns.len() == 0 {
        Seq::empty()
    } else {
        placed_with(left_to_right(columns.drop_last()), columns.last())
    }
}

/// The columns with their places.
pub open spec fn with_places(columns: Seq<ColumnView>, places: Seq<Option<i32>>) -> Seq<PlacedColumn> {
    Seq::new(columns.len(), |i: int| PlacedColumn { column: columns[i], x: places[i] })
}

/// The columns without their places.
pub open spec fn without_places(columns: Seq<PlacedColumn>) -> Seq<ColumnView> {
    Seq::new(columns.len(), |i: int| columns[i].column)
}

/// The strip with its columns in the order of their places.
pub open spec fn sorted_columns(columns: Seq<ColumnView>, places: Seq<Option<i32>>) -> Seq<ColumnView> {
    without_places(left_to_right(with_places(columns, places)))
}

fn right_of(a: Option<i32>, b: Option<i32>) -> (right: bool)
    ensures
        right == is_right_of(a, b),
{
    match (a, b) {
        (Some(a), Some(b)) => a > b,
        (None, Some(_)) => true,
        _ => false,
    }
}

impl LayoutStrip {
    /// Puts the columns in the order of their places, one for each column. Whole
    /// columns move; what has no place keeps its order at the end.
    pub fn sort_columns_by_x(&mut self, places: &Vec<Option<i32>>)
        requires
            places@.len() == old(self)@.len(),
        ensures
            final(self)@ == sorted_columns(old(self)@, places@),
            final(self).id == old(self).id,
            final(self).virtual_index == old(self).virtual_index,
    {
        let ghost all = with_places(self@, places@);
        let mut sorted: Vec<Option<i32>> = Vec::new();
        let mut i: usize = 0;
        assert(self@ =~= without_places(left_to_right(all.take(0))) + old(self)@.skip(0));
        while i < places.len()
            invariant
                i <= places.len(),
                places@.len() == old(self)@.len(),
                all == with_places(old(self)@, places@),
                left_to_right(all.take(i as int)).len() == i,
                sorted@.len() == i,
                forall|k: int|
                    0 <= k < i ==> #[trigger] sorted@[k] == left_to_right(all.take(i as int))[k].x,
                self@ == without_places(left_to_right(all.take(i as int))) + old(self)@.skip(
                    i as int,
                ),
                self.id == old(self).id,
                self.virtual_index == old(self).virtual_index,
            decreases places.len() - i,
        {
            let ghost before = left_to_right(all.take(i as int));
            let x = places[i];
            let mut at: usize = 0;
            while at < i && !right_of(sorted[at], x)
                invariant
                    at <= i,
                    i == before.len(),
                    sorted@.len() == i,
                    forall|k: int| 0 <= k < i ==> #[trigger] sorted@[k] == before[k].x,
                    first_where(before, behind(x)) == first_from(before, behind(x), at as int),
                decreases i - at,
            {
                assert(!(behind(x))(before[at as int]));
                at = at + 1;
            }
            proof {
                if at < i {
                    assert((behind(x))(before[at as int]));
                }
                assert(first_where(before, behind(x)) == at);
                assert(all.take(i as int + 1).drop_last() =~= all.take(i as int));
                assert(all.take(i as int + 1).last() == all[i as int]);
            }
            let ghost strip = self@;
            assert(self.columns.len() == self@.len());
            let column = self.columns.remove(i);
            assert(column@ == strip[i as int]);
            self.columns.insert(at, column);
            sorted.insert(at, x);
            let ghost after = left_to_right(all.take(i as int + 1));
            proof {
                assert(after == before.insert(at as int, all[i as int]));
                assert(self@ =~= strip.remove(i as int).insert(at as int, strip[i as int]));
                assert(self@ =~= without_places(after) + old(self)@.skip(i as int + 1));
            }
            i = i + 1;
        }
        assert(all.take(i as int) =~= all);
        assert(self@ =~= sorted_columns(old(self)@, places@));
    }
}

proof fn lemma_placed_sorted(sorted: Seq<PlacedColumn>, more: PlacedColumn)
    requires
        forall|i: int, j: int|
            0 <= i < j < sorted.len() ==> !is_right_of(
                (#[trigger] sorted[i]).x,
                (#[trigger] sorted[j]).x,
            ),
    ensures
        ({
            let after = placed_with(sorted, more);
            forall|i: int, j: int|
                0 <= i < j < after.len() ==> !is_right_of(
                    (#[trigger] after[i]).x,
                    (#[trigger] after[j]).x,
                )
        }),
{
    let place = first_where(sorted, behind(more.x));
    lemma_first_from(sorted, behind(more.x), 0);
    let after = placed_with(sorted, more);
    assert forall|i: int, j: int| 0 <= i < j < after.len() implies !is_right_of(
        (#[trigger] after[i]).x,
        (#[trigger] after[j]).x,
    ) by {
        if j == place {
            assert(!(behind(more.x))(sorted[i]));
        } else if i == place {
            assert((behind(more.x))(sorted[place]));
            if j - 1 > place {
                assert(!is_right_of(sorted[place].x, sorted[j - 1].x));
            }
        } else {
            let a = if i < place { i } else { i - 1 };
            let b = if j < place { j } else { j - 1 };
            assert(!is_right_of(sorted[a].x, sorted[b].x));
        }
    }
}

/// Sorting leaves no column to the right of one that belongs behind it, and
/// loses no column.
pub proof fn sorting_goes_left_to_right(columns: Seq<PlacedColumn>)
    ensures
        forall|i: int, j: int|
            0 <= i < j < left_to_right(columns).len() ==> !is_right_of(
                (#[trigger] left_to_right(columns)[i]).x,
                (#[trigger] left_to_right(columns)[j]).x,
            ),
        left_to_right(columns).to_multiset() == columns.to_multiset(),
    decreases columns.len(),
{
    broadcast use vstd::seq_lib::group_to_multiset_ensures;

    if columns.len() > 0 {
        let before = left_to_right(columns.drop_last());
        sorting_goes_left_to_right(columns.drop_last());
        lemma_placed_sorted(before, columns.last());
        lemma_first_from(before, behind(columns.last().x), 0);
        let place = first_where(before, behind(columns.last().x));
        assert(before.insert(place, columns.last()).to_multiset() =~= before.to_multiset().insert(
            columns.last(),
        ));
        assert(columns.drop_last().push(columns.last()) =~= columns);
    }
}

/// A strip that is sorted holds the same columns, each with the place that it had, from
/// the smallest place to the largest; columns without a place come last.
pub proof fn sorted_strips_go_left_to_right(columns: Seq<ColumnView>, places: Seq<Option<i32>>) -> (placed:
    Seq<PlacedColumn>)
    requires
        places.len() == columns.len(),
    ensures
        placed.to_multiset() == with_places(columns, places).to_multiset(),
        sorted_columns(columns, places).len() == placed.len(),
        forall|i: int|
            0 <= i < placed.len() ==> #[trigger] sorted_columns(columns, places)[i]
                == placed[i].column,
        forall|i: int, j: int|
            0 <= i < j < placed.len() ==> {
                &&& (#[trigger] placed[i]).x matches Some(a) ==> ((#[trigger] placed[j]).x
                    matches Some(b) ==> a <= b)
                &&& placed[i].x is None ==> placed[j].x is None
            },
{
    let placed = left_to_right(with_places(columns, places));
    sorting_goes_left_to_right(with_places(columns, places));
    assert forall|i: int, j: int| 0 <= i < j < placed.len() implies {
        &&& (#[trigger] placed[i]).x matches Some(a) ==> ((#[trigger] placed[j]).x matches Some(b)
            ==> a <= b)
        &&& placed[i].x is None ==> placed[j].x is None
    } by {
        assert(!is_right_of(placed[i].x, placed[j].x));
    }
    placed
}

/// The strip without those of the first `n` windows that are not among the
/// members.
pub open spec fn purged(
    columns: Seq<ColumnView>,
    windows: Seq<Entity>,
    members: Seq<Entity>,
    n: int,
) -> Seq<ColumnView>
    decreases n,
{
    if n <= 0 {
        columns
    } else {
        let before = purged(columns, windows, members, n - 1);
        if members.contains(windows[n - 1]) {
            before
        } else {
            strip_without(before, windows[n - 1])
        }
    }
}

/// The strip with a window at its end, unless it holds the window.
pub open spec fn joined_by(columns: Seq<ColumnView>, entity: Entity) -> Seq<ColumnView> {
    if strip_has(columns, entity) {
        columns
    } else {
        columns.push(ColumnView::single(entity))
    }
}

/// The strip with those of the first `n` members at its end that it does not
/// hold.
pub open spec fn joined(columns: Seq<ColumnView>, members: Seq<Entity>, n: int) -> Seq<ColumnView>
    decreases n,
{
    if n <= 0 {
        columns
    } else {
        joined_by(joined(columns, members, n - 1), members[n - 1])
    }
}

/// The strip once it holds exactly the members: what stays keeps its place, and
/// what is new comes last.
pub open spec fn refreshed(columns: Seq<ColumnView>, members: Seq<Entity>) -> Seq<ColumnView> {
    let windows = windows_in(columns);
    joined(
        purged(columns, windows, members, windows.len() as int),
        members,
        members.len() as int,
    )
}

impl LayoutStrip {
    /// Makes the strip hold exactly the members. Windows that stay keep their
    /// places.
    pub fn refresh(&mut self, members: &Vec<Entity>)
        requires
            strip_wf(old(self)@),
        ensures
            final(self)@ == refreshed(old(self)@, members@),
            strip_wf(final(self)@),
            final(self).id == old(self).id,
            final(self).virtual_index == old(self).virtual_index,
    {
        let windows = self.all_windows();
        let mut i: usize = 0;
        while i < windows.len()
            invariant
                i <= windows.len(),
                strip_wf(self@),
                self@ == purged(old(self)@, windows@, members@, i as int),
                self.id == old(self).id,
                self.virtual_index == old(self).virtual_index,
            decreases windows.len() - i,
        {
            if !list_contains(members, windows[i]) {
                proof {
                    strips_stay_well_formed(self@, windows@[i as int]);
                }
                self.remove(windows[i]);
            }
            i = i + 1;
        }
        let ghost kept = self@;
        let mut k: usize = 0;
        while k < members.len()
            invariant
                k <= members.len(),
                strip_wf(self@),
                self@ == joined(kept, members@, k as int),
                self.id == old(self).id,
                self.virtual_index == old(self).virtual_index,
            decreases members.len() - k,
        {
            if !self.contains(members[k]) {
                proof {
                    appending_adds_one(self@, members@[k as int]);
                }
                self.append(members[k]);
            }
            k = k + 1;
        }
    }
}

proof fn lemma_purged(
    columns: Seq<ColumnView>,
    windows: Seq<Entity>,
    members: Seq<Entity>,
    n: int,
    entity: Entity,
)
    requires
        0 <= n <= windows.len(),
        distinct(columns),
    ensures
        distinct(purged(columns, windows, members, n)),
        strip_has(purged(columns, windows, members, n), entity) == (strip_has(columns, entity) && !(
        exists|k: int| 0 <= k < n && #[trigger] windows[k] == entity && !members.contains(entity))),
    decreases n,
{
    if n > 0 {
        lemma_purged(columns, windows, members, n - 1, entity);
        let before = purged(columns, windows, members, n - 1);
        if !members.contains(windows[n - 1]) {
            removing_keeps_the_others(before, windows[n - 1], entity);
        }
    }
}

proof fn lemma_joined(columns: Seq<ColumnView>, members: Seq<Entity>, n: int, entity: Entity)
    requires
        0 <= n <= members.len(),
        distinct(columns),
    ensures
        distinct(joined(columns, members, n)),
        strip_has(joined(columns, members, n), entity) == (strip_has(columns, entity) || exists|k: int|
            0 <= k < n && #[trigger] members[k] == entity),
    decreases n,
{
    if n > 0 {
        lemma_joined(columns, members, n - 1, entity);
        let before = joined(columns, members, n - 1);
        let last = members[n - 1];
        appending_adds_one(before, last);
        membership_is_listing(before, entity);
        let after = before.push(ColumnView::single(last));
        membership_is_listing(after, entity);
        if !strip_has(before, last) {
            let all = windows_in(before);
            if all.contains(entity) {
                let k = choose|k: int| 0 <= k < all.len() && all[k] == entity;
                assert(all.push(last)[k] == entity);
            }
            if entity == last {
                assert(all.push(last)[all.len() as int] == entity);
            }
            if all.push(last).contains(entity) && entity != last {
                let k = choose|k: int| 0 <= k < all.len() + 1 && all.push(last)[k] == entity;
                assert(all[k] == entity);
            }
        }
    }
}

/// A strip that is made to hold the members holds each of them and no other
/// window, and each in one place.
pub proof fn refreshed_strips_hold_their_members(
    columns: Seq<ColumnView>,
    members: Seq<Entity>,
    entity: Entity,
)
    requires
        distinct(columns),
    ensures
        strip_has(refreshed(columns, members), entity) <==> members.contains(entity),
        distinct(refreshed(columns, members)),
{
    let windows = windows_in(columns);
    let kept = purged(columns, windows, members, windows.len() as int);
    lemma_purged(columns, windows, members, windows.len() as int, entity);
    lemma_joined(kept, members, members.len() as int, entity);
    membership_is_listing(columns, entity);
    if strip_has(columns, entity) && !members.contains(entity) {
        let k = choose|k: int| 0 <= k < windows.len() && windows[k] == entity;
        assert(windows[k] == entity && !members.contains(entity));
        assert(!strip_has(kept, entity));
    }
    if members.contains(entity) {
        let k = choose|k: int| 0 <= k < members.len() && members[k] == entity;
        assert(members[k] == entity);
    }
}

} // verus!

//! A strip of columns: the windows of one workspace from left to right, each
//! column holding one window, a stack of windows, or a group of native tabs.
use vstd::prelude::*;

pub mod membership;
pub mod order;
pub mod places;
pub mod shape;
pub mod stacks;

use crate::ecs::layout::membership::{removing_keeps_the_others, strips_stay_well_formed};
use crate::geometry::{
    clamp_i32, clamped, max_i32, spec_max, Entity, IRect, Origin, Size, WorkspaceId,
};
use crate::seqs::{first_from, first_where, lemma_first_from};

verus! {

#[derive(Clone, Copy, Debug, PartialEq, Eq, Structural)]
pub enum ColumnKind {
    Single,
    Stack,
    Tabs,
    Fullscreen,
}

/// A column: its items from top to bottom, each a window or the tabs that share
/// its slot, front tab first.
#[derive(Debug)]
pub struct Column {
    pub kind: ColumnKind,
    pub items: Vec<Vec<Entity>>,
}

/// What a column holds.
#[verifier::ext_equal]
pub struct ColumnView {
    pub kind: ColumnKind,
    pub items: Seq<Seq<Entity>>,
}

/// The condition that an item holds the window.
pub open spec fn item_has(entity: Entity) -> spec_fn(Seq<Entity>) -> bool {
    |item: Seq<Entity>| item.contains(entity)
}

/// The condition that a column holds the window.
pub open spec fn column_has(entity: Entity) -> spec_fn(ColumnView) -> bool {
    |column: ColumnView| column.has(entity)
}

/// The kind of a column that is not fullscreen, by what it holds.
pub open spec fn kind_of(items: Seq<Seq<Entity>>) -> ColumnKind {
    if items.len() > 1 {
        ColumnKind::Stack
    } else if items[0].len() > 1 {
        ColumnKind::Tabs
    } else {
        ColumnKind::Single
    }
}

impl ColumnView {
    pub open spec fn single(entity: Entity) -> ColumnView {
        ColumnView { kind: ColumnKind::Single, items: seq![seq![entity]] }
    }

    /// A column of these items, of the kind that they make it.
    pub open spec fn of(items: Seq<Seq<Entity>>) -> ColumnView {
        ColumnView { kind: kind_of(items), items }
    }

    /// No item is empty, and the kind says what the items are.
    pub open spec fn wf(self) -> bool {
        &&& self.items.len() >= 1
        &&& forall|i: int| 0 <= i < self.items.len() ==> (#[trigger] self.items[i]).len() >= 1
        &&& if self.kind == ColumnKind::Fullscreen {
            self.items.len() == 1 && self.items[0].len() == 1
        } else {
            self.kind == kind_of(self.items)
        }
    }

    /// The item that holds the window, from the top; the number of items where
    /// none does.
    pub open spec fn row_of(self, entity: Entity) -> int {
        first_where(self.items, item_has(entity))
    }

    pub open spec fn has(self, entity: Entity) -> bool {
        self.row_of(entity) < self.items.len()
    }

    /// The window shown by the item in that row.
    pub open spec fn front(self, row: int) -> Option<Entity> {
        if 0 <= row < self.items.len() && self.items[row].len() > 0 {
            Some(self.items[row][0])
        } else {
            None
        }
    }

    pub open spec fn spec_top(self) -> Option<Entity> {
        self.front(0)
    }

    /// The window shown in that row, or in the last one of a shorter column.
    pub open spec fn across(self, row: int) -> Option<Entity> {
        self.front(
            if row < self.items.len() {
                row
            } else {
                self.items.len() - 1
            },
        )
    }

    /// The windows of the first `n` items, from the top.
    pub open spec fn members_to(self, n: int) -> Seq<Entity>
        decreases n,
    {
        if n <= 0 {
            Seq::empty()
        } else {
            self.members_to(n - 1) + self.items[n - 1]
        }
    }

    /// Every window of the column, from the top.
    pub open spec fn members(self) -> Seq<Entity> {
        self.members_to(self.items.len() as int)
    }
}

impl View for Column {
    type V = ColumnView;

    open spec fn view(&self) -> ColumnView {
        ColumnView { kind: self.kind, items: self.items@.map_values(|item: Vec<Entity>| item@) }
    }
}

/// Copies the handles of an item.
fn copy_item(item: &Vec<Entity>) -> (copy: Vec<Entity>)
    ensures
        copy@ == item@,
{
    let mut copy: Vec<Entity> = Vec::new();
    let mut i: usize = 0;
    while i < item.len()
        invariant
            i <= item.len(),
            copy@ == item@.take(i as int),
        decreases item.len() - i,
    {
        copy.push(item[i]);
        assert(item@.take(i as int + 1) =~= item@.take(i as int).push(item@[i as int]));
        i = i + 1;
    }
    assert(item@.take(i as int) =~= item@);
    copy
}

/// Whether the list holds the window.
pub fn list_contains(list: &Vec<Entity>, entity: Entity) -> (found: bool)
    ensures
        found == list@.contains(entity),
{
    let mut i: usize = 0;
    while i < list.len()
        invariant
            i <= list.len(),
            forall|j: int| 0 <= j < i ==> list@[j] != entity,
        decreases list.len() - i,
    {
        if list[i] == entity {
            assert(list@[i as int] == entity);
            return true;
        }
        i = i + 1;
    }
    false
}

/// The place of the window in the list, if it is there.
fn position_in(list: &Vec<Entity>, entity: Entity) -> (place: Option<usize>)
    ensures
        match place {
            Some(at) => at < list@.len() && list@[at as int] == entity && forall|j: int|
                0 <= j < at ==> list@[j] != entity,
            None => !list@.contains(entity),
        },
{
    let mut i: usize = 0;
    while i < list.len()
        invariant
            i <= list.len(),
            forall|j: int| 0 <= j < i ==> list@[j] != entity,
        decreases list.len() - i,
    {
        if list[i] == entity {
            return Some(i);
        }
        i = i + 1;
    }
    None
}

impl Column {
    pub fn single(entity: Entity) -> (column: Column)
        ensures
            column@ == ColumnView::single(entity),
            column@.wf(),
    {
        let mut item: Vec<Entity> = Vec::new();
        item.push(entity);
        let mut items: Vec<Vec<Entity>> = Vec::new();
        items.push(item);
        let column = Column { kind: ColumnKind::Single, items };
        assert(column@.items =~= seq![seq![entity]]);
        column
    }

    /// The row of the item that holds the window, if one does.
    pub fn row_of(&self, entity: Entity) -> (row: Option<usize>)
        ensures
            match row {
                Some(at) => at == self@.row_of(entity) && at < self@.items.len(),
                None => !self@.has(entity),
            },
    {
        let mut i: usize = 0;
        while i < self.items.len()
            invariant
                i <= self.items.len(),
                self@.row_of(entity) == first_from(self@.items, item_has(entity), i as int),
            decreases self.items.len() - i,
        {
            if list_contains(&self.items[i], entity) {
                return Some(i);
            }
            i = i + 1;
        }
        None
    }

    pub fn contains(&self, entity: Entity) -> (found: bool)
        ensures
            found == self@.has(entity),
    {
        self.row_of(entity).is_some()
    }

    /// The window shown by the item in that row.
    pub fn front(&self, row: usize) -> (window: Option<Entity>)
        ensures
            window == self@.front(row as int),
    {
        if row < self.items.len() && self.items[row].len() > 0 {
            Some(self.items[row][0])
        } else {
            None
        }
    }

    /// The window at the top of the column.
    pub fn top(&self) -> (window: Option<Entity>)
        ensures
            window == self@.spec_top(),
    {
        self.front(0)
    }

    /// The window shown in that row, or in the last one of a shorter column.
    fn across(&self, row: usize) -> (window: Option<Entity>)
        ensures
            window == self@.across(row as int),
    {
        if row < self.items.len() {
            self.front(row)
        } else if self.items.len() > 0 {
            self.front(self.items.len() - 1)
        } else {
            None
        }
    }

    /// Every window of the column, from the top.
    pub fn windows(&self) -> (members: Vec<Entity>)
        ensures
            members@ == self@.members(),
    {
        let mut members: Vec<Entity> = Vec::new();
        let mut i: usize = 0;
        while i < self.items.len()
            invariant
                i <= self.items.len(),
                members@ == self@.members_to(i as int),
            decreases self.items.len() - i,
        {
            let mut item: Vec<Entity> = copy_item(&self.items[i]);
            members.append(&mut item);
            i = i + 1;
        }
        members
    }

    /// A copy of the column.
    pub fn copied(&self) -> (column: Column)
        ensures
            column@ == self@,
    {
        let mut items: Vec<Vec<Entity>> = Vec::new();
        let mut i: usize = 0;
        while i < self.items.len()
            invariant
                i <= self.items.len(),
                items.len() == i,
                forall|j: int| 0 <= j < i ==> items@[j]@ == self.items@[j]@,
            decreases self.items.len() - i,
        {
            items.push(copy_item(&self.items[i]));
            i = i + 1;
        }
        let column = Column { kind: self.kind, items };
        assert(column@.items =~= self@.items);
        column
    }

    /// The items of one column above those of another.
    fn merged(master: Column, lower: Column) -> (column: Column)
        requires
            master@.items.len() >= 1 || lower@.items.len() >= 1,
        ensures
            column@ == ColumnView::of(master@.items + lower@.items),
    {
        let ghost above = master@.items;
        let ghost below = lower@.items;
        let mut items = master.items;
        let mut more = lower.items;
        items.append(&mut more);
        assert(items@.map_values(|item: Vec<Entity>| item@) =~= above + below);
        Column::of(items)
    }

    /// A column of these items, of the kind that they make it.
    fn of(items: Vec<Vec<Entity>>) -> (column: Column)
        requires
            items.len() >= 1,
        ensures
            column@ == ColumnView::of(items@.map_values(|item: Vec<Entity>| item@)),
    {
        let kind = if items.len() > 1 {
            ColumnKind::Stack
        } else if items[0].len() > 1 {
            ColumnKind::Tabs
        } else {
            ColumnKind::Single
        };
        Column { kind, items }
    }
}

/// Why a strip refused a request.
#[derive(Clone, Copy, Debug, PartialEq, Eq, Structural)]
pub enum StripError {
    /// The window is in no column of the strip.
    NotFound,
}

/// The columns of one virtual workspace, from left to right.
#[derive(Debug)]
pub struct LayoutStrip {
    pub id: WorkspaceId,
    pub virtual_index: u32,
    pub columns: Vec<Column>,
}

impl View for LayoutStrip {
    type V = Seq<ColumnView>;

    open spec fn view(&self) -> Seq<ColumnView> {
        self.columns@.map_values(|column: Column| column@)
    }
}

/// The first column that holds the window; the number of columns where none
/// does.
pub open spec fn column_of(columns: Seq<ColumnView>, entity: Entity) -> int {
    first_where(columns, column_has(entity))
}

pub open spec fn strip_has(columns: Seq<ColumnView>, entity: Entity) -> bool {
    column_of(columns, entity) < columns.len()
}

/// Every column is well formed.
pub open spec fn strip_wf(columns: Seq<ColumnView>) -> bool {
    forall|i: int| 0 <= i < columns.len() ==> (#[trigger] columns[i]).wf()
}

/// The window beside `entity` in the column to the left, in the same row.
pub open spec fn left_of(columns: Seq<ColumnView>, entity: Entity) -> Option<Entity> {
    let at = column_of(columns, entity);
    if at < columns.len() && at > 0 {
        columns[at - 1].across(columns[at].row_of(entity))
    } else {
        None
    }
}

/// The window beside `entity` in the column to the right, in the same row.
pub open spec fn right_of(columns: Seq<ColumnView>, entity: Entity) -> Option<Entity> {
    let at = column_of(columns, entity);
    if at + 1 < columns.len() {
        columns[at + 1].across(columns[at].row_of(entity))
    } else {
        None
    }
}

/// The neighbour that takes the place of a window that leaves: the left one,
/// or the right one where there is none.
pub open spec fn heir_of(columns: Seq<ColumnView>, entity: Entity) -> Option<Entity> {
    match left_of(columns, entity) {
        Some(left) => Some(left),
        None => right_of(columns, entity),
    }
}

/// The window shown at the top of the column with that index.
pub open spec fn top_at(columns: Seq<ColumnView>, index: int) -> Option<Entity> {
    if 0 <= index < columns.len() {
        columns[index].spec_top()
    } else {
        None
    }
}

/// The item with `entity` taken out.
pub open spec fn item_without(item: Seq<Entity>, entity: Entity) -> Seq<Entity> {
    item.remove(item.index_of_first(entity)->0)
}

/// The items of a column with `entity` taken out of the first item that holds
/// it; an item that is left empty goes too.
pub open spec fn items_without(items: Seq<Seq<Entity>>, entity: Entity) -> Seq<Seq<Entity>> {
    let row = first_where(items, item_has(entity));
    let left = item_without(items[row], entity);
    if left.len() == 0 {
        items.remove(row)
    } else {
        items.update(row, left)
    }
}

/// The strip after `entity` left it: its column shrinks to what is left of it
/// and goes when nothing is.
pub open spec fn strip_without(columns: Seq<ColumnView>, entity: Entity) -> Seq<ColumnView> {
    let at = column_of(columns, entity);
    if at >= columns.len() {
        columns
    } else {
        let left = items_without(columns[at].items, entity);
        if left.len() == 0 {
            columns.remove(at)
        } else {
            columns.update(at, ColumnView::of(left))
        }
    }
}

/// Whether `stack` moves the window: it has a column of its own, a column to
/// its left, and neither of them is fullscreen.
pub open spec fn stackable(columns: Seq<ColumnView>, entity: Entity) -> bool {
    let at = column_of(columns, entity);
    &&& 0 < at < columns.len()
    &&& columns[at].kind != ColumnKind::Stack
    &&& columns[at].kind != ColumnKind::Fullscreen
    &&& columns[at - 1].kind != ColumnKind::Fullscreen
}

/// The strip after the column of `entity` went onto the stack to its left.
pub open spec fn strip_stacked(columns: Seq<ColumnView>, entity: Entity) -> Seq<ColumnView> {
    let at = column_of(columns, entity);
    if stackable(columns, entity) {
        columns.remove(at).update(
            at - 1,
            ColumnView::of(columns[at - 1].items + columns[at].items),
        )
    } else {
        columns
    }
}

/// The strip after the item of `entity` left its stack for a column of its own
/// on the right.
pub open spec fn strip_unstacked(columns: Seq<ColumnView>, entity: Entity) -> Seq<ColumnView> {
    let at = column_of(columns, entity);
    if at < columns.len() && columns[at].kind == ColumnKind::Stack {
        let row = columns[at].row_of(entity);
        columns.update(at, ColumnView::of(columns[at].items.remove(row))).insert(
            at + 1,
            ColumnView::of(seq![columns[at].items[row]]),
        )
    } else {
        columns
    }
}

/// The strip after `follower` became the last tab of the item that holds
/// `leader`; it leaves the column that it had.
pub open spec fn strip_tabbed(columns: Seq<ColumnView>, leader: Entity, follower: Entity) -> Seq<
    ColumnView,
> {
    let closed = strip_without(columns, follower);
    let at = column_of(closed, leader);
    let row = closed[at].row_of(leader);
    let items = closed[at].items;
    closed.update(at, ColumnView::of(items.update(row, items[row].push(follower))))
}

/// The windows that share one slot with `entity` as native tabs, it included.
pub open spec fn tabs_of(columns: Seq<ColumnView>, entity: Entity) -> Option<Seq<Entity>> {
    let at = column_of(columns, entity);
    if at < columns.len() && columns[at].items[columns[at].row_of(entity)].len() > 1 {
        Some(columns[at].items[columns[at].row_of(entity)])
    } else {
        None
    }
}

/// The window is a tab behind the one that its group shows.
pub open spec fn behind_a_tab(columns: Seq<ColumnView>, entity: Entity) -> bool {
    tabs_of(columns, entity) matches Some(group) && group[0] != entity
}

/// The windows of the first `n` columns, column by column.
pub open spec fn windows_to(columns: Seq<ColumnView>, n: int) -> Seq<Entity>
    decreases n,
{
    if n <= 0 {
        Seq::empty()
    } else {
        windows_to(columns, n - 1) + columns[n - 1].members()
    }
}

/// The windows shown at the top of the first `n` columns.
pub open spec fn tops_to(columns: Seq<ColumnView>, n: int) -> Seq<Entity>
    decreases n,
{
    if n <= 0 {
        Seq::empty()
    } else {
        match columns[n - 1].spec_top() {
            Some(top) => tops_to(columns, n - 1).push(top),
            None => tops_to(columns, n - 1),
        }
    }
}

impl LayoutStrip {
    pub fn new(id: WorkspaceId, virtual_index: u32) -> (strip: LayoutStrip)
        ensures
            strip.id == id,
            strip.virtual_index == virtual_index,
            strip@ == Seq::<ColumnView>::empty(),
    {
        let strip = LayoutStrip { id, virtual_index, columns: Vec::new() };
        assert(strip@ =~= Seq::<ColumnView>::empty());
        strip
    }

    pub fn len(&self) -> (count: usize)
        ensures
            count == self@.len(),
    {
        self.columns.len()
    }

    /// The column that holds the window, if one does.
    pub fn index_of(&self, entity: Entity) -> (index: Option<usize>)
        ensures
            match index {
                Some(at) => at == column_of(self@, entity) && at < self@.len(),
                None => !strip_has(self@, entity),
            },
    {
        let mut i: usize = 0;
        while i < self.columns.len()
            invariant
                i <= self.columns.len(),
                column_of(self@, entity) == first_from(self@, column_has(entity), i as int),
            decreases self.columns.len() - i,
        {
            if self.columns[i].contains(entity) {
                return Some(i);
            }
            i = i + 1;
        }
        None
    }

    pub fn contains(&self, entity: Entity) -> (found: bool)
        ensures
            found == strip_has(self@, entity),
    {
        self.index_of(entity).is_some()
    }

    /// The window shown at the top of the column with that index.
    pub fn top_at(&self, index: usize) -> (window: Option<Entity>)
        ensures
            window == top_at(self@, index as int),
    {
        if index < self.columns.len() {
            self.columns[index].top()
        } else {
            None
        }
    }

    /// The window at the top of the first column.
    pub fn first_top(&self) -> (window: Option<Entity>)
        ensures
            window == top_at(self@, 0),
    {
        self.top_at(0)
    }

    /// The window at the top of the last column.
    pub fn last_top(&self) -> (window: Option<Entity>)
        ensures
            window == top_at(self@, self@.len() - 1),
    {
        if self.columns.len() == 0 {
            None
        } else {
            self.top_at(self.columns.len() - 1)
        }
    }

    /// The window beside `entity` in the column to the left.
    pub fn left_neighbour(&self, entity: Entity) -> (window: Option<Entity>)
        ensures
            window == left_of(self@, entity),
    {
        match self.index_of(entity) {
            Some(at) => {
                if at == 0 {
                    return None;
                }
                proof {
                    lemma_first_from(self@, column_has(entity), 0);
                }
                match self.columns[at].row_of(entity) {
                    Some(row) => self.columns[at - 1].across(row),
                    None => None,
                }
            },
            None => None,
        }
    }

    /// The window beside `entity` in the column to the right.
    pub fn right_neighbour(&self, entity: Entity) -> (window: Option<Entity>)
        ensures
            window == right_of(self@, entity),
    {
        match self.index_of(entity) {
            Some(at) => {
                if at >= self.columns.len() - 1 {
                    return None;
                }
                proof {
                    lemma_first_from(self@, column_has(entity), 0);
                }
                match self.columns[at].row_of(entity) {
                    Some(row) => self.columns[at + 1].across(row),
                    None => None,
                }
            },
            None => None,
        }
    }

    /// The neighbour that takes the place of a window that leaves.
    pub fn heir(&self, entity: Entity) -> (window: Option<Entity>)
        ensures
            window == heir_of(self@, entity),
    {
        match self.left_neighbour(entity) {
            Some(left) => Some(left),
            None => self.right_neighbour(entity),
        }
    }

    /// Puts a column of its own for the window at the right end.
    pub fn append(&mut self, entity: Entity)
        ensures
            final(self)@ == old(self)@.push(ColumnView::single(entity)),
            final(self).id == old(self).id,
            final(self).virtual_index == old(self).virtual_index,
    {
        self.columns.push(Column::single(entity));
        assert(self@ =~= old(self)@.push(ColumnView::single(entity)));
    }

    /// Puts a column of its own for the window at `index`, or at the right end
    /// where the strip is shorter.
    pub fn insert_at(&mut self, index: usize, entity: Entity)
        ensures
            final(self)@ == old(self)@.insert(
                if index <= old(self)@.len() {
                    index as int
                } else {
                    old(self)@.len() as int
                },
                ColumnView::single(entity),
            ),
            final(self).id == old(self).id,
            final(self).virtual_index == old(self).virtual_index,
    {
        self.insert_column_at(index, Column::single(entity));
    }

    /// Puts the column at `index`, or at the right end where the strip is
    /// shorter.
    pub fn insert_column_at(&mut self, index: usize, column: Column)
        ensures
            final(self)@ == old(self)@.insert(
                if index <= old(self)@.len() {
                    index as int
                } else {
                    old(self)@.len() as int
                },
                column@,
            ),
            final(self).id == old(self).id,
            final(self).virtual_index == old(self).virtual_index,
    {
        let at: usize = if index <= self.columns.len() {
            index
        } else {
            self.columns.len()
        };
        self.columns.insert(at, column);
        assert(self@ =~= old(self)@.insert(at as int, column@));
    }

    /// Takes the column at `index` out.
    pub fn remove_column_at(&mut self, index: usize) -> (column: Option<Column>)
        ensures
            match column {
                Some(taken) => index < old(self)@.len() && taken@ == old(self)@[index as int]
                    && final(self)@ == old(self)@.remove(index as int),
                None => index >= old(self)@.len() && final(self)@ == old(self)@,
            },
            final(self).id == old(self).id,
            final(self).virtual_index == old(self).virtual_index,
    {
        if index < self.columns.len() {
            let taken = self.columns.remove(index);
            assert(self@ =~= old(self)@.remove(index as int));
            Some(taken)
        } else {
            None
        }
    }

    /// Exchanges two columns.
    pub fn swap(&mut self, a: usize, b: usize)
        requires
            a < old(self)@.len(),
            b < old(self)@.len(),
        ensures
            final(self)@ == old(self)@.update(a as int, old(self)@[b as int]).update(
                b as int,
                old(self)@[a as int],
            ),
            final(self).id == old(self).id,
            final(self).virtual_index == old(self).virtual_index,
    {
        if a != b {
            let low: usize = if a < b {
                a
            } else {
                b
            };
            let high: usize = if a < b {
                b
            } else {
                a
            };
            let upper = self.columns.remove(high);
            let lower = self.columns.remove(low);
            self.columns.insert(low, upper);
            self.columns.insert(high, lower);
        }
        assert(self@ =~= old(self)@.update(a as int, old(self)@[b as int]).update(
            b as int,
            old(self)@[a as int],
        ));
    }

    /// Takes the window out of the strip. Its siblings stay, and a column that
    /// it leaves empty closes.
    pub fn remove(&mut self, entity: Entity)
        requires
            strip_wf(old(self)@),
        ensures
            final(self)@ == strip_without(old(self)@, entity),
            final(self).id == old(self).id,
            final(self).virtual_index == old(self).virtual_index,
    {
        let at = match self.index_of(entity) {
            Some(at) => at,
            None => {
                return;
            },
        };
        proof {
            lemma_first_from(self@, column_has(entity), 0);
            lemma_first_from(self@[at as int].items, item_has(entity), 0);
        }
        let mut column = self.columns.remove(at);
        let ghost items = column@.items;
        let ghost row = column@.row_of(entity);
        match column.row_of(entity) {
            Some(r) => {
                let mut item: Vec<Entity> = column.items.remove(r);
                match position_in(&item, entity) {
                    Some(place) => {
                        proof {
                            items[row].index_of_first_ensures(entity);
                            let first = items[row].index_of_first(entity)->0;
                            assert(item@ == items[row]);
                            assert(first == place) by {
                                if first < place {
                                    assert(item@[first] != entity);
                                }
                            }
                        }
                        item.remove(place);
                    },
                    None => {},
                }
                assert(item@ == item_without(items[row], entity));
                if item.len() > 0 {
                    column.items.insert(r, item);
                    assert(column@.items =~= items.update(row, item_without(items[row], entity)));
                } else {
                    assert(column@.items =~= items.remove(row));
                }
            },
            None => {},
        }
        assert(column@.items == items_without(items, entity));
        if column.items.len() > 0 {
            let rest = Column::of(column.items);
            assert(rest@ == ColumnView::of(items_without(items, entity)));
            self.columns.insert(at, rest);
            assert(self@ =~= strip_without(old(self)@, entity));
        } else {
            assert(self@ =~= strip_without(old(self)@, entity));
        }
    }

    /// Moves the column of the window onto the stack to its left.
    pub fn stack(&mut self, entity: Entity) -> (done: Result<(), StripError>)
        ensures
            done is Ok <==> strip_has(old(self)@, entity),
            final(self)@ == strip_stacked(old(self)@, entity),
            final(self).id == old(self).id,
            final(self).virtual_index == old(self).virtual_index,
    {
        let at = match self.index_of(entity) {
            Some(at) => at,
            None => {
                return Err(StripError::NotFound);
            },
        };
        if at == 0 || self.columns[at].kind == ColumnKind::Stack || self.columns[at].kind
            == ColumnKind::Fullscreen || self.columns[at - 1].kind == ColumnKind::Fullscreen {
            return Ok(());
        }
        proof {
            lemma_first_from(self@, column_has(entity), 0);
        }
        let upper = self.columns.remove(at);
        let master = self.columns.remove(at - 1);
        let merged = Column::merged(master, upper);
        self.columns.insert(at - 1, merged);
        let ghost stacked = old(self)@.remove(at as int).update(at - 1, merged@);
        assert(self@ =~= stacked);
        Ok(())
    }

    /// Moves the item of the window out of its stack into a column of its own on
    /// the right.
    pub fn unstack(&mut self, entity: Entity) -> (done: Result<(), StripError>)
        requires
            strip_wf(old(self)@),
        ensures
            done is Ok <==> strip_has(old(self)@, entity),
            final(self)@ == strip_unstacked(old(self)@, entity),
            final(self).id == old(self).id,
            final(self).virtual_index == old(self).virtual_index,
    {
        let at = match self.index_of(entity) {
            Some(at) => at,
            None => {
                return Err(StripError::NotFound);
            },
        };
        if self.columns[at].kind != ColumnKind::Stack {
            return Ok(());
        }
        proof {
            lemma_first_from(self@, column_has(entity), 0);
            assert(self@[at as int].wf());
            lemma_first_from(self@[at as int].items, item_has(entity), 0);
        }
        let mut column = self.columns.remove(at);
        let ghost items = column@.items;
        let ghost row = column@.row_of(entity);
        match column.row_of(entity) {
            Some(r) => {
                let item: Vec<Entity> = column.items.remove(r);
                assert(column@.items =~= items.remove(row));
                let rest = Column::of(column.items);
                let mut own: Vec<Vec<Entity>> = Vec::new();
                own.push(item);
                assert(own@.map_values(|item: Vec<Entity>| item@) =~= seq![items[row]]);
                let alone = Column::of(own);
                self.columns.insert(at, rest);
                assert(at < self.columns.len());
                self.columns.insert(at + 1, alone);
                assert(self@ =~= strip_unstacked(old(self)@, entity));
            },
            None => {},
        }
        Ok(())
    }

    /// Makes `follower` a tab behind the item that holds `leader`; it leaves the
    /// column that it had.
    pub fn convert_to_tabs(&mut self, leader: Entity, follower: Entity) -> (done: Result<
        (),
        StripError,
    >)
        requires
            strip_wf(old(self)@),
            leader != follower,
        ensures
            done is Ok <==> strip_has(old(self)@, leader),
            done is Err ==> final(self)@ == old(self)@,
            done is Ok ==> final(self)@ == strip_tabbed(old(self)@, leader, follower),
            strip_wf(final(self)@),
            final(self).id == old(self).id,
            final(self).virtual_index == old(self).virtual_index,
    {
        if !self.contains(leader) {
            return Err(StripError::NotFound);
        }
        self.remove(follower);
        proof {
            removing_keeps_the_others(old(self)@, follower, leader);
            strips_stay_well_formed(old(self)@, follower);
        }
        let ghost closed = self@;
        let at = match self.index_of(leader) {
            Some(at) => at,
            None => {
                return Err(StripError::NotFound);
            },
        };
        proof {
            lemma_first_from(self@, column_has(leader), 0);
            assert(self@[at as int].wf());
        }
        let mut column = self.columns.remove(at);
        let ghost items = column@.items;
        let ghost row = column@.row_of(leader);
        match column.row_of(leader) {
            Some(r) => {
                let mut item: Vec<Entity> = column.items.remove(r);
                item.push(follower);
                column.items.insert(r, item);
                assert(column@.items =~= items.update(row, items[row].push(follower)));
            },
            None => {},
        }
        let tabbed = Column::of(column.items);
        self.columns.insert(at, tabbed);
        assert(self@ =~= closed.update(
            at as int,
            ColumnView::of(items.update(row, items[row].push(follower))),
        ));
        assert(ColumnView::of(items.update(row, items[row].push(follower))).wf());
        Ok(())
    }

    /// The windows that share one slot with `entity` as native tabs.
    pub fn tab_group(&self, entity: Entity) -> (group: Option<Vec<Entity>>)
        ensures
            match group {
                Some(tabs) => tabs_of(self@, entity) == Some(tabs@),
                None => tabs_of(self@, entity) is None,
            },
    {
        let at = match self.index_of(entity) {
            Some(at) => at,
            None => {
                return None;
            },
        };
        proof {
            lemma_first_from(self@, column_has(entity), 0);
        }
        match self.columns[at].row_of(entity) {
            Some(row) => {
                if self.columns[at].items[row].len() > 1 {
                    Some(copy_item(&self.columns[at].items[row]))
                } else {
                    None
                }
            },
            None => None,
        }
    }

    /// Whether the window is a tab behind the one that its group shows.
    pub fn tabbed(&self, entity: Entity) -> (behind: bool)
        ensures
            behind == behind_a_tab(self@, entity),
    {
        match self.tab_group(entity) {
            Some(group) => group[0] != entity,
            None => false,
        }
    }

    /// Every window of the column that holds `entity`, if one does.
    pub fn column_members(&self, entity: Entity) -> (members: Option<Vec<Entity>>)
        ensures
            match members {
                Some(list) => strip_has(self@, entity) && list@ == self@[column_of(
                    self@,
                    entity,
                )].members(),
                None => !strip_has(self@, entity),
            },
    {
        match self.index_of(entity) {
            Some(at) => Some(self.columns[at].windows()),
            None => None,
        }
    }

    /// Every window of the strip, column by column.
    pub fn all_windows(&self) -> (windows: Vec<Entity>)
        ensures
            windows@ == windows_to(self@, self@.len() as int),
    {
        let mut windows: Vec<Entity> = Vec::new();
        let mut i: usize = 0;
        while i < self.columns.len()
            invariant
                i <= self.columns.len(),
                windows@ == windows_to(self@, i as int),
            decreases self.columns.len() - i,
        {
            let mut members = self.columns[i].windows();
            windows.append(&mut members);
            i = i + 1;
        }
        windows
    }

    /// The windows shown at the top of the columns.
    pub fn all_columns(&self) -> (tops: Vec<Entity>)
        ensures
            tops@ == tops_to(self@, self@.len() as int),
    {
        let mut tops: Vec<Entity> = Vec::new();
        let mut i: usize = 0;
        while i < self.columns.len()
            invariant
                i <= self.columns.len(),
                tops@ == tops_to(self@, i as int),
            decreases self.columns.len() - i,
        {
            match self.columns[i].top() {
                Some(top) => {
                    tops.push(top);
                },
                None => {},
            }
            i = i + 1;
        }
        tops
    }
}

impl Default for LayoutStrip {
    fn default() -> (strip: LayoutStrip)
        ensures
            strip.id == 0,
            strip.virtual_index == 0,
            strip@ == Seq::<ColumnView>::empty(),
    {
        LayoutStrip::new(0, 0)
    }
}

/// The origin that brings a window of that size inside the viewport by the
/// shortest move; one that is too large keeps its near edge inside.
pub open spec fn into_viewport(origin: Origin, size: Size, viewport: IRect) -> Origin {
    Origin {
        x: clamped(
            origin.x as int,
            viewport.min.x as int,
            spec_max(viewport.max.x - size.x, viewport.min.x as int),
        ) as i32,
        y: clamped(
            origin.y as int,
            viewport.min.y as int,
            spec_max(viewport.max.y - size.y, viewport.min.y as int),
        ) as i32,
    }
}

pub fn clamp_origin_to_viewport(origin: Origin, size: Size, viewport: IRect) -> (inside: Origin)
    requires
        viewport.max.diff_fits(size),
    ensures
        inside == into_viewport(origin, size, viewport),
{
    let far_x: i32 = max_i32(viewport.max.x - size.x, viewport.min.x);
    let far_y: i32 = max_i32(viewport.max.y - size.y, viewport.min.y);
    Origin {
        x: clamp_i32(origin.x, viewport.min.x, far_x),
        y: clamp_i32(origin.y, viewport.min.y, far_y),
    }
}

} // verus!

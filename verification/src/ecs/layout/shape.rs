//! The shape of a strip: what an offset that was placed by hand is good for.
use vstd::prelude::*;

use crate::ecs::layout::{tops_to, ColumnView, LayoutStrip};
use crate::ecs::params::{place_of, WindowRecord, Windows};
use crate::ecs::ManualStripOffset;
use crate::geometry::Entity;

verus! {

/// The width that a window has, or is on its way to.
pub open spec fn target_width(windows: Seq<WindowRecord>, entity: Entity) -> Option<i32> {
    match place_of(windows, entity) {
        Some(place) => match place.resize {
            Some(size) => Some(size.x),
            None => Some(place.size.x),
        },
        None => None,
    }
}

/// The known ones of the first `n` windows, each with its target width.
pub open spec fn widths_to(tops: Seq<Entity>, windows: Seq<WindowRecord>, n: int) -> Seq<
    (Entity, i32),
>
    decreases n,
{
    if n <= 0 {
        Seq::empty()
    } else {
        match target_width(windows, tops[n - 1]) {
            Some(width) => widths_to(tops, windows, n - 1).push((tops[n - 1], width)),
            None => widths_to(tops, windows, n - 1),
        }
    }
}

/// The windows shown at the top of the columns, from left to right.
pub open spec fn tops_of(columns: Seq<ColumnView>) -> Seq<Entity> {
    tops_to(columns, columns.len() as int)
}

/// The shape of a strip: its columns from left to right, each by its top window and the
/// width that window has or is on its way to.
pub open spec fn strip_shape(columns: Seq<ColumnView>, windows: Seq<WindowRecord>) -> Seq<
    (Entity, i32),
> {
    widths_to(tops_of(columns), windows, tops_of(columns).len() as int)
}

/// The shape of a strip.
pub fn strip_signature(strip: &LayoutStrip, windows: &Windows) -> (signature: Vec<(Entity, i32)>)
    ensures
        signature@ == strip_shape(strip@, windows.all@),
{
    let tops = strip.all_columns();
    let mut signature: Vec<(Entity, i32)> = Vec::new();
    let mut i: usize = 0;
    while i < tops.len()
        invariant
            i <= tops.len(),
            signature@ == widths_to(tops@, windows.all@, i as int),
        decreases tops.len() - i,
    {
        if let Some(place) = windows.placement(tops[i]) {
            let width: i32 = match place.resize {
                Some(size) => size.x,
                None => place.size.x,
            };
            signature.push((tops[i], width));
        }
        i = i + 1;
    }
    signature
}

impl ManualStripOffset {
    /// Marks the offset of a strip as placed by hand, for as long as the strip keeps its
    /// shape.
    pub fn of(strip: &LayoutStrip, windows: &Windows) -> (mark: ManualStripOffset)
        ensures
            mark.signature@ == strip_shape(strip@, windows.all@),
    {
        ManualStripOffset { signature: strip_signature(strip, windows) }
    }

    /// Whether the strip still has the shape that it was marked with.
    pub fn is_current(&self, strip: &LayoutStrip, windows: &Windows) -> (current: bool)
        ensures
            current == (self.signature@ == strip_shape(strip@, windows.all@)),
    {
        let signature = strip_signature(strip, windows);
        if signature.len() != self.signature.len() {
            return false;
        }
        let mut i: usize = 0;
        while i < signature.len()
            invariant
                i <= signature.len(),
                signature.len() == self.signature.len(),
                signature@ == strip_shape(strip@, windows.all@),
                forall|k: int| 0 <= k < i ==> signature@[k] == self.signature@[k],
            decreases signature.len() - i,
        {
            if signature[i].0 != self.signature[i].0 || signature[i].1 != self.signature[i].1 {
                assert(signature@[i as int] != self.signature@[i as int]);
                return false;
            }
            i = i + 1;
        }
        assert(signature@ =~= self.signature@);
        true
    }
}

proof fn lemma_same_widths(
    tops: Seq<Entity>,
    before: Seq<WindowRecord>,
    after: Seq<WindowRecord>,
    n: int,
)
    requires
        0 <= n <= tops.len(),
        forall|i: int|
            0 <= i < tops.len() ==> target_width(before, #[trigger] tops[i]) == target_width(
                after,
                tops[i],
            ),
    ensures
        widths_to(tops, before, n) == widths_to(tops, after, n),
    decreases n,
{
    if n > 0 {
        lemma_same_widths(tops, before, after, n - 1);
        assert(target_width(before, tops[n - 1]) == target_width(after, tops[n - 1]));
    }
}

/// A mark survives scrolling, and whatever else leaves the top windows in order and
/// their target widths alone, such as a new order among the tabs behind them.
pub proof fn marks_survive_moves(
    columns: (Seq<ColumnView>, Seq<ColumnView>),
    windows: (Seq<WindowRecord>, Seq<WindowRecord>),
)
    requires
        tops_of(columns.0) == tops_of(columns.1),
        forall|i: int|
            0 <= i < tops_of(columns.0).len() ==> target_width(
                windows.0,
                #[trigger] tops_of(columns.0)[i],
            ) == target_width(windows.1, tops_of(columns.0)[i]),
    ensures
        strip_shape(columns.0, windows.0) == strip_shape(columns.1, windows.1),
{
    let tops = tops_of(columns.0);
    lemma_same_widths(tops, windows.0, windows.1, tops.len() as int);
}

proof fn lemma_known_widths(tops: Seq<Entity>, windows: Seq<WindowRecord>, n: int)
    requires
        0 <= n <= tops.len(),
        forall|i: int| 0 <= i < tops.len() ==> target_width(windows, #[trigger] tops[i]) is Some,
    ensures
        widths_to(tops, windows, n).len() == n,
        forall|i: int|
            0 <= i < n ==> #[trigger] widths_to(tops, windows, n)[i] == (
                tops[i],
                target_width(windows, tops[i])->0,
            ),
    decreases n,
{
    if n > 0 {
        lemma_known_widths(tops, windows, n - 1);
        assert(target_width(windows, tops[n - 1]) is Some);
        let before = widths_to(tops, windows, n - 1);
        let after = widths_to(tops, windows, n);
        assert(after == before.push((tops[n - 1], target_width(windows, tops[n - 1])->0)));
        assert forall|i: int| 0 <= i < n implies #[trigger] after[i] == (
            tops[i],
            target_width(windows, tops[i])->0,
        ) by {
            if i < n - 1 {
                assert(after[i] == before[i]);
            }
        }
    }
}

/// A mark ends with every change of the shape: a column that comes, goes or changes its
/// place, and a top window that gets another width. Strips of known windows with the
/// same shape show the same windows at the top, with the same target widths.
pub proof fn marks_end_with_the_shape(
    columns: (Seq<ColumnView>, Seq<ColumnView>),
    windows: (Seq<WindowRecord>, Seq<WindowRecord>),
)
    requires
        strip_shape(columns.0, windows.0) == strip_shape(columns.1, windows.1),
        forall|i: int|
            0 <= i < tops_of(columns.0).len() ==> target_width(
                windows.0,
                #[trigger] tops_of(columns.0)[i],
            ) is Some,
        forall|i: int|
            0 <= i < tops_of(columns.1).len() ==> target_width(
                windows.1,
                #[trigger] tops_of(columns.1)[i],
            ) is Some,
    ensures
        tops_of(columns.0) == tops_of(columns.1),
        forall|i: int|
            0 <= i < tops_of(columns.0).len() ==> target_width(
                windows.0,
                #[trigger] tops_of(columns.0)[i],
            ) == target_width(windows.1, tops_of(columns.0)[i]),
{
    let one = tops_of(columns.0);
    let other = tops_of(columns.1);
    lemma_known_widths(one, windows.0, one.len() as int);
    lemma_known_widths(other, windows.1, other.len() as int);
    let shape = strip_shape(columns.0, windows.0);
    assert(one.len() == other.len());
    assert forall|i: int| 0 <= i < one.len() implies #[trigger] one[i] == other[i] && target_width(
        windows.0,
        one[i],
    ) == target_width(windows.1, one[i]) by {
        assert(shape[i] == (one[i], target_width(windows.0, one[i])->0));
        assert(shape[i] == (other[i], target_width(windows.1, other[i])->0));
        assert(target_width(windows.0, one[i]) is Some);
        assert(target_width(windows.1, other[i]) is Some);
    }
    assert(one =~= other);
}

} // verus!

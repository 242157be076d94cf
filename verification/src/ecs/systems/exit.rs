//! The way out: windows are left where they can be found.
use vstd::prelude::*;

use crate::geometry::{halved, half, spec_min, IRect, IVec2, Origin, Size};
use crate::seqs::{find_where, first_from, first_where};

verus! {

/// Where a window is left on exit, and its size where it has to shrink.
#[derive(Clone, Copy, Debug, PartialEq, Eq, Structural)]
pub struct ExitFrame {
    pub size: Option<Size>,
    pub origin: Origin,
}

/// The condition of covering a point.
pub open spec fn covers(point: IVec2) -> spec_fn(IRect) -> bool {
    |bounds: IRect| bounds.holds(point)
}

/// The display that a window is left on: the one that its middle is on, else the
/// first.
pub open spec fn exit_display(frame: IRect, displays: Seq<IRect>) -> IRect {
    match find_where(displays, covers(frame.spec_center())) {
        Some(bounds) => bounds,
        None => displays[0],
    }
}

/// Nine tenths of an extent.
pub open spec fn most_of(extent: int) -> int {
    extent * 9 / 10
}

/// The size that a window is left with: one that does not fit shrinks.
pub open spec fn exit_size(frame: IRect, bounds: IRect) -> Size {
    if frame.spec_width() > bounds.spec_width() || frame.spec_height() > bounds.spec_height() {
        Size {
            x: spec_min(frame.spec_width(), most_of(bounds.spec_width())) as i32,
            y: spec_min(frame.spec_height(), most_of(bounds.spec_height())) as i32,
        }
    } else {
        frame.spec_size()
    }
}

pub open spec fn exit_frame(frame: IRect, bounds: IRect) -> ExitFrame {
    let size = exit_size(frame, bounds);
    ExitFrame {
        size: if frame.spec_width() > bounds.spec_width() || frame.spec_height()
            > bounds.spec_height() {
            Some(size)
        } else {
            None
        },
        origin: Origin {
            x: (bounds.min.x + halved(bounds.spec_width() - size.x)) as i32,
            y: (bounds.min.y + halved(bounds.spec_height() - size.y)) as i32,
        },
    }
}

fn shrink(extent: i32, room: i32) -> (fit: i32)
    requires
        extent >= 0,
        room >= 0,
    ensures
        fit == spec_min(extent as int, most_of(room as int)),
{
    let most: i64 = room as i64 * 9 / 10;
    if extent as i64 <= most {
        extent
    } else {
        most as i32
    }
}

/// Says where a window is left on exit: in the middle of its display, small
/// enough to be on it in full. Without displays it stays where it is.
pub fn cleanup_on_exit(frame: IRect, displays: &Vec<IRect>) -> (place: Option<ExitFrame>)
    requires
        frame.ordered(),
        frame.measurable(),
        forall|k: int|
            0 <= k < displays@.len() ==> (#[trigger] displays@[k]).ordered()
                && displays@[k].measurable(),
    ensures
        place == (if displays@.len() == 0 {
            None
        } else {
            Some(exit_frame(frame, exit_display(frame, displays@)))
        }),
{
    if displays.len() == 0 {
        return None;
    }
    let center = frame.middle();
    let mut i: usize = 0;
    while i < displays.len() && !displays[i].contains(center)
        invariant
            i <= displays.len(),
            center == frame.spec_center(),
            first_where(displays@, covers(frame.spec_center())) == first_from(
                displays@,
                covers(frame.spec_center()),
                i as int,
            ),
        decreases displays.len() - i,
    {
        i = i + 1;
    }
    let bounds = if i < displays.len() {
        displays[i]
    } else {
        displays[0]
    };
    assert(bounds == exit_display(frame, displays@));
    assert(bounds.ordered() && bounds.measurable());
    let mut size = frame.size();
    let mut resized: Option<Size> = None;
    if size.x > bounds.width() || size.y > bounds.height() {
        size = Size { x: shrink(size.x, bounds.width()), y: shrink(size.y, bounds.height()) };
        resized = Some(size);
    }
    let origin = Origin {
        x: bounds.min.x + half(bounds.width() - size.x),
        y: bounds.min.y + half(bounds.height() - size.y),
    };
    Some(ExitFrame { size: resized, origin })
}

/// A window is left on its display in full.
pub proof fn windows_are_left_in_view(frame: IRect, bounds: IRect)
    requires
        frame.ordered(),
        frame.measurable(),
        bounds.ordered(),
        bounds.measurable(),
    ensures
        ({
            let place = exit_frame(frame, bounds);
            let size = exit_size(frame, bounds);
            &&& bounds.min.x <= place.origin.x
            &&& place.origin.x + size.x <= bounds.max.x
            &&& bounds.min.y <= place.origin.y
            &&& place.origin.y + size.y <= bounds.max.y
        }),
{
}

} // verus!

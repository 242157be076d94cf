//! The area of a display that windows may use.
use vstd::prelude::*;

use crate::ecs::DockPosition;
use crate::manager::{Display, EdgePadding};

verus! {

/// The area that windows may use lies inside the display, below the menu bar, and is
/// smaller by the paddings on each side.
pub proof fn usable_areas_lie_inside(display: Display, dock: Option<DockPosition>, padding: EdgePadding)
    requires
        display.menubar_height >= 0,
        padding.top >= 0,
        padding.right >= 0,
        padding.bottom >= 0,
        padding.left >= 0,
        dock matches Some(DockPosition::Left(taken)) ==> taken >= 0,
        dock matches Some(DockPosition::Right(taken)) ==> taken >= 0,
        dock matches Some(DockPosition::Bottom(taken)) ==> taken >= 0,
    ensures
        display.bounds.min.x + padding.left <= display.usable_min_x(dock, padding),
        display.bounds.min.y + display.menubar_height + padding.top == display.usable_min_y(
            dock,
            padding,
        ),
        display.usable_max_x(dock, padding) <= display.bounds.max.x - padding.right,
        display.usable_max_y(dock, padding) <= display.bounds.max.y - padding.bottom,
{
}

/// A dock takes its room from the side that it stands on, and from no other.
pub proof fn docks_take_their_own_side(display: Display, padding: EdgePadding, taken: i32)
    ensures
        ({
            let none = (
                display.usable_min_x(None, padding),
                display.usable_max_x(None, padding),
                display.usable_max_y(None, padding),
            );
            let left = Some(DockPosition::Left(taken));
            let right = Some(DockPosition::Right(taken));
            let bottom = Some(DockPosition::Bottom(taken));
            &&& display.usable_min_x(left, padding) == none.0 + taken
            &&& display.usable_max_x(left, padding) == none.1
            &&& display.usable_max_y(left, padding) == none.2
            &&& display.usable_min_x(right, padding) == none.0
            &&& display.usable_max_x(right, padding) == none.1 - taken
            &&& display.usable_max_y(right, padding) == none.2
            &&& display.usable_min_x(bottom, padding) == none.0
            &&& display.usable_max_x(bottom, padding) == none.1
            &&& display.usable_max_y(bottom, padding) == none.2 - taken
            &&& none.0 == display.bounds.min.x + padding.left
            &&& none.1 == display.bounds.max.x - padding.right
            &&& none.2 == display.bounds.max.y - padding.bottom
        }),
{
}

} // verus!

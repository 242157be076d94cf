//! Displays, as the window server describes them.
use vstd::prelude::*;

pub mod area;

use crate::ecs::DockPosition;
use crate::geometry::{fits, DisplayId, IRect, IVec2};

verus! {

/// The space kept free along the edges of a display.
#[derive(Clone, Copy, Debug, PartialEq, Eq, Structural)]
pub struct EdgePadding {
    pub top: i32,
    pub right: i32,
    pub bottom: i32,
    pub left: i32,
}

impl Default for EdgePadding {
    fn default() -> (padding: EdgePadding)
        ensures
            padding == (EdgePadding { top: 0, right: 0, bottom: 0, left: 0 }),
    {
        EdgePadding { top: 0, right: 0, bottom: 0, left: 0 }
    }
}

/// A display: its number, the rectangle it covers, and the height of the menu
/// bar on it.
#[derive(Clone, Copy, Debug, PartialEq, Eq, Structural)]
pub struct Display {
    pub id: DisplayId,
    pub bounds: IRect,
    pub menubar_height: i32,
}

/// What the dock takes off each edge.
pub open spec fn dock_padding(dock: Option<DockPosition>) -> EdgePadding {
    let none = EdgePadding { top: 0, right: 0, bottom: 0, left: 0 };
    match dock {
        Some(DockPosition::Bottom(taken)) => EdgePadding { bottom: taken, ..none },
        Some(DockPosition::Left(taken)) => EdgePadding { left: taken, ..none },
        Some(DockPosition::Right(taken)) => EdgePadding { right: taken, ..none },
        _ => none,
    }
}

impl Display {
    pub fn new(id: DisplayId, bounds: IRect, menubar_height: i32) -> (display: Display)
        ensures
            display == (Display { id, bounds, menubar_height }),
    {
        Display { id, bounds, menubar_height }
    }

    pub fn id(&self) -> (id: DisplayId)
        ensures
            id == self.id,
    {
        self.id
    }

    pub fn bounds(&self) -> (bounds: IRect)
        ensures
            bounds == self.bounds,
    {
        self.bounds
    }

    /// The edges of the area that windows may use, as numbers of any size: the
    /// bounds without the menu bar, the dock and the padding.
    pub open spec fn usable_min_x(self, dock: Option<DockPosition>, padding: EdgePadding) -> int {
        self.bounds.min.x + dock_padding(dock).left + padding.left
    }

    pub open spec fn usable_min_y(self, dock: Option<DockPosition>, padding: EdgePadding) -> int {
        self.bounds.min.y + self.menubar_height + padding.top
    }

    pub open spec fn usable_max_x(self, dock: Option<DockPosition>, padding: EdgePadding) -> int {
        self.bounds.max.x - dock_padding(dock).right - padding.right
    }

    pub open spec fn usable_max_y(self, dock: Option<DockPosition>, padding: EdgePadding) -> int {
        self.bounds.max.y - dock_padding(dock).bottom - padding.bottom
    }

    /// Every edge of the usable area is a coordinate.
    pub open spec fn usable(self, dock: Option<DockPosition>, padding: EdgePadding) -> bool {
        &&& fits(self.usable_min_x(dock, padding))
        &&& fits(self.usable_min_y(dock, padding))
        &&& fits(self.usable_max_x(dock, padding))
        &&& fits(self.usable_max_y(dock, padding))
    }

    /// The area that windows may use.
    pub fn actual_display_bounds(&self, dock: Option<DockPosition>, padding: EdgePadding) -> (area:
        IRect)
        requires
            self.usable(dock, padding),
        ensures
            area.min.x == self.usable_min_x(dock, padding),
            area.min.y == self.usable_min_y(dock, padding),
            area.max.x == self.usable_max_x(dock, padding),
            area.max.y == self.usable_max_y(dock, padding),
    {
        let (bottom, left, right): (i32, i32, i32) = match dock {
            Some(DockPosition::Bottom(taken)) => (taken, 0, 0),
            Some(DockPosition::Left(taken)) => (0, taken, 0),
            Some(DockPosition::Right(taken)) => (0, 0, taken),
            _ => (0, 0, 0),
        };
        let min_x: i64 = self.bounds.min.x as i64 + left as i64 + padding.left as i64;
        let min_y: i64 = self.bounds.min.y as i64 + self.menubar_height as i64 + padding.top as i64;
        let max_x: i64 = self.bounds.max.x as i64 - right as i64 - padding.right as i64;
        let max_y: i64 = self.bounds.max.y as i64 - bottom as i64 - padding.bottom as i64;
        IRect {
            min: IVec2 { x: min_x as i32, y: min_y as i32 },
            max: IVec2 { x: max_x as i32, y: max_y as i32 },
        }
    }
}

} // verus!

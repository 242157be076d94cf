//! The gaps between windows.
use vstd::prelude::*;

verus! {

/// The gap settings: an inset of every tiled window, in pixels. A rule of a
/// single application wins over these, also with an inset of nothing.
#[derive(Clone, Copy, Debug, PartialEq, Eq, Structural)]
pub struct GapsOptions {
    pub horizontal: Option<u16>,
    pub vertical: Option<u16>,
}

impl Default for GapsOptions {
    fn default() -> (gaps: GapsOptions)
        ensures
            gaps.horizontal is None,
            gaps.vertical is None,
    {
        GapsOptions { horizontal: None, vertical: None }
    }
}

} // verus!

//! Settings, as the rules read them.
use vstd::prelude::*;

pub mod gaps;

verus! {

/// What one rule of the settings says of the windows it matches.
#[derive(Debug)]
pub struct WindowParams {
    pub floating: Option<bool>,
    pub index: Option<usize>,
    pub dont_focus: Option<bool>,
    pub vertical_padding: Option<i32>,
    pub horizontal_padding: Option<i32>,
    /// Keys, with their modifiers, that go to the window untouched.
    pub passthrough: Vec<(u8, u32)>,
}

} // verus!

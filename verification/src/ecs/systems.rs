//! The steps of a frame: what comes in, what moves, what is written and what is
//! confirmed.

pub mod beginning;
pub mod exit;
pub mod flash;
pub mod frames;
pub mod landing;
pub mod motion;
pub mod outline;
pub mod overlay;
pub mod pointer;
pub mod pump;
pub mod settling;
pub mod startup;
pub mod tabs;
pub mod upkeep;
pub mod validation;
pub mod warmup;

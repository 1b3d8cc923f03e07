//! Parts of the video chip.

pub mod counter;

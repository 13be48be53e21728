//! What the pipeline hands to its front ends.

pub mod logs;
pub mod types;

//! From raw rows to records, and from records to grouped works.

pub mod dsl;
pub mod grouper;
pub mod pipeline;

//! The rule language: operations on one value, rules for one field, and the
//! matrix that holds the rules of a whole record.

pub mod mapping;
pub mod operations;
pub mod matrix;
pub mod executor;
pub mod wire;

//! Language-specific items.

pub mod jp;
pub mod jpn;

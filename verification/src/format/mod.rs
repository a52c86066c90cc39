//! Dictionary formats.

pub mod yomitan;

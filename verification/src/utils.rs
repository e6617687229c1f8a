//! Helpers that the grammar and the expansion share.

pub mod attribute;

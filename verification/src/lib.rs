//! Line-set comparison: decide, for every line of one text, whether an
//! equivalent line occurs anywhere in another text.
//!
//! Two lines are equivalent when their comparison keys agree. A key is the
//! line with surrounding whitespace removed, brought into Unicode
//! Normalization Form C, and optionally cut to its first scalar values.

pub mod chars;
pub mod lines;
pub mod key;
pub mod decoder;
pub mod comparator;
pub mod laws;

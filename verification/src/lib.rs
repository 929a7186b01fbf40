//! Levenshtein edit distance and its normalised similarity ratio, for single
//! pairs of text values and for aligned batches of optional text.
//!
//! Text is compared codepoint by codepoint: the elements of a text value are
//! its Unicode scalar values (`char`), and every length in this crate counts
//! codepoints, not bytes.

pub mod distance;
pub mod metric;
pub mod ratio;
pub mod script;
pub mod batch;

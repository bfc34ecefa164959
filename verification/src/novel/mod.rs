//! Splitting a novel into chapters.

pub mod chapter;

pub use chapter::{split_at_spans, split_default, ChapterSplitter};

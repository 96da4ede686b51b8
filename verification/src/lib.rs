//! A small verified library for formatting "promotion batches": an instance
//! name, a source/destination environment pair, a promotion type and a list of
//! target objects are turned into templated text lines.
//!
//! The pipeline has two parts: a chunker that splits the target list into
//! ordered groups of at most three, and a renderer that expands `{name}`
//! placeholders in configured line templates against a binding map.

pub mod domain;
pub mod render;
pub mod text;
pub mod utils;

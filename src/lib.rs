//! Inlines fragments of source files into Markdown documents.
//!
//! A placeholder fence names a source file and, optionally, a region of it
//! between `[md-bakery: begin @name]` and `[md-bakery: end]` markers. Each
//! placeholder is replaced by a fence that holds those lines, reindented to the
//! placeholder's indent. An escaped placeholder (`` ```lang:!source ``) is left
//! unexpanded and loses its `!`.

pub mod prefix;
pub mod lines;
pub mod region;
pub mod pattern;
pub mod bake;
pub mod laws;

pub use prefix::{common_whitespace_prefix, take_whitespaces_prefix};

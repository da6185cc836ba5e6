//! Line-oriented substring search over a text held in memory.
//!
//! A text is split into lines, and the lines that contain a query are
//! returned in the order in which they stand in the text. The comparison
//! either respects case or folds both sides to lower case first. Which of
//! the two a run uses, and what it searches for, is resolved from the
//! argument list of the process.

pub mod config;
pub mod lines;
pub mod pattern;
pub mod report;
pub mod search;
pub mod selection;

pub use config::Config;
pub use search::{run, search_case_insensitive, search_case_sensitive};

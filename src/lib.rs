//! Counting lines, words and characters of text files.
pub mod lines;
pub mod metrics;
pub mod paths;
pub mod report;

//! Verified core of a Godot export-log inspector.
//!
//! The library strips ANSI color/style escape sequences from log lines and
//! classifies each cleaned line as an error, a warning, or benign, deciding
//! whether it counts toward the run's failure verdict.

pub mod classify;
pub mod escape;
pub mod report;

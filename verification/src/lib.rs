//! Library for turning marker comments (such as `TODO`) found in tracked
//! source files into candidate issues for a remote issue tracker.
//!
//! The library holds the pure pipeline: scanning a line for a
//! comment-embedded marker, building a structured candidate with a derived
//! title and body, walking file contents, deduplicating against titles
//! already present remotely, aggregating per-file results into a sparse
//! path-to-candidates mapping, and the reversible editable-text
//! representation used for human edits. Argument handling, terminal output,
//! version-control and tracker communication stay outside; the library
//! receives their text and hands back plain values.

pub mod cli;
pub mod command;
pub mod issue;
pub mod parse;
pub mod pattern;
pub mod request;
pub mod strutil;
pub mod walk;

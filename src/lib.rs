//! A line-oriented pattern search engine: it splits a byte stream into lines,
//! selects those that satisfy a configurable predicate and gathers them, with
//! their line numbers, or counts them.
//!
//! Every byte is handled as a byte: lines may hold NUL bytes or invalid UTF-8.

pub mod bytes;
pub mod cli;
pub mod ext;
pub mod guarantees;
pub mod lines;
pub mod matcher;
pub mod results;
pub mod search;
pub mod writer;

//! A verified parser and entity-model builder for a brace-delimited,
//! block-structured configuration language describing cloud resources,
//! modules, and variables.
//!
//! The library turns raw source text into an ordered sequence of semantic
//! blocks and, from those, a render-ready sequence of entities. Parsing is
//! best-effort: malformed input never aborts the whole parse; it produces
//! warnings alongside whatever could be recognized.

pub mod attrs;
pub mod blocks;
pub mod entity;
pub mod laws;
pub mod scan;
pub mod semantics;
pub mod warnings;

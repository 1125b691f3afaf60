//! Structural search over a language-agnostic component tree.
//!
//! The crate holds the component model, the compiler for capture patterns,
//! the matching context, the matching engine, the per-language subtree index
//! and the merge of partial module trees.

pub mod constraints;
pub mod context;
pub mod engine;
pub mod index;
pub mod merge;
pub mod model;
pub mod op;
pub mod pattern;
pub mod semantics;
pub mod table;
pub mod text;

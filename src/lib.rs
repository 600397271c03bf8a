//! Generates the read-only visitor, the mutable visitor, the fold and the span
//! aggregation of an AST model from the node declarations found in its source.
//!
//! `extract` reads the declarations out of a file's tokens, `schema` holds them
//! in a table ordered by name, `classify` decides how each field is traversed,
//! `emit` renders the traversals of each node and `artifacts` assembles the
//! four documents. `laws` states what holds across these steps.

pub mod error;
pub mod text;
pub mod tokens;
pub mod schema;
pub mod classify;
pub mod emit;
pub mod artifacts;
pub mod extract;
pub mod laws;
pub mod arity;

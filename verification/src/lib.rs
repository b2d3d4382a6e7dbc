//! Reconstruction of high-level values from raw target memory.
//!
//! The crate takes static type descriptors and byte snapshots of a stopped
//! program and rebuilds structs, tagged and niche-optimised enums, unions,
//! arrays and slices from them, resolves qualified names and method calls
//! against a scope hierarchy, evaluates small expressions over the decoded
//! values and renders the results as text.  Reading memory and running target
//! functions is left to the embedding debugger.

pub mod access;
pub mod bytes;
pub mod decode;
pub mod dispatch;
pub mod error;
pub mod eval;
pub mod expr;
pub mod format;
pub mod lexer;
pub mod parser;
pub mod scope;
pub mod subjects;
pub mod types;
pub mod value;

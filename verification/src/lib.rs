//! Diagnostics for a backtracking parser over raw bytes.
//!
//! The library turns the byte offset at which a parse failed into a
//! human-readable diagnostic: the one-based line and column, the source
//! line containing the failure, and a message synthesized from the
//! context fragments (labels, expected alternatives, an optional cause)
//! that the grammar engine accumulated while backtracking.

pub mod context;
pub mod error;
pub mod location;


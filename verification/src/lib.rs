//! Predicate and statistics core of a table-format storage engine.
//!
//! The crate models row-level filter expressions, compiles them into
//! conservative file-pruning predicates over per-file min/max column
//! statistics, and offers a handle-based protocol through which an engine
//! that manages its own memory can build expression trees and walk schemas
//! one opaque integer at a time.

pub mod data_skipping;
pub mod expressions;
pub mod protocol;
pub mod schema;

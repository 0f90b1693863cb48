//! Request-planning and mutation-execution core of a relational query engine.
//!
//! The crate owns the immutable schema graph with its lazily derived indices,
//! infers which query shape a request field denotes, builds typed read and
//! write operation trees from a request, and executes nested relation
//! mutations (connect / disconnect / set) and batched updates through a
//! transaction capability, enforcing the relation-integrity rules that the
//! storage layer does not enforce on its behalf.

pub mod chars;
pub mod request;
pub mod values;
pub mod schema;
pub mod inflect;
pub mod args;
pub mod read;
pub mod write;
pub mod transaction;
pub mod executor;
pub mod update_many;
pub mod config;
pub mod dml;
pub mod error;
pub mod migration;
pub mod project;

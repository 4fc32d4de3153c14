//! Bootstrap and query driver for a named vector collection.
//!
//! The library holds the decision logic of a small program that talks to a
//! remote vector database: resolving a command-line flag to a connection
//! address, deciding whether a collection must be created, validating point
//! dimensions before an upsert, and planning one filtered similarity search.
//! All network traffic is left to the caller; the caller feeds each response
//! back into the [`driver::Driver`] state machine, which decides the next
//! request. A verified in-memory model of the remote collection
//! ([`collection::CollectionModel`]) states the write and filter semantics
//! that the program depends on.

pub mod collection;
pub mod driver;
pub mod endpoint;
pub mod payload;
pub mod point;

//! A small, verified core for a read-only book catalog service.
//!
//! The catalog holds book records keyed by a unique identifier, seeded
//! once at startup by an idempotent insert-if-absent policy.  The
//! modules here carry the service's decision logic: the seed records,
//! the in-memory catalog with its lookup semantics, the route matching
//! for the HTTP surface, the mapping from store outcomes to HTTP
//! status codes, and the JSON encoding of the response bodies.  I/O
//! (the SQL connection pool and the HTTP server) lives outside this
//! crate and hands plain values in and out.

pub mod book;
pub mod catalog;
pub mod handlers;
pub mod json;
pub mod routes;
pub mod seed;

pub use book::{Book, BookView};
pub use catalog::{Catalog, StoreError};

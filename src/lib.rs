//! Request handling and data access for a small todo-list HTTP service.
//!
//! The crate decides everything that does not need a socket or a database
//! connection: how paths are routed and decoded, what each handler answers
//! for every outcome of the data layer, how records are framed as JSON, and
//! an in-memory store with the same semantics as the relational one.
pub mod errors;
pub mod handlers;
pub mod json;
pub mod models;
pub mod route;
pub mod store;

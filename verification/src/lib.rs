//! Client-side construction and serialization of build graphs.
//!
//! A caller assembles a directed acyclic graph of build operations in a
//! [`graph::Graph`], pins one output as the entry point with
//! [`ops::terminal::Terminal`], and obtains a deterministic, content-addressed
//! [`schema::Definition`] that a remote executor consumes. Nothing is executed
//! here: the library only builds and serializes the plan.

pub mod error;
pub mod graph;
pub mod laws;
pub mod model;
pub mod context;
pub mod definition;
pub mod digest;
pub mod node;
pub mod ops;
pub mod output;
pub mod schema;
pub mod utils;
pub mod wire;

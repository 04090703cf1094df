//! The tool layer: one trait for every tool, its stream, and the registry that routes calls.
pub mod call;
pub mod description;
pub mod error;
pub mod laws;
pub mod registry;
pub mod stream;

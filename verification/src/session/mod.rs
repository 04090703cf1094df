//! Sessions: an append-only log of events that is the one source of what a model sees.
pub mod event;
pub mod ids;
pub mod laws;
pub mod log;
pub mod projection;
pub mod record;
pub mod store;
pub mod task;
pub mod workspace;

//! The plugin host: a context that plugins contribute services and subscriptions to, each of
//! which can be undone.
pub mod context;
pub mod event;
pub mod laws;
pub mod service;

//! Models: the wire format of a provider, its event stream, and the hub of providers.
pub mod chat;
pub mod hub;
pub mod hub_laws;
pub mod sse;
pub mod sse_calls;
pub mod sse_laws;

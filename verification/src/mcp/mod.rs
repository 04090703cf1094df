//! Servers that offer tools over JSON-RPC: their configuration, the messages that go to them, and
//! what is read from their answers.
pub mod client;
pub mod config;
pub mod laws;
pub mod rpc;
pub mod scan;
pub mod url;

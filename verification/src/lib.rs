//! A harness for tool-using agents.

pub mod agent;
pub mod bytes;
pub mod cli;
pub mod codec;
pub mod duplicate;
pub mod harness;
pub mod harness_laws;
pub mod host;
pub mod json;
pub mod keyed;
pub mod markup;
pub mod mcp;
pub mod order;
pub mod path;
pub mod path_laws;
pub mod pattern;
pub mod plugins;
pub mod providers;
pub mod session;
pub mod site;
pub mod table;
pub mod text;
pub mod text_laws;
pub mod tool;
pub mod tools;
pub mod web;

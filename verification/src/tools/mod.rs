//! The built-in tools.
pub mod any;
pub mod files;
pub mod page_laws;
pub mod schema;
pub mod search;
pub mod search_laws;
pub mod skills;
pub mod subagent;
pub mod task_laws;
pub mod todo;
pub mod tool_laws;
pub mod web;
pub mod web_laws;

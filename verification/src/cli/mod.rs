//! The command line: its model provider, its terminal screen and its reports.
pub mod http;
pub mod laws;
pub mod report;
pub mod tui;

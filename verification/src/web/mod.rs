//! The browser front end: the model catalog, the server hub, the requests and the live session.
pub mod api;
pub mod catalog;
pub mod laws;
pub mod servers;
pub mod socket;

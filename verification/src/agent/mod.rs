//! The agent: the vocabulary of a model request, and the turn that drives one.
pub mod builder;
pub mod grammar;
pub mod model;
pub mod step_laws;
pub mod turn;
pub mod wire_laws;

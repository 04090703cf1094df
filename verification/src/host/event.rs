//! Typed events.
use vstd::prelude::*;

verus! {

/// An event payload. Every value is one; events are told apart by the name of their type.
pub trait Event: Sized {

}

impl<E> Event for E {

}

} // verus!

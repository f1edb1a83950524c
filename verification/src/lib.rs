//! Execution context propagation.
//!
//! A [`Context`] is an immutable bag of properties, at most one per static
//! type. Writing a property never changes the context it is written to: it
//! yields a new context that holds the old properties and the new one.
//!
//! A context becomes the current one of an execution unit by being bound to
//! that unit's [`Slot`]. Binding hands out a [`ContextGuard`] that remembers
//! what the slot held before, and releasing the guard puts that back.

pub mod context;
pub mod guard;
pub mod laws;
pub mod property;
pub mod slot;

pub use crate::context::Context;
pub use crate::guard::ContextGuard;
pub use crate::slot::Slot;

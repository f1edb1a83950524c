//! The slot that holds the current context of one execution unit.

use crate::context::Context;
use crate::property::Property;
use std::any::TypeId;
use vstd::prelude::*;

verus! {

/// The current-context slot of one execution unit.
///
/// Each thread owns one slot. A slot always holds a context: the empty one
/// until a context is bound to it, and after that whatever was bound or
/// restored last. Seen as a value, a slot is the context it holds.
pub struct Slot {
    current: Context,
}

impl View for Slot {
    type V = Context;

    closed spec fn view(&self) -> Context {
        self.current
    }
}

impl Slot {
    /// A slot to which nothing has been bound: it holds the empty context.
    pub fn new() -> (slot: Self)
        ensures
            slot@@ == Map::<TypeId, Property>::empty(),
    {
        Slot { current: Context::new() }
    }

    /// The context that the slot holds.
    pub fn context(&self) -> (context: &Context)
        ensures
            *context == self@,
    {
        &self.current
    }

    /// Puts `context` into the slot and returns the context that was there.
    pub fn replace(&mut self, context: Context) -> (previous: Context)
        ensures
            final(self)@ == context,
            previous == old(self)@,
    {
        let mut previous = context;
        std::mem::swap(&mut self.current, &mut previous);
        previous
    }
}

impl Default for Slot {
    /// A slot to which nothing has been bound.
    fn default() -> (slot: Self)
        ensures
            slot@@ == Map::<TypeId, Property>::empty(),
    {
        Slot::new()
    }
}

} // verus!

//! The guard that restores the previous context.

use crate::context::Context;
use crate::slot::Slot;
use std::marker::PhantomData;
use std::rc::Rc;
use vstd::prelude::*;

verus! {

/// What binding a context hands out: the record of the context that the slot
/// held until then.
///
/// Releasing the guard puts the recorded context back into the slot. A guard
/// restores once: after its release, or if the binding found no slot, it
/// records nothing and releasing it does nothing.
///
/// Guards are made by [`Context::bind`] only. A guard belongs to the thread
/// whose slot it was made on and cannot be sent to another one.
pub struct ContextGuard {
    previous_context: Option<Context>,
    _marker: PhantomData<Rc<()>>,
}

impl ContextGuard {
    /// The context that the guard will restore, if it still has one.
    pub closed spec fn recorded(self) -> Option<Context> {
        self.previous_context
    }

    /// `self` is the guard handed out when `context` was bound to a slot
    /// that was `before` and is `after` the binding.
    pub open spec fn binds(self, context: Context, before: Slot, after: Slot) -> bool {
        &&& after@ == context
        &&& self.recorded() == Some(before@)
    }

    /// The context that a slot holds after this guard is released on it:
    /// the recorded one, or the one that `slot` holds if nothing is recorded.
    pub open spec fn restored(self, slot: Slot) -> Context {
        match self.recorded() {
            Some(previous) => previous,
            None => slot@,
        }
    }

    /// Releasing `self` on a slot that is `before` leaves the slot as
    /// `after` and the guard as `spent`.
    pub open spec fn releases(self, before: Slot, after: Slot, spent: ContextGuard) -> bool {
        &&& after@ == self.restored(before)
        &&& spent.recorded() is None
    }

    /// The guard for a binding that replaced `previous_context`, or that
    /// replaced nothing.
    pub(crate) fn new(previous_context: Option<Context>) -> (guard: Self)
        ensures
            guard.recorded() == previous_context,
    {
        ContextGuard { previous_context, _marker: PhantomData }
    }

    /// The context that the guard will restore, if it still has one.
    pub fn previous_context(&self) -> (previous: Option<&Context>)
        ensures
            match previous {
                Some(context) => self.recorded() == Some(*context),
                None => self.recorded() is None,
            },
    {
        self.previous_context.as_ref()
    }

    /// Puts the recorded context back into the slot and forgets it.
    ///
    /// The slot gets the context that was recorded when the guard was made,
    /// not the one that was current when later guards were made or released.
    /// Without a recorded context the slot is left as it is. Without a slot
    /// the recorded context is dropped.
    pub fn release(&mut self, slot: Option<&mut Slot>)
        ensures
            final(self).recorded() is None,
            match slot {
                Some(slot) => old(self).releases(*slot, *final(slot), *final(self)),
                None => true,
            },
    {
        if let Some(previous_context) = self.previous_context.take() {
            if let Some(slot) = slot {
                let _ = slot.replace(previous_context);
            }
        }
    }
}

} // verus!

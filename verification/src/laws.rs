//! What holds of every context, slot and guard.
//!
//! Each law speaks of the values that the operations relate, whatever way
//! they were arrived at: a copy that [`Context::extends`] its base is any
//! result of [`Context::with_property`], a guard that
//! [`ContextGuard::binds`] is any result of [`Context::bind`], and a slot
//! that a guard [`ContextGuard::releases`] is any outcome of
//! [`ContextGuard::release`].

use crate::context::Context;
use crate::guard::ContextGuard;
use crate::property::{key_of, Property};
use crate::slot::Slot;
use std::any::TypeId;
use vstd::prelude::*;

verus! {

/// A context with no properties has no property of any type.
pub proof fn lemma_empty_has_no_property<T: 'static>(context: Context)
    requires
        context@ == Map::<TypeId, Property>::empty(),
    ensures
        context.property::<T>() is None,
{
}

/// A slot to which nothing was ever bound holds a context without
/// properties, and so does every copy of that context: the current context
/// of such a slot has no property of any type.
pub proof fn lemma_unbound_slot_has_no_property<T: 'static>(slot: Slot, current: Context)
    requires
        slot@@ == Map::<TypeId, Property>::empty(),
        current@ == slot@@,
    ensures
        current.property::<T>() is None,
        slot@.property::<T>() is None,
{
}

/// The copy made by a write exposes the written value. What the base
/// exposes is no part of the matter: the base is read-only, so the write
/// cannot have changed it.
pub proof fn lemma_write_is_read_from_copy<T: 'static>(base: Context, copy: Context, value: T)
    requires
        copy.extends(base, value),
    ensures
        copy.property::<T>() == Some(value),
        copy@.dom().contains(key_of::<T>()),
{
}

/// Of two writes of the same type the later one wins: a read gives the
/// second value and never the first, and the outcome is the one of writing
/// the second value alone.
pub proof fn lemma_later_write_wins<T: 'static>(
    base: Context,
    first: Context,
    second: Context,
    earlier: T,
    later: T,
)
    requires
        first.extends(base, earlier),
        second.extends(first, later),
    ensures
        second.property::<T>() == Some(later),
        earlier != later ==> second.property::<T>() != Some(earlier),
        second.extends(base, later),
{
}

/// A write of one type leaves every other type alone: under any identity
/// but the one of the written type, the copy files what the base files.
pub proof fn lemma_write_keeps_other_keys<T: 'static>(
    base: Context,
    copy: Context,
    value: T,
    key: TypeId,
)
    requires
        copy.extends(base, value),
        key != key_of::<T>(),
    ensures
        copy@.dom().contains(key) == base@.dom().contains(key),
        base@.dom().contains(key) ==> copy@[key] == base@[key],
{
    assert(copy@.remove(key_of::<T>()).dom().contains(key) == base@.remove(
        key_of::<T>(),
    ).dom().contains(key));
    if base@.dom().contains(key) {
        assert(copy@.remove(key_of::<T>())[key] == base@.remove(key_of::<T>())[key]);
    }
}

/// Properties of distinct types do not collide: a write of type `T` leaves
/// the property of any other type `U` as it was, present or absent.
pub proof fn lemma_write_keeps_other_types<T: 'static, U: 'static>(
    base: Context,
    copy: Context,
    value: T,
)
    requires
        copy.extends(base, value),
        key_of::<U>() != key_of::<T>(),
    ensures
        copy.property::<U>() == base.property::<U>(),
{
    lemma_write_keeps_other_keys::<T>(base, copy, value, key_of::<U>());
}

/// Properties of distinct types live side by side, whatever their values:
/// after a write of each, both are read back.
pub proof fn lemma_distinct_types_coexist<T: 'static, U: 'static>(
    base: Context,
    first: Context,
    second: Context,
    one: T,
    other: U,
)
    requires
        first.extends(base, one),
        second.extends(first, other),
        key_of::<U>() != key_of::<T>(),
    ensures
        second.property::<T>() == Some(one),
        second.property::<U>() == Some(other),
{
    lemma_write_keeps_other_types::<U, T>(first, second, other);
}

/// Binding a context and releasing its guard puts the slot back to the
/// context that it held before, the very same one.
pub proof fn lemma_release_restores(
    context: Context,
    guard: ContextGuard,
    spent: ContextGuard,
    before: Slot,
    bound: Slot,
    after: Slot,
)
    requires
        guard.binds(context, before, bound),
        guard.releases(bound, after, spent),
    ensures
        bound@ == context,
        after@ == before@,
{
}

/// Guards released in reverse order of their making unwind like a stack:
/// the inner release brings back the outer context, the outer release the
/// one from before both.
pub proof fn lemma_nested_release(
    outer: Context,
    inner: Context,
    outer_guard: ContextGuard,
    inner_guard: ContextGuard,
    outer_spent: ContextGuard,
    inner_spent: ContextGuard,
    before: Slot,
    bound_outer: Slot,
    bound_inner: Slot,
    after_inner: Slot,
    after_outer: Slot,
)
    requires
        outer_guard.binds(outer, before, bound_outer),
        inner_guard.binds(inner, bound_outer, bound_inner),
        inner_guard.releases(bound_inner, after_inner, inner_spent),
        outer_guard.releases(after_inner, after_outer, outer_spent),
    ensures
        bound_inner@ == inner,
        after_inner@ == outer,
        after_outer@ == before@,
{
}

/// Guards released in the order of their making each restore what they
/// recorded, not what is current at the time: the outer release brings back
/// the context from before both bindings, and the inner release then brings
/// back the outer context.
pub proof fn lemma_release_out_of_order(
    outer: Context,
    inner: Context,
    outer_guard: ContextGuard,
    inner_guard: ContextGuard,
    outer_spent: ContextGuard,
    inner_spent: ContextGuard,
    before: Slot,
    bound_outer: Slot,
    bound_inner: Slot,
    after_outer: Slot,
    after_inner: Slot,
)
    requires
        outer_guard.binds(outer, before, bound_outer),
        inner_guard.binds(inner, bound_outer, bound_inner),
        outer_guard.releases(bound_inner, after_outer, outer_spent),
        inner_guard.releases(after_outer, after_inner, inner_spent),
    ensures
        after_outer@ == before@,
        after_inner@ == outer,
{
}

/// A guard restores once: releasing a released guard leaves the slot as it
/// is, whatever has been bound to it in between.
pub proof fn lemma_release_is_idempotent(
    guard: ContextGuard,
    spent: ContextGuard,
    spent_again: ContextGuard,
    first: Slot,
    second: Slot,
    after_first: Slot,
    after_second: Slot,
)
    requires
        guard.releases(first, after_first, spent),
        spent.releases(second, after_second, spent_again),
    ensures
        after_second@ == second@,
        spent_again.recorded() is None,
{
}

} // verus!

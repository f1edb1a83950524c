//! Type-erased property values and the type identities that key them.
//!
//! A container holds values of arbitrary static types side by side. To do so
//! it forgets the static type of each value and remembers its identity
//! instead. Verus cannot look behind a `dyn Any`, so the erased value is an
//! opaque handle here, and what it holds is described by two ghost
//! observations, [`content`] and [`held_type`]. The few functions that cross
//! the boundary to `std::any` and `std::sync` are trusted; everything built
//! on them is proved.

use std::any::Any;
use std::any::TypeId;
use std::sync::Arc;
use vstd::prelude::*;

verus! {

/// `std::any::TypeId`, carried through as an opaque value.
#[verifier::external_type_specification]
#[verifier::external_body]
pub struct ExTypeId(TypeId);

/// Ghost stand-in for "a value of some static type". Every `'static` type is
/// a `Value`, so a `Box<dyn Value>` can describe whatever a property holds.
pub trait Value {

}

impl<T: 'static> Value for T {

}

/// A property value whose static type has been erased. It is shared by
/// reference counting, never mutated, and safe to hand to another thread.
///
/// The field is a `dyn Any + Send + Sync`, which Verus does not take, so the
/// struct is opaque to the verifier: nothing is known of a `Property` but
/// what [`content`] and [`held_type`] say of it.
#[verifier::external_body]
pub struct Property {
    inner: Arc<dyn Any + Send + Sync>,
}

/// What a property holds, seen as a trait object: the value that was handed
/// to `Arc::new` when the property was made.
pub uninterp spec fn content(p: Property) -> Box<dyn Value>;

/// The identity of the static type of what a property holds: what
/// `TypeId::of` returns for that type.
pub uninterp spec fn held_type(p: Property) -> TypeId;

/// A value with its static type forgotten.
pub open spec fn boxed<T: 'static>(value: T) -> Box<dyn Value> {
    Box::new(value)
}

/// The value of type `T` that a property holds, if what it holds is a `T`.
pub open spec fn held<T: 'static>(p: Property) -> Option<T> {
    if exists|value: T| content(p) == boxed(value) {
        Some(choose|value: T| content(p) == boxed(value))
    } else {
        None
    }
}

/// `id` identifies the type `T`: it is the held type of exactly those
/// properties that hold a `T`.
pub open spec fn is_key_of<T: 'static>(id: TypeId) -> bool {
    forall|p: Property| (#[trigger] held_type(p) == id) <==> held::<T>(p) is Some
}

/// The identity under which properties of type `T` are filed.
pub open spec fn key_of<T: 'static>() -> TypeId {
    choose|id: TypeId| is_key_of::<T>(id)
}

/// Any identity of `T` files the same properties as [`key_of`] does: a
/// property is held under one exactly if it is held under the other.
pub proof fn lemma_key_agrees<T: 'static>(id: TypeId, p: Property)
    requires
        is_key_of::<T>(id),
    ensures
        is_key_of::<T>(key_of::<T>()),
        held_type(p) == id <==> held_type(p) == key_of::<T>(),
{
}

/// A property that holds a `T` is filed under [`key_of`], whichever identity
/// of `T` is at hand.
pub proof fn lemma_key_of_holder<T: 'static>(id: TypeId, p: Property)
    requires
        is_key_of::<T>(id),
        held::<T>(p) is Some,
    ensures
        id == key_of::<T>(),
        held_type(p) == id,
{
    lemma_key_agrees::<T>(id, p);
}

/// Trusted: `Arc::new`, with the unsizing to `dyn Any + Send + Sync`.
///
/// The new property holds `value`, and `value` is the only `T` that it
/// holds.
#[verifier::external_body]
pub(crate) fn erase<T: 'static + Send + Sync>(value: T) -> (p: Property)
    ensures
        content(p) == boxed(value),
        forall|other: T| content(p) == #[trigger] boxed(other) ==> other == value,
{
    Property { inner: Arc::new(value) }
}

/// Trusted: `<dyn Any + Send + Sync>::downcast_ref`.
///
/// Returns the held value when its static type is `T`, and `None` for any
/// other type.
#[verifier::external_body]
pub(crate) fn downcast<T: 'static>(p: &Property) -> (r: Option<&T>)
    ensures
        match r {
            Some(value) => held::<T>(*p) == Some(*value),
            None => held::<T>(*p) is None,
        },
{
    p.inner.downcast_ref::<T>()
}

/// Trusted: `TypeId::of`.
///
/// The identity it returns is the held type of a property exactly if that
/// property holds a `T`: one identity per type, and no two types share one.
#[verifier::external_body]
pub(crate) fn type_key<T: 'static>() -> (id: TypeId)
    ensures
        forall|p: Property| (#[trigger] held_type(p) == id) <==> held::<T>(p) is Some,
{
    TypeId::of::<T>()
}

/// Trusted: `==` on `TypeId`.
///
/// Two identities compare equal exactly if they are the same identity.
#[verifier::external_body]
pub(crate) fn same_key(a: &TypeId, b: &TypeId) -> (r: bool)
    ensures
        r == (*a == *b),
{
    a == b
}

/// Trusted: `Arc::clone`.
///
/// The result is a second handle on the same shared value; as a value it is
/// the property it was made from.
#[verifier::external_body]
pub(crate) fn share(p: &Property) -> (r: Property)
    ensures
        r == *p,
{
    Property { inner: Arc::clone(&p.inner) }
}

} // verus!

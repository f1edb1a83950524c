//! The immutable property container.

use crate::guard::ContextGuard;
use crate::property::{
    downcast, erase, held, held_type, is_key_of, key_of, lemma_key_of_holder, same_key, share,
    type_key, Property,
};
use crate::slot::Slot;
use std::any::TypeId;
use vstd::prelude::*;

verus! {

/// An execution context: an immutable bag of properties, at most one per
/// static type.
///
/// Seen as a map, a context takes the identity of a type to the property of
/// that type. A context is never changed once it exists: to write to it is to
/// make a new one with [`Context::with_property`].
pub struct Context {
    properties: Vec<Entry>,
}

impl View for Context {
    type V = Map<TypeId, Property>;

    closed spec fn view(&self) -> Map<TypeId, Property> {
        filed(self.properties@)
    }
}

impl Context {
    #[verifier::type_invariant]
    spec fn well_formed(self) -> bool {
        &&& distinct_keys(self.properties@)
        &&& rightly_keyed(self.properties@)
    }

    /// The property of type `T` in this context, if it has one.
    pub open spec fn property<T: 'static>(self) -> Option<T> {
        if self@.dom().contains(key_of::<T>()) {
            held::<T>(self@[key_of::<T>()])
        } else {
            None
        }
    }

    /// This context is `base` with `value` written to it: its property of
    /// type `T` is `value`, whatever `base` had there, and on every other
    /// type it is `base`.
    pub open spec fn extends<T: 'static>(self, base: Context, value: T) -> bool {
        &&& self.property::<T>() == Some(value)
        &&& self@.remove(key_of::<T>()) == base@.remove(key_of::<T>())
    }

    /// Creates an empty context.
    ///
    /// To make a context that holds properties, write them to an empty one
    /// with [`Context::with_property`].
    pub fn new() -> (context: Self)
        ensures
            context@ == Map::<TypeId, Property>::empty(),
    {
        Context { properties: Vec::new() }
    }

    /// Returns a copy of the current context of an execution unit.
    ///
    /// That is the context which `slot` holds: the one bound last and not yet
    /// released, or the empty context if none ever was. An execution unit
    /// whose slot is gone has the empty context as its current one.
    pub fn current(slot: Option<&Slot>) -> (context: Self)
        ensures
            context@ == match slot {
                Some(slot) => slot@@,
                None => Map::<TypeId, Property>::empty(),
            },
    {
        let copy = |context: &Context| -> (copy: Context)
            ensures
                copy@ == context@,
            { context.clone() };
        get_current_context(slot, copy)
    }

    /// Binds the context to an execution unit: it becomes the current context
    /// in place of the one that `slot` held.
    ///
    /// The guard that is returned records the replaced context, and
    /// releasing it makes that context current again. Where the slot is gone
    /// nothing is bound and the guard records nothing.
    pub fn bind(self, slot: Option<&mut Slot>) -> (guard: ContextGuard)
        ensures
            match slot {
                Some(slot) => guard.binds(self, *slot, *final(slot)),
                None => guard.recorded() is None,
            },
    {
        let previous_context = match slot {
            Some(slot) => Some(slot.replace(self)),
            None => None,
        };
        ContextGuard::new(previous_context)
    }

    /// Returns a copy of the context with the given property written to it.
    ///
    /// The copy holds `property` as its property of type `T`, whether or not
    /// `self` had one, and every other property of `self` unchanged. `self`
    /// is left as it was.
    pub fn with_property<T: 'static + Send + Sync>(&self, property: T) -> (context: Self)
        ensures
            context.extends(*self, property),
    {
        proof {
            use_type_invariant(self);
        }
        let id = type_key::<T>();
        let value = erase(property);
        proof {
            lemma_key_of_holder::<T>(id, value);
        }
        let mut entries: Vec<Entry> = Vec::new();
        let mut i: usize = 0;
        while i < self.properties.len()
            invariant
                i <= self.properties.len(),
                distinct_keys(self.properties@),
                rightly_keyed(self.properties@),
                distinct_keys(entries@),
                rightly_keyed(entries@),
                filed(entries@) == filed(self.properties@.take(i as int)).remove(id),
            decreases self.properties.len() - i,
        {
            let entry = &self.properties[i];
            let ghost seen = self.properties@.take(i as int);
            proof {
                assert(self.properties@.take(i + 1) =~= seen.push(*entry));
                lemma_filed_push(seen, *entry);
                lemma_filed_dom(seen, entry.key);
            }
            if !same_key(&entry.key, &id) {
                let kept = Entry { key: entry.key, value: share(&entry.value) };
                proof {
                    lemma_filed_push(entries@, kept);
                    lemma_filed_dom(entries@, kept.key);
                    assert(filed(seen).insert(entry.key, entry.value).remove(id) =~= filed(
                        seen,
                    ).remove(id).insert(entry.key, entry.value));
                }
                entries.push(kept);
            } else {
                proof {
                    assert(filed(seen).insert(entry.key, entry.value).remove(id) =~= filed(
                        seen,
                    ).remove(id));
                }
            }
            i += 1;
        }
        let written = Entry { key: id, value };
        proof {
            assert(self.properties@.take(i as int) =~= self.properties@);
            lemma_filed_push(entries@, written);
            lemma_filed_dom(entries@, id);
        }
        entries.push(written);
        let context = Context { properties: entries };
        proof {
            assert(context@.remove(id) =~= self@.remove(id));
        }
        context
    }

    /// Returns a reference to the property of type `T`, or `None` if the
    /// context has no property of that type.
    ///
    /// The lookup goes by the exact identity of `T`: a property of another
    /// type is never returned, whatever its value.
    pub fn get<T: 'static>(&self) -> (found: Option<&T>)
        ensures
            match found {
                Some(value) => self.property::<T>() == Some(*value),
                None => self.property::<T>() is None,
            },
    {
        proof {
            use_type_invariant(self);
        }
        let id = type_key::<T>();
        let mut i: usize = 0;
        while i < self.properties.len()
            invariant
                i <= self.properties.len(),
                is_key_of::<T>(id),
                distinct_keys(self.properties@),
                rightly_keyed(self.properties@),
                forall|j: int| 0 <= j < i ==> (#[trigger] self.properties@[j]).key != id,
            decreases self.properties.len() - i,
        {
            let entry = &self.properties[i];
            if same_key(&entry.key, &id) {
                proof {
                    lemma_filed_index(self.properties@, i as int);
                }
                return downcast::<T>(&entry.value);
            }
            i += 1;
        }
        proof {
            lemma_filed_dom(self.properties@, key_of::<T>());
        }
        None
    }

    /// The number of properties in the context.
    pub fn len(&self) -> (count: usize)
        ensures
            self@.dom().finite(),
            count == self@.dom().len(),
    {
        proof {
            use_type_invariant(self);
            lemma_filed_len(self.properties@);
        }
        self.properties.len()
    }
}

impl Clone for Context {
    /// A second context with the same properties. The properties themselves
    /// are shared, not copied.
    fn clone(&self) -> (context: Self)
        ensures
            context@ == self@,
    {
        proof {
            use_type_invariant(self);
        }
        let mut entries: Vec<Entry> = Vec::new();
        let mut i: usize = 0;
        while i < self.properties.len()
            invariant
                i <= self.properties.len(),
                entries@ == self.properties@.take(i as int),
            decreases self.properties.len() - i,
        {
            let entry = &self.properties[i];
            entries.push(Entry { key: entry.key, value: share(&entry.value) });
            proof {
                assert(self.properties@.take(i + 1) =~= self.properties@.take(i as int).push(
                    *entry,
                ));
            }
            i += 1;
        }
        proof {
            assert(self.properties@.take(i as int) =~= self.properties@);
        }
        Context { properties: entries }
    }
}

impl Default for Context {
    /// The empty context.
    fn default() -> (context: Self)
        ensures
            context@ == Map::<TypeId, Property>::empty(),
    {
        Context::new()
    }
}

/// Runs `f` on the current context of an execution unit and returns what
/// `f` returns.
///
/// The current context is the one that `slot` holds. An execution unit whose
/// slot is gone has the empty context as its current one.
pub fn get_current_context<F: FnOnce(&Context) -> T, T>(slot: Option<&Slot>, f: F) -> (result: T)
    requires
        match slot {
            Some(slot) => f.requires((&slot@,)),
            None => forall|context: Context|
                context@ == Map::<TypeId, Property>::empty() ==> #[trigger] f.requires((&context,)),
        },
    ensures
        match slot {
            Some(slot) => f.ensures((&slot@,), result),
            None => exists|context: Context|
                context@ == Map::<TypeId, Property>::empty() && #[trigger] f.ensures(
                    (&context,),
                    result,
                ),
        },
{
    match slot {
        Some(slot) => f(slot.context()),
        None => {
            let context = Context::new();
            f(&context)
        },
    }
}

/// One property, filed under the identity of its type.
struct Entry {
    key: TypeId,
    value: Property,
}

/// The map that a sequence of entries stands for. Where two entries share a
/// key the later one counts; a well-formed context has no such pair.
spec fn filed(entries: Seq<Entry>) -> Map<TypeId, Property>
    decreases entries.len(),
{
    if entries.len() == 0 {
        Map::empty()
    } else {
        filed(entries.drop_last()).insert(entries.last().key, entries.last().value)
    }
}

/// No two entries are filed under the same key.
spec fn distinct_keys(entries: Seq<Entry>) -> bool {
    forall|i: int, j: int|
        0 <= i < j < entries.len() ==> (#[trigger] entries[i]).key != (#[trigger] entries[j]).key
}

/// Every entry is filed under the identity of the type it holds.
spec fn rightly_keyed(entries: Seq<Entry>) -> bool {
    forall|i: int|
        0 <= i < entries.len() ==> held_type((#[trigger] entries[i]).value) == entries[i].key
}

proof fn lemma_filed_push(entries: Seq<Entry>, entry: Entry)
    ensures
        filed(entries.push(entry)) == filed(entries).insert(entry.key, entry.value),
{
    assert(entries.push(entry).drop_last() =~= entries);
}

proof fn lemma_filed_dom(entries: Seq<Entry>, key: TypeId)
    ensures
        filed(entries).dom().contains(key) <==> exists|i: int|
            0 <= i < entries.len() && (#[trigger] entries[i]).key == key,
    decreases entries.len(),
{
    if entries.len() > 0 {
        let front = entries.drop_last();
        lemma_filed_dom(front, key);
        if exists|i: int| 0 <= i < entries.len() && (#[trigger] entries[i]).key == key {
            let i = choose|i: int| 0 <= i < entries.len() && (#[trigger] entries[i]).key == key;
            if i < front.len() {
                assert(front[i].key == key);
            }
        }
    }
}

proof fn lemma_filed_index(entries: Seq<Entry>, i: int)
    requires
        distinct_keys(entries),
        0 <= i < entries.len(),
    ensures
        filed(entries).dom().contains(entries[i].key),
        filed(entries)[entries[i].key] == entries[i].value,
    decreases entries.len(),
{
    let front = entries.drop_last();
    if i < front.len() {
        lemma_filed_index(front, i);
    }
}

proof fn lemma_filed_len(entries: Seq<Entry>)
    requires
        distinct_keys(entries),
    ensures
        filed(entries).dom().finite(),
        filed(entries).dom().len() == entries.len(),
    decreases entries.len(),
{
    if entries.len() > 0 {
        let front = entries.drop_last();
        lemma_filed_len(front);
        lemma_filed_dom(front, entries.last().key);
    }
}

} // verus!

//! The listeners of a controller, by key.
//!
//! A registry is modelled as the sequence of its entries, each a key with
//! the listener registered under it. No key occurs twice. As a set of
//! bindings the registry is the map from each key to its listener.

use crate::callback::{EventCallback, EventListener};
use std::rc::Rc;
use vstd::prelude::*;

verus! {

/// Some entry of `entries` has the key `key`.
pub open spec fn has_key<V>(entries: Seq<(Seq<char>, V)>, key: Seq<char>) -> bool {
    exists|i: int| 0 <= i < entries.len() && (#[trigger] entries[i]).0 == key
}

/// The place of an entry of `entries` with the key `key`, if there is one.
pub open spec fn index_of_key<V>(entries: Seq<(Seq<char>, V)>, key: Seq<char>) -> int {
    choose|i: int| 0 <= i < entries.len() && (#[trigger] entries[i]).0 == key
}

/// No key occurs twice in `entries`.
pub open spec fn distinct_keys<V>(entries: Seq<(Seq<char>, V)>) -> bool {
    forall|i: int, j: int|
        0 <= i < j < entries.len() ==> (#[trigger] entries[i]).0 != (#[trigger] entries[j]).0
}

/// The bindings of `entries`: each key with the value found under it.
pub open spec fn bindings<V>(entries: Seq<(Seq<char>, V)>) -> Map<Seq<char>, V> {
    Map::new(|key: Seq<char>| has_key(entries, key), |key: Seq<char>| entries[index_of_key(entries, key)].1)
}

/// The values of `entries`, in order.
pub open spec fn values<V>(entries: Seq<(Seq<char>, V)>) -> Seq<V> {
    Seq::new(entries.len(), |i: int| entries[i].1)
}

/// `entries` after `value` is registered under `key`: it takes the place of
/// the value that was registered under `key`, or comes last if there was
/// none.
pub open spec fn inserted<V>(entries: Seq<(Seq<char>, V)>, key: Seq<char>, value: V) -> Seq<
    (Seq<char>, V),
> {
    if has_key(entries, key) {
        entries.update(index_of_key(entries, key), (key, value))
    } else {
        entries.push((key, value))
    }
}

/// `entries` after the value under `key` is taken out, if there was one.
pub open spec fn removed<V>(entries: Seq<(Seq<char>, V)>, key: Seq<char>) -> Seq<(Seq<char>, V)> {
    if has_key(entries, key) {
        entries.remove(index_of_key(entries, key))
    } else {
        entries
    }
}

/// The value under `key` in `bound`, if there is one.
pub open spec fn lookup<V>(bound: Map<Seq<char>, V>, key: Seq<char>) -> Option<V> {
    if bound.contains_key(key) {
        Some(bound[key])
    } else {
        None
    }
}

/// Where no key occurs twice, an entry is found at its own place.
pub proof fn lemma_index_of_key<V>(entries: Seq<(Seq<char>, V)>, i: int)
    requires
        distinct_keys(entries),
        0 <= i < entries.len(),
    ensures
        has_key(entries, entries[i].0),
        index_of_key(entries, entries[i].0) == i,
{
    let key = entries[i].0;
    let found = index_of_key(entries, key);
    assert(0 <= found < entries.len() && entries[found].0 == key);
    if found < i {
        assert(entries[found].0 != entries[i].0);
    } else if i < found {
        assert(entries[i].0 != entries[found].0);
    }
}

/// Registering keeps the keys distinct, and binds `key` to `value` while it
/// leaves every other binding as it was.
pub proof fn lemma_inserted<V>(entries: Seq<(Seq<char>, V)>, key: Seq<char>, value: V)
    requires
        distinct_keys(entries),
    ensures
        distinct_keys(inserted(entries, key, value)),
        bindings(inserted(entries, key, value)) == bindings(entries).insert(key, value),
{
    let after = inserted(entries, key, value);
    let at = if has_key(entries, key) {
        index_of_key(entries, key)
    } else {
        entries.len() as int
    };
    assert(0 <= at < after.len() && after[at] == (key, value));
    assert forall|i: int| 0 <= i < after.len() && i != at implies after[i] == entries[i]
        && after[i].0 != key by {
        if after[i].0 == key {
            assert(entries[i].0 == key);
            if has_key(entries, key) {
                lemma_index_of_key(entries, i);
            }
        }
    }
    assert forall|i: int, j: int| 0 <= i < j < after.len() implies (#[trigger] after[i]).0 != (
    #[trigger] after[j]).0 by {
        if i != at && j != at {
            assert(entries[i].0 != entries[j].0);
        }
    }
    assert forall|k: Seq<char>| has_key(after, k) == (k == key || has_key(entries, k)) by {
        if has_key(after, k) {
            let i = index_of_key(after, k);
            if i != at {
                assert(entries[i].0 == k);
            }
        }
        if k != key && has_key(entries, k) {
            let i = index_of_key(entries, k);
            assert(after[i].0 == k);
        }
    }
    assert forall|k: Seq<char>| has_key(after, k) implies #[trigger] bindings(after)[k] == bindings(
        entries,
    ).insert(key, value)[k] by {
        let i = index_of_key(after, k);
        lemma_index_of_key(after, i);
        if k != key {
            assert(i != at);
            lemma_index_of_key(entries, i);
        } else {
            assert(i == at);
        }
    }
    assert(bindings(after) =~= bindings(entries).insert(key, value));
}

/// Taking a key out keeps the keys distinct, and unbinds `key` while it
/// leaves every other binding as it was.
pub proof fn lemma_removed<V>(entries: Seq<(Seq<char>, V)>, key: Seq<char>)
    requires
        distinct_keys(entries),
    ensures
        distinct_keys(removed(entries, key)),
        !has_key(removed(entries, key), key),
        bindings(removed(entries, key)) == bindings(entries).remove(key),
{
    let after = removed(entries, key);
    if has_key(entries, key) {
        let at = index_of_key(entries, key);
        assert forall|i: int| 0 <= i < after.len() implies #[trigger] after[i] == entries[if i < at {
            i
        } else {
            i + 1
        }] && after[i].0 != key by {
            let source = if i < at {
                i
            } else {
                i + 1
            };
            assert(after[i] == entries[source]);
            if entries[source].0 == key {
                lemma_index_of_key(entries, source);
            }
        }
        assert forall|i: int, j: int| 0 <= i < j < after.len() implies (#[trigger] after[i]).0 != (
        #[trigger] after[j]).0 by {
            let si = if i < at {
                i
            } else {
                i + 1
            };
            let sj = if j < at {
                j
            } else {
                j + 1
            };
            assert(entries[si].0 != entries[sj].0);
        }
        assert forall|k: Seq<char>| has_key(after, k) == (k != key && has_key(entries, k)) by {
            if has_key(after, k) {
                let i = index_of_key(after, k);
                let source = if i < at {
                    i
                } else {
                    i + 1
                };
                assert(entries[source].0 == k);
            }
            if k != key && has_key(entries, k) {
                let i = index_of_key(entries, k);
                let target = if i < at {
                    i
                } else {
                    i - 1
                };
                assert(after[target].0 == k);
            }
        }
        assert forall|k: Seq<char>| has_key(after, k) implies #[trigger] bindings(after)[k]
            == bindings(entries)[k] by {
            let i = index_of_key(after, k);
            let source = if i < at {
                i
            } else {
                i + 1
            };
            lemma_index_of_key(after, i);
            lemma_index_of_key(entries, source);
        }
        assert(bindings(after) =~= bindings(entries).remove(key));
    } else {
        assert(bindings(after) =~= bindings(entries).remove(key));
    }
}

/// The listeners of a controller, by key, in the order of registration.
#[verifier::reject_recursive_types(S)]
#[verifier::reject_recursive_types(E)]
pub struct ListenerRegistry<S, E> {
    entries: Vec<(String, EventCallback<S, E>)>,
}

impl<S, E> View for ListenerRegistry<S, E> {
    type V = Map<Seq<char>, EventCallback<S, E>>;

    /// The listener registered under each key.
    open spec fn view(&self) -> Self::V {
        bindings(self.entries())
    }
}

impl<S, E> ListenerRegistry<S, E> {
    /// The entries of the registry, in the order of registration.
    pub closed spec fn entries(&self) -> Seq<(Seq<char>, EventCallback<S, E>)> {
        Seq::new(self.entries@.len(), |i: int| (self.entries@[i].0@, self.entries@[i].1))
    }

    /// The listeners of the registry, in the order of registration.
    pub open spec fn callbacks(&self) -> Seq<EventCallback<S, E>> {
        values(self.entries())
    }

    /// No key occurs twice, and every listener accepts every call.
    pub open spec fn well_formed(&self) -> bool {
        &&& distinct_keys(self.entries())
        &&& forall|i: int| 0 <= i < self.entries().len() ==> (#[trigger] self.entries()[i]).1.total()
    }

    #[verifier::type_invariant]
    spec fn inv(&self) -> bool {
        self.well_formed()
    }

    /// A registry without listeners.
    pub fn new() -> (registry: Self)
        ensures
            registry.entries() == Seq::<(Seq<char>, EventCallback<S, E>)>::empty(),
            registry@ == Map::<Seq<char>, EventCallback<S, E>>::empty(),
            registry.well_formed(),
    {
        let registry = ListenerRegistry { entries: Vec::new() };
        assert(registry.entries() =~= Seq::empty());
        assert(registry@ =~= Map::empty());
        registry
    }

    /// The place of the entry with the key `key`, if there is one.
    fn find(&self, key: &String) -> (found: Option<usize>)
        ensures
            self.well_formed(),
            match found {
                Some(i) => has_key(self.entries(), key@) && i == index_of_key(self.entries(), key@),
                None => !has_key(self.entries(), key@),
            },
    {
        proof {
            use_type_invariant(self);
        }
        let mut i: usize = 0;
        while i < self.entries.len()
            invariant
                i <= self.entries.len(),
                self.well_formed(),
                forall|j: int| 0 <= j < i ==> (#[trigger] self.entries()[j]).0 != key@,
            decreases self.entries.len() - i,
        {
            if self.entries[i].0 == *key {
                proof {
                    assert(self.entries()[i as int].0 == key@);
                    lemma_index_of_key(self.entries(), i as int);
                }
                return Some(i);
            }
            i = i + 1;
        }
        None
    }

    /// Registers `callback` under `id`. A listener that was registered
    /// under `id` is replaced and returned.
    pub fn insert(&mut self, id: &str, callback: EventCallback<S, E>) -> (previous: Option<
        EventCallback<S, E>,
    >)
        requires
            callback.total(),
        ensures
            final(self).entries() == inserted(old(self).entries(), id@, callback),
            final(self)@ == old(self)@.insert(id@, callback),
            previous == lookup(old(self)@, id@),
            final(self).well_formed(),
    {
        let key = id.to_owned();
        let found = self.find(&key);
        proof {
            lemma_inserted(self.entries(), key@, callback);
        }
        let ghost before = self.entries();
        let mut entries = Vec::new();
        std::mem::swap(&mut entries, &mut self.entries);
        let previous = match found {
            Some(i) => {
                let mut entry = (key, callback);
                std::mem::swap(&mut entry, &mut entries[i]);
                Some(entry.1)
            },
            None => {
                entries.push((key, callback));
                None
            },
        };
        proof {
            let after = Seq::new(entries@.len(), |i: int| (entries@[i].0@, entries@[i].1));
            assert(after =~= inserted(before, id@, callback));
        }
        self.entries = entries;
        proof {
            assert(self.entries() =~= inserted(before, id@, callback));
        }
        previous
    }

    /// Takes the listener registered under `id` out of the registry and
    /// returns it. Where none is registered under `id`, nothing changes.
    pub fn remove(&mut self, id: &str) -> (previous: Option<EventCallback<S, E>>)
        ensures
            final(self).entries() == removed(old(self).entries(), id@),
            final(self)@ == old(self)@.remove(id@),
            previous == lookup(old(self)@, id@),
            final(self).well_formed(),
    {
        let key = id.to_owned();
        let found = self.find(&key);
        proof {
            lemma_removed(self.entries(), key@);
        }
        let ghost before = self.entries();
        match found {
            Some(i) => {
                let mut entries = Vec::new();
                std::mem::swap(&mut entries, &mut self.entries);
                let entry = entries.remove(i);
                proof {
                    let after = Seq::new(entries@.len(), |i: int| (entries@[i].0@, entries@[i].1));
                    assert(after =~= removed(before, id@));
                    assert forall|j: int| 0 <= j < after.len() implies (#[trigger] after[j]).1.total() by {
                        let source = if j < i {
                            j
                        } else {
                            j + 1
                        };
                        assert(after[j] == before[source]);
                    }
                }
                self.entries = entries;
                proof {
                    assert(self.entries() =~= removed(before, id@));
                }
                Some(entry.1)
            },
            None => None,
        }
    }

    /// The listeners of the registry, in the order of registration. Each is
    /// shared with the registry, which stays as it is.
    pub fn snapshot(&self) -> (callbacks: Vec<EventCallback<S, E>>)
        ensures
            callbacks@ == self.callbacks(),
            forall|i: int| 0 <= i < callbacks@.len() ==> (#[trigger] callbacks@[i]).total(),
    {
        proof {
            use_type_invariant(self);
        }
        let mut callbacks: Vec<EventCallback<S, E>> = Vec::new();
        let mut i: usize = 0;
        while i < self.entries.len()
            invariant
                i <= self.entries.len(),
                self.well_formed(),
                callbacks@.len() == i,
                forall|j: int| 0 <= j < i ==> callbacks@[j] == (#[trigger] self.entries()[j]).1,
            decreases self.entries.len() - i,
        {
            callbacks.push(Rc::clone(&self.entries[i].1));
            i = i + 1;
        }
        proof {
            assert(callbacks@ =~= self.callbacks());
            assert forall|j: int| 0 <= j < callbacks@.len() implies (#[trigger] callbacks@[j]).total() by {
                assert(self.entries()[j].1.total());
            }
        }
        callbacks
    }
}

/// Registering twice under one key leaves the entries as one registration
/// of the second listener would: the second is bound to the key, and the
/// first is nowhere among the listeners unless another key holds it.
pub proof fn lemma_registration_replaces<V>(
    entries: Seq<(Seq<char>, V)>,
    key: Seq<char>,
    first: V,
    second: V,
)
    requires
        distinct_keys(entries),
    ensures
        inserted(inserted(entries, key, first), key, second) == inserted(entries, key, second),
        bindings(inserted(inserted(entries, key, first), key, second))[key] == second,
        forall|i: int|
            #![trigger inserted(inserted(entries, key, first), key, second)[i]]
            0 <= i < inserted(inserted(entries, key, first), key, second).len() ==> (inserted(
                inserted(entries, key, first),
                key,
                second,
            )[i].0 == key <==> i == index_of_key(inserted(entries, key, second), key)),
{
    let once = inserted(entries, key, first);
    let twice = inserted(once, key, second);
    let direct = inserted(entries, key, second);
    let at = if has_key(entries, key) {
        index_of_key(entries, key)
    } else {
        entries.len() as int
    };
    lemma_inserted(entries, key, first);
    lemma_inserted(entries, key, second);
    lemma_inserted(once, key, second);
    assert(once[at].0 == key);
    lemma_index_of_key(once, at);
    assert(twice =~= direct);
    assert(direct[at].0 == key);
    lemma_index_of_key(direct, at);
    assert(bindings(twice).contains_key(key));
    assert forall|i: int| 0 <= i < twice.len() implies (twice[i].0 == key <==> i == at) by {
        if twice[i].0 == key {
            lemma_index_of_key(twice, i);
        }
    }
}

/// Taking a key out a second time, or taking out a key that is not
/// registered, changes nothing.
pub proof fn lemma_unregistration_idempotent<V>(entries: Seq<(Seq<char>, V)>, key: Seq<char>)
    requires
        distinct_keys(entries),
    ensures
        removed(removed(entries, key), key) == removed(entries, key),
        !has_key(entries, key) ==> removed(entries, key) == entries,
{
    lemma_removed(entries, key);
}

/// What a registration changes for the passes that begin after it: the new
/// listener is called in the place of the one it replaces, or after all
/// others if it replaces none, and every other listener is called as before.
pub proof fn lemma_values_after_registration<V>(entries: Seq<(Seq<char>, V)>, key: Seq<char>, value: V)
    ensures
        has_key(entries, key) ==> values(inserted(entries, key, value)) == values(entries).update(
            index_of_key(entries, key),
            value,
        ),
        !has_key(entries, key) ==> values(inserted(entries, key, value)) == values(entries).push(
            value,
        ),
{
    if has_key(entries, key) {
        assert(values(inserted(entries, key, value)) =~= values(entries).update(
            index_of_key(entries, key),
            value,
        ));
    } else {
        assert(values(inserted(entries, key, value)) =~= values(entries).push(value));
    }
}

/// What an unregistration changes for the passes that begin after it: the
/// listener under the key is no longer called, and every other listener is
/// called as before.
pub proof fn lemma_values_after_unregistration<V>(entries: Seq<(Seq<char>, V)>, key: Seq<char>)
    ensures
        has_key(entries, key) ==> values(removed(entries, key)) == values(entries).remove(
            index_of_key(entries, key),
        ),
        !has_key(entries, key) ==> values(removed(entries, key)) == values(entries),
{
    if has_key(entries, key) {
        assert(values(removed(entries, key)) =~= values(entries).remove(index_of_key(entries, key)));
    }
}

/// The listeners of a registry are its bindings: each listener is bound to
/// the key of its entry, and each binding is one entry.
pub proof fn lemma_values_are_bindings<V>(entries: Seq<(Seq<char>, V)>)
    requires
        distinct_keys(entries),
    ensures
        values(entries).len() == entries.len(),
        forall|i: int|
            0 <= i < entries.len() ==> bindings(entries).contains_key((#[trigger] entries[i]).0)
                && bindings(entries)[entries[i].0] == values(entries)[i],
        forall|key: Seq<char>| #[trigger]
            bindings(entries).contains_key(key) ==> 0 <= index_of_key(entries, key) < entries.len()
                && values(entries)[index_of_key(entries, key)] == bindings(entries)[key],
{
    assert forall|i: int| 0 <= i < entries.len() implies bindings(entries).contains_key(
        (#[trigger] entries[i]).0,
    ) && bindings(entries)[entries[i].0] == values(entries)[i] by {
        lemma_index_of_key(entries, i);
    }
}

} // verus!

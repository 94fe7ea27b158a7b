//! A hash map whose keys come from a generator of its own, with keys that can
//! be reserved first and given their value later.

use crate::impls::map_model::MapModel;
use crate::traits::UniqueGenerator;
use core::hash::Hash;
use std::collections::hash_map::{Iter, Keys, Values};
use std::collections::HashMap;
use vstd::prelude::*;
use vstd::std_specs::hash::{obeys_key_model, spec_hash_map_len};
use vstd::std_specs::iter::IteratorSpec;

verus! {

broadcast use vstd::std_specs::hash::group_hash_axioms;

/// A reserved key: the right to store one value under it in the map that
/// gave it out.
pub struct Reservation<R> {
    /// The key reserved.
    uid: R,
    /// The identity of the map that gave it out.
    origin: usize,
}

impl<R> Reservation<R> {
    /// The key reserved.
    pub closed spec fn key(self) -> R {
        self.uid
    }

    /// The identity of the map that gave the key out.
    pub closed spec fn origin(self) -> usize {
        self.origin
    }
}

/// A hash map that makes its own keys.
///
/// A key goes into the container and back to the caller, so the map copies
/// it: it asks `Copy` of the keys, as a copy is known to equal what it was
/// taken from.
pub struct SeqHashMap<I: UniqueGenerator, T> {
    /// Tells this instance from every other, so that a reservation made by
    /// one instance is not taken by another.
    uid: usize,
    /// Makes the keys.
    gen: I,
    /// Holds the values.
    map: HashMap<I::Output, T>,
    /// The keys given out so far.
    issued: Ghost<Set<I::Output>>,
}

impl<I: UniqueGenerator, T> View for SeqHashMap<I, T> {
    type V = MapModel<I::Output, T>;

    closed spec fn view(&self) -> MapModel<I::Output, T> {
        MapModel {
            uid: self.uid,
            pending: self.gen.pending(),
            issued: self.issued@,
            entries: self.map@,
        }
    }
}

impl<I: UniqueGenerator, T> SeqHashMap<I, T> {
    /// The map is in a state that its own operations lead to, and its keys
    /// are fit for a hash map.
    pub open spec fn wf(&self) -> bool {
        &&& obeys_key_model::<I::Output>()
        &&& self@.wf()
    }

    /// The generator that makes the keys.
    pub closed spec fn generator(&self) -> I {
        self.gen
    }

    /// Makes an empty map over a generator in its default state. The map's
    /// identity is `uid`, which the counter that all instances share has
    /// given for it; no map is made where that counter was exhausted.
    ///
    /// The map is well formed where the keys are fit for a hash map: where
    /// their `==` and their hash agree with equality of their values.
    pub fn new(uid: Option<usize>) -> (made: Option<Self>) where I: Default
        ensures
            match made {
                Some(m) => {
                    &&& uid == Some(m@.uid)
                    &&& call_ensures(I::default, (), m.generator())
                    &&& m@ == MapModel::<I::Output, T>::fresh(m@.uid, m.generator().pending())
                    &&& obeys_key_model::<I::Output>() ==> m.wf()
                },
                None => uid is None,
            },
    {
        let uid = match uid {
            Some(uid) => uid,
            None => { return None; },
        };
        let gen = I::default();
        proof {
            gen.lemma_pending_distinct();
        }
        Some(Self { uid, gen, map: HashMap::new(), issued: Ghost(Set::empty()) })
    }

    /// Stores `t` under the next key and returns the key. Nothing is stored
    /// when the generator is exhausted.
    pub fn insert(&mut self, t: T) -> (key: Option<I::Output>) where I::Output: Copy + Eq + Hash
        requires
            old(self).wf(),
        ensures
            final(self).wf(),
            (final(self)@, key) == old(self)@.insert(t),
            key matches Some(k) ==> !old(self)@.issued.contains(k),
    {
        proof {
            self.gen.lemma_pending_distinct();
        }
        let uid = match self.gen.next() {
            Some(uid) => uid,
            None => { return None; },
        };
        self.issued = Ghost(self.issued@.insert(uid));
        let previous = self.map.insert(uid, t);
        assert(previous is None);
        Some(uid)
    }

    /// Takes the next key without storing anything under it, and returns a
    /// reservation of that key, bound to this map. Returns `None` when the
    /// generator is exhausted.
    pub fn reserve(&mut self) -> (reservation: Option<Reservation<I::Output>>) where
        I::Output: Copy + Eq + Hash,
        requires
            old(self).wf(),
        ensures
            final(self).wf(),
            final(self)@ == old(self)@.reserve().0,
            match reservation {
                Some(r) => {
                    &&& old(self)@.reserve().1 == Some(r.key())
                    &&& r.origin() == old(self)@.uid
                    &&& !old(self)@.issued.contains(r.key())
                    &&& final(self)@.claimed(r.key())
                },
                None => old(self)@.reserve().1 is None,
            },
    {
        proof {
            self.gen.lemma_pending_distinct();
        }
        let uid = match self.gen.next() {
            Some(uid) => uid,
            None => { return None; },
        };
        self.issued = Ghost(self.issued@.insert(uid));
        Some(Reservation { uid, origin: self.uid })
    }

    /// Stores `t` under a reserved key and returns the key, if this map made
    /// the reservation. A reservation made by another map is handed back as
    /// it came, and this map is left as it was.
    ///
    /// A reservation of this map stands for a key that the map gave out and
    /// that has no value yet.
    pub fn redeem(&mut self, reservation: Reservation<I::Output>, t: T) -> (key: Result<
        I::Output,
        Reservation<I::Output>,
    >) where I::Output: Copy + Eq + Hash
        requires
            old(self).wf(),
            reservation.origin() == old(self)@.uid ==> old(self)@.claimed(reservation.key()),
        ensures
            final(self).wf(),
            (final(self)@, key) == old(self)@.redeem(reservation, t),
    {
        if reservation.origin != self.uid {
            return Err(reservation);
        }
        let uid = reservation.uid;
        let previous = self.map.insert(uid, t);
        assert(previous is None);
        Ok(uid)
    }

    /// The value stored under `key`, if there is one. Any key is looked up,
    /// whichever map gave it out.
    pub fn get(&self, key: &I::Output) -> (value: Option<&T>) where I::Output: Eq + Hash
        requires
            self.wf(),
        ensures
            value == (match self@.get(*key) {
                Some(t) => Some(&t),
                None => None,
            }),
    {
        self.map.get(key)
    }

    /// The number of values stored.
    pub fn len(&self) -> (n: usize)
        requires
            self.wf(),
        ensures
            n == self@.entries.len(),
    {
        self.map.len()
    }

    /// The number of values that the map has room for before it allocates
    /// again: never fewer than it holds.
    pub fn capacity(&self) -> (room: usize)
        requires
            self.wf(),
        ensures
            room >= self@.entries.len(),
    {
        allocated_capacity(&self.map)
    }

    /// Walks the stored pairs of key and value, each once, in no fixed order.
    pub fn iter(&self) -> (pairs: Iter<'_, I::Output, T>)
        requires
            self.wf(),
        ensures
            pairs.remaining().no_duplicates(),
            pairs.remaining().unref().to_set() == self@.entries.kv_pairs(),
            pairs.remaining().len() == self@.entries.len(),
    {
        self.map.iter()
    }

    /// Walks the keys that have a value, each once, in no fixed order.
    pub fn keys(&self) -> (keys: Keys<'_, I::Output, T>)
        requires
            self.wf(),
        ensures
            keys.remaining().no_duplicates(),
            keys.remaining().unref().to_set() == self@.entries.dom(),
            keys.remaining().len() == self@.entries.len(),
    {
        self.map.keys()
    }

    /// Walks the stored values, one for each key, in no fixed order.
    pub fn values(&self) -> (values: Values<'_, I::Output, T>)
        requires
            self.wf(),
        ensures
            values.remaining().unref().to_set() == self@.entries.values(),
            values.remaining().len() == self@.entries.len(),
    {
        self.map.values()
    }
}

/// `HashMap::capacity`: how many elements the map can hold without
/// reallocating. How many hangs on what the allocator gave; the map holds
/// those it has, so the number is never below what `len` returns.
#[verifier::external_body]
fn allocated_capacity<K, V>(map: &HashMap<K, V>) -> (room: usize)
    ensures
        room >= spec_hash_map_len(map),
{
    map.capacity()
}

} // verus!

//! What a `SeqHashMap` is to its callers: its state as plain mathematics, each
//! operation as a function on that state, and what holds of those functions.

use crate::impls::hashmap::Reservation;
use crate::traits::sequence::{gives, run};
use crate::traits::unique::lemma_generator_never_repeats;
use crate::traits::UniqueGenerator;
use vstd::prelude::*;

verus! {

/// The state of a `SeqHashMap`.
#[verifier::reject_recursive_types(K)]
pub struct MapModel<K, T> {
    /// The identity of the instance.
    pub uid: usize,
    /// The keys that the generator has yet to give out, in order.
    pub pending: Seq<K>,
    /// The keys given out so far, by `insert` or by `reserve`.
    pub issued: Set<K>,
    /// The values stored, each under its key.
    pub entries: Map<K, T>,
}

impl<K, T> MapModel<K, T> {
    /// Every stored key was given out by this map, no key that was given out
    /// is still to come, and no key is to come twice.
    pub open spec fn wf(self) -> bool {
        &&& self.pending.no_duplicates()
        &&& forall|k: K| self.issued.contains(k) ==> !self.pending.contains(k)
        &&& self.entries.dom().subset_of(self.issued)
        &&& self.entries.dom().finite()
    }

    /// The map with identity `uid` that holds nothing and has given out
    /// nothing, over a generator with `pending` to come.
    pub open spec fn fresh(uid: usize, pending: Seq<K>) -> Self {
        MapModel { uid, pending, issued: Set::empty(), entries: Map::empty() }
    }

    /// The key `k` was given out and has no value yet.
    pub open spec fn claimed(self, k: K) -> bool {
        self.issued.contains(k) && !self.entries.contains_key(k)
    }

    /// Takes the next key from the generator, if there is one.
    pub open spec fn allocate(self) -> (Self, Option<K>) {
        if self.pending.len() > 0 {
            let k = self.pending.first();
            (
                MapModel {
                    pending: self.pending.drop_first(),
                    issued: self.issued.insert(k),
                    ..self
                },
                Some(k),
            )
        } else {
            (self, None)
        }
    }

    /// Puts `t` under the key `k`.
    pub open spec fn store(self, k: K, t: T) -> Self {
        MapModel { entries: self.entries.insert(k, t), ..self }
    }

    /// `insert`: the next key, with `t` stored under it; nothing changes when
    /// the generator is exhausted.
    pub open spec fn insert(self, t: T) -> (Self, Option<K>) {
        match self.allocate() {
            (next, Some(k)) => (next.store(k, t), Some(k)),
            (next, None) => (next, None),
        }
    }

    /// `reserve`: the next key, with nothing stored under it; nothing changes
    /// when the generator is exhausted.
    pub open spec fn reserve(self) -> (Self, Option<K>) {
        self.allocate()
    }

    /// `redeem`: a reservation of this map has its key returned, and `t`
    /// stored under it; one of another map comes back, and nothing changes.
    pub open spec fn redeem(self, reservation: Reservation<K>, t: T) -> (
        Self,
        Result<K, Reservation<K>>,
    ) {
        if reservation.origin() == self.uid {
            (self.store(reservation.key(), t), Ok(reservation.key()))
        } else {
            (self, Err(reservation))
        }
    }

    /// `get`: the value stored under `k`, if any.
    pub open spec fn get(self, k: K) -> Option<T> {
        if self.entries.contains_key(k) {
            Some(self.entries[k])
        } else {
            None
        }
    }

    /// A new map is well formed where no key is to come twice.
    pub proof fn lemma_fresh_is_wf(uid: usize, pending: Seq<K>)
        requires
            pending.no_duplicates(),
        ensures
            Self::fresh(uid, pending).wf(),
    {
    }

    /// `insert` and `reserve` each take a key as one call of `next` on the
    /// map's generator does, so what holds of every run of such calls holds of
    /// the keys of one map: none comes twice, and exhaustion lasts.
    pub proof fn lemma_allocation_is_a_call_of_next(self, t: T)
        ensures
            gives(self.pending, self.insert(t).0.pending, self.insert(t).1),
            gives(self.pending, self.reserve().0.pending, self.reserve().1),
    {
    }

    /// The keys that a map gives out hang on the keys to come alone: two maps
    /// with the same keys to come give the same key, or both none, and have
    /// the same keys to come afterwards, whatever their generators are made
    /// of.
    pub proof fn lemma_keys_hang_on_pending_alone(self, other: Self, t: T, u: T)
        requires
            self.pending == other.pending,
        ensures
            self.insert(t).1 == other.insert(u).1,
            self.reserve().1 == other.reserve().1,
            self.insert(t).0.pending == other.insert(u).0.pending,
            self.reserve().0.pending == other.reserve().0.pending,
            self.insert(t).0.pending == self.reserve().0.pending,
    {
    }

    /// Every operation leaves a well-formed map well formed; `redeem` where a
    /// reservation of this map is of a key that was given out and has no value.
    pub proof fn lemma_operations_keep_wf(self, reservation: Reservation<K>, t: T)
        requires
            self.wf(),
        ensures
            self.insert(t).0.wf(),
            self.reserve().0.wf(),
            reservation.origin() == self.uid ==> self.issued.contains(reservation.key())
                ==> self.redeem(reservation, t).0.wf(),
            reservation.origin() != self.uid ==> self.redeem(reservation, t).0.wf(),
    {
    }

    /// With no key to come, `insert` and `reserve` give no key and change
    /// nothing, however often they are called.
    pub proof fn lemma_exhausted_map_stays_as_it_is(self, t: T)
        requires
            self.pending.len() == 0,
        ensures
            self.insert(t) == (self, None::<K>),
            self.reserve() == (self, None::<K>),
    {
    }

    /// A key that was given out stays given out, and is not given out again,
    /// whatever is done with the map.
    pub proof fn lemma_issued_key_is_not_given_again(
        self,
        k: K,
        reservation: Reservation<K>,
        t: T,
    )
        requires
            self.wf(),
            self.issued.contains(k),
        ensures
            self.insert(t).1 != Some(k),
            self.reserve().1 != Some(k),
            self.insert(t).0.issued.contains(k),
            self.reserve().0.issued.contains(k),
            self.redeem(reservation, t).0.issued.contains(k),
    {
    }

    /// A reserved key stays claimed while other keys are given out and
    /// filled: only redeeming it gives it a value.
    pub proof fn lemma_claim_stands(self, k: K, other: Reservation<K>, t: T)
        requires
            self.wf(),
            self.claimed(k),
        ensures
            self.insert(t).0.claimed(k),
            self.reserve().0.claimed(k),
            other.origin() != self.uid || other.key() != k ==> self.redeem(other, t).0.claimed(k),
    {
    }

    /// A reservation is bound to the map that made it. Where map `self` made
    /// `reservation`, a map `other` of another identity hands it back and
    /// stays as it was; `self` takes it, returns the reserved key, and then
    /// holds `t` under that key.
    pub proof fn lemma_reservation_is_bound_to_its_origin(
        self,
        other: Self,
        reservation: Reservation<K>,
        t: T,
    )
        requires
            self.wf(),
            self.uid != other.uid,
            self.reserve().1 == Some(reservation.key()),
            reservation.origin() == self.uid,
        ensures
            other.redeem(reservation, t) == (other, Err::<K, Reservation<K>>(reservation)),
            ({
                let reserved = self.reserve().0;
                let redeemed = reserved.redeem(reservation, t);
                &&& reserved.claimed(reservation.key())
                &&& redeemed.1 == Ok::<K, Reservation<K>>(reservation.key())
                &&& redeemed.0.get(reservation.key()) == Some(t)
                &&& redeemed.0.wf()
            }),
    {
    }

    /// A map turns away a reservation of another identity every time alike:
    /// the reservation comes back as it was and the map stays as it was,
    /// however often, and whatever value comes with it.
    pub proof fn lemma_rejection_repeats(self, reservation: Reservation<K>, first: T, second: T)
        requires
            reservation.origin() != self.uid,
        ensures
            self.redeem(reservation, first) == (self, Err::<K, Reservation<K>>(reservation)),
            self.redeem(reservation, first).0.redeem(reservation, second) == (
                self,
                Err::<K, Reservation<K>>(reservation),
            ),
    {
    }

    /// What `insert` stored is found under the key that it returned.
    pub proof fn lemma_inserted_value_is_found(self, t: T)
        requires
            self.wf(),
        ensures
            self.insert(t).1 matches Some(k) ==> self.insert(t).0.get(k) == Some(t),
    {
    }

    /// A key that this map never gave out has no value in it.
    pub proof fn lemma_unissued_key_has_no_value(self, k: K)
        requires
            self.wf(),
            !self.issued.contains(k),
        ensures
            self.get(k) is None,
    {
    }
}

/// No two maps share an identity where one counter gave the identities. Let
/// `counters` be the states that the counter passes through in a run of calls
/// of `next`, and `uids` what the calls return: two maps made with what two
/// of the calls returned differ in their identity.
pub proof fn lemma_maps_of_one_counter_differ<K, T>(
    counters: Seq<usize>,
    uids: Seq<Option<usize>>,
    i: int,
    j: int,
    first: MapModel<K, T>,
    second: MapModel<K, T>,
)
    requires
        run(counters.map_values(|c: usize| c.pending()), uids),
        0 <= i < j < uids.len(),
        uids[i] == Some(first.uid),
        uids[j] == Some(second.uid),
    ensures
        first.uid != second.uid,
{
    lemma_generator_never_repeats(counters, uids, i, j);
}

} // verus!

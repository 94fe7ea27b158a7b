//! A generator of identifiers that never gives out the same value twice.

use crate::traits::sequence::{gives, lemma_ids_never_repeat, run};
use vstd::prelude::*;

verus! {

/// A generator with a finite output space whose values never repeat.
///
/// As for a finite sequential generator, the state fixes the values still to
/// come, and `next` hands out the first of them. In addition no value occurs
/// twice among them, so that no value is ever given out a second time.
pub trait UniqueGenerator {
    /// The identifiers this generator gives out.
    type Output;

    /// The values still to be given out, in the order in which they will come.
    spec fn pending(&self) -> Seq<Self::Output>;

    /// No value is pending twice.
    proof fn lemma_pending_distinct(&self)
        ensures
            self.pending().no_duplicates(),
    ;

    /// Requests the next identifier; `None` once the output space is used up.
    /// An exhausted generator stays exhausted.
    fn next(&mut self) -> (id: Option<Self::Output>)
        ensures
            gives(old(self).pending(), final(self).pending(), id),
    ;
}

/// No generator gives out a value twice. Let `states` be the states that one
/// generator passes through in a run of calls of `next`, and `ids` what the
/// calls return: then no two of them return the same value.
pub proof fn lemma_generator_never_repeats<G: UniqueGenerator>(
    states: Seq<G>,
    ids: Seq<Option<G::Output>>,
    i: int,
    j: int,
)
    requires
        run(states.map_values(|g: G| g.pending()), ids),
        0 <= i < j < ids.len(),
        ids[i] is Some,
        ids[j] is Some,
    ensures
        ids[i] != ids[j],
{
    states[0].lemma_pending_distinct();
    lemma_ids_never_repeat(states.map_values(|g: G| g.pending()), ids, i, j);
}

} // verus!

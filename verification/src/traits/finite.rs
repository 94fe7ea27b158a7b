//! A generator of sequential identifiers that may run out.

use crate::traits::sequence::gives;
use vstd::prelude::*;

verus! {

/// A generator with a finite output space.
///
/// The state of a generator fixes the values it has yet to give out, and their
/// order: that is `remaining`. Each call of `next` hands out the first of them.
pub trait FiniteSequential {
    /// The identifiers this generator gives out.
    type Output;

    /// The values still to be given out, in the order in which they will come.
    spec fn remaining(&self) -> Seq<Self::Output>;

    /// Requests the next identifier; `None` once the output space is used up.
    /// An exhausted generator stays exhausted.
    fn next(&mut self) -> (id: Option<Self::Output>)
        ensures
            gives(old(self).remaining(), final(self).remaining(), id),
    ;
}

} // verus!

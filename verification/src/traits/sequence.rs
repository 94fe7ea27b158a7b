//! The sequence that a generator gives out, and what holds of every run of
//! calls on one generator.

use vstd::prelude::*;

verus! {

/// One call of `next`: with `before` still to come, the generator returns
/// `id` and is left with `after` to come. It hands out the first value and
/// keeps the rest; with nothing to come it returns `None` and stays as it is.
pub open spec fn gives<K>(before: Seq<K>, after: Seq<K>, id: Option<K>) -> bool {
    if before.len() > 0 {
        id == Some(before.first()) && after =~= before.drop_first()
    } else {
        id is None && after =~= before
    }
}

/// A run of calls of `next` on one generator: call `i` finds `pending[i]`
/// still to come, returns `ids[i]` and leaves `pending[i + 1]`.
pub open spec fn run<K>(pending: Seq<Seq<K>>, ids: Seq<Option<K>>) -> bool {
    &&& pending.len() == ids.len() + 1
    &&& forall|i: int| 0 <= i < ids.len() ==> gives(pending[i], #[trigger] pending[i + 1], ids[i])
}

/// How many values the first `i` calls of a run have used up.
pub open spec fn used<K>(pending: Seq<Seq<K>>, i: int) -> int {
    pending[0].len() - pending[i].len()
}

/// What is to come after `i` calls is what was to come at the start, without
/// the values used up since; and every call uses up one value or none.
pub proof fn lemma_run_walks_the_start<K>(pending: Seq<Seq<K>>, ids: Seq<Option<K>>, i: int)
    requires
        run(pending, ids),
        0 <= i <= ids.len(),
    ensures
        0 <= used(pending, i) <= pending[0].len(),
        pending[i] == pending[0].skip(used(pending, i)),
        i < ids.len() ==> (ids[i] is Some <==> used(pending, i) < pending[0].len()),
        i < ids.len() && ids[i] is Some ==> {
            &&& ids[i] == Some(pending[0][used(pending, i)])
            &&& used(pending, i + 1) == used(pending, i) + 1
        },
        i < ids.len() && ids[i] is None ==> used(pending, i + 1) == used(pending, i),
    decreases i,
{
    if i > 0 {
        lemma_run_walks_the_start(pending, ids, i - 1);
        assert(gives(pending[i - 1], pending[i - 1 + 1], ids[i - 1]));
    }
    assert(pending[i] =~= pending[0].skip(used(pending, i)));
    if i < ids.len() {
        assert(gives(pending[i], pending[i + 1], ids[i]));
    }
}

/// The values used up never grow fewer as a run goes on.
pub proof fn lemma_used_grows<K>(pending: Seq<Seq<K>>, ids: Seq<Option<K>>, i: int, j: int)
    requires
        run(pending, ids),
        0 <= i <= j <= ids.len(),
    ensures
        used(pending, i) <= used(pending, j),
    decreases j - i,
{
    if i < j {
        lemma_used_grows(pending, ids, i, j - 1);
        lemma_run_walks_the_start(pending, ids, j - 1);
    }
}

/// Uniqueness: where no value is to come twice at the start of a run, no two
/// calls of the run return the same value.
pub proof fn lemma_ids_never_repeat<K>(pending: Seq<Seq<K>>, ids: Seq<Option<K>>, i: int, j: int)
    requires
        run(pending, ids),
        pending[0].no_duplicates(),
        0 <= i < j < ids.len(),
        ids[i] is Some,
        ids[j] is Some,
    ensures
        ids[i] != ids[j],
{
    lemma_run_walks_the_start(pending, ids, i);
    lemma_run_walks_the_start(pending, ids, j);
    lemma_used_grows(pending, ids, i + 1, j);
}

/// Exhaustion lasts: once a call of a run has returned `None`, every later
/// call returns `None`, and the generator stays as that call found it.
pub proof fn lemma_exhaustion_lasts<K>(pending: Seq<Seq<K>>, ids: Seq<Option<K>>, i: int, j: int)
    requires
        run(pending, ids),
        0 <= i <= j < ids.len(),
        ids[i] is None,
    ensures
        ids[j] is None,
        pending[j + 1] == pending[i],
    decreases j - i,
{
    if i < j {
        lemma_exhaustion_lasts(pending, ids, i, j - 1);
    }
    assert(gives(pending[j], pending[j + 1], ids[j]));
}

} // verus!

//! Facts about sequences that the engine's loops rely on.

use vstd::prelude::*;

verus! {

/// A sequence of machine numbers read as natural numbers.
pub open spec fn nats(s: Seq<usize>) -> Seq<nat> {
    s.map_values(|x: usize| x as nat)
}

/// Reading a pushed number is pushing the number read.
pub proof fn lemma_nats_push(s: Seq<usize>, x: usize)
    ensures
        nats(s.push(x)) == nats(s).push(x as nat),
{
    assert(nats(s.push(x)) =~= nats(s).push(x as nat));
}

/// Filtering one element more of a sequence keeps what was kept and decides
/// on the new element alone.
pub proof fn lemma_filter_next<A>(s: Seq<A>, keep: spec_fn(A) -> bool, i: int)
    requires
        0 <= i < s.len(),
    ensures
        s.take(i + 1).filter(keep) == if keep(s[i]) {
            s.take(i).filter(keep).push(s[i])
        } else {
            s.take(i).filter(keep)
        },
{
    assert(s.take(i + 1) =~= s.take(i).push(s[i]));
    s.take(i).lemma_filter_push(s[i], keep);
}

/// Nothing is kept of an empty prefix.
pub proof fn lemma_filter_none<A>(s: Seq<A>, keep: spec_fn(A) -> bool)
    ensures
        s.take(0).filter(keep) == Seq::<A>::empty(),
{
    reveal(Seq::filter);
    assert(s.take(0) =~= Seq::<A>::empty());
}

} // verus!

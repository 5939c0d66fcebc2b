//! Counting the elements of a sequence that satisfy a predicate, with the
//! lemmas that track the count across push, update and remove.

use vstd::prelude::*;

verus! {

pub open spec fn count_matching<A>(s: Seq<A>, p: spec_fn(A) -> bool) -> int
    decreases s.len(),
{
    if s.len() == 0 {
        0
    } else {
        count_matching(s.drop_last(), p) + if p(s.last()) {
            1int
        } else {
            0int
        }
    }
}

pub proof fn lemma_count_matching_bounds<A>(s: Seq<A>, p: spec_fn(A) -> bool)
    ensures
        0 <= count_matching(s, p) <= s.len(),
    decreases s.len(),
{
    if s.len() > 0 {
        lemma_count_matching_bounds(s.drop_last(), p);
    }
}

pub proof fn lemma_count_matching_take_step<A>(s: Seq<A>, p: spec_fn(A) -> bool, k: int)
    requires
        0 <= k < s.len(),
    ensures
        count_matching(s.take(k + 1), p) == count_matching(s.take(k), p) + if p(s[k]) {
            1int
        } else {
            0int
        },
{
    assert(s.take(k + 1).drop_last() =~= s.take(k));
    assert(s.take(k + 1).last() == s[k]);
}

pub proof fn lemma_count_matching_push<A>(s: Seq<A>, p: spec_fn(A) -> bool, e: A)
    ensures
        count_matching(s.push(e), p) == count_matching(s, p) + if p(e) {
            1int
        } else {
            0int
        },
{
    assert(s.push(e).drop_last() =~= s);
    assert(s.push(e).last() == e);
}

pub proof fn lemma_count_matching_update<A>(s: Seq<A>, p: spec_fn(A) -> bool, i: int, e: A)
    requires
        0 <= i < s.len(),
        p(e) == p(s[i]),
    ensures
        count_matching(s.update(i, e), p) == count_matching(s, p),
    decreases s.len(),
{
    if i == s.len() - 1 {
        assert(s.update(i, e).drop_last() =~= s.drop_last());
        assert(s.update(i, e).last() == e);
    } else {
        assert(s.update(i, e).drop_last() =~= s.drop_last().update(i, e));
        lemma_count_matching_update(s.drop_last(), p, i, e);
        assert(s.update(i, e).last() == s.last());
    }
}

pub proof fn lemma_count_matching_remove<A>(s: Seq<A>, p: spec_fn(A) -> bool, i: int)
    requires
        0 <= i < s.len(),
    ensures
        count_matching(s.remove(i), p) == count_matching(s, p) - if p(s[i]) {
            1int
        } else {
            0int
        },
    decreases s.len(),
{
    if i == s.len() - 1 {
        assert(s.remove(i) =~= s.drop_last());
    } else {
        assert(s.remove(i).drop_last() =~= s.drop_last().remove(i));
        lemma_count_matching_remove(s.drop_last(), p, i);
        assert(s.remove(i).last() == s.last());
    }
}

pub proof fn lemma_count_matching_nonzero<A>(s: Seq<A>, p: spec_fn(A) -> bool)
    requires
        forall|k: int| 0 <= k < s.len() ==> !p(#[trigger] s[k]),
    ensures
        count_matching(s, p) == 0,
    decreases s.len(),
{
    if s.len() > 0 {
        lemma_count_matching_nonzero(s.drop_last(), p);
    }
}

pub proof fn lemma_count_matching_member<A>(s: Seq<A>, p: spec_fn(A) -> bool, k: int)
    requires
        0 <= k < s.len(),
        p(s[k]),
    ensures
        count_matching(s, p) >= 1,
    decreases s.len(),
{
    if k == s.len() - 1 {
        lemma_count_matching_bounds(s.drop_last(), p);
    } else {
        lemma_count_matching_member(s.drop_last(), p, k);
    }
}

} // verus!

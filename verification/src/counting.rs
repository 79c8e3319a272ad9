//! Counting elements of a sequence that satisfy a predicate, with the
//! lemmas the store's counter invariants rest on.

use vstd::prelude::*;

verus! {

/// How many elements of `s` satisfy `p`.
pub open spec fn count_matching<T>(s: Seq<T>, p: spec_fn(T) -> bool) -> nat
    decreases s.len(),
{
    if s.len() == 0 {
        0
    } else {
        count_matching(s.drop_last(), p) + (if p(s.last()) {
            1nat
        } else {
            0nat
        })
    }
}

pub proof fn lemma_count_le_len<T>(s: Seq<T>, p: spec_fn(T) -> bool)
    ensures
        count_matching(s, p) <= s.len(),
    decreases s.len(),
{
    if s.len() > 0 {
        lemma_count_le_len(s.drop_last(), p);
    }
}

pub proof fn lemma_count_push<T>(s: Seq<T>, p: spec_fn(T) -> bool, x: T)
    ensures
        count_matching(s.push(x), p) == count_matching(s, p) + (if p(x) {
            1nat
        } else {
            0nat
        }),
{
    assert(s.push(x).drop_last() =~= s);
}

pub proof fn lemma_count_remove<T>(s: Seq<T>, p: spec_fn(T) -> bool, i: int)
    requires
        0 <= i < s.len(),
    ensures
        count_matching(s, p) == count_matching(s.remove(i), p) + (if p(s[i]) {
            1nat
        } else {
            0nat
        }),
    decreases s.len(),
{
    if i == s.len() - 1 {
        assert(s.remove(i) =~= s.drop_last());
    } else {
        assert(s.remove(i).drop_last() =~= s.drop_last().remove(i));
        assert(s.remove(i).last() == s.last());
        lemma_count_remove(s.drop_last(), p, i);
    }
}

pub proof fn lemma_count_update<T>(s: Seq<T>, p: spec_fn(T) -> bool, i: int, x: T)
    requires
        0 <= i < s.len(),
    ensures
        count_matching(s.update(i, x), p) + (if p(s[i]) {
            1nat
        } else {
            0nat
        }) == count_matching(s, p) + (if p(x) {
            1nat
        } else {
            0nat
        }),
    decreases s.len(),
{
    if i == s.len() - 1 {
        assert(s.update(i, x).drop_last() =~= s.drop_last());
        assert(s.update(i, x).last() == x);
    } else {
        assert(s.update(i, x).drop_last() =~= s.drop_last().update(i, x));
        assert(s.update(i, x).last() == s.last());
        lemma_count_update(s.drop_last(), p, i, x);
    }
}

pub proof fn lemma_count_zero<T>(s: Seq<T>, p: spec_fn(T) -> bool)
    ensures
        (count_matching(s, p) == 0) <==> (forall|i: int| 0 <= i < s.len() ==> !p(s[i])),
    decreases s.len(),
{
    if s.len() > 0 {
        lemma_count_zero(s.drop_last(), p);
        if count_matching(s, p) == 0 {
            assert forall|i: int| 0 <= i < s.len() implies !p(s[i]) by {
                if i < s.len() - 1 {
                    assert(s.drop_last()[i] == s[i]);
                } else {
                    assert(s.last() == s[i]);
                }
            }
        }
    }
}

pub proof fn lemma_count_take_succ<T>(s: Seq<T>, p: spec_fn(T) -> bool, i: int)
    requires
        0 <= i < s.len(),
    ensures
        count_matching(s.take(i + 1), p) == count_matching(s.take(i), p) + (if p(s[i]) {
            1nat
        } else {
            0nat
        }),
{
    assert(s.take(i + 1) =~= s.take(i).push(s[i]));
    lemma_count_push(s.take(i), p, s[i]);
}

pub proof fn lemma_count_take_all<T>(s: Seq<T>, p: spec_fn(T) -> bool)
    ensures
        count_matching(s.take(s.len() as int), p) == count_matching(s, p),
{
    assert(s.take(s.len() as int) =~= s);
}

} // verus!

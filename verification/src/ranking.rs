//! Ordering machinery for the read-side listings: a verified insertion
//! sort over two-part keys, descending.  Ascending orders are had by
//! negating the key, which a 128-bit key field makes safe.

use vstd::prelude::*;
use vstd::seq_lib::{group_to_multiset_ensures, lemma_multiset_commutative};

verus! {

/// A sort key with the index of the element it ranks.
#[derive(Clone, Copy, PartialEq, Eq, Structural, Debug)]
pub struct Ranked {
    pub k1: i128,
    pub k2: i128,
    pub idx: usize,
}

/// Lexicographic "ranks at least as high": larger keys come first.
pub open spec fn rank_geq(a: Ranked, b: Ranked) -> bool {
    a.k1 > b.k1 || (a.k1 == b.k1 && a.k2 >= b.k2)
}

pub open spec fn sorted_desc(s: Seq<Ranked>) -> bool {
    forall|i: int, j: int| 0 <= i < j < s.len() ==> rank_geq(#[trigger] s[i], #[trigger] s[j])
}

fn rank_geq_exec(a: Ranked, b: Ranked) -> (r: bool)
    ensures
        r == rank_geq(a, b),
{
    a.k1 > b.k1 || (a.k1 == b.k1 && a.k2 >= b.k2)
}

/// Sorts descending by key, keeping exactly the same elements.
pub fn sort_ranked(v: Vec<Ranked>) -> (r: Vec<Ranked>)
    ensures
        sorted_desc(r@),
        r@.to_multiset() == v@.to_multiset(),
        r@.len() == v@.len(),
{
    broadcast use group_to_multiset_ensures;

    let mut out: Vec<Ranked> = Vec::new();
    let mut i: usize = 0;
    let n = v.len();
    while i < n
        invariant
            n == v@.len(),
            0 <= i <= n,
            sorted_desc(out@),
            out@.to_multiset() == v@.take(i as int).to_multiset(),
            out@.len() == i,
        decreases n - i,
    {
        let x = v[i];
        let mut j: usize = 0;
        while j < out.len() && !rank_geq_exec(x, out[j])
            invariant
                0 <= j <= out@.len(),
                forall|m: int| 0 <= m < j ==> rank_geq(#[trigger] out@[m], x),
            decreases out@.len() - j,
        {
            j = j + 1;
        }
        let ghost before = out@;
        let ghost jj = j as int;
        out.insert(j, x);
        proof {
            let s0 = before.subrange(0, jj);
            let s1 = before.subrange(jj, before.len() as int);
            assert(before =~= s0 + s1);
            lemma_multiset_commutative(s0, s1);
            assert(out@ == before.insert(jj, x));
            assert(out@ =~= s0.push(x) + s1);
            lemma_multiset_commutative(s0.push(x), s1);
            s0.to_multiset_ensures();
            assert(s0.push(x).to_multiset() =~= s0.to_multiset().insert(x));
            assert(out@.to_multiset() =~= before.to_multiset().insert(x));
            assert(v@.take(i as int + 1) =~= v@.take(i as int).push(x));
            v@.take(i as int).to_multiset_ensures();
            assert(v@.take(i as int).push(x).to_multiset() =~= v@.take(
                i as int,
            ).to_multiset().insert(x));
            assert forall|a: int, b: int|
                0 <= a < b < out@.len() implies rank_geq(#[trigger] out@[a], #[trigger] out@[b])
                by {
                assert(forall|m: int| 0 <= m < jj ==> out@[m] == before[m]);
                assert(out@[jj] == x);
                assert(forall|m: int| jj < m < out@.len() ==> out@[m] == before[m - 1]);
                if jj < before.len() {
                    assert(rank_geq(x, before[jj]));
                }
                if b < jj || (a != jj && b != jj) {
                } else if b == jj {
                    assert(rank_geq(before[a], x));
                } else if a == jj {
                    assert(out@[b] == before[b - 1]);
                    assert(rank_geq(x, before[jj]));
                    if b - 1 > jj {
                        assert(rank_geq(before[jj], before[b - 1]));
                    }
                }
            }
        }
        i = i + 1;
    }
    proof {
        assert(v@.take(n as int) =~= v@);
    }
    out
}

/// Every element of a multiset-equal sequence is drawn from the other.
pub proof fn lemma_multiset_elements<T>(a: Seq<T>, b: Seq<T>)
    requires
        a.to_multiset() == b.to_multiset(),
    ensures
        forall|i: int| 0 <= i < a.len() ==> b.contains(#[trigger] a[i]),
{
    broadcast use group_to_multiset_ensures;

    assert forall|i: int| 0 <= i < a.len() implies b.contains(#[trigger] a[i]) by {
        a.to_multiset_ensures();
        b.to_multiset_ensures();
        assert(a.contains(a[i]));
        assert(a.to_multiset().count(a[i]) > 0);
    }
}

} // verus!

//! Deriving URL-safe identifiers from titles: lower-case the title, turn
//! whitespace into dashes, drop every other character, collapse dash runs
//! and trim dashes at the ends.  `candidate` enumerates the suffixed forms
//! the allocator tries when a slug is already taken.

use vstd::prelude::*;
use vstd::string::StringExecFns;
use crate::numbers::{dec_rep, lemma_dec_rep_basic, lemma_dec_rep_inj};
use crate::strutil::{
    is_digit, is_slug_char, is_space, lower_char, is_slug_char_exec, is_space_exec, to_lower_char,
    push_slug_char,
};

verus! {

/// A well-formed slug: non-empty, only `[a-z0-9-]`, no dash at either
/// end, and no two dashes in a row.
pub open spec fn slug_ok(s: Seq<char>) -> bool {
    &&& s.len() > 0
    &&& forall|i: int| 0 <= i < s.len() ==> is_slug_char(#[trigger] s[i])
    &&& s[0] != '-'
    &&& s[s.len() - 1] != '-'
    &&& forall|i: int| 0 < i < s.len() ==> !(#[trigger] s[i] == '-' && s[i - 1] == '-')
}

/// First pipeline stage: case folding, whitespace to dashes.
pub open spec fn map_slug(s: Seq<char>) -> Seq<char> {
    s.map_values(|c: char| if is_space(c) { '-' } else { lower_char(c) })
}

/// Second stage: only the slug alphabet survives.
pub open spec fn keep_slug(s: Seq<char>) -> Seq<char>
    decreases s.len(),
{
    if s.len() == 0 {
        Seq::empty()
    } else {
        keep_slug(s.drop_last()) + (if is_slug_char(s.last()) {
            seq![s.last()]
        } else {
            Seq::empty()
        })
    }
}

/// Third stage: runs of dashes become a single dash.
pub open spec fn collapse(s: Seq<char>) -> Seq<char>
    decreases s.len(),
{
    if s.len() <= 1 {
        s
    } else {
        collapse(s.drop_last()) + (if s.last() == '-' && s[s.len() - 2] == '-' {
            Seq::empty()
        } else {
            seq![s.last()]
        })
    }
}

/// Last stage: no dash survives at either end.
pub open spec fn trim_front(s: Seq<char>) -> Seq<char>
    decreases s.len(),
{
    if s.len() > 0 && s[0] == '-' {
        trim_front(s.drop_first())
    } else {
        s
    }
}

pub open spec fn trim_back(s: Seq<char>) -> Seq<char>
    decreases s.len(),
{
    if s.len() > 0 && s[s.len() - 1] == '-' {
        trim_back(s.drop_last())
    } else {
        s
    }
}

/// The slug a title maps to; empty when the title has no usable character.
pub open spec fn slug_of(title: Seq<char>) -> Seq<char> {
    trim_back(trim_front(collapse(keep_slug(map_slug(title)))))
}

/// The form the allocator tries on the `k`-th collision.
pub open spec fn candidate(base: Seq<char>, k: nat) -> Seq<char> {
    if k == 0 {
        base
    } else {
        base + seq!['-'] + dec_rep(k)
    }
}

pub proof fn lemma_keep_slug_chars(s: Seq<char>)
    ensures
        forall|i: int| 0 <= i < keep_slug(s).len() ==> is_slug_char(#[trigger] keep_slug(s)[i]),
    decreases s.len(),
{
    if s.len() > 0 {
        lemma_keep_slug_chars(s.drop_last());
        let p = keep_slug(s.drop_last());
        assert forall|i: int| 0 <= i < keep_slug(s).len() implies is_slug_char(
            #[trigger] keep_slug(s)[i],
        ) by {
            if i < p.len() {
                assert(keep_slug(s)[i] == p[i]);
            } else {
                assert(keep_slug(s)[i] == s.last());
            }
        }
    }
}

pub proof fn lemma_collapse_props(s: Seq<char>)
    requires
        forall|i: int| 0 <= i < s.len() ==> is_slug_char(#[trigger] s[i]),
    ensures
        forall|i: int| 0 <= i < collapse(s).len() ==> is_slug_char(#[trigger] collapse(s)[i]),
        forall|i: int|
            0 < i < collapse(s).len() ==> !(#[trigger] collapse(s)[i] == '-' && collapse(s)[i - 1]
                == '-'),
        s.len() > 0 ==> collapse(s).len() > 0 && collapse(s).last() == s.last() && collapse(
            s,
        )[0] == s[0],
    decreases s.len(),
{
    if s.len() > 1 {
        assert(forall|i: int| 0 <= i < s.drop_last().len() ==> is_slug_char(
            #[trigger] s.drop_last()[i],
        ));
        lemma_collapse_props(s.drop_last());
        let c = collapse(s);
        let p = collapse(s.drop_last());
        if s.last() == '-' && s[s.len() - 2] == '-' {
            assert(c =~= p);
            assert(p.last() == s.drop_last().last());
            assert(s.drop_last().last() == s[s.len() - 2]);
        } else {
            assert(c =~= p.push(s.last()));
            assert(p.last() == s[s.len() - 2]);
            assert forall|i: int| 0 < i < c.len() implies !(#[trigger] c[i] == '-' && c[i - 1]
                == '-') by {
                if i < c.len() - 1 {
                    assert(c[i] == p[i] && c[i - 1] == p[i - 1]);
                } else {
                    assert(c[i] == s.last() && c[i - 1] == p.last());
                }
            }
        }
    }
}

pub proof fn lemma_trim_front_props(s: Seq<char>)
    ensures
        trim_front(s).len() <= s.len(),
        trim_front(s).len() > 0 ==> trim_front(s)[0] != '-',
        forall|i: int|
            0 <= i < trim_front(s).len() ==> #[trigger] trim_front(s)[i] == s[s.len() - trim_front(
                s,
            ).len() + i],
    decreases s.len(),
{
    if s.len() > 0 && s[0] == '-' {
        lemma_trim_front_props(s.drop_first());
        assert(forall|i: int|
            0 <= i < s.drop_first().len() ==> #[trigger] s.drop_first()[i] == s[i + 1]);
    }
}

pub proof fn lemma_trim_back_props(s: Seq<char>)
    ensures
        trim_back(s).len() <= s.len(),
        trim_back(s).len() > 0 ==> trim_back(s)[trim_back(s).len() - 1] != '-',
        forall|i: int| 0 <= i < trim_back(s).len() ==> #[trigger] trim_back(s)[i] == s[i],
    decreases s.len(),
{
    if s.len() > 0 && s[s.len() - 1] == '-' {
        lemma_trim_back_props(s.drop_last());
    }
}

/// A non-empty result of the pipeline is a well-formed slug.
pub proof fn lemma_slug_of_ok(title: Seq<char>)
    ensures
        slug_of(title).len() > 0 ==> slug_ok(slug_of(title)),
{
    let kept = keep_slug(map_slug(title));
    let coll = collapse(kept);
    let front = trim_front(coll);
    let out = trim_back(front);
    lemma_keep_slug_chars(map_slug(title));
    lemma_collapse_props(kept);
    lemma_trim_front_props(coll);
    lemma_trim_back_props(front);
    if out.len() > 0 {
        assert(out[0] == front[0]);
        assert forall|i: int| 0 < i < out.len() implies !(#[trigger] out[i] == '-' && out[i - 1]
            == '-') by {
            let off = coll.len() - front.len();
            assert(out[i] == front[i] && front[i] == coll[off + i]);
            assert(out[i - 1] == front[i - 1] && front[i - 1] == coll[off + i - 1]);
        }
        assert forall|i: int| 0 <= i < out.len() implies is_slug_char(#[trigger] out[i]) by {
            let off = coll.len() - front.len();
            assert(out[i] == front[i] && front[i] == coll[off + i]);
        }
    }
}

/// Distinct collision counters give distinct candidates.
pub proof fn lemma_candidate_inj(base: Seq<char>, i: nat, j: nat)
    requires
        candidate(base, i) == candidate(base, j),
    ensures
        i == j,
{
    lemma_dec_rep_basic(i);
    lemma_dec_rep_basic(j);
    if i == 0 && j != 0 {
        assert(candidate(base, j).len() > base.len());
    } else if i != 0 && j == 0 {
        assert(candidate(base, i).len() > base.len());
    } else if i != 0 && j != 0 {
        let ci = candidate(base, i);
        let cj = candidate(base, j);
        assert(dec_rep(i) =~= ci.subrange(base.len() as int + 1, ci.len() as int));
        assert(dec_rep(j) =~= cj.subrange(base.len() as int + 1, cj.len() as int));
        lemma_dec_rep_inj(i, j);
    }
}

/// Suffixing a well-formed slug with `-k` keeps it well-formed.
pub proof fn lemma_candidate_ok(base: Seq<char>, k: nat)
    requires
        slug_ok(base),
    ensures
        slug_ok(candidate(base, k)),
{
    if k != 0 {
        lemma_dec_rep_basic(k);
        let c = candidate(base, k);
        let n = base.len() as int;
        assert forall|i: int| 0 <= i < c.len() implies is_slug_char(#[trigger] c[i]) by {
            if i < n {
                assert(c[i] == base[i]);
            } else if i == n {
                assert(c[i] == '-');
            } else {
                assert(c[i] == dec_rep(k)[i - n - 1]);
                assert(is_digit(dec_rep(k)[i - n - 1]));
            }
        }
        assert(c[0] == base[0]);
        assert(c[c.len() - 1] == dec_rep(k)[dec_rep(k).len() - 1]);
        assert(is_digit(dec_rep(k)[dec_rep(k).len() - 1]));
        assert forall|i: int| 0 < i < c.len() implies !(#[trigger] c[i] == '-' && c[i - 1] == '-')
            by {
            if i < n {
                assert(c[i] == base[i] && c[i - 1] == base[i - 1]);
            } else if i == n {
                assert(c[i - 1] == base[n - 1]);
            } else if i == n + 1 {
                assert(c[i] == dec_rep(k)[0]);
                assert(is_digit(dec_rep(k)[0]));
            } else {
                assert(c[i] == dec_rep(k)[i - n - 1]);
                assert(is_digit(dec_rep(k)[i - n - 1]));
            }
        }
    }
}

/// Builds the `k`-th candidate string for a base slug.
pub fn make_candidate(base: &str, k: u64) -> (r: String)
    ensures
        r@ == candidate(base@, k as nat),
{
    if k == 0 {
        base.to_owned()
    } else {
        let mut s = base.to_owned();
        push_slug_char(&mut s, '-');
        let digits = crate::numbers::u64_to_dec(k);
        s.append(digits.as_str());
        proof {
            assert(s@ =~= candidate(base@, k as nat));
        }
        s
    }
}

/// Derives the slug for a title; the result is empty exactly when no
/// character of the title survives the pipeline.
pub fn generate_slug(title: &str) -> (r: String)
    ensures
        r@ == slug_of(title@),
{
    let n = title.unicode_len();
    // stages one and two: fold, then filter
    let mut kept = String::new();
    let mut i: usize = 0;
    while i < n
        invariant
            n == title@.len(),
            0 <= i <= n,
            kept@ == keep_slug(map_slug(title@.take(i as int))),
        decreases n - i,
    {
        let c = title.get_char(i);
        let m = if is_space_exec(c) {
            '-'
        } else {
            to_lower_char(c)
        };
        proof {
            assert(map_slug(title@.take(i as int + 1)) =~= map_slug(title@.take(i as int)).push(
                m,
            ));
            assert(map_slug(title@.take(i as int)).push(m).drop_last() =~= map_slug(
                title@.take(i as int),
            ));
        }
        if is_slug_char_exec(m) {
            push_slug_char(&mut kept, m);
            proof {
                assert(kept@ =~= keep_slug(map_slug(title@.take(i as int + 1))));
            }
        } else {
            proof {
                assert(kept@ =~= keep_slug(map_slug(title@.take(i as int + 1))));
            }
        }
        i = i + 1;
    }
    proof {
        assert(title@.take(n as int) =~= title@);
        lemma_keep_slug_chars(map_slug(title@));
    }
    // stage three: collapse dash runs
    let m_len = kept.as_str().unicode_len();
    let mut coll = String::new();
    let mut j: usize = 0;
    while j < m_len
        invariant
            m_len == kept@.len(),
            0 <= j <= m_len,
            coll@ == collapse(kept@.take(j as int)),
            kept@ == keep_slug(map_slug(title@)),
            forall|q: int| 0 <= q < kept@.len() ==> is_slug_char(#[trigger] kept@[q]),
        decreases m_len - j,
    {
        let c = kept.as_str().get_char(j);
        proof {
            assert(kept@.take(j as int + 1).drop_last() =~= kept@.take(j as int));
        }
        if j == 0 {
            push_slug_char(&mut coll, c);
            proof {
                assert(coll@ =~= collapse(kept@.take(j as int + 1)));
            }
        } else {
            let p = kept.as_str().get_char(j - 1);
            if !(c == '-' && p == '-') {
                push_slug_char(&mut coll, c);
            }
            proof {
                assert(coll@ =~= collapse(kept@.take(j as int + 1)));
            }
        }
        j = j + 1;
    }
    proof {
        assert(kept@.take(m_len as int) =~= kept@);
    }
    // stage four: trim dashes at the ends
    let c_len = coll.as_str().unicode_len();
    let mut a: usize = 0;
    while a < c_len && coll.as_str().get_char(a) == '-'
        invariant
            c_len == coll@.len(),
            0 <= a <= c_len,
            forall|q: int| 0 <= q < a ==> coll@[q] == '-',
        decreases c_len - a,
    {
        a = a + 1;
    }
    if a == c_len {
        proof {
            lemma_trim_all_dashes(coll@);
            lemma_trim_back_props(trim_front(coll@));
        }
        return String::new();
    }
    let mut b: usize = c_len;
    while b > a && coll.as_str().get_char(b - 1) == '-'
        invariant
            c_len == coll@.len(),
            a <= b <= c_len,
            a < c_len,
            !(coll@[a as int] == '-'),
            forall|q: int| b <= q < c_len ==> coll@[q] == '-',
        decreases b,
    {
        b = b - 1;
    }
    let out = coll.as_str().substring_char(a, b).to_owned();
    proof {
        lemma_trim_exact(coll@, a as int, b as int);
        assert(out@ =~= trim_back(trim_front(coll@)));
    }
    out
}

/// When every character is a dash, trimming leaves nothing.
proof fn lemma_trim_all_dashes(s: Seq<char>)
    requires
        forall|q: int| 0 <= q < s.len() ==> s[q] == '-',
    ensures
        trim_front(s).len() == 0,
    decreases s.len(),
{
    if s.len() > 0 {
        assert(forall|q: int| 0 <= q < s.drop_first().len() ==> s.drop_first()[q] == '-');
        lemma_trim_all_dashes(s.drop_first());
    }
}

/// Trimming removes exactly the outer runs of dashes.
proof fn lemma_trim_exact(s: Seq<char>, a: int, b: int)
    requires
        0 <= a <= b <= s.len(),
        forall|q: int| 0 <= q < a ==> s[q] == '-',
        a < s.len(),
        s[a] != '-',
        forall|q: int| b <= q < s.len() ==> s[q] == '-',
        b > a,
        s[b - 1] != '-',
    ensures
        trim_back(trim_front(s)) == s.subrange(a, b),
    decreases s.len(),
{
    if a > 0 {
        assert(s[0] == '-');
        let t = s.drop_first();
        assert(forall|q: int| 0 <= q < t.len() ==> #[trigger] t[q] == s[q + 1]);
        lemma_trim_exact(t, a - 1, b - 1);
        assert(t.subrange(a - 1, b - 1) =~= s.subrange(a, b));
    } else if b < s.len() {
        assert(trim_front(s) == s);
        assert(s[s.len() - 1] == '-');
        let t = s.drop_last();
        lemma_trim_exact(t, a, b);
        assert(trim_front(t) == t) by {
            assert(t[0] == s[0]);
        }
        assert(t.subrange(a, b) =~= s.subrange(a, b));
    } else {
        assert(trim_front(s) == s);
        assert(trim_back(s) == s);
        assert(s.subrange(a, b) =~= s);
    }
}

} // verus!

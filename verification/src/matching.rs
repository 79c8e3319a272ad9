//! Case-insensitive keyword matching: substring, word-delimited and
//! prefix hits, and in-order multi-word embedding, as the relevance
//! scorer weighs them.

use vstd::prelude::*;
use vstd::string::{StringExecFns, StrSliceExecFns};
use crate::strutil::{eq_ci, is_space, is_space_exec, lower_char, append_one};

verus! {

/// The needle matches at position `i` of the haystack, ignoring ASCII
/// case.
pub open spec fn ci_match_at(hay: Seq<char>, needle: Seq<char>, i: int) -> bool {
    &&& 0 <= i
    &&& i + needle.len() <= hay.len()
    &&& forall|j: int|
        0 <= j < needle.len() ==> lower_char(#[trigger] hay[i + j]) == lower_char(needle[j])
}

/// The needle occurs somewhere in the haystack, ignoring ASCII case.
pub open spec fn contains_ci(hay: Seq<char>, needle: Seq<char>) -> bool {
    exists|i: int| ci_match_at(hay, needle, i)
}

/// The haystack starts with the needle, ignoring ASCII case.
pub open spec fn prefix_ci(hay: Seq<char>, needle: Seq<char>) -> bool {
    ci_match_at(hay, needle, 0)
}

/// The words occur in order, each after the end of the one before,
/// starting no earlier than `from`.
pub open spec fn embeds_from(hay: Seq<char>, words: Seq<Seq<char>>, from: int) -> bool
    decreases words.len(),
{
    if words.len() == 0 {
        true
    } else {
        exists|i: int|
            from <= i && #[trigger] ci_match_at(hay, words[0], i) && embeds_from(
                hay,
                words.drop_first(),
                i + words[0].len(),
            )
    }
}

/// First case-insensitive match of `needle` in `hay` at or after `from`.
pub fn find_ci(hay: &str, needle: &str, from: usize) -> (r: Option<usize>)
    requires
        from <= hay@.len(),
    ensures
        match r {
            Some(i) => from <= i && ci_match_at(hay@, needle@, i as int) && forall|m: int|
                from <= m < i ==> !ci_match_at(hay@, needle@, m),
            None => forall|m: int| from <= m ==> !ci_match_at(hay@, needle@, m),
        },
{
    let n = hay.unicode_len();
    let m = needle.unicode_len();
    if m > n {
        proof {
            assert forall|q: int| from <= q implies !ci_match_at(hay@, needle@, q) by {}
        }
        return None;
    }
    let mut i = from;
    while i <= n - m
        invariant
            n == hay@.len(),
            m == needle@.len(),
            from <= i,
            m <= n,
            forall|q: int| from <= q < i ==> !ci_match_at(hay@, needle@, q),
        decreases n - i,
    {
        let mut j: usize = 0;
        let mut ok = true;
        while j < m && ok
            invariant
                n == hay@.len(),
                m == needle@.len(),
                i + m <= n,
                0 <= j <= m,
                ok ==> forall|q: int|
                    0 <= q < j ==> lower_char(#[trigger] hay@[i + q]) == lower_char(needle@[q]),
                !ok ==> !ci_match_at(hay@, needle@, i as int),
            decreases m - j + (if ok {
                1int
            } else {
                0int
            }),
        {
            if !eq_ci(hay.get_char(i + j), needle.get_char(j)) {
                proof {
                    assert(lower_char(hay@[i as int + j as int]) != lower_char(needle@[j as int]));
                }
                ok = false;
            } else {
                j = j + 1;
            }
        }
        if ok {
            return Some(i);
        }
        i = i + 1;
    }
    proof {
        assert forall|q: int| from <= q implies !ci_match_at(hay@, needle@, q) by {
            if q < i {
            } else {
                assert(q + needle@.len() > hay@.len());
            }
        }
    }
    None
}


pub fn contains_ci_exec(hay: &str, needle: &str) -> (r: bool)
    ensures
        r == contains_ci(hay@, needle@),
{
    match find_ci(hay, needle, 0) {
        Some(_) => true,
        None => {
            proof {
                assert forall|q: int| !ci_match_at(hay@, needle@, q) by {
                    if q >= 0 {
                    }
                }
            }
            false
        },
    }
}

pub fn prefix_ci_exec(hay: &str, needle: &str) -> (r: bool)
    ensures
        r == prefix_ci(hay@, needle@),
{
    let n = hay.unicode_len();
    let m = needle.unicode_len();
    if m > n {
        return false;
    }
    let mut j: usize = 0;
    while j < m
        invariant
            n == hay@.len(),
            m == needle@.len(),
            m <= n,
            0 <= j <= m,
            forall|q: int|
                0 <= q < j ==> lower_char(#[trigger] hay@[q]) == lower_char(needle@[q]),
        decreases m - j,
    {
        if !eq_ci(hay.get_char(j), needle.get_char(j)) {
            proof {
                assert(lower_char(hay@[0 + j as int]) != lower_char(needle@[j as int]));
            }
            return false;
        }
        j = j + 1;
    }
    true
}

/// A word-delimited hit: the needle occurs with a plain space on both
/// sides.
pub open spec fn word_hit(hay: Seq<char>, needle: Seq<char>) -> bool {
    contains_ci(hay, seq![' '] + needle + seq![' '])
}

pub fn word_hit_exec(hay: &str, needle: &str) -> (r: bool)
    ensures
        r == word_hit(hay@, needle@),
{
    let mut padded = String::new();
    proof {
        reveal_strlit(" ");
    }
    append_one(&mut padded, " ");
    padded.append(needle);
    append_one(&mut padded, " ");
    proof {
        assert(padded@ =~= seq![' '] + needle@ + seq![' ']);
    }
    contains_ci_exec(hay, padded.as_str())
}

/// Spec-level monotonicity: an embedding that starts later also counts
/// as one that may start earlier.
proof fn lemma_embeds_mono(hay: Seq<char>, words: Seq<Seq<char>>, a: int, b: int)
    requires
        a <= b,
        embeds_from(hay, words, b),
    ensures
        embeds_from(hay, words, a),
{
    if words.len() > 0 {
        let i = choose|i: int|
            b <= i && #[trigger] ci_match_at(hay, words[0], i) && embeds_from(
                hay,
                words.drop_first(),
                i + words[0].len(),
            );
        assert(a <= i && ci_match_at(hay, words[0], i) && embeds_from(
            hay,
            words.drop_first(),
            i + words[0].len(),
        ));
    }
}

/// Greedy in-order matching of all words, starting at `from`.  Taking
/// the earliest hit for each word is complete: the result equals the
/// existence of any in-order embedding.
pub fn embeds_exec(hay: &str, words: &Vec<String>, from: usize) -> (r: bool)
    requires
        from <= hay@.len(),
    ensures
        r == embeds_from(hay@, words@.map_values(|w: String| w@), from as int),
    decreases words@.len(),
{
    let ghost ws = words@.map_values(|w: String| w@);
    if words.len() == 0 {
        return true;
    }
    let hn = hay.unicode_len();
    let first = &words[0];
    match find_ci(hay, first.as_str(), from) {
        None => {
            proof {
                if embeds_from(hay@, ws, from as int) {
                    let i = choose|i: int|
                        from <= i && #[trigger] ci_match_at(hay@, ws[0], i) && embeds_from(
                            hay@,
                            ws.drop_first(),
                            i + ws[0].len(),
                        );
                    assert(!ci_match_at(hay@, first@, i));
                }
            }
            false
        },
        Some(e) => {
            let rest = split_off_first(words);
            proof {
                assert(e + first@.len() <= hay@.len());
            }
            let next = e + first.unicode_len();
            let sub = embeds_exec(hay, &rest, next);
            proof {
                assert(rest@.map_values(|w: String| w@) =~= ws.drop_first());
                if sub {
                    assert(ci_match_at(hay@, ws[0], e as int));
                    assert(embeds_from(hay@, ws.drop_first(), e as int + ws[0].len() as int));
                    assert(embeds_from(hay@, ws, from as int));
                } else {
                    if embeds_from(hay@, ws, from as int) {
                        let i = choose|i: int|
                            from <= i && #[trigger] ci_match_at(hay@, ws[0], i) && embeds_from(
                                hay@,
                                ws.drop_first(),
                                i + ws[0].len(),
                            );
                        assert(i >= e);
                        lemma_embeds_mono(
                            hay@,
                            ws.drop_first(),
                            e as int + ws[0].len() as int,
                            i + ws[0].len(),
                        );
                    }
                }
            }
            sub
        },
    }
}

/// A fresh vector holding all words but the first.
fn split_off_first(words: &Vec<String>) -> (r: Vec<String>)
    requires
        words@.len() > 0,
    ensures
        r@.len() == words@.len() - 1,
        forall|i: int| 0 <= i < r@.len() ==> #[trigger] r@[i]@ == words@[i + 1]@,
    decreases 0int,
{
    let mut r: Vec<String> = Vec::new();
    let mut i: usize = 1;
    while i < words.len()
        invariant
            1 <= i <= words@.len(),
            r@.len() == i - 1,
            forall|m: int| 0 <= m < r@.len() ==> #[trigger] r@[m]@ == words@[m + 1]@,
        decreases words@.len() - i,
    {
        r.push(words[i].clone());
        i = i + 1;
    }
    r
}

/// Index of the first space at or after `i`, or the length.
pub open spec fn word_end(s: Seq<char>, i: int) -> int
    decreases s.len() - i,
    when i <= s.len()
{
    if i >= s.len() {
        s.len() as int
    } else if is_space(s[i]) {
        i
    } else {
        word_end(s, i + 1)
    }
}

proof fn lemma_word_end(s: Seq<char>, i: int)
    requires
        0 <= i <= s.len(),
    ensures
        i <= word_end(s, i) <= s.len(),
        word_end(s, i) < s.len() ==> is_space(s[word_end(s, i)]),
        forall|m: int| i <= m < word_end(s, i) ==> !is_space(s[m]),
    decreases s.len() - i,
{
    if i < s.len() && !is_space(s[i]) {
        lemma_word_end(s, i + 1);
    }
}

/// The whitespace-delimited words of a text, reading from `i` on.
pub open spec fn words_from(s: Seq<char>, i: int) -> Seq<Seq<char>>
    decreases s.len() - i,
    when 0 <= i <= s.len()
    via words_from_dec
{
    if i >= s.len() {
        Seq::empty()
    } else if is_space(s[i]) {
        words_from(s, i + 1)
    } else {
        seq![s.subrange(i, word_end(s, i))] + words_from(s, word_end(s, i))
    }
}

#[via_fn]
proof fn words_from_dec(s: Seq<char>, i: int) {
    if 0 <= i < s.len() && !is_space(s[i]) {
        assert(word_end(s, i) == word_end(s, i + 1));
        lemma_word_end(s, i + 1);
    }
}

/// The words of a whole text.
pub open spec fn words_of(s: Seq<char>) -> Seq<Seq<char>> {
    words_from(s, 0)
}

/// Splits a text into its whitespace-delimited words.
pub fn split_words(s: &str) -> (r: Vec<String>)
    ensures
        r@.map_values(|w: String| w@) == words_of(s@),
{
    let n = s.unicode_len();
    let mut out: Vec<String> = Vec::new();
    proof {
        assert(out@.map_values(|w: String| w@) + words_from(s@, 0) =~= words_of(s@));
    }
    let mut i: usize = 0;
    while i < n
        invariant
            n == s@.len(),
            0 <= i <= n,
            out@.map_values(|w: String| w@) + words_from(s@, i as int) == words_of(s@),
        decreases n - i,
    {
        let c = s.get_char(i);
        if is_space_exec(c) {
            i = i + 1;
        } else {
            let e = word_end_exec(s, i);
            let piece = s.substring_char(i, e).to_owned();
            let ghost before = out@;
            out.push(piece);
            proof {
                lemma_word_end(s@, i as int);
                assert(out@.map_values(|w: String| w@) =~= before.map_values(|w: String| w@).push(
                    piece@,
                ));
                assert(before.map_values(|w: String| w@).push(piece@) + words_from(s@, e as int)
                    =~= before.map_values(|w: String| w@) + (seq![s@.subrange(i as int, e as int)]
                    + words_from(s@, e as int)));
            }
            i = e;
        }
    }
    proof {
        assert(out@.map_values(|w: String| w@) + words_from(s@, n as int) =~= out@.map_values(
            |w: String| w@,
        ));
    }
    out
}

fn word_end_exec(s: &str, from: usize) -> (r: usize)
    requires
        from <= s@.len(),
    ensures
        r as int == word_end(s@, from as int),
        from <= r <= s@.len(),
{
    let n = s.unicode_len();
    proof {
        lemma_word_end(s@, from as int);
    }
    let mut j = from;
    while j < n && !is_space_exec(s.get_char(j))
        invariant
            n == s@.len(),
            from <= j <= n,
            forall|m: int| from <= m < j ==> !is_space(s@[m]),
            word_end(s@, from as int) == word_end(s@, j as int),
        decreases n - j,
    {
        j = j + 1;
    }
    j
}

} // verus!

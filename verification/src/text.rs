//! Plain-text derivations from stored HTML: tag stripping, word counts,
//! reading time, and excerpt generation.

use vstd::prelude::*;
use vstd::string::{StringExecFns, StrSliceExecFns};
use crate::strutil::{is_space, is_space_exec, append_one};

verus! {

/// Index of the first `>` at or after `i`, or the length when none follows.
pub open spec fn find_close(s: Seq<char>, i: int) -> int
    decreases s.len() - i,
    when i <= s.len()
{
    if i >= s.len() {
        s.len() as int
    } else if s[i] == '>' {
        i
    } else {
        find_close(s, i + 1)
    }
}

pub proof fn lemma_find_close(s: Seq<char>, i: int)
    requires
        0 <= i <= s.len(),
    ensures
        i <= find_close(s, i) <= s.len(),
        find_close(s, i) < s.len() ==> s[find_close(s, i)] == '>',
        forall|m: int| i <= m < find_close(s, i) ==> s[m] != '>',
    decreases s.len() - i,
{
    if i < s.len() && s[i] != '>' {
        lemma_find_close(s, i + 1);
    }
}

/// The text with every `<...>` run replaced by one space, reading from
/// position `i` on.  A `<` with no closing `>` stays as it is.
pub open spec fn strip_from(s: Seq<char>, i: int) -> Seq<char>
    decreases s.len() - i,
    when 0 <= i <= s.len()
    via strip_from_dec
{
    if i >= s.len() {
        Seq::empty()
    } else if s[i] == '<' && find_close(s, i + 1) < s.len() {
        seq![' '] + strip_from(s, find_close(s, i + 1) + 1)
    } else {
        seq![s[i]] + strip_from(s, i + 1)
    }
}

#[via_fn]
proof fn strip_from_dec(s: Seq<char>, i: int) {
    if 0 <= i < s.len() {
        lemma_find_close(s, i + 1);
    }
}

/// Tag-stripped form of a whole document.
pub open spec fn strip_tags_of(s: Seq<char>) -> Seq<char> {
    strip_from(s, 0)
}

/// Number of whitespace-delimited words.
pub open spec fn word_count_of(s: Seq<char>) -> nat
    decreases s.len(),
{
    if s.len() == 0 {
        0
    } else {
        word_count_of(s.drop_last()) + (if !is_space(s.last()) && (s.len() == 1 || is_space(
            s[s.len() - 2],
        )) {
            1nat
        } else {
            0nat
        })
    }
}

/// Reading time at two hundred words a minute, with a floor of one minute.
pub open spec fn reading_time_of(content_html: Seq<char>) -> nat {
    let words = word_count_of(strip_tags_of(content_html));
    if words / 200 < 1 {
        1
    } else {
        words / 200
    }
}

/// Index after the last leading whitespace character.
pub open spec fn ws_start(s: Seq<char>) -> int
    decreases s.len(),
{
    if s.len() > 0 && is_space(s[0]) {
        1 + ws_start(s.drop_first())
    } else {
        0
    }
}

/// Index before the first trailing whitespace character.
pub open spec fn ws_end(s: Seq<char>) -> int
    decreases s.len(),
{
    if s.len() > 0 && is_space(s[s.len() - 1]) {
        ws_end(s.drop_last())
    } else {
        s.len() as int
    }
}

/// The text with surrounding whitespace removed.
pub open spec fn trimmed(s: Seq<char>) -> Seq<char> {
    if ws_start(s) <= ws_end(s) {
        s.subrange(ws_start(s), ws_end(s))
    } else {
        Seq::empty()
    }
}

pub proof fn lemma_ws_start_props(s: Seq<char>)
    ensures
        0 <= ws_start(s) <= s.len(),
        forall|m: int| 0 <= m < ws_start(s) ==> is_space(s[m]),
        ws_start(s) < s.len() ==> !is_space(s[ws_start(s)]),
    decreases s.len(),
{
    if s.len() > 0 && is_space(s[0]) {
        let t = s.drop_first();
        lemma_ws_start_props(t);
        assert(forall|m: int| 0 <= m < t.len() ==> #[trigger] t[m] == s[m + 1]);
        assert forall|m: int| 0 <= m < ws_start(s) implies is_space(s[m]) by {
            if m > 0 {
                assert(is_space(t[m - 1]));
            }
        }
    }
}

pub proof fn lemma_ws_end_props(s: Seq<char>)
    ensures
        0 <= ws_end(s) <= s.len(),
        forall|m: int| ws_end(s) <= m < s.len() ==> is_space(s[m]),
        ws_end(s) > 0 ==> !is_space(s[ws_end(s) - 1]),
    decreases s.len(),
{
    if s.len() > 0 && is_space(s[s.len() - 1]) {
        let t = s.drop_last();
        lemma_ws_end_props(t);
        assert forall|m: int| ws_end(s) <= m < s.len() implies is_space(s[m]) by {
            if m < s.len() - 1 {
                assert(is_space(t[m]));
            }
        }
        if ws_end(s) > 0 {
            assert(!is_space(t[ws_end(t) - 1]));
        }
    }
}

/// Strips `<...>` tags, replacing each with a single space.
pub fn strip_tags(s: &str) -> (r: String)
    ensures
        r@ == strip_tags_of(s@),
{
    let n = s.unicode_len();
    let mut out = String::new();
    let mut i: usize = 0;
    while i < n
        invariant
            n == s@.len(),
            0 <= i <= n,
            out@ + strip_from(s@, i as int) == strip_from(s@, 0),
        decreases n - i,
    {
        let c = s.get_char(i);
        proof {
            lemma_find_close(s@, i as int + 1);
        }
        if c == '<' {
            let close = find_close_exec(s, i + 1);
            if close < n {
                let ghost out0 = out@;
                proof {
                    reveal_strlit(" ");
                }
                append_one(&mut out, " ");
                proof {
                    assert(out0.push(' ') + strip_from(s@, close as int + 1) =~= out0 + (seq![' ']
                        + strip_from(s@, close as int + 1)));
                }
                i = close + 1;
                continue ;
            }
        }
        let piece = s.substring_char(i, i + 1);
        let ghost out0 = out@;
        proof {
            assert(piece@[0] == s@[i as int]);
        }
        append_one(&mut out, piece);
        proof {
            assert(out0.push(s@[i as int]) + strip_from(s@, i as int + 1) =~= out0 + (seq![
                s@[i as int],
            ] + strip_from(s@, i as int + 1)));
        }
        i = i + 1;
    }
    proof {
        assert(out@ + strip_from(s@, n as int) =~= out@);
    }
    out
}

fn find_close_exec(s: &str, from: usize) -> (r: usize)
    requires
        from <= s@.len(),
    ensures
        r as int == find_close(s@, from as int),
{
    let n = s.unicode_len();
    let mut j = from;
    while j < n && s.get_char(j) != '>'
        invariant
            n == s@.len(),
            from <= j <= n,
            forall|m: int| from <= m < j ==> s@[m] != '>',
            find_close(s@, from as int) == find_close(s@, j as int),
        decreases n - j,
    {
        j = j + 1;
    }
    j
}

/// Counts whitespace-delimited words.
pub fn count_words(s: &str) -> (r: usize)
    ensures
        r as nat == word_count_of(s@),
{
    let n = s.unicode_len();
    let mut count: usize = 0;
    let mut i: usize = 0;
    let mut prev_space = true;
    while i < n
        invariant
            n == s@.len(),
            0 <= i <= n,
            count as nat == word_count_of(s@.take(i as int)),
            count <= i,
            prev_space == (i == 0 || is_space(s@[i as int - 1])),
        decreases n - i,
    {
        let c = s.get_char(i);
        proof {
            assert(s@.take(i as int + 1).drop_last() =~= s@.take(i as int));
            assert(s@.take(i as int + 1).last() == s@[i as int]);
        }
        if !is_space_exec(c) && prev_space {
            count = count + 1;
        }
        prev_space = is_space_exec(c);
        i = i + 1;
    }
    proof {
        assert(s@.take(n as int) =~= s@);
    }
    count
}

/// Reading-time estimate for sanitized content, in minutes.
pub fn calculate_reading_time(content_html: &str) -> (r: u64)
    ensures
        r as nat == reading_time_of(content_html@),
{
    let text = strip_tags(content_html);
    let words = count_words(text.as_str());
    let minutes = words / 200;
    if minutes < 1 {
        1
    } else {
        minutes as u64
    }
}

/// The text with surrounding whitespace removed.
pub fn trim_spaces(s: &str) -> (r: String)
    ensures
        r@ == trimmed(s@),
{
    let n = s.unicode_len();
    proof {
        lemma_ws_start_props(s@);
        lemma_ws_end_props(s@);
    }
    let mut a: usize = 0;
    while a < n && is_space_exec(s.get_char(a))
        invariant
            n == s@.len(),
            0 <= a <= n,
            forall|m: int| 0 <= m < a ==> is_space(s@[m]),
            a as int <= ws_start(s@),
        decreases n - a,
    {
        proof {
            lemma_ws_start_lower(s@, a as int + 1);
        }
        a = a + 1;
    }
    if a == n {
        proof {
            assert(ws_start(s@) == n || !is_space(s@[ws_start(s@)]));
            assert(ws_start(s@) == n);
            assert(ws_end(s@) <= n);
            if ws_start(s@) <= ws_end(s@) {
                assert(trimmed(s@) =~= Seq::<char>::empty());
            }
        }
        return String::new();
    }
    proof {
        assert(!is_space(s@[a as int]));
        assert(ws_start(s@) <= a as int) by {
            if ws_start(s@) > a as int {
                assert(is_space(s@[a as int]));
            }
        }
        assert(ws_start(s@) == a as int);
    }
    let mut b: usize = n;
    while b > a && is_space_exec(s.get_char(b - 1))
        invariant
            n == s@.len(),
            a <= b <= n,
            a < n,
            !is_space(s@[a as int]),
            forall|m: int| b <= m < n ==> is_space(s@[m]),
            ws_end(s@) <= b as int,
        decreases b,
    {
        proof {
            lemma_ws_end_upper(s@, b as int - 1);
        }
        b = b - 1;
    }
    proof {
        assert(ws_end(s@) > a as int) by {
            if ws_end(s@) <= a as int {
                assert(is_space(s@[a as int]));
            }
        }
        assert(!is_space(s@[b as int - 1]));
        assert(ws_end(s@) >= b as int) by {
            if ws_end(s@) < b as int {
                assert(is_space(s@[b as int - 1]));
            }
        }
        assert(trimmed(s@) == s@.subrange(a as int, b as int));
    }
    s.substring_char(a, b).to_owned()
}

/// When everything up to `k` is whitespace, the leading run reaches `k`.
proof fn lemma_ws_start_lower(s: Seq<char>, k: int)
    requires
        0 <= k <= s.len(),
        forall|m: int| 0 <= m < k ==> is_space(s[m]),
    ensures
        ws_start(s) >= k,
    decreases k,
{
    if k > 0 {
        assert(is_space(s[0]));
        assert forall|m: int| 0 <= m < k - 1 implies is_space(#[trigger] s.drop_first()[m]) by {
            assert(s.drop_first()[m] == s[m + 1]);
            assert(is_space(s[m + 1]));
        }
        lemma_ws_start_lower(s.drop_first(), k - 1);
        assert(ws_start(s) == 1 + ws_start(s.drop_first()));
    } else {
        lemma_ws_start_props(s);
    }
}

/// When everything from `k` on is whitespace, the trailing run reaches `k`.
proof fn lemma_ws_end_upper(s: Seq<char>, k: int)
    requires
        0 <= k <= s.len(),
        forall|m: int| k <= m < s.len() ==> is_space(s[m]),
    ensures
        ws_end(s) <= k,
    decreases s.len(),
{
    if k < s.len() {
        assert(is_space(s[s.len() - 1]));
        let t = s.drop_last();
        assert(forall|m: int| 0 <= m < t.len() ==> #[trigger] t[m] == s[m]);
        lemma_ws_end_upper(t, k);
        assert(ws_end(s) == ws_end(t));
    } else {
        lemma_ws_end_props(s);
    }
}

/// Greatest index of a plain space strictly below the end, or negative one.
pub open spec fn last_space(s: Seq<char>) -> int
    decreases s.len(),
{
    if s.len() == 0 {
        -1
    } else if s.last() == ' ' {
        s.len() - 1
    } else {
        last_space(s.drop_last())
    }
}

pub proof fn lemma_last_space(s: Seq<char>)
    ensures
        -1 <= last_space(s) < s.len(),
        last_space(s) >= 0 ==> s[last_space(s)] == ' ',
        forall|m: int| last_space(s) < m < s.len() ==> s[m] != ' ',
    decreases s.len(),
{
    if s.len() > 0 && s.last() != ' ' {
        let t = s.drop_last();
        lemma_last_space(t);
        assert forall|m: int| last_space(s) < m < s.len() implies s[m] != ' ' by {
            if m < s.len() - 1 {
                assert(t[m] != ' ');
            }
        }
    }
}

/// What a derived excerpt looks like: the trimmed text itself when it is
/// short enough, else a cut at the last space inside the limit, with dots.
pub open spec fn excerpt_of(text: Seq<char>, max_length: int) -> Seq<char> {
    if text.len() <= max_length {
        text
    } else {
        let t = text.take(max_length);
        if last_space(t) >= 0 {
            t.take(last_space(t)) + seq!['.', '.', '.']
        } else {
            t + seq!['.', '.', '.']
        }
    }
}

/// Derives an excerpt from sanitized content: tag-stripped, trimmed, and
/// truncated at the last space before the limit.
pub fn generate_excerpt(content_html: &str, max_length: usize) -> (r: String)
    ensures
        r@ == excerpt_of(trimmed(strip_tags_of(content_html@)), max_length as int),
{
    let stripped = strip_tags(content_html);
    let text = trim_spaces(stripped.as_str());
    let n = text.as_str().unicode_len();
    if n <= max_length {
        return text;
    }
    let t = text.as_str().substring_char(0, max_length);
    let cut = last_space_exec(t);
    proof {
        lemma_last_space(t@);
    }
    let head = match cut {
        Some(v) => t.substring_char(0, v),
        None => t,
    };
    let mut out = head.to_owned();
    proof {
        reveal_strlit("...");
    }
    out.append("...");
    proof {
        lemma_last_space(t@);
        assert(out@ =~= excerpt_of(text@, max_length as int));
    }
    out
}

fn last_space_exec(s: &str) -> (r: Option<usize>)
    ensures
        match r {
            Some(v) => v as int == last_space(s@),
            None => last_space(s@) == -1,
        },
{
    let n = s.unicode_len();
    proof {
        assert(s@.take(n as int) =~= s@);
    }
    let mut b = n;
    while b > 0 && s.get_char(b - 1) != ' '
        invariant
            n == s@.len(),
            0 <= b <= n,
            forall|m: int| b <= m < n ==> s@[m] != ' ',
            last_space(s@) == last_space(s@.take(b as int)),
        decreases b,
    {
        proof {
            assert(s@.take(b as int).drop_last() =~= s@.take(b as int - 1));
            assert(s@.take(b as int).last() == s@[b as int - 1]);
        }
        b = b - 1;
    }
    proof {
        assert(s@.take(b as int).len() == b);
        if b > 0 {
            assert(s@.take(b as int).last() == s@[b as int - 1]);
        }
    }
    if b == 0 {
        None
    } else {
        Some(b - 1)
    }
}

} // verus!

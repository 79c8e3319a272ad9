//! Decimal rendering and parsing of unsigned numbers, with the
//! injectivity lemma the slug allocator's termination argument needs.

use vstd::prelude::*;
use crate::strutil::{digit_char_of, is_digit};

verus! {

/// Numeric value of an ASCII digit; other characters map to zero.
pub open spec fn digit_val(c: char) -> int {
    match c {
        '0' => 0,
        '1' => 1,
        '2' => 2,
        '3' => 3,
        '4' => 4,
        '5' => 5,
        '6' => 6,
        '7' => 7,
        '8' => 8,
        '9' => 9,
        _ => 0,
    }
}

/// The decimal digits of `n`, most significant first.
pub open spec fn dec_rep(n: nat) -> Seq<char>
    decreases n,
{
    if n < 10 {
        seq![digit_char_of(n as int)]
    } else {
        dec_rep((n / 10) as nat).push(digit_char_of((n % 10) as int))
    }
}

/// The number a digit string denotes.
pub open spec fn dec_value(s: Seq<char>) -> nat
    decreases s.len(),
{
    if s.len() == 0 {
        0
    } else {
        (dec_value(s.drop_last()) * 10 + digit_val(s.last())) as nat
    }
}

/// Every string of decimal digits.
pub open spec fn all_digits(s: Seq<char>) -> bool {
    forall|i: int| 0 <= i < s.len() ==> is_digit(#[trigger] s[i])
}

pub proof fn lemma_dec_rep_basic(n: nat)
    ensures
        dec_rep(n).len() >= 1,
        n >= 10 ==> dec_rep(n).len() >= 2,
        all_digits(dec_rep(n)),
    decreases n,
{
    if n >= 10 {
        lemma_dec_rep_basic((n / 10) as nat);
        assert(0 <= n % 10 < 10);
        let s = dec_rep((n / 10) as nat);
        let w = s.push(digit_char_of((n % 10) as int));
        assert forall|i: int| 0 <= i < w.len() implies is_digit(#[trigger] w[i]) by {
            if i < s.len() {
                assert(w[i] == s[i]);
            }
        }
    } else {
        assert(0 <= n < 10);
    }
}

pub proof fn lemma_digit_char_inj(a: int, b: int)
    requires
        0 <= a < 10,
        0 <= b < 10,
        digit_char_of(a) == digit_char_of(b),
    ensures
        a == b,
{
}

/// Distinct numbers render to distinct digit strings.
pub proof fn lemma_dec_rep_inj(a: nat, b: nat)
    requires
        dec_rep(a) == dec_rep(b),
    ensures
        a == b,
    decreases a,
{
    lemma_dec_rep_basic(a);
    lemma_dec_rep_basic(b);
    if a < 10 && b < 10 {
        assert(dec_rep(a)[0] == digit_char_of(a as int));
        assert(dec_rep(b)[0] == digit_char_of(b as int));
        lemma_digit_char_inj(a as int, b as int);
    } else if a < 10 {
        assert(dec_rep(a).len() == 1);
        assert(false);
    } else if b < 10 {
        assert(dec_rep(b).len() == 1);
        assert(false);
    } else {
        let sa = dec_rep((a / 10) as nat);
        let sb = dec_rep((b / 10) as nat);
        assert(dec_rep(a).last() == digit_char_of((a % 10) as int));
        assert(dec_rep(b).last() == digit_char_of((b % 10) as int));
        lemma_digit_char_inj((a % 10) as int, (b % 10) as int);
        assert(dec_rep(a).drop_last() =~= sa);
        assert(dec_rep(b).drop_last() =~= sb);
        lemma_dec_rep_inj((a / 10) as nat, (b / 10) as nat);
        assert(a == (a / 10) * 10 + a % 10);
        assert(b == (b / 10) * 10 + b % 10);
    }
}

fn digit_char_exec(d: u64) -> (c: char)
    requires
        d < 10,
    ensures
        c == digit_char_of(d as int),
{
    match d {
        0 => '0',
        1 => '1',
        2 => '2',
        3 => '3',
        4 => '4',
        5 => '5',
        6 => '6',
        7 => '7',
        8 => '8',
        _ => '9',
    }
}

/// Renders `n` in decimal.
pub fn u64_to_dec(n: u64) -> (s: String)
    ensures
        s@ == dec_rep(n as nat),
    decreases n,
{
    if n < 10 {
        let mut s = String::new();
        crate::strutil::push_slug_char(&mut s, digit_char_exec(n));
        proof {
            assert(s@ =~= dec_rep(n as nat));
        }
        s
    } else {
        let mut s = u64_to_dec(n / 10);
        crate::strutil::push_slug_char(&mut s, digit_char_exec(n % 10));
        s
    }
}

/// Parses an unsigned decimal number: accepts exactly the non-empty
/// all-digit strings whose value fits in a `u64`.
pub fn parse_u64(s: &str) -> (r: Option<u64>)
    ensures
        match r {
            Some(v) => s@.len() > 0 && all_digits(s@) && v as nat == dec_value(s@),
            None => s@.len() == 0 || !all_digits(s@) || dec_value(s@) > u64::MAX,
        },
{
    let n = s.unicode_len();
    if n == 0 {
        return None;
    }
    let mut acc: u64 = 0;
    let mut i: usize = 0;
    while i < n
        invariant
            n == s@.len(),
            0 <= i <= n,
            all_digits(s@.take(i as int)),
            acc as nat == dec_value(s@.take(i as int)),
        decreases n - i,
    {
        let c = s.get_char(i);
        if !crate::strutil::is_digit_exec(c) {
            proof {
                assert(!all_digits(s@));
            }
            return None;
        }
        let d = digit_val_exec(c);
        if acc > 1844674407370955161u64 || (acc == 1844674407370955161u64 && d > 5) {
            proof {
                assert(dec_value(s@.take(i as int + 1)) == acc as nat * 10 + d as nat) by {
                    assert(s@.take(i as int + 1).drop_last() =~= s@.take(i as int));
                }
                lemma_dec_value_grows(s@, i as int + 1);
            }
            return None;
        }
        acc = acc * 10 + d;
        proof {
            assert(s@.take(i as int + 1).drop_last() =~= s@.take(i as int));
            assert(s@.take(i as int + 1).last() == s@[i as int]);
        }
        i = i + 1;
    }
    proof {
        assert(s@.take(n as int) =~= s@);
    }
    Some(acc)
}

fn digit_val_exec(c: char) -> (d: u64)
    requires
        is_digit(c),
    ensures
        d as int == digit_val(c),
        d < 10,
{
    match c {
        '0' => 0,
        '1' => 1,
        '2' => 2,
        '3' => 3,
        '4' => 4,
        '5' => 5,
        '6' => 6,
        '7' => 7,
        '8' => 8,
        _ => 9,
    }
}

/// The value of a digit string never falls when more digits follow.
proof fn lemma_dec_value_grows(s: Seq<char>, i: int)
    requires
        0 <= i <= s.len(),
    ensures
        dec_value(s) >= dec_value(s.take(i)),
    decreases s.len() - i,
{
    if i < s.len() {
        assert(dec_value(s.take(i + 1)) == dec_value(s.take(i)) * 10 + digit_val(s[i])) by {
            assert(s.take(i + 1).drop_last() =~= s.take(i));
            assert(s.take(i + 1).last() == s[i]);
        }
        assert(digit_val(s[i]) >= 0);
        lemma_dec_value_grows(s, i + 1);
    } else {
        assert(s.take(i) =~= s);
    }
}

} // verus!

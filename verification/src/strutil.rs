//! Character classes and low-level string building used by the slug,
//! text and search modules.

use vstd::prelude::*;
use vstd::string::StringExecFns;

verus! {

/// ASCII lower-case letter.
pub open spec fn is_lower(c: char) -> bool {
    ||| c == 'a'
    ||| c == 'b'
    ||| c == 'c'
    ||| c == 'd'
    ||| c == 'e'
    ||| c == 'f'
    ||| c == 'g'
    ||| c == 'h'
    ||| c == 'i'
    ||| c == 'j'
    ||| c == 'k'
    ||| c == 'l'
    ||| c == 'm'
    ||| c == 'n'
    ||| c == 'o'
    ||| c == 'p'
    ||| c == 'q'
    ||| c == 'r'
    ||| c == 's'
    ||| c == 't'
    ||| c == 'u'
    ||| c == 'v'
    ||| c == 'w'
    ||| c == 'x'
    ||| c == 'y'
    ||| c == 'z'
}

/// ASCII digit.
pub open spec fn is_digit(c: char) -> bool {
    ||| c == '0'
    ||| c == '1'
    ||| c == '2'
    ||| c == '3'
    ||| c == '4'
    ||| c == '5'
    ||| c == '6'
    ||| c == '7'
    ||| c == '8'
    ||| c == '9'
}

/// The ASCII digit for a value below ten; other values fall to '9'.
pub open spec fn digit_char_of(d: int) -> char {
    if d == 0 {
        '0'
    } else if d == 1 {
        '1'
    } else if d == 2 {
        '2'
    } else if d == 3 {
        '3'
    } else if d == 4 {
        '4'
    } else if d == 5 {
        '5'
    } else if d == 6 {
        '6'
    } else if d == 7 {
        '7'
    } else if d == 8 {
        '8'
    } else {
        '9'
    }
}

/// A character a slug may contain.
pub open spec fn is_slug_char(c: char) -> bool {
    is_lower(c) || is_digit(c) || c == '-'
}

/// ASCII whitespace.
pub open spec fn is_space(c: char) -> bool {
    c == ' ' || c == '\t' || c == '\n' || c == '\r' || c == '\u{b}' || c == '\u{c}'
}

/// ASCII case folding: upper-case letters map to their lower-case pair,
/// everything else is left alone.
pub open spec fn lower_char(c: char) -> char {
    match c {
        'A' => 'a',
        'B' => 'b',
        'C' => 'c',
        'D' => 'd',
        'E' => 'e',
        'F' => 'f',
        'G' => 'g',
        'H' => 'h',
        'I' => 'i',
        'J' => 'j',
        'K' => 'k',
        'L' => 'l',
        'M' => 'm',
        'N' => 'n',
        'O' => 'o',
        'P' => 'p',
        'Q' => 'q',
        'R' => 'r',
        'S' => 's',
        'T' => 't',
        'U' => 'u',
        'V' => 'v',
        'W' => 'w',
        'X' => 'x',
        'Y' => 'y',
        'Z' => 'z',
        _ => c,
    }
}

/// A whole sequence, case-folded.
pub open spec fn lower_seq(s: Seq<char>) -> Seq<char> {
    s.map_values(|c: char| lower_char(c))
}

pub fn is_lower_exec(c: char) -> (r: bool)
    ensures
        r == is_lower(c),
{
    match c {
        'a' | 'b' | 'c' | 'd' | 'e' | 'f' | 'g' | 'h' | 'i' | 'j' | 'k' | 'l' | 'm' | 'n' | 'o'
            | 'p' | 'q' | 'r' | 's' | 't' | 'u' | 'v' | 'w' | 'x' | 'y' | 'z' => true,
        _ => false,
    }
}

pub fn is_digit_exec(c: char) -> (r: bool)
    ensures
        r == is_digit(c),
{
    match c {
        '0' | '1' | '2' | '3' | '4' | '5' | '6' | '7' | '8' | '9' => true,
        _ => false,
    }
}

pub fn is_slug_char_exec(c: char) -> (r: bool)
    ensures
        r == is_slug_char(c),
{
    is_lower_exec(c) || is_digit_exec(c) || c == '-'
}

pub fn is_space_exec(c: char) -> (r: bool)
    ensures
        r == is_space(c),
{
    c == ' ' || c == '\t' || c == '\n' || c == '\r' || c == '\u{b}' || c == '\u{c}'
}

pub fn to_lower_char(c: char) -> (r: char)
    ensures
        r == lower_char(c),
{
    match c {
        'A' => 'a',
        'B' => 'b',
        'C' => 'c',
        'D' => 'd',
        'E' => 'e',
        'F' => 'f',
        'G' => 'g',
        'H' => 'h',
        'I' => 'i',
        'J' => 'j',
        'K' => 'k',
        'L' => 'l',
        'M' => 'm',
        'N' => 'n',
        'O' => 'o',
        'P' => 'p',
        'Q' => 'q',
        'R' => 'r',
        'S' => 's',
        'T' => 't',
        'U' => 'u',
        'V' => 'v',
        'W' => 'w',
        'X' => 'x',
        'Y' => 'y',
        'Z' => 'z',
        _ => c,
    }
}

/// Case-insensitive character comparison.
pub fn eq_ci(a: char, b: char) -> (r: bool)
    ensures
        r == (lower_char(a) == lower_char(b)),
{
    to_lower_char(a) == to_lower_char(b)
}

/// Appends a one-character string slice.
pub fn append_one(s: &mut String, t: &str)
    requires
        t@.len() == 1,
    ensures
        final(s)@ == old(s)@.push(t@[0]),
{
    s.append(t);
    proof {
        assert(old(s)@ + t@ =~= old(s)@.push(t@[0]));
    }
}

/// Appends one character drawn from the slug alphabet.
pub fn push_slug_char(s: &mut String, c: char)
    requires
        is_slug_char(c),
    ensures
        final(s)@ == old(s)@.push(c),
{
    match c {
        'a' => { proof { reveal_strlit("a"); } append_one(s, "a"); },
        'b' => { proof { reveal_strlit("b"); } append_one(s, "b"); },
        'c' => { proof { reveal_strlit("c"); } append_one(s, "c"); },
        'd' => { proof { reveal_strlit("d"); } append_one(s, "d"); },
        'e' => { proof { reveal_strlit("e"); } append_one(s, "e"); },
        'f' => { proof { reveal_strlit("f"); } append_one(s, "f"); },
        'g' => { proof { reveal_strlit("g"); } append_one(s, "g"); },
        'h' => { proof { reveal_strlit("h"); } append_one(s, "h"); },
        'i' => { proof { reveal_strlit("i"); } append_one(s, "i"); },
        'j' => { proof { reveal_strlit("j"); } append_one(s, "j"); },
        'k' => { proof { reveal_strlit("k"); } append_one(s, "k"); },
        'l' => { proof { reveal_strlit("l"); } append_one(s, "l"); },
        'm' => { proof { reveal_strlit("m"); } append_one(s, "m"); },
        'n' => { proof { reveal_strlit("n"); } append_one(s, "n"); },
        'o' => { proof { reveal_strlit("o"); } append_one(s, "o"); },
        'p' => { proof { reveal_strlit("p"); } append_one(s, "p"); },
        'q' => { proof { reveal_strlit("q"); } append_one(s, "q"); },
        'r' => { proof { reveal_strlit("r"); } append_one(s, "r"); },
        's' => { proof { reveal_strlit("s"); } append_one(s, "s"); },
        't' => { proof { reveal_strlit("t"); } append_one(s, "t"); },
        'u' => { proof { reveal_strlit("u"); } append_one(s, "u"); },
        'v' => { proof { reveal_strlit("v"); } append_one(s, "v"); },
        'w' => { proof { reveal_strlit("w"); } append_one(s, "w"); },
        'x' => { proof { reveal_strlit("x"); } append_one(s, "x"); },
        'y' => { proof { reveal_strlit("y"); } append_one(s, "y"); },
        'z' => { proof { reveal_strlit("z"); } append_one(s, "z"); },
        '0' => { proof { reveal_strlit("0"); } append_one(s, "0"); },
        '1' => { proof { reveal_strlit("1"); } append_one(s, "1"); },
        '2' => { proof { reveal_strlit("2"); } append_one(s, "2"); },
        '3' => { proof { reveal_strlit("3"); } append_one(s, "3"); },
        '4' => { proof { reveal_strlit("4"); } append_one(s, "4"); },
        '5' => { proof { reveal_strlit("5"); } append_one(s, "5"); },
        '6' => { proof { reveal_strlit("6"); } append_one(s, "6"); },
        '7' => { proof { reveal_strlit("7"); } append_one(s, "7"); },
        '8' => { proof { reveal_strlit("8"); } append_one(s, "8"); },
        '9' => { proof { reveal_strlit("9"); } append_one(s, "9"); },
        _ => { proof { reveal_strlit("-"); } append_one(s, "-"); },
    }
}

} // verus!

//! Small string utilities shared by both parsing passes: character-sequence
//! equality, decimal parsing with a fallback default, and decimal rendering.

use crate::outside::chars_to_string;
use vstd::prelude::*;

verus! {

/// Compares two string slices by their character sequences.
pub fn str_eq(a: &str, b: &str) -> (r: bool)
    ensures
        r == (a@ == b@),
{
    let sa: String = a.to_owned();
    let sb: String = b.to_owned();
    sa == sb
}

pub open spec fn is_digit_char(c: char) -> bool {
    '0' <= c && c <= '9'
}

pub open spec fn digit_val(c: char) -> int {
    c as int - '0' as int
}

pub open spec fn all_digits(s: Seq<char>) -> bool {
    forall|i: int| 0 <= i < s.len() ==> is_digit_char(#[trigger] s[i])
}

/// The integer a digit string denotes, most significant digit first.
pub open spec fn dec_val(s: Seq<char>) -> int
    decreases s.len(),
{
    if s.len() == 0 {
        0
    } else {
        dec_val(s.drop_last()) * 10 + digit_val(s.last())
    }
}

/// What a lenient parse of a digit string yields: its value when `s` is a
/// non-empty digit string whose value fits, and `default` otherwise.
pub open spec fn spec_parse_digits_or(s: Seq<char>, default: u32) -> u32 {
    if s.len() > 0 && all_digits(s) && dec_val(s) <= u32::MAX {
        dec_val(s) as u32
    } else {
        default
    }
}

/// What a lenient unsigned parse of `s` yields: the denoted value when `s`
/// is a non-empty digit string — optionally after one leading plus sign —
/// whose value fits, and `default` otherwise.
pub open spec fn spec_parse_u32_or(s: Seq<char>, default: u32) -> u32 {
    if s.len() > 0 && s[0] == '+' {
        spec_parse_digits_or(s.subrange(1, s.len() as int), default)
    } else {
        spec_parse_digits_or(s, default)
    }
}

proof fn lemma_dec_val_step(s: Seq<char>, i: int)
    requires
        0 <= i < s.len(),
    ensures
        dec_val(s.take(i + 1)) == dec_val(s.take(i)) * 10 + digit_val(s[i]),
{
    assert(s.take(i + 1).drop_last() =~= s.take(i));
    assert(s.take(i + 1).last() == s[i]);
}

proof fn lemma_dec_val_grows(s: Seq<char>, i: int)
    requires
        0 <= i < s.len(),
        all_digits(s),
        dec_val(s.take(i)) > u32::MAX,
    ensures
        dec_val(s) > u32::MAX,
    decreases s.len() - i,
{
    lemma_dec_val_step(s, i);
    assert(dec_val(s.take(i)) * 10 >= dec_val(s.take(i))) by {
        assert(dec_val(s.take(i)) >= 0);
    }
    if i + 1 == s.len() {
        assert(s.take(i + 1) =~= s);
    } else {
        lemma_dec_val_grows(s, i + 1);
    }
}

fn parse_digits_or(s: &str, default: u32) -> (r: u32)
    ensures
        r == spec_parse_digits_or(s@, default),
{
    let n = s.unicode_len();
    if n == 0 {
        return default;
    }
    let mut acc: u64 = 0;
    let mut i: usize = 0;
    while i < n
        invariant
            0 < n == s@.len(),
            0 <= i <= n,
            all_digits(s@.take(i as int)),
            acc == dec_val(s@.take(i as int)),
            acc <= u32::MAX,
        decreases n - i,
    {
        let c = s.get_char(i);
        if c < '0' || c > '9' {
            assert(!all_digits(s@));
            return default;
        }
        let d: u64 = (c as u32 as u64) - 48;
        proof {
            lemma_dec_val_step(s@, i as int);
        }
        acc = acc * 10 + d;
        i = i + 1;
        if acc > u32::MAX as u64 {
            proof {
                if all_digits(s@) {
                    if (i as int) < s@.len() {
                        lemma_dec_val_grows(s@, i as int);
                    } else {
                        assert(s@.take(i as int) =~= s@);
                    }
                }
            }
            return default;
        }
    }
    proof {
        assert(s@.take(n as int) =~= s@);
    }
    acc as u32
}

/// Parses `s` as an unsigned decimal integer, one leading plus sign
/// accepted; yields `default` when `s` is empty, holds a non-digit, or
/// denotes a value above `u32::MAX`.
pub fn parse_u32_or(s: &str, default: u32) -> (r: u32)
    ensures
        r == spec_parse_u32_or(s@, default),
{
    let n = s.unicode_len();
    if n > 0 && s.get_char(0) == '+' {
        let rest = s.substring_char(1, n);
        parse_digits_or(rest, default)
    } else {
        parse_digits_or(s, default)
    }
}

/// The digit character for a value below ten.
pub open spec fn digit_char(d: int) -> char {
    if d == 0 {
        '0'
    } else if d == 1 {
        '1'
    } else if d == 2 {
        '2'
    } else if d == 3 {
        '3'
    } else if d == 4 {
        '4'
    } else if d == 5 {
        '5'
    } else if d == 6 {
        '6'
    } else if d == 7 {
        '7'
    } else if d == 8 {
        '8'
    } else {
        '9'
    }
}

/// The canonical decimal rendering of `n`, without leading zeroes.
pub open spec fn dec_str(n: nat) -> Seq<char>
    decreases n,
{
    if n < 10 {
        seq![digit_char(n as int)]
    } else {
        dec_str(n / 10).push(digit_char((n % 10) as int))
    }
}

fn digit_char_of(d: u32) -> (c: char)
    requires
        d < 10,
    ensures
        c == digit_char(d as int),
{
    match d {
        0 => '0',
        1 => '1',
        2 => '2',
        3 => '3',
        4 => '4',
        5 => '5',
        6 => '6',
        7 => '7',
        8 => '8',
        _ => '9',
    }
}

fn push_dec(n: u32, out: &mut Vec<char>)
    ensures
        final(out)@ == old(out)@ + dec_str(n as nat),
    decreases n,
{
    if n >= 10 {
        push_dec(n / 10, out);
    }
    out.push(digit_char_of(n % 10));
    proof {
        if n < 10 {
            assert(old(out)@ + dec_str(n as nat) =~= old(out)@.push(digit_char(n as int)));
        } else {
            assert(old(out)@ + dec_str(n as nat) =~= (old(out)@ + dec_str((n / 10) as nat)).push(
                digit_char((n % 10) as int),
            ));
        }
    }
}

/// Renders `n` in decimal.
pub fn u32_to_dec_chars(n: u32) -> (out: Vec<char>)
    ensures
        out@ == dec_str(n as nat),
{
    let mut out: Vec<char> = Vec::new();
    push_dec(n, &mut out);
    proof {
        assert(Seq::<char>::empty() + dec_str(n as nat) =~= dec_str(n as nat));
    }
    out
}

/// Renders `n` in decimal as a string.
pub fn u32_to_string(n: u32) -> (s: String)
    ensures
        s@ == dec_str(n as nat),
{
    let chars = u32_to_dec_chars(n);
    chars_to_string(&chars)
}

} // verus!

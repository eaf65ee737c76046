//! Small verified string helpers shared by the source adapters: appending,
//! printing a number into a URL, and reading a page-count label.

use crate::price::all_digits;
use crate::price::digit_val;
use crate::price::digits_value;
use crate::price::is_digit;
use vstd::prelude::*;

verus! {

/// Relies on String::push_str: appends the given string slice onto the end.
pub assume_specification[ String::push_str ](s: &mut String, other: &str)
    ensures
        final(s)@ == old(s)@ + other@,
;

/// Relies on String::push: appends the given char onto the end.
pub assume_specification[ String::push ](s: &mut String, ch: char)
    ensures
        final(s)@ == old(s)@.push(ch),
;

pub open spec fn digit_char(d: nat) -> char {
    if d == 0 {
        '0'
    } else if d == 1 {
        '1'
    } else if d == 2 {
        '2'
    } else if d == 3 {
        '3'
    } else if d == 4 {
        '4'
    } else if d == 5 {
        '5'
    } else if d == 6 {
        '6'
    } else if d == 7 {
        '7'
    } else if d == 8 {
        '8'
    } else {
        '9'
    }
}

/// The decimal digits of n, most significant first, no leading zeros.
pub open spec fn dec_str(n: nat) -> Seq<char>
    decreases n,
{
    if n < 10 {
        seq![digit_char(n)]
    } else {
        dec_str(n / 10).push(digit_char(n % 10))
    }
}

fn digit_char_exec(d: u32) -> (c: char)
    requires
        d < 10,
    ensures
        c == digit_char(d as nat),
{
    if d == 0 {
        '0'
    } else if d == 1 {
        '1'
    } else if d == 2 {
        '2'
    } else if d == 3 {
        '3'
    } else if d == 4 {
        '4'
    } else if d == 5 {
        '5'
    } else if d == 6 {
        '6'
    } else if d == 7 {
        '7'
    } else if d == 8 {
        '8'
    } else {
        '9'
    }
}

/// Writes n in decimal.
pub fn u32_to_string(n: u32) -> (r: String)
    ensures
        r@ == dec_str(n as nat),
{
    let mut digits: Vec<char> = Vec::new();
    let mut m: u32 = n;
    proof {
        assert(dec_str(n as nat) =~= dec_str(m as nat) + digits@.reverse());
    }
    loop
        invariant_except_break
            dec_str(n as nat) == dec_str(m as nat) + digits@.reverse(),
        ensures
            digits@.len() >= 1,
            dec_str(n as nat) == digits@.reverse(),
        decreases m,
    {
        let d: u32 = m % 10;
        let c = digit_char_exec(d);
        let ghost before = digits@;
        digits.push(c);
        proof {
            assert(digits@.reverse() =~= seq![c] + before.reverse());
        }
        if m < 10 {
            proof {
                assert(dec_str(m as nat) == seq![c]);
                assert(seq![c] + before.reverse() =~= digits@.reverse());
            }
            break ;
        }
        proof {
            assert(dec_str(m as nat) == dec_str((m as nat) / 10).push(c));
            assert(dec_str((m as nat) / 10).push(c) + before.reverse() =~= dec_str((m as nat) / 10)
                + digits@.reverse());
        }
        m = m / 10;
    }
    let mut out = String::new();
    let len = digits.len();
    let mut j: usize = 0;
    while j < len
        invariant
            len == digits@.len(),
            1 <= len,
            j <= len,
            dec_str(n as nat) == digits@.reverse(),
            out@ == digits@.reverse().take(j as int),
        decreases len - j,
    {
        out.push(digits[len - 1 - j]);
        proof {
            assert(digits@.reverse()[j as int] == digits@[len - 1 - j]);
            assert(digits@.reverse().take(j as int + 1) =~= digits@.reverse().take(j as int).push(
                digits@.reverse()[j as int],
            ));
        }
        j = j + 1;
    }
    proof {
        assert(digits@.reverse().take(len as int) =~= digits@.reverse());
    }
    out
}

proof fn lemma_digits_value_step(t: Seq<char>, j: int)
    requires
        0 <= j < t.len(),
    ensures
        digits_value(t.take(j + 1)) == 10 * digits_value(t.take(j)) + digit_val(t[j]),
{
    assert(t.take(j + 1).drop_last() =~= t.take(j));
    assert(t.take(j + 1).last() == t[j]);
}

/// Reads a string of decimal digits as a u32: all characters must be digits,
/// there must be at least one, and the value must fit.
pub fn parse_u32_digits(s: &str) -> (r: Option<u32>)
    ensures
        r == (if all_digits(s@) && s@.len() >= 1 && digits_value(s@) <= u32::MAX {
            Some(digits_value(s@) as u32)
        } else {
            None::<u32>
        }),
{
    let len: usize = s.unicode_len();
    if len == 0 {
        return None;
    }
    let mut v: u32 = 0;
    let mut j: usize = 0;
    while j < len
        invariant
            len == s@.len(),
            j <= len,
            forall|k: int| 0 <= k < j ==> is_digit(#[trigger] s@[k]),
            v == digits_value(s@.take(j as int)),
        decreases len - j,
    {
        let c = s.get_char(j);
        let u: u32 = c as u32;
        if !(48 <= u && u <= 57) {
            assert(!is_digit(s@[j as int]));
            return None;
        }
        let d: u32 = u - 48;
        proof {
            lemma_digits_value_step(s@, j as int);
            lemma_u32_digit_overflow(v, d);
        }
        if v > (u32::MAX - d) / 10 {
            proof {
                assert(s@.take(len as int) =~= s@);
                crate::price::lemma_digits_value_prefix_le(s@, j as int + 1);
                assert(digits_value(s@) > u32::MAX);
            }
            return None;
        }
        v = v * 10 + d;
        j = j + 1;
    }
    proof {
        assert(s@.take(len as int) =~= s@);
    }
    Some(v)
}

proof fn lemma_u32_digit_overflow(v: u32, d: u32)
    requires
        d <= 9,
    ensures
        v > (u32::MAX - d) / 10 <==> 10 * (v as nat) + d > u32::MAX,
{
    let m: int = u32::MAX - d;
    let q: int = m / 10;
    vstd::arithmetic::div_mod::lemma_fundamental_div_mod(m, 10);
    assert(m == 10 * q + m % 10);
}

/// Does s hold a '?' already, i.e. has a query string begun?
pub open spec fn has_question(s: Seq<char>) -> bool {
    exists|i: int| 0 <= i < s.len() && s[i] == '?'
}

/// Scans for a '?' to decide whether a filter must start a query string or
/// extend one.
pub fn contains_question(s: &str) -> (r: bool)
    ensures
        r == has_question(s@),
{
    let len: usize = s.unicode_len();
    let mut j: usize = 0;
    while j < len
        invariant
            len == s@.len(),
            j <= len,
            forall|k: int| 0 <= k < j ==> s@[k] != '?',
        decreases len - j,
    {
        if s.get_char(j) == '?' {
            return true;
        }
        j = j + 1;
    }
    false
}

} // verus!

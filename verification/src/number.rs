//! Numbers as the log writes them: a decimal numeral, or a hexadecimal one
//! behind the prefix `0x`.
//!
//! A numeral is one digit or more and nothing else: no sign, no blank, no
//! underscore. A decimal number may be written with one `+` before its
//! numeral; a hexadecimal one is its prefix and its numeral. A numeral whose
//! value does not fit in 64 bits is no number.

use vstd::prelude::*;
use vstd::slice::slice_subrange;
use crate::text::chars_of;

verus! {

/// The value of `c` as a digit in base `radix`, where it is one: `0` to `9`
/// stand for themselves, and the letters, small or capital, for ten and up.
pub open spec fn digit(c: char, radix: nat) -> Option<nat> {
    let value: int = if '0' <= c <= '9' {
        c as int - '0' as int
    } else if 'a' <= c <= 'z' {
        c as int - 'a' as int + 10
    } else if 'A' <= c <= 'Z' {
        c as int - 'A' as int + 10
    } else {
        -1
    };
    if 0 <= value < radix {
        Some(value as nat)
    } else {
        None
    }
}

/// Whether `s` is a numeral in base `radix`: at least one character, and
/// every one of them a digit.
pub open spec fn is_numeral(s: Seq<char>, radix: nat) -> bool {
    &&& s.len() > 0
    &&& forall|i: int| 0 <= i < s.len() ==> (#[trigger] digit(s[i], radix)) is Some
}

/// The value of the digits of `s` in base `radix`, the first digit counting
/// most.
pub open spec fn numeral_value(s: Seq<char>, radix: nat) -> nat
    decreases s.len(),
{
    if s.len() == 0 {
        0
    } else {
        numeral_value(s.drop_last(), radix) * radix + digit(s.last(), radix).unwrap()
    }
}

/// The number that `s` writes in base `radix`, if it is a numeral and its
/// value fits in 64 bits.
pub open spec fn number(s: Seq<char>, radix: nat) -> Option<u64> {
    if is_numeral(s, radix) && numeral_value(s, radix) <= u64::MAX {
        Some(numeral_value(s, radix) as u64)
    } else {
        None
    }
}

/// The number that a hexadecimal field writes: the prefix `0x`, then a
/// numeral in base 16.
pub open spec fn hex_number(s: Seq<char>) -> Option<u64> {
    if s.len() >= 2 && s[0] == '0' && s[1] == 'x' {
        number(s.skip(2), 16)
    } else {
        None
    }
}

/// The number that a decimal field writes: a numeral in base 10, or one `+`
/// and then such a numeral.
pub open spec fn decimal_number(s: Seq<char>) -> Option<u64> {
    if s.len() > 0 && s[0] == '+' {
        number(s.skip(1), 10)
    } else {
        number(s, 10)
    }
}

/// A numeral is worth at least as much as any of its beginnings.
pub proof fn lemma_numeral_value_grows(s: Seq<char>, radix: nat, k: int)
    requires
        radix >= 1,
        0 <= k <= s.len(),
        forall|i: int| 0 <= i < s.len() ==> (#[trigger] digit(s[i], radix)) is Some,
    ensures
        numeral_value(s.take(k), radix) <= numeral_value(s, radix),
    decreases s.len() - k,
{
    if k == s.len() {
        assert(s.take(k) =~= s);
    } else {
        let init = s.drop_last();
        lemma_numeral_value_grows(init, radix, k);
        assert(init.take(k) =~= s.take(k));
        let v = numeral_value(init, radix);
        assert(v <= v * radix) by (nonlinear_arith)
            requires
                radix >= 1,
                v >= 0,
        ;
    }
}

/// The value of `c` as a digit in base `radix`.
fn digit_of(c: char, radix: u64) -> (r: Option<u64>)
    requires
        radix <= 36,
    ensures
        r is Some <==> digit(c, radix as nat) is Some,
        r is Some ==> r->0 == digit(c, radix as nat)->0,
        r is Some ==> r->0 < radix,
{
    let value: u64 = if '0' <= c && c <= '9' {
        (c as u32 - '0' as u32) as u64
    } else if 'a' <= c && c <= 'z' {
        (c as u32 - 'a' as u32) as u64 + 10
    } else if 'A' <= c && c <= 'Z' {
        (c as u32 - 'A' as u32) as u64 + 10
    } else {
        return None;
    };
    if value < radix {
        Some(value)
    } else {
        None
    }
}

/// The number that `s` writes in base `radix`.
fn number_of(s: &[char], radix: u64) -> (r: Option<u64>)
    requires
        1 <= radix <= 36,
    ensures
        r == number(s@, radix as nat),
{
    if s.len() == 0 {
        return None;
    }
    let mut value: u64 = 0;
    let mut i: usize = 0;
    while i < s.len()
        invariant
            1 <= radix <= 36,
            i <= s.len(),
            forall|j: int| 0 <= j < i ==> (#[trigger] digit(s@[j], radix as nat)) is Some,
            value == numeral_value(s@.take(i as int), radix as nat),
        decreases s.len() - i,
    {
        let d = match digit_of(s[i], radix) {
            Some(d) => d,
            None => {
                return None;
            },
        };
        proof {
            let next = s@.take(i + 1);
            assert(next.drop_last() =~= s@.take(i as int));
            if is_numeral(s@, radix as nat) {
                lemma_numeral_value_grows(s@, radix as nat, i + 1);
            }
        }
        let scaled = match value.checked_mul(radix) {
            Some(scaled) => scaled,
            None => {
                return None;
            },
        };
        value = match scaled.checked_add(d) {
            Some(sum) => sum,
            None => {
                return None;
            },
        };
        i += 1;
    }
    proof {
        assert(s@.take(i as int) =~= s@);
    }
    Some(value)
}

/// The number that a hexadecimal field writes, where it writes one.
pub fn hex_value(s: &[char]) -> (r: Option<u64>)
    ensures
        r == hex_number(s@),
{
    if s.len() >= 2 && s[0] == '0' && s[1] == 'x' {
        number_of(slice_subrange(s, 2, s.len()), 16)
    } else {
        None
    }
}

/// The number that a decimal field writes, where it writes one.
pub fn decimal_value(s: &[char]) -> (r: Option<u64>)
    ensures
        r == decimal_number(s@),
{
    if s.len() > 0 && s[0] == '+' {
        number_of(slice_subrange(s, 1, s.len()), 10)
    } else {
        number_of(s, 10)
    }
}

/// The number that the string writes in hexadecimal behind the prefix `0x`;
/// `None` where the prefix is missing, where no digit follows it, where
/// anything else than hexadecimal digits follows it, and where the value
/// does not fit in 64 bits.
pub fn parse_hex(string: &str) -> (r: Option<u64>)
    ensures
        r == hex_number(string@),
{
    let chars = chars_of(string);
    hex_value(chars.as_slice())
}

} // verus!

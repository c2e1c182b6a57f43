//! The three external forms of a number: big-endian bytes of the magnitude,
//! signed decimal text, and signed upper-case hexadecimal text.

use vstd::prelude::*;

use crate::arith::magnitude;

verus! {

/// The magnitude that a big-endian byte string denotes. Leading zero bytes
/// add nothing; the empty string denotes zero.
pub open spec fn be_value(bytes: Seq<u8>) -> nat
    decreases bytes.len(),
{
    if bytes.len() == 0 {
        0
    } else {
        be_value(bytes.drop_last()) * 256 + bytes.last() as nat
    }
}

/// The shortest big-endian byte string that denotes `n`. Zero is the empty
/// string.
pub open spec fn be_bytes(n: nat) -> Seq<u8>
    decreases n,
{
    if n == 0 {
        Seq::empty()
    } else {
        be_bytes(n / 256).push((n % 256) as u8)
    }
}

/// The character for a digit `d` below 16, upper case.
pub open spec fn digit_char(d: nat) -> char {
    if d < 10 {
        (('0' as u8) + d) as u8 as char
    } else {
        (('A' as u8) + (d - 10)) as u8 as char
    }
}

/// The digit that `c` stands for in the given base, if it is one. Letters
/// count in either case.
pub open spec fn digit_of(c: char, base: nat) -> Option<nat> {
    let d: Option<nat> = if '0' <= c <= '9' {
        Some((c as u8 - '0' as u8) as nat)
    } else if 'A' <= c <= 'F' {
        Some((c as u8 - 'A' as u8 + 10) as nat)
    } else if 'a' <= c <= 'f' {
        Some((c as u8 - 'a' as u8 + 10) as nat)
    } else {
        None
    };
    match d {
        Some(v) if v < base => Some(v),
        _ => None,
    }
}

/// Whether every character of `s` is a digit of the given base.
pub open spec fn all_digits(s: Seq<char>, base: nat) -> bool {
    forall|i: int| 0 <= i < s.len() ==> (#[trigger] digit_of(s[i], base)) is Some
}

/// The number that a string of digits denotes, most significant digit first.
pub open spec fn digits_value(s: Seq<char>, base: nat) -> nat
    decreases s.len(),
{
    if s.len() == 0 {
        0
    } else {
        digits_value(s.drop_last(), base) * base + match digit_of(s.last(), base) {
            Some(d) => d,
            None => 0,
        }
    }
}

/// Whether `s` is a number in the given base: an optional `-`, then one or
/// more digits, and nothing else.
pub open spec fn is_number_text(s: Seq<char>, base: nat) -> bool {
    if s.len() > 0 && s[0] == '-' {
        s.len() > 1 && all_digits(s.skip(1), base)
    } else {
        s.len() > 0 && all_digits(s, base)
    }
}

/// The integer that a number text denotes. `-0` denotes zero.
pub open spec fn number_value(s: Seq<char>, base: nat) -> int {
    if s.len() > 0 && s[0] == '-' {
        -(digits_value(s.skip(1), base) as int)
    } else {
        digits_value(s, base) as int
    }
}

/// Whether `s` is a decimal number: an optional `-` and one or more of `0`-`9`.
pub open spec fn is_dec_text(s: Seq<char>) -> bool {
    is_number_text(s, 10)
}

/// The integer that a decimal text denotes.
pub open spec fn dec_value(s: Seq<char>) -> int {
    number_value(s, 10)
}

/// Whether `s` is a hexadecimal number: an optional `-` and one or more hex
/// digits of either case, without prefix.
pub open spec fn is_hex_text(s: Seq<char>) -> bool {
    is_number_text(s, 16)
}

/// The integer that a hexadecimal text denotes.
pub open spec fn hex_value(s: Seq<char>) -> int {
    number_value(s, 16)
}

/// The decimal digits of `n` without leading zeros; `0` for zero.
pub open spec fn dec_digits(n: nat) -> Seq<char>
    decreases n,
{
    if n < 10 {
        seq![digit_char(n)]
    } else {
        dec_digits(n / 10).push(digit_char(n % 10))
    }
}

/// The decimal form of `v`: a leading `-` when negative, no leading zeros.
pub open spec fn dec_text(v: int) -> Seq<char> {
    if v < 0 {
        seq!['-'] + dec_digits(magnitude(v))
    } else {
        dec_digits(magnitude(v))
    }
}

/// Two upper-case hex digits for each byte.
pub open spec fn hex_of_bytes(bytes: Seq<u8>) -> Seq<char>
    decreases bytes.len(),
{
    if bytes.len() == 0 {
        Seq::empty()
    } else {
        hex_of_bytes(bytes.drop_last()).push(digit_char((bytes.last() / 16) as nat)).push(
            digit_char((bytes.last() % 16) as nat),
        )
    }
}

/// The hex digits of `n`: two for each byte of its shortest big-endian form,
/// so the count is even; the single digit `0` for zero.
pub open spec fn hex_digits(n: nat) -> Seq<char> {
    if n == 0 {
        seq!['0']
    } else {
        hex_of_bytes(be_bytes(n))
    }
}

/// The hexadecimal form of `v`: a leading `-` when negative, upper case, no
/// prefix, whole bytes.
pub open spec fn hex_text(v: int) -> Seq<char> {
    if v < 0 {
        seq!['-'] + hex_digits(magnitude(v))
    } else {
        hex_digits(magnitude(v))
    }
}

} // verus!

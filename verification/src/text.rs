//! Decimal and hexadecimal text: the test that decides which input is a
//! number, and the conversions of `BigNumber` from and to text.

use vstd::prelude::*;
use vstd::string::*;

use crate::encoding::{
    all_digits, dec_text, dec_value, digit_of, hex_text, hex_value, is_dec_text, is_hex_text,
    is_number_text,
};
use crate::engine::{bn_from_dec_str, bn_from_hex_str, bn_to_dec_str, bn_to_hex_str};
use crate::error::{checked, Error};
use crate::number::BigNumber;

verus! {

/// The failure for text that is not a number.
fn malformed() -> (e: Error)
    ensures
        e is InvalidInput && e.text() == "the text is not a number"@,
{
    Error::InvalidInput(String::from_str("the text is not a number"))
}

/// A number text holds ASCII characters only.
proof fn lemma_number_text_is_ascii(s: Seq<char>, base: nat)
    requires
        is_number_text(s, base),
    ensures
        vstd::utf8::is_ascii_chars(s),
{
    assert forall|i: int| 0 <= i < s.len() implies '\0' <= #[trigger] s[i] <= '\u{7f}' by {
        if s[0] == '-' {
            if i > 0 {
                assert(s.skip(1)[i - 1] == s[i]);
                assert(digit_of(s.skip(1)[i - 1], base) is Some);
            }
        } else {
            assert(digit_of(s[i], base) is Some);
        }
    }
}

/// Whether the ASCII byte `b` is a digit of the base.
fn is_digit_byte(b: u8, base: u8) -> (r: bool)
    requires
        b < 128,
    ensures
        r == (digit_of(b as char, base as nat) is Some),
{
    if b >= 48 && b <= 57 {
        b - 48 < base
    } else if b >= 65 && b <= 70 {
        b - 55 < base
    } else if b >= 97 && b <= 102 {
        b - 87 < base
    } else {
        false
    }
}

/// Whether `s` is a number in the given base: an optional `-`, then one or
/// more digits, and nothing else.
fn is_number(s: &str, base: u8) -> (r: bool)
    ensures
        r == is_number_text(s@, base as nat),
{
    if !s.is_ascii() {
        proof {
            if is_number_text(s@, base as nat) {
                lemma_number_text_is_ascii(s@, base as nat);
            }
        }
        return false;
    }
    let bytes = s.as_bytes();
    let len = bytes.len();
    proof {
        vstd::utf8::is_ascii_chars_encode_utf8(s@);
    }
    assert(len == s@.len());
    assert(forall|j: int| 0 <= j < len ==> bytes@[j] == (#[trigger] s@[j]) as u8);
    let start: usize = if len > 0 && bytes[0] == 45 {
        1
    } else {
        0
    };
    assert(start == 1 <==> (s@.len() > 0 && s@[0] == '-'));
    if len == start {
        return false;
    }
    let ghost digits = s@.skip(start as int);
    assert(s@.skip(0) =~= s@);
    let mut i = start;
    while i < len
        invariant
            start <= i <= len,
            start <= 1,
            len == s@.len(),
            len == bytes@.len(),
            vstd::utf8::is_ascii_chars(s@),
            digits == s@.skip(start as int),
            start == 0 ==> digits == s@,
            start == 1 <==> (s@.len() > 0 && s@[0] == '-'),
            forall|j: int| 0 <= j < len ==> bytes@[j] == (#[trigger] s@[j]) as u8,
            forall|j: int| start <= j < i ==> (#[trigger] digit_of(s@[j], base as nat)) is Some,
        decreases len - i,
    {
        let b = bytes[i];
        assert(b as char == s@[i as int]);
        if !is_digit_byte(b, base) {
            assert(digits[i - start] == s@[i as int]);
            assert(!all_digits(digits, base as nat));
            return false;
        }
        i += 1;
    }
    assert(all_digits(digits, base as nat)) by {
        assert forall|k: int| 0 <= k < digits.len() implies (#[trigger] digit_of(
            digits[k],
            base as nat,
        )) is Some by {
            assert(digits[k] == s@[k + start]);
        }
    }
    true
}

/// Whether `s` is a decimal number: an optional `-`, then one or more of the
/// digits `0` to `9`, and nothing else.
pub fn is_decimal(s: &str) -> (r: bool)
    ensures
        r == is_dec_text(s@),
{
    is_number(s, 10)
}

/// Whether `s` is a hexadecimal number: an optional `-`, then one or more hex
/// digits of either case, and nothing else.
pub fn is_hexadecimal(s: &str) -> (r: bool)
    ensures
        r == is_hex_text(s@),
{
    is_number(s, 16)
}

impl BigNumber {
    /// The number that the decimal text `dec` denotes. Text that is not a
    /// decimal number is refused.
    pub fn from_dec(dec: &str) -> (r: Result<BigNumber, Error>)
        ensures
            r matches Ok(v) ==> is_dec_text(dec@) && v@ == dec_value(dec@),
            r matches Err(e) ==> (e is InvalidInput <==> !is_dec_text(dec@)) && (e is InvalidInput
                || e is InvalidState),
    {
        if !is_decimal(dec) {
            return Err(malformed());
        }
        Ok(BigNumber { openssl_bn: checked(bn_from_dec_str(dec))? })
    }

    /// The number that the hexadecimal text `hex` denotes. Text that is not a
    /// hexadecimal number is refused.
    pub fn from_hex(hex: &str) -> (r: Result<BigNumber, Error>)
        ensures
            r matches Ok(v) ==> is_hex_text(hex@) && v@ == hex_value(hex@),
            r matches Err(e) ==> (e is InvalidInput <==> !is_hex_text(hex@)) && (e is InvalidInput
                || e is InvalidState),
    {
        if !is_hexadecimal(hex) {
            return Err(malformed());
        }
        Ok(BigNumber { openssl_bn: checked(bn_from_hex_str(hex))? })
    }

    /// The decimal form: a leading `-` when negative, no leading zeros.
    pub fn to_dec(&self) -> (r: Result<String, Error>)
        ensures
            r matches Ok(s) ==> s@ == dec_text(self@),
            r matches Err(e) ==> e is InvalidState,
    {
        checked(bn_to_dec_str(&self.openssl_bn))
    }

    /// The hexadecimal form: a leading `-` when negative, upper case, no
    /// prefix, two digits for each byte of the magnitude, `0` for zero.
    pub fn to_hex(&self) -> (r: Result<String, Error>)
        ensures
            r matches Ok(s) ==> s@ == hex_text(self@),
            r matches Err(e) ==> e is InvalidState,
    {
        checked(bn_to_hex_str(&self.openssl_bn))
    }
}

} // verus!

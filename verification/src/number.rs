//! `BigNumber`: the value type and its operations.

use openssl::bn::{BigNum, BigNumContext};
use vstd::arithmetic::power2::pow2;
use vstd::prelude::*;
use vstd::string::*;

use crate::arith::{bit_at, bit_length, magnitude, quotient, with_bit, with_sign};
use crate::encoding::{be_bytes, be_value};
use crate::engine::{
    bn_add_word, bn_div_word, bn_from_slice, bn_from_u32, bn_is_bit_set, bn_is_negative,
    bn_lshift1, bn_mul_word, bn_new_context, bn_new_secure, bn_num_bits, bn_rshift, bn_rshift1,
    bn_set_bit, bn_set_negative, bn_sub_word, bn_to_vec, bn_value, bn_zero,
};
use crate::error::{checked, Error};
use crate::lemmas::{lemma_be_round_trip, lemma_bit_length_one, lemma_bit_length_zero};

verus! {

/// A signed integer of unbounded magnitude, held by the engine. Its view is
/// the integer itself, so zero has no sign. A number owns its storage: what
/// is done to one number never shows in another.
#[derive(Debug, Ord)]
pub struct BigNumber {
    pub(crate) openssl_bn: BigNum,
}

impl View for BigNumber {
    type V = int;

    open(crate) spec fn view(&self) -> int {
        bn_value(self.openssl_bn)
    }
}

/// Fresh scratch space for one operation of the engine. It is borrowed by
/// that operation alone and released when the operation returns.
pub(crate) fn scratch() -> (r: Result<BigNumContext, Error>)
    ensures
        r matches Err(e) ==> e is InvalidState,
{
    checked(bn_new_context())
}

/// The failure for a divisor or modulus of zero.
pub(crate) fn zero_divisor() -> (e: Error)
    ensures
        e is InvalidInput && e.text() == "the divisor or modulus is zero"@,
{
    Error::InvalidInput(String::from_str("the divisor or modulus is zero"))
}

/// Accepts `n` as a divisor or modulus unless it is zero, which is refused
/// as `InvalidInput`.
pub fn nonzero(n: &BigNumber) -> (r: Result<(), Error>)
    ensures
        r is Ok <==> n@ != 0,
        r matches Err(e) ==> e is InvalidInput,
{
    if n.is_zero() {
        Err(zero_divisor())
    } else {
        Ok(())
    }
}

/// The failure for a bit position or shift count below zero.
fn negative_position() -> (e: Error)
    ensures
        e is InvalidInput && e.text() == "the bit position or shift count is negative"@,
{
    Error::InvalidInput(String::from_str("the bit position or shift count is negative"))
}

/// The failure for a size or value beyond what the engine counts.
pub(crate) fn out_of_range() -> (e: Error)
    ensures
        e is InvalidInput && e.text() == "the number is too large for the engine"@,
{
    Error::InvalidInput(String::from_str("the number is too large for the engine"))
}

impl BigNumber {
    /// Zero, on the engine's secure heap.
    pub fn new() -> (r: Result<BigNumber, Error>)
        ensures
            r matches Ok(n) ==> n@ == 0,
            r matches Err(e) ==> e is InvalidState,
    {
        Ok(BigNumber { openssl_bn: checked(bn_new_secure())? })
    }

    /// Whether the number is zero.
    pub(crate) fn is_zero(&self) -> (r: bool)
        ensures
            r == (self@ == 0),
    {
        proof {
            lemma_bit_length_zero(magnitude(self@));
        }
        bn_num_bits(&self.openssl_bn) == 0
    }

    /// Whether the number is 1 or -1.
    pub(crate) fn is_unit_magnitude(&self) -> (r: bool)
        ensures
            r == (magnitude(self@) == 1),
    {
        proof {
            lemma_bit_length_one(magnitude(self@));
        }
        bn_num_bits(&self.openssl_bn) == 1
    }

    /// The number of significant bits of the magnitude; zero for zero.
    pub fn num_bits(&self) -> (r: Result<i32, Error>)
        ensures
            r matches Ok(bits) && bits == bit_length(magnitude(self@)),
    {
        Ok(bn_num_bits(&self.openssl_bn))
    }

    /// Whether the number is below zero.
    pub fn is_negative(&self) -> (r: bool)
        ensures
            r == (self@ < 0),
    {
        bn_is_negative(&self.openssl_bn)
    }

    /// The number `n`. A value above `u32::MAX` is refused.
    pub fn from_u32(n: usize) -> (r: Result<BigNumber, Error>)
        ensures
            r matches Ok(v) ==> v@ == n && n <= u32::MAX,
            r matches Err(e) ==> (e is InvalidInput <==> n > u32::MAX) && (e is InvalidInput
                || e is InvalidState),
    {
        if n > u32::MAX as usize {
            return Err(out_of_range());
        }
        Ok(BigNumber { openssl_bn: checked(bn_from_u32(n as u32))? })
    }

    /// The non-negative number whose big-endian form is `bytes`. Leading zero
    /// bytes are accepted and the empty string gives zero. More bytes than
    /// the engine can count are refused.
    pub fn from_bytes(bytes: &[u8]) -> (r: Result<BigNumber, Error>)
        ensures
            r matches Ok(v) ==> v@ == be_value(bytes@) && bytes@.len() <= i32::MAX,
            r matches Err(e) ==> (e is InvalidInput <==> bytes@.len() > i32::MAX) && (e is InvalidInput
                || e is InvalidState),
    {
        if bytes.len() > i32::MAX as usize {
            return Err(out_of_range());
        }
        Ok(BigNumber { openssl_bn: checked(bn_from_slice(bytes))? })
    }

    /// The shortest big-endian form of the magnitude. The sign is not
    /// encoded, and zero gives the empty string.
    pub fn to_bytes(&self) -> (r: Result<Vec<u8>, Error>)
        ensures
            r matches Ok(bytes) && bytes@ == be_bytes(magnitude(self@)) && bytes@.len()
                <= i32::MAX,
    {
        Ok(bn_to_vec(&self.openssl_bn))
    }

    /// A copy of the magnitude with the sign asked for. Zero stays zero, so
    /// it is never negative.
    pub fn set_negative(&self, negative: bool) -> (r: Result<BigNumber, Error>)
        ensures
            r matches Ok(v) ==> v@ == with_sign(self@, negative),
            r matches Err(e) ==> e is InvalidState,
    {
        let bytes = bn_to_vec(&self.openssl_bn);
        proof {
            lemma_be_round_trip(magnitude(self@));
        }
        let mut bn = checked(bn_from_slice(bytes.as_slice()))?;
        bn_set_negative(&mut bn, negative);
        Ok(BigNumber { openssl_bn: bn })
    }

    /// A copy that shares nothing with `self`, sign included.
    pub fn try_clone(&self) -> (r: Result<BigNumber, Error>)
        ensures
            r matches Ok(v) ==> v@ == self@,
            r matches Err(e) ==> e is InvalidState,
    {
        self.set_negative(self.is_negative())
    }

    /// `self + 1`, as a new number.
    pub fn increment(&self) -> (r: Result<BigNumber, Error>)
        ensures
            r matches Ok(v) ==> v@ == self@ + 1,
            r matches Err(e) ==> e is InvalidState,
    {
        let mut bn = self.try_clone()?;
        checked(bn_add_word(&mut bn.openssl_bn, 1))?;
        Ok(bn)
    }

    /// `self - 1`, as a new number.
    pub fn decrement(&self) -> (r: Result<BigNumber, Error>)
        ensures
            r matches Ok(v) ==> v@ == self@ - 1,
            r matches Err(e) ==> e is InvalidState,
    {
        let mut bn = self.try_clone()?;
        checked(bn_sub_word(&mut bn.openssl_bn, 1))?;
        Ok(bn)
    }

    /// Bit `n` of the magnitude; `false` for a negative `n`.
    pub fn is_bit_set(&self, n: i32) -> (r: Result<bool, Error>)
        ensures
            r matches Ok(bit) && bit == (n >= 0 && bit_at(magnitude(self@), n as nat)),
    {
        Ok(bn_is_bit_set(&self.openssl_bn, n))
    }

    /// Sets bit `n` of the magnitude in place; the sign stays. A negative `n`
    /// is refused and leaves the number as it was.
    pub fn set_bit(&mut self, n: i32) -> (r: Result<&mut BigNumber, Error>)
        ensures
            r matches Ok(s) ==> n >= 0 && (*s)@ == with_bit(old(self)@, n as nat) && *final(self)
                == *final(s),
            r matches Err(e) ==> (e is InvalidInput <==> n < 0) && (e is InvalidInput
                || e is InvalidState),
            n < 0 ==> *final(self) == *old(self),
    {
        if n < 0 {
            return Err(negative_position());
        }
        checked(bn_set_bit(&mut self.openssl_bn, n))?;
        Ok(self)
    }

    /// Adds `w` in place.
    pub fn add_word(&mut self, w: u32) -> (r: Result<&mut BigNumber, Error>)
        ensures
            r matches Ok(s) ==> (*s)@ == old(self)@ + w && *final(self) == *final(s),
            r matches Err(e) ==> e is InvalidState,
    {
        checked(bn_add_word(&mut self.openssl_bn, w))?;
        Ok(self)
    }

    /// Subtracts `w` in place.
    pub fn sub_word(&mut self, w: u32) -> (r: Result<&mut BigNumber, Error>)
        ensures
            r matches Ok(s) ==> (*s)@ == old(self)@ - w && *final(self) == *final(s),
            r matches Err(e) ==> e is InvalidState,
    {
        checked(bn_sub_word(&mut self.openssl_bn, w))?;
        Ok(self)
    }

    /// Multiplies by `w` in place.
    pub fn mul_word(&mut self, w: u32) -> (r: Result<&mut BigNumber, Error>)
        ensures
            r matches Ok(s) ==> (*s)@ == old(self)@ * w && *final(self) == *final(s),
            r matches Err(e) ==> e is InvalidState,
    {
        checked(bn_mul_word(&mut self.openssl_bn, w))?;
        Ok(self)
    }

    /// Divides by `w` in place, rounding toward zero. A zero `w` is refused
    /// and leaves the number as it was.
    pub fn div_word(&mut self, w: u32) -> (r: Result<&mut BigNumber, Error>)
        ensures
            r matches Ok(s) ==> w != 0 && (*s)@ == quotient(old(self)@, w as int) && *final(self)
                == *final(s),
            r matches Err(e) ==> (e is InvalidInput <==> w == 0) && (e is InvalidInput
                || e is InvalidState),
            w == 0 ==> *final(self) == *old(self),
    {
        if w == 0 {
            return Err(zero_divisor());
        }
        checked(bn_div_word(&mut self.openssl_bn, w))?;
        Ok(self)
    }

    /// `2 * self`, as a new number.
    pub fn lshift1(&self) -> (r: Result<BigNumber, Error>)
        ensures
            r matches Ok(v) ==> v@ == 2 * self@,
            r matches Err(e) ==> e is InvalidState,
    {
        let mut bn = BigNumber::new()?;
        checked(bn_lshift1(&mut bn.openssl_bn, &self.openssl_bn))?;
        Ok(bn)
    }

    /// `self / 2` rounded toward zero, as a new number: the magnitude moves
    /// one bit to the right and the sign stays.
    pub fn rshift1(&self) -> (r: Result<BigNumber, Error>)
        ensures
            r matches Ok(v) ==> v@ == quotient(self@, 2),
            r matches Err(e) ==> e is InvalidState,
    {
        let mut bn = BigNumber::new()?;
        checked(bn_rshift1(&mut bn.openssl_bn, &self.openssl_bn))?;
        Ok(bn)
    }

    /// `self / 2^n` rounded toward zero, as a new number: the magnitude moves
    /// `n` bits to the right and the sign stays. A count that the engine
    /// would read as negative is refused.
    pub fn rshift(&self, n: u32) -> (r: Result<BigNumber, Error>)
        ensures
            r matches Ok(v) ==> n <= i32::MAX && v@ == quotient(self@, pow2(n as nat) as int),
            r matches Err(e) ==> (e is InvalidInput <==> n > i32::MAX) && (e is InvalidInput
                || e is InvalidState),
    {
        if n > i32::MAX as u32 {
            return Err(negative_position());
        }
        let mut bn = BigNumber::new()?;
        checked(bn_rshift(&mut bn.openssl_bn, &self.openssl_bn, n as i32))?;
        Ok(bn)
    }
}

impl Default for BigNumber {
    /// Zero.
    fn default() -> (r: BigNumber)
        ensures
            r@ == 0,
    {
        BigNumber { openssl_bn: bn_zero() }
    }
}

} // verus!

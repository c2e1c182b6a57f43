//! Random numbers and random primes, drawn from the engine's
//! cryptographically secure generator.

use vstd::arithmetic::power2::pow2;
use vstd::prelude::*;
use vstd::string::*;

use crate::arith::{bit_length, magnitude};
use crate::engine::{bn_generate_prime, bn_num_bits, bn_rand, bn_rand_range};
use crate::error::{checked, Error};
use crate::number::{out_of_range, BigNumber};

verus! {

/// What may be asked of the highest bits of a random number.
#[derive(Debug, Clone, Copy, PartialEq, Eq)]
pub enum TopBits {
    /// The highest bit may be zero.
    MaybeZero,
    /// The highest bit is one.
    One,
    /// The two highest bits are one.
    TwoOnes,
}

/// What is asked of the engine for a random number.
#[derive(Debug, PartialEq, Eq)]
pub struct RandRequest {
    /// The greatest length of the number, in bits.
    pub bits: i32,
    /// What is asked of the highest bits.
    pub top: TopBits,
    /// Whether the number is to be odd.
    pub odd: bool,
}

/// What is asked of the engine for a random prime.
#[derive(Debug, PartialEq, Eq)]
pub struct PrimeRequest {
    /// The length of the prime, in bits.
    pub bits: i32,
    /// Whether half of the prime's predecessor is to be prime too.
    pub safe: bool,
    /// The modulus of a congruence that the prime is to meet, if any.
    pub add: Option<BigNumber>,
    /// The remainder that the prime is to leave modulo `add`, if any.
    pub rem: Option<BigNumber>,
}

/// The request that `rand` makes for a number of up to `size` bits: that
/// many bits, the highest bit free, the lowest bit not forced. There is none
/// for a size that the engine cannot count.
pub fn rand_request(size: usize) -> (r: Option<RandRequest>)
    ensures
        size <= i32::MAX ==> r == Some(
            (RandRequest { bits: size as i32, top: TopBits::MaybeZero, odd: false }),
        ),
        size > i32::MAX ==> r is None,
{
    if size > i32::MAX as usize {
        None
    } else {
        Some(RandRequest { bits: size as i32, top: TopBits::MaybeZero, odd: false })
    }
}

/// The request that is made for a prime of `size` bits, without further
/// constraints. A safe prime `2p + 1` is asked for with one bit more, so
/// that `p` has `size` bits. There is none for a size that the engine cannot
/// count.
pub fn prime_request(size: usize, safe: bool) -> (r: Option<PrimeRequest>)
    ensures
        !safe && size <= i32::MAX ==> r == Some(
            (PrimeRequest { bits: size as i32, safe: false, add: None, rem: None }),
        ),
        safe && size < i32::MAX ==> r == Some(
            (PrimeRequest { bits: (size + 1) as i32, safe: true, add: None, rem: None }),
        ),
        (!safe && size > i32::MAX) || (safe && size >= i32::MAX) ==> r is None,
{
    if safe {
        if size >= i32::MAX as usize {
            None
        } else {
            Some(PrimeRequest { bits: (size + 1) as i32, safe: true, add: None, rem: None })
        }
    } else {
        if size > i32::MAX as usize {
            None
        } else {
            Some(PrimeRequest { bits: size as i32, safe: false, add: None, rem: None })
        }
    }
}

/// The number that the engine gave for a request of `bits` bits: accepted
/// where it has exactly that length, and else an `InvalidState` failure.
pub fn of_length(number: BigNumber, bits: i32) -> (r: Result<BigNumber, Error>)
    ensures
        bit_length(magnitude(number@)) == bits ==> r == Ok::<BigNumber, Error>(number),
        bit_length(magnitude(number@)) != bits ==> r is Err,
        r matches Err(e) ==> e is InvalidState,
{
    if bn_num_bits(&number.openssl_bn) == bits {
        Ok(number)
    } else {
        Err(Error::InvalidState(String::from_str("the engine gave a number of another length")))
    }
}

impl BigNumber {
    /// A random prime of `size` bits, without further constraints. That the
    /// number is prime holds with high probability only; what is certain is
    /// that it is positive and has exactly `size` bits. A size that the
    /// engine cannot count is refused.
    pub fn generate_prime(size: usize) -> (r: Result<BigNumber, Error>)
        ensures
            r matches Ok(v) ==> size <= i32::MAX && v@ > 0 && bit_length(magnitude(v@)) == size,
            r matches Err(e) ==> (e is InvalidInput <==> size > i32::MAX) && (e is InvalidInput
                || e is InvalidState),
    {
        let request = match prime_request(size, false) {
            Some(request) => request,
            None => {
                return Err(out_of_range());
            },
        };
        let mut bn = BigNumber::new()?;
        checked(
            bn_generate_prime(
                &mut bn.openssl_bn,
                request.bits,
                request.safe,
                request.add.as_ref(),
                request.rem.as_ref(),
            ),
        )?;
        of_length(bn, request.bits)
    }

    /// A random safe prime `q = 2p + 1` of `size + 1` bits, where `p` is a
    /// prime of `size` bits. That `q` and `p` are prime holds with high
    /// probability only; what is certain is that `q` is positive and has
    /// exactly `size + 1` bits. A size that the engine cannot count is
    /// refused.
    pub fn generate_safe_prime(size: usize) -> (r: Result<BigNumber, Error>)
        ensures
            r matches Ok(v) ==> size < i32::MAX && v@ > 0 && bit_length(magnitude(v@)) == size + 1,
            r matches Err(e) ==> (e is InvalidInput <==> size >= i32::MAX) && (e is InvalidInput
                || e is InvalidState),
    {
        let request = match prime_request(size, true) {
            Some(request) => request,
            None => {
                return Err(out_of_range());
            },
        };
        let mut bn = BigNumber::new()?;
        checked(
            bn_generate_prime(
                &mut bn.openssl_bn,
                request.bits,
                request.safe,
                request.add.as_ref(),
                request.rem.as_ref(),
            ),
        )?;
        of_length(bn, request.bits)
    }

    /// A random number of up to `size` bits: it lies in `[0, 2^size)`, and
    /// its highest bit may be zero. A size that the engine cannot count is
    /// refused.
    pub fn rand(size: usize) -> (r: Result<BigNumber, Error>)
        ensures
            r matches Ok(v) ==> size <= i32::MAX && 0 <= v@ < pow2(size as nat),
            r matches Err(e) ==> (e is InvalidInput <==> size > i32::MAX) && (e is InvalidInput
                || e is InvalidState),
    {
        let request = match rand_request(size) {
            Some(request) => request,
            None => {
                return Err(out_of_range());
            },
        };
        let mut bn = BigNumber::new()?;
        checked(bn_rand(&mut bn.openssl_bn, request.bits, request.top, request.odd))?;
        Ok(bn)
    }

    /// A random number in `[0, self)`. There is none unless `self` is
    /// positive.
    pub fn rand_range(&self) -> (r: Result<BigNumber, Error>)
        ensures
            r matches Ok(v) ==> 0 <= v@ < self@,
            r matches Err(e) ==> e is InvalidState,
            self@ <= 0 ==> r is Err,
    {
        let mut bn = BigNumber::new()?;
        checked(bn_rand_range(&self.openssl_bn, &mut bn.openssl_bn))?;
        Ok(bn)
    }
}

} // verus!

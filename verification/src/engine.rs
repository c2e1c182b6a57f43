//! The boundary to OpenSSL: its types, and one wrapper for each of its
//! functions that the library calls. Nothing in this file is proved; each
//! contract restates what OpenSSL documents for the function it wraps.

use openssl::bn::{BigNum, BigNumContext, MsbOption};
use openssl::error::ErrorStack;
use std::cmp::Ordering;
use vstd::arithmetic::power::pow;
use vstd::arithmetic::power2::pow2;
use vstd::prelude::*;

use crate::arith::{
    bit_at, bit_length, gcd, is_inverse, is_prime, magnitude, quotient, residue, with_bit,
    with_sign,
};
use crate::encoding::{
    be_bytes, be_value, dec_text, dec_value, hex_text, hex_value, is_dec_text, is_hex_text,
};
use crate::number::BigNumber;
use crate::random::TopBits;

verus! {

/// OpenSSL's `BIGNUM`, owned.
#[verifier::external_type_specification]
#[verifier::external_body]
pub struct ExBigNum(openssl::bn::BigNum);

/// OpenSSL's `BN_CTX`, the scratch space of the multi-precision algorithms.
#[verifier::external_type_specification]
#[verifier::external_body]
pub struct ExBigNumContext(openssl::bn::BigNumContext);

/// OpenSSL's error queue, as taken after a failed call.
#[verifier::external_type_specification]
#[verifier::external_body]
pub struct ExErrorStack(openssl::error::ErrorStack);

/// The integer that a `BIGNUM` holds.
pub uninterp spec fn bn_value(b: BigNum) -> int;

/// `ErrorStack`'s `Display`: the engine's description of a failure. Nothing is
/// claimed about the text.
#[verifier::external_body]
pub(crate) fn engine_error_text(err: &ErrorStack) -> String {
    err.to_string()
}

/// `BigNum::new_secure` (`BN_secure_new`): a fresh number on the secure heap,
/// holding zero.
#[verifier::external_body]
pub(crate) fn bn_new_secure() -> (r: Result<BigNum, ErrorStack>)
    ensures
        r matches Ok(b) ==> bn_value(b) == 0,
{
    BigNum::new_secure()
}

/// `BigNum::new` (`BN_new`): a fresh number, holding zero. The process stops
/// where the engine cannot allocate the number.
#[verifier::external_body]
pub(crate) fn bn_zero() -> (r: BigNum)
    ensures
        bn_value(r) == 0,
{
    BigNum::new().unwrap()
}

/// `BigNumContext::new_secure` (`BN_CTX_secure_new`): fresh scratch space.
#[verifier::external_body]
pub(crate) fn bn_new_context() -> Result<BigNumContext, ErrorStack> {
    BigNumContext::new_secure()
}

/// `BigNumRef::generate_prime` (`BN_generate_prime_ex`): on success without
/// `add` and `rem`, `out` holds a positive number of at least `bits` bits.
/// That it is prime, or a safe prime, holds only with high probability and is
/// not claimed.
#[verifier::external_body]
pub(crate) fn bn_generate_prime(
    out: &mut BigNum,
    bits: i32,
    safe: bool,
    add: Option<&BigNumber>,
    rem: Option<&BigNumber>,
) -> (r: Result<(), ErrorStack>)
    ensures
        r is Ok && add is None && rem is None ==> bn_value(*final(out)) > 0 && bit_length(
            magnitude(bn_value(*final(out))),
        ) >= bits,
{
    out.generate_prime(bits, safe, add.map(|n| &*n.openssl_bn), rem.map(|n| &*n.openssl_bn))
}

/// `BigNumRef::is_prime_fasttest` (`BN_is_prime_fasttest_ex`): the answer
/// `false` is certain, the answer `true` is right only with high probability.
#[verifier::external_body]
pub(crate) fn bn_is_prime_fasttest(
    b: &BigNum,
    checks: i32,
    ctx: &mut BigNumContext,
    do_trial_division: bool,
) -> (r: Result<bool, ErrorStack>)
    ensures
        r matches Ok(answer) ==> (is_prime(bn_value(*b)) ==> answer),
{
    b.is_prime_fasttest(checks, ctx, do_trial_division)
}

/// `BigNumRef::rand` (`BN_rand`): on success `out` holds a non-negative
/// number below `2^bits`, whatever is asked of its highest and lowest bit.
#[verifier::external_body]
pub(crate) fn bn_rand(out: &mut BigNum, bits: i32, top: TopBits, odd: bool) -> (r: Result<
    (),
    ErrorStack,
>)
    ensures
        r is Ok && bits >= 0 ==> 0 <= bn_value(*final(out)) < pow2(bits as nat),
{
    let msb = match top {
        TopBits::MaybeZero => MsbOption::MAYBE_ZERO,
        TopBits::One => MsbOption::ONE,
        TopBits::TwoOnes => MsbOption::TWO_ONES,
    };
    out.rand(bits, msb, odd)
}

/// `BigNumRef::rand_range` (`BN_rand_range`): on success `out` holds a
/// non-negative number below `range`.
#[verifier::external_body]
pub(crate) fn bn_rand_range(range: &BigNum, out: &mut BigNum) -> (r: Result<(), ErrorStack>)
    ensures
        r is Ok ==> 0 <= bn_value(*final(out)) < bn_value(*range),
{
    range.rand_range(out)
}

/// `BigNumRef::num_bits` (`BN_num_bits`): the number of significant bits of
/// the magnitude.
#[verifier::external_body]
pub(crate) fn bn_num_bits(b: &BigNum) -> (r: i32)
    ensures
        r == bit_length(magnitude(bn_value(*b))),
{
    b.num_bits()
}

/// `BigNumRef::is_bit_set` (`BN_is_bit_set`): bit `n` of the magnitude;
/// `false` for a negative `n`.
#[verifier::external_body]
pub(crate) fn bn_is_bit_set(b: &BigNum, n: i32) -> (r: bool)
    ensures
        r == (n >= 0 && bit_at(magnitude(bn_value(*b)), n as nat)),
{
    b.is_bit_set(n)
}

/// `BigNumRef::set_bit` (`BN_set_bit`): on success bit `n` of the magnitude
/// is set and the sign is kept.
#[verifier::external_body]
pub(crate) fn bn_set_bit(b: &mut BigNum, n: i32) -> (r: Result<(), ErrorStack>)
    ensures
        r is Ok && n >= 0 ==> bn_value(*final(b)) == with_bit(bn_value(*old(b)), n as nat),
{
    b.set_bit(n)
}

/// `BigNum::from_u32` (`BN_set_word`): the number `n`.
#[verifier::external_body]
pub(crate) fn bn_from_u32(n: u32) -> (r: Result<BigNum, ErrorStack>)
    ensures
        r matches Ok(b) ==> bn_value(b) == n,
{
    BigNum::from_u32(n)
}

/// `BigNum::from_dec_str` (`BN_dec2bn`), which panics on a NUL character and
/// reads a prefix of other malformed text: called on decimal numbers only,
/// whose value it gives.
#[verifier::external_body]
pub(crate) fn bn_from_dec_str(s: &str) -> (r: Result<BigNum, ErrorStack>)
    requires
        is_dec_text(s@),
    ensures
        r matches Ok(b) ==> bn_value(b) == dec_value(s@),
{
    BigNum::from_dec_str(s)
}

/// `BigNum::from_hex_str` (`BN_hex2bn`), which panics on a NUL character and
/// reads a prefix of other malformed text: called on hexadecimal numbers
/// only, whose value it gives.
#[verifier::external_body]
pub(crate) fn bn_from_hex_str(s: &str) -> (r: Result<BigNum, ErrorStack>)
    requires
        is_hex_text(s@),
    ensures
        r matches Ok(b) ==> bn_value(b) == hex_value(s@),
{
    BigNum::from_hex_str(s)
}

/// `BigNum::from_slice` (`BN_bin2bn`), which panics on more bytes than a C
/// `int` counts: the non-negative number whose big-endian form is `bytes`.
#[verifier::external_body]
pub(crate) fn bn_from_slice(bytes: &[u8]) -> (r: Result<BigNum, ErrorStack>)
    requires
        bytes@.len() <= i32::MAX,
    ensures
        r matches Ok(b) ==> bn_value(b) == be_value(bytes@),
{
    BigNum::from_slice(bytes)
}

/// `BigNumRef::to_dec_str` (`BN_bn2dec`): the decimal form, `-` first when
/// negative, without leading zeros.
#[verifier::external_body]
pub(crate) fn bn_to_dec_str(b: &BigNum) -> (r: Result<String, ErrorStack>)
    ensures
        r matches Ok(s) ==> s@ == dec_text(bn_value(*b)),
{
    Ok(b.to_dec_str()?.to_string())
}

/// `BigNumRef::to_hex_str` (`BN_bn2hex`): the hexadecimal form as OpenSSL
/// writes it, `-` first when negative, upper case, two digits for each byte
/// of the magnitude, `0` for zero.
#[verifier::external_body]
pub(crate) fn bn_to_hex_str(b: &BigNum) -> (r: Result<String, ErrorStack>)
    ensures
        r matches Ok(s) ==> s@ == hex_text(bn_value(*b)),
{
    Ok(b.to_hex_str()?.to_string())
}

/// `BigNumRef::to_vec` (`BN_bn2bin`): the shortest big-endian form of the
/// magnitude, empty for zero; its length is an `i32` in the source.
#[verifier::external_body]
pub(crate) fn bn_to_vec(b: &BigNum) -> (r: Vec<u8>)
    ensures
        r@ == be_bytes(magnitude(bn_value(*b))),
        r@.len() <= i32::MAX,
{
    b.to_vec()
}

/// `BigNumRef::checked_add` (`BN_add`): on success `out` holds `a + b`.
#[verifier::external_body]
pub(crate) fn bn_checked_add(out: &mut BigNum, a: &BigNum, b: &BigNum) -> (r: Result<
    (),
    ErrorStack,
>)
    ensures
        r is Ok ==> bn_value(*final(out)) == bn_value(*a) + bn_value(*b),
{
    out.checked_add(a, b)
}

/// `BigNumRef::checked_sub` (`BN_sub`): on success `out` holds `a - b`.
#[verifier::external_body]
pub(crate) fn bn_checked_sub(out: &mut BigNum, a: &BigNum, b: &BigNum) -> (r: Result<
    (),
    ErrorStack,
>)
    ensures
        r is Ok ==> bn_value(*final(out)) == bn_value(*a) - bn_value(*b),
{
    out.checked_sub(a, b)
}

/// `BigNumRef::sqr` (`BN_sqr`): on success `out` holds `a * a`.
#[verifier::external_body]
pub(crate) fn bn_sqr(out: &mut BigNum, a: &BigNum, ctx: &mut BigNumContext) -> (r: Result<
    (),
    ErrorStack,
>)
    ensures
        r is Ok ==> bn_value(*final(out)) == bn_value(*a) * bn_value(*a),
{
    out.sqr(a, ctx)
}

/// `BigNumRef::checked_mul` (`BN_mul`): on success `out` holds `a * b`.
#[verifier::external_body]
pub(crate) fn bn_checked_mul(
    out: &mut BigNum,
    a: &BigNum,
    b: &BigNum,
    ctx: &mut BigNumContext,
) -> (r: Result<(), ErrorStack>)
    ensures
        r is Ok ==> bn_value(*final(out)) == bn_value(*a) * bn_value(*b),
{
    out.checked_mul(a, b, ctx)
}

/// `BigNumRef::mod_mul` (`BN_mod_mul`): on success, for a nonzero `m`, `out`
/// holds `a * b` reduced into `[0, |m|)`.
#[verifier::external_body]
pub(crate) fn bn_mod_mul(
    out: &mut BigNum,
    a: &BigNum,
    b: &BigNum,
    m: &BigNum,
    ctx: &mut BigNumContext,
) -> (r: Result<(), ErrorStack>)
    ensures
        r is Ok && bn_value(*m) != 0 ==> bn_value(*final(out)) == residue(
            bn_value(*a) * bn_value(*b),
            bn_value(*m),
        ),
{
    out.mod_mul(a, b, m, ctx)
}

/// `BigNumRef::mod_sub` (`BN_mod_sub`): on success, for a nonzero `m`, `out`
/// holds `a - b` reduced into `[0, |m|)`.
#[verifier::external_body]
pub(crate) fn bn_mod_sub(
    out: &mut BigNum,
    a: &BigNum,
    b: &BigNum,
    m: &BigNum,
    ctx: &mut BigNumContext,
) -> (r: Result<(), ErrorStack>)
    ensures
        r is Ok && bn_value(*m) != 0 ==> bn_value(*final(out)) == residue(
            bn_value(*a) - bn_value(*b),
            bn_value(*m),
        ),
{
    out.mod_sub(a, b, m, ctx)
}

/// `BigNumRef::checked_div` (`BN_div` without remainder): on success, for a
/// nonzero `b`, `out` holds `a / b` rounded toward zero.
#[verifier::external_body]
pub(crate) fn bn_checked_div(
    out: &mut BigNum,
    a: &BigNum,
    b: &BigNum,
    ctx: &mut BigNumContext,
) -> (r: Result<(), ErrorStack>)
    ensures
        r is Ok && bn_value(*b) != 0 ==> bn_value(*final(out)) == quotient(
            bn_value(*a),
            bn_value(*b),
        ),
{
    out.checked_div(a, b, ctx)
}

/// `BigNumRef::gcd` (`BN_gcd`): on success `out` holds the non-negative
/// greatest common divisor of `a` and `b`.
#[verifier::external_body]
pub(crate) fn bn_gcd(out: &mut BigNum, a: &BigNum, b: &BigNum, ctx: &mut BigNumContext) -> (r:
    Result<(), ErrorStack>)
    ensures
        r is Ok ==> bn_value(*final(out)) == gcd(bn_value(*a), bn_value(*b)),
{
    out.gcd(a, b, ctx)
}

/// `BigNumRef::add_word` (`BN_add_word`): on success `b` has grown by `w`.
#[verifier::external_body]
pub(crate) fn bn_add_word(b: &mut BigNum, w: u32) -> (r: Result<(), ErrorStack>)
    ensures
        r is Ok ==> bn_value(*final(b)) == bn_value(*old(b)) + w,
{
    b.add_word(w)
}

/// `BigNumRef::sub_word` (`BN_sub_word`): on success `b` has shrunk by `w`.
#[verifier::external_body]
pub(crate) fn bn_sub_word(b: &mut BigNum, w: u32) -> (r: Result<(), ErrorStack>)
    ensures
        r is Ok ==> bn_value(*final(b)) == bn_value(*old(b)) - w,
{
    b.sub_word(w)
}

/// `BigNumRef::mul_word` (`BN_mul_word`): on success `b` is `w` times what it
/// was.
#[verifier::external_body]
pub(crate) fn bn_mul_word(b: &mut BigNum, w: u32) -> (r: Result<(), ErrorStack>)
    ensures
        r is Ok ==> bn_value(*final(b)) == bn_value(*old(b)) * w,
{
    b.mul_word(w)
}

/// `BigNumRef::div_word` (`BN_div_word`): on success, for a nonzero `w`, `b`
/// is what it was divided by `w`, rounded toward zero. The remainder that is
/// returned is not described.
#[verifier::external_body]
pub(crate) fn bn_div_word(b: &mut BigNum, w: u32) -> (r: Result<u64, ErrorStack>)
    ensures
        r is Ok && w != 0 ==> bn_value(*final(b)) == quotient(bn_value(*old(b)), w as int),
{
    b.div_word(w)
}

/// `BigNumRef::mod_exp` (`BN_mod_exp`): on success, for an exponent `p` that
/// is not negative and a nonzero `m`, `out` holds `a^p` reduced into
/// `[0, |m|)`.
#[verifier::external_body]
pub(crate) fn bn_mod_exp(
    out: &mut BigNum,
    a: &BigNum,
    p: &BigNum,
    m: &BigNum,
    ctx: &mut BigNumContext,
) -> (r: Result<(), ErrorStack>)
    ensures
        r is Ok && bn_value(*p) >= 0 && bn_value(*m) != 0 ==> bn_value(*final(out)) == residue(
            pow(bn_value(*a), bn_value(*p) as nat),
            bn_value(*m),
        ),
{
    out.mod_exp(a, p, m, ctx)
}

/// `BigNumRef::nnmod` (`BN_nnmod`): on success, for a nonzero `m`, `out`
/// holds `a` reduced into `[0, |m|)`.
#[verifier::external_body]
pub(crate) fn bn_nnmod(out: &mut BigNum, a: &BigNum, m: &BigNum, ctx: &mut BigNumContext) -> (r:
    Result<(), ErrorStack>)
    ensures
        r is Ok && bn_value(*m) != 0 ==> bn_value(*final(out)) == residue(
            bn_value(*a),
            bn_value(*m),
        ),
{
    out.nnmod(a, m, ctx)
}

/// `BigNumRef::exp` (`BN_exp`): on success, for an exponent `p` that is not
/// negative, `out` holds `a^p`.
#[verifier::external_body]
pub(crate) fn bn_exp(out: &mut BigNum, a: &BigNum, p: &BigNum, ctx: &mut BigNumContext) -> (r:
    Result<(), ErrorStack>)
    ensures
        r is Ok && bn_value(*p) >= 0 ==> bn_value(*final(out)) == pow(
            bn_value(*a),
            bn_value(*p) as nat,
        ),
{
    out.exp(a, p, ctx)
}

/// `BigNumRef::mod_inverse` (`BN_mod_inverse`): on success `out` holds the
/// inverse of `a` modulo `n`, in `[0, |n|)`.
#[verifier::external_body]
pub(crate) fn bn_mod_inverse(
    out: &mut BigNum,
    a: &BigNum,
    n: &BigNum,
    ctx: &mut BigNumContext,
) -> (r: Result<(), ErrorStack>)
    ensures
        r is Ok ==> is_inverse(bn_value(*a), bn_value(*n), bn_value(*final(out))),
{
    out.mod_inverse(a, n, ctx)
}

/// `BigNumRef::set_negative` (`BN_set_negative`): the magnitude stays, the
/// sign is the one asked for, and zero stays zero.
#[verifier::external_body]
pub(crate) fn bn_set_negative(b: &mut BigNum, negative: bool)
    ensures
        bn_value(*final(b)) == with_sign(bn_value(*old(b)), negative),
{
    b.set_negative(negative)
}

/// `BigNumRef::is_negative` (`BN_is_negative`).
#[verifier::external_body]
pub(crate) fn bn_is_negative(b: &BigNum) -> (r: bool)
    ensures
        r == (bn_value(*b) < 0),
{
    b.is_negative()
}

/// `BigNumRef::lshift1` (`BN_lshift1`): on success `out` holds `2 * a`.
#[verifier::external_body]
pub(crate) fn bn_lshift1(out: &mut BigNum, a: &BigNum) -> (r: Result<(), ErrorStack>)
    ensures
        r is Ok ==> bn_value(*final(out)) == 2 * bn_value(*a),
{
    out.lshift1(a)
}

/// `BigNumRef::rshift1` (`BN_rshift1`): on success `out` holds `a / 2`
/// rounded toward zero.
#[verifier::external_body]
pub(crate) fn bn_rshift1(out: &mut BigNum, a: &BigNum) -> (r: Result<(), ErrorStack>)
    ensures
        r is Ok ==> bn_value(*final(out)) == quotient(bn_value(*a), 2),
{
    out.rshift1(a)
}

/// `BigNumRef::rshift` (`BN_rshift`): on success, for a count `n` that is not
/// negative, `out` holds `a / 2^n` rounded toward zero.
#[verifier::external_body]
pub(crate) fn bn_rshift(out: &mut BigNum, a: &BigNum, n: i32) -> (r: Result<(), ErrorStack>)
    ensures
        r is Ok && n >= 0 ==> bn_value(*final(out)) == quotient(
            bn_value(*a),
            pow2(n as nat) as int,
        ),
{
    out.rshift(a, n)
}

/// `Ord::cmp` of `BigNum` (`BN_cmp`): the order of the integers.
#[verifier::external_body]
pub(crate) fn bn_cmp(a: &BigNum, b: &BigNum) -> (r: Ordering)
    ensures
        r == Ordering::Less <==> bn_value(*a) < bn_value(*b),
        r == Ordering::Equal <==> bn_value(*a) == bn_value(*b),
        r == Ordering::Greater <==> bn_value(*a) > bn_value(*b),
{
    a.cmp(b)
}

} // verus!

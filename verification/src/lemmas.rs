//! Facts about the functions of `arith` and `encoding` that the proofs of the
//! operations rest on.

use vstd::arithmetic::div_mod::{lemma_mul_mod_noop_right, lemma_small_mod};
use vstd::arithmetic::power::{lemma_pow0, lemma_pow_positive, pow};
use vstd::arithmetic::power2::{lemma2_to64, lemma_pow2_pos, lemma_pow2_unfold, pow2};
use vstd::prelude::*;

use crate::arith::{bit_length, inverse_mod, is_inverse, is_unit, magnitude};
use crate::encoding::{be_bytes, be_value, dec_digits};

verus! {

/// Only zero has no significant bit.
pub proof fn lemma_bit_length_zero(n: nat)
    ensures
        bit_length(n) == 0 <==> n == 0,
{
    reveal_with_fuel(bit_length, 2);
}

/// Only one has exactly one significant bit.
pub proof fn lemma_bit_length_one(n: nat)
    ensures
        bit_length(n) == 1 <==> n == 1,
{
    reveal_with_fuel(bit_length, 3);
    if n >= 2 {
        lemma_bit_length_zero(n / 2);
    }
}

/// A positive number lies between the two powers of two that its bit
/// length names.
pub proof fn lemma_bit_length_bounds(n: nat)
    requires
        n > 0,
    ensures
        bit_length(n) >= 1,
        pow2((bit_length(n) - 1) as nat) <= n < pow2(bit_length(n)),
    decreases n,
{
    lemma2_to64();
    if n == 1 {
        reveal_with_fuel(bit_length, 2);
    } else {
        lemma_bit_length_bounds(n / 2);
        lemma_pow2_unfold(bit_length(n / 2));
        lemma_pow2_unfold(bit_length(n));
    }
}

/// A number has more than `j` bits exactly when it reaches `2^j`.
pub proof fn lemma_bit_length_reaches(n: nat, j: nat)
    ensures
        bit_length(n) > j <==> n >= pow2(j),
    decreases j,
{
    lemma_pow2_pos(j);
    if n == 0 {
    } else if j == 0 {
        lemma2_to64();
    } else {
        lemma_bit_length_reaches(n / 2, (j - 1) as nat);
        lemma_pow2_unfold(j);
    }
}

/// `b^(e + 1)` is `b` times `b^e`.
pub proof fn lemma_pow_unfold(b: int, e: nat)
    ensures
        pow(b, e + 1) == b * pow(b, e),
{
    reveal(pow);
}

/// A positive number has more than `m` decimal digits exactly when it
/// reaches `10^m`.
pub proof fn lemma_dec_digits_reach(n: nat, m: nat)
    requires
        n > 0,
    ensures
        dec_digits(n).len() >= 1,
        dec_digits(n).len() > m <==> n >= pow(10, m),
    decreases m,
{
    lemma_pow_positive(10, m);
    if m == 0 {
        lemma_pow0(10);
        lemma_dec_digits_nonempty(n);
    } else {
        lemma_pow_unfold(10, (m - 1) as nat);
        lemma_pow_positive(10, (m - 1) as nat);
        if n >= 10 {
            lemma_dec_digits_reach(n / 10, (m - 1) as nat);
        }
    }
}

/// The decimal form of a number has a digit.
pub proof fn lemma_dec_digits_nonempty(n: nat)
    ensures
        dec_digits(n).len() >= 1,
    decreases n,
{
    if n >= 10 {
        lemma_dec_digits_nonempty(n / 10);
    }
}

/// Reading the shortest big-endian form of a number gives the number back.
pub proof fn lemma_be_round_trip(n: nat)
    ensures
        be_value(be_bytes(n)) == n,
    decreases n,
{
    if n != 0 {
        lemma_be_round_trip(n / 256);
        let bytes = be_bytes(n);
        assert(bytes.drop_last() =~= be_bytes(n / 256));
        assert(bytes.last() == (n % 256) as u8);
    }
}

/// A number has at most one inverse modulo `n`.
pub proof fn lemma_inverse_unique(a: int, n: int, r1: int, r2: int)
    requires
        is_inverse(a, n, r1),
        is_inverse(a, n, r2),
    ensures
        r1 == r2,
{
    let m = magnitude(n) as int;
    if m > 1 {
        lemma_small_mod(1, m as nat);
        lemma_mul_mod_noop_right(r1, a * r2, m);
        lemma_mul_mod_noop_right(r2, a * r1, m);
        assert(r1 * (a * r2) == r2 * (a * r1)) by (nonlinear_arith);
        assert(r1 * 1 == r1 && r2 * 1 == r2);
        lemma_small_mod(r1 as nat, m as nat);
        lemma_small_mod(r2 as nat, m as nat);
    }
}

/// The chosen inverse of a unit is its inverse, and equals any inverse found.
pub proof fn lemma_inverse_mod_is(a: int, n: int, r: int)
    requires
        is_inverse(a, n, r),
    ensures
        is_unit(a, n),
        inverse_mod(a, n) == r,
{
    lemma_inverse_unique(a, n, r, inverse_mod(a, n));
}

} // verus!

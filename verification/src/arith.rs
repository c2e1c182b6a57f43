//! The mathematics in which the contracts of `BigNumber` are stated: integer
//! functions on `int` and `nat`, each defined in the most direct way.

use vstd::arithmetic::power::pow;
use vstd::arithmetic::power2::pow2;
use vstd::prelude::*;

verus! {

/// `|x|`.
pub open spec fn magnitude(x: int) -> nat {
    if x < 0 {
        (-x) as nat
    } else {
        x as nat
    }
}

/// `x` with the sign chosen by `negative`; zero stays zero.
pub open spec fn with_sign(x: int, negative: bool) -> int {
    if negative {
        -(magnitude(x) as int)
    } else {
        magnitude(x) as int
    }
}

/// `a / b` rounded toward zero.
pub open spec fn quotient(a: int, b: int) -> int
    recommends
        b != 0,
{
    if (a < 0) == (b < 0) {
        (magnitude(a) / magnitude(b)) as int
    } else {
        -((magnitude(a) / magnitude(b)) as int)
    }
}

/// The representative of `a` modulo `n` that lies in `[0, |n|)`.
pub open spec fn residue(a: int, n: int) -> int
    recommends
        n != 0,
{
    a % (magnitude(n) as int)
}

/// Whether `d` divides `n`. Zero divides only zero.
pub open spec fn divides(d: int, n: int) -> bool {
    if d == 0 {
        n == 0
    } else {
        n % (magnitude(d) as int) == 0
    }
}

/// Euclid's algorithm on natural numbers.
pub open spec fn gcd_nat(a: nat, b: nat) -> nat
    decreases b,
{
    if b == 0 {
        a
    } else {
        gcd_nat(b, a % b)
    }
}

/// The non-negative greatest common divisor of `a` and `b`; `gcd(0, 0)` is 0.
pub open spec fn gcd(a: int, b: int) -> nat {
    gcd_nat(magnitude(a), magnitude(b))
}

/// Whether `r` is the inverse of `a` modulo `n`: the one number in `[0, |n|)`
/// whose product with `a` is congruent to 1.
pub open spec fn is_inverse(a: int, n: int, r: int) -> bool {
    &&& 0 <= r < magnitude(n)
    &&& residue(a * r, n) == residue(1, n)
}

/// Whether `a` is a unit modulo `n`, that is, has an inverse.
pub open spec fn is_unit(a: int, n: int) -> bool {
    exists|r: int| is_inverse(a, n, r)
}

/// The inverse of `a` modulo `n`, where `a` is a unit.
pub open spec fn inverse_mod(a: int, n: int) -> int
    recommends
        is_unit(a, n),
{
    choose|r: int| is_inverse(a, n, r)
}

/// `base` to the power `e` modulo `n`, in `[0, |n|)`. A negative exponent
/// raises the inverse of `base` to the power `-e`.
pub open spec fn power_mod(base: int, e: int, n: int) -> int
    recommends
        n != 0,
        e < 0 ==> is_unit(base, n),
{
    if e >= 0 {
        residue(pow(base, e as nat), n)
    } else {
        residue(pow(inverse_mod(base, n), (-e) as nat), n)
    }
}

/// Whether `n` is a prime number.
pub open spec fn is_prime(n: int) -> bool {
    &&& n >= 2
    &&& forall|d: int| 1 < d < n ==> #[trigger] (n % d) != 0
}

/// Whether `q` passes the safe-prime test: `q` is congruent to 2 modulo 3,
/// and both `q` and `(q - 1) / 2` are prime.
pub open spec fn is_safe_prime(q: int) -> bool {
    &&& q % 3 == 2
    &&& is_prime(q)
    &&& is_prime((q - 1) / 2)
}

/// The number of significant bits of `n`: zero for zero, else the position of
/// the highest set bit plus one.
pub open spec fn bit_length(n: nat) -> nat
    decreases n,
{
    if n == 0 {
        0
    } else {
        1 + bit_length(n / 2)
    }
}

/// Bit `i` of `n`.
pub open spec fn bit_at(n: nat, i: nat) -> bool {
    (n / pow2(i)) % 2 == 1
}

/// `x` after bit `i` of its magnitude is set; the sign stays.
pub open spec fn with_bit(x: int, i: nat) -> int {
    if bit_at(magnitude(x), i) {
        x
    } else if x < 0 {
        x - pow2(i)
    } else {
        x + pow2(i)
    }
}

} // verus!

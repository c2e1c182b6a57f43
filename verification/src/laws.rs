//! What holds of the operations taken together, stated over the functions
//! in which their contracts are written.

use vstd::arithmetic::div_mod::{
    lemma_fundamental_div_mod, lemma_mod_multiples_basic, lemma_mod_multiples_vanish,
    lemma_mul_mod_noop, lemma_mul_mod_noop_right, lemma_small_mod,
};
use vstd::arithmetic::power::{
    lemma1_pow, lemma_pow0, lemma_pow_distributes, lemma_pow_mod_noop, pow,
};
use vstd::arithmetic::power2::pow2;
use vstd::prelude::*;

use crate::arith::{
    bit_length, divides, gcd, gcd_nat, inverse_mod, is_inverse, is_prime, is_safe_prime, is_unit,
    magnitude, power_mod, residue,
};
use crate::encoding::{
    all_digits, be_bytes, be_value, dec_digits, dec_text, dec_value, digit_char, digit_of,
    digits_value, hex_digits, hex_of_bytes, hex_text, hex_value, is_dec_text, is_hex_text,
};
use crate::lemmas::{lemma_be_round_trip, lemma_bit_length_bounds};

verus! {

/// Writing a number as bytes and reading the bytes gives its magnitude: the
/// sign is lost and nothing else.
pub proof fn lemma_bytes_round_trip(x: int)
    ensures
        be_value(be_bytes(magnitude(x))) == magnitude(x),
{
    lemma_be_round_trip(magnitude(x));
}

/// A digit's character stands for that digit, in base 10 and in base 16.
proof fn lemma_digit_char(d: nat, base: nat)
    requires
        d < base,
        base == 10 || base == 16,
    ensures
        digit_of(digit_char(d), base) == Some(d),
        digit_char(d) != '-',
{
}

/// The decimal digits of a number are digits and denote the number.
proof fn lemma_dec_digits_value(n: nat)
    ensures
        all_digits(dec_digits(n), 10),
        digits_value(dec_digits(n), 10) == n,
        dec_digits(n).len() >= 1,
        dec_digits(n)[0] != '-',
    decreases n,
{
    let s = dec_digits(n);
    if n < 10 {
        lemma_digit_char(n, 10);
        assert(s.drop_last() =~= Seq::<char>::empty());
        assert(digits_value(s.drop_last(), 10) == 0);
    } else {
        lemma_dec_digits_value(n / 10);
        lemma_digit_char(n % 10, 10);
        assert(s.drop_last() =~= dec_digits(n / 10));
        assert(s[0] == dec_digits(n / 10)[0]);
        assert forall|i: int| 0 <= i < s.len() implies (#[trigger] digit_of(s[i], 10)) is Some by {
            if i < s.len() - 1 {
                assert(s[i] == dec_digits(n / 10)[i]);
            }
        }
    }
}

/// Writing a number in decimal and reading the text gives the number, sign
/// included; and what is written is a decimal number.
pub proof fn lemma_dec_round_trip(x: int)
    ensures
        is_dec_text(dec_text(x)),
        dec_value(dec_text(x)) == x,
{
    lemma_dec_digits_value(magnitude(x));
    if x < 0 {
        assert(dec_text(x).skip(1) =~= dec_digits(magnitude(x)));
    }
}

/// The hex digits of a byte string are digits and denote what the bytes
/// denote.
proof fn lemma_hex_of_bytes_value(bytes: Seq<u8>)
    ensures
        all_digits(hex_of_bytes(bytes), 16),
        digits_value(hex_of_bytes(bytes), 16) == be_value(bytes),
        hex_of_bytes(bytes).len() == 2 * bytes.len(),
        forall|i: int| 0 <= i < hex_of_bytes(bytes).len() ==> hex_of_bytes(bytes)[i] != '-',
    decreases bytes.len(),
{
    let s = hex_of_bytes(bytes);
    if bytes.len() > 0 {
        let rest = hex_of_bytes(bytes.drop_last());
        let high = (bytes.last() / 16) as nat;
        let low = (bytes.last() % 16) as nat;
        lemma_hex_of_bytes_value(bytes.drop_last());
        lemma_digit_char(high, 16);
        lemma_digit_char(low, 16);
        let upper = rest.push(digit_char(high));
        assert(s.drop_last() =~= upper);
        assert(upper.drop_last() =~= rest);
        assert(digits_value(upper, 16) == be_value(bytes.drop_last()) * 16 + high);
        assert(digits_value(s, 16) == digits_value(upper, 16) * 16 + low);
        assert forall|i: int| 0 <= i < s.len() implies (#[trigger] digit_of(s[i], 16)) is Some
            && s[i] != '-' by {
            if i < rest.len() {
                assert(s[i] == rest[i]);
            }
        }
    }
}

/// Writing a number in hexadecimal and reading the text gives the number,
/// sign included; and what is written is a hexadecimal number.
pub proof fn lemma_hex_round_trip(x: int)
    ensures
        is_hex_text(hex_text(x)),
        hex_value(hex_text(x)) == x,
{
    let n = magnitude(x);
    let digits = hex_digits(n);
    if n == 0 {
        lemma_digit_char(0, 16);
        assert(digits.drop_last() =~= Seq::<char>::empty());
        assert(digits_value(digits.drop_last(), 16) == 0);
    } else {
        lemma_hex_of_bytes_value(be_bytes(n));
        lemma_be_round_trip(n);
    }
    assert(all_digits(digits, 16) && digits_value(digits, 16) == n && digits.len() >= 1
        && digits[0] != '-');
    if x < 0 {
        assert(hex_text(x).skip(1) =~= digits);
    }
}

/// The non-negative modulus lies in `[0, |n|)` for every `x`, negative ones
/// included, and every nonzero `n`.
pub proof fn lemma_residue_range(x: int, n: int)
    requires
        n != 0,
    ensures
        0 <= residue(x, n) < magnitude(n),
{
}

/// Zero has no bits; another number lies between `2^(b-1)` and `2^b`, where
/// `b` is its bit length, so that `b` is its logarithm to base 2, rounded
/// down, plus one.
pub proof fn lemma_bit_length_is_log(x: int)
    ensures
        bit_length(magnitude(0)) == 0,
        x != 0 ==> bit_length(magnitude(x)) >= 1 && pow2((bit_length(magnitude(x)) - 1) as nat)
            <= magnitude(x) < pow2(bit_length(magnitude(x))),
{
    if x != 0 {
        lemma_bit_length_bounds(magnitude(x));
    }
}

/// A number that passes the safe-prime test is prime, and so is its half.
pub proof fn lemma_safe_prime_is_prime(q: int)
    requires
        is_safe_prime(q),
    ensures
        is_prime(q),
        is_prime((q - 1) / 2),
        q % 2 == 1,
        (q - 1) / 2 == q / 2,
{
    if q > 2 {
        assert(q % 2 != 0);
    }
}

/// Euclid's algorithm gives the same for either order of its arguments.
proof fn lemma_gcd_nat_symmetric(a: nat, b: nat)
    ensures
        gcd_nat(a, b) == gcd_nat(b, a),
{
    reveal_with_fuel(gcd_nat, 3);
    if a != 0 && b != 0 {
        if a < b {
            lemma_small_mod(a, b);
        } else if b < a {
            lemma_small_mod(b, a);
        }
    }
}

/// The greatest common divisor does not depend on the order of the two
/// numbers, is never negative, and with zero it is the magnitude of the
/// other number.
pub proof fn lemma_gcd_symmetric(a: int, b: int)
    ensures
        gcd(a, b) == gcd(b, a),
        gcd(a, b) >= 0,
        gcd(a, 0) == magnitude(a),
{
    lemma_gcd_nat_symmetric(magnitude(a), magnitude(b));
}

/// Bezout's identity: the result of Euclid's algorithm is a combination of
/// the two numbers with integer coefficients, which are returned.
proof fn lemma_bezout(a: nat, b: nat) -> (c: (int, int))
    ensures
        a * c.0 + b * c.1 == gcd_nat(a, b),
    decreases b,
{
    if b == 0 {
        (1, 0)
    } else {
        let (x, y) = lemma_bezout(b, a % b);
        let q = (a / b) as int;
        lemma_fundamental_div_mod(a as int, b as int);
        assert(a * y + b * (x - q * y) == b * x + (a % b) * y) by (nonlinear_arith)
            requires
                a == b * q + (a % b),
        ;
        (y, x - q * y)
    }
}

/// What divides two numbers divides every combination of them.
proof fn lemma_divides_combination(d: int, u: int, v: int, x: int, y: int)
    requires
        d > 0,
        u % d == 0,
        v % d == 0,
    ensures
        (u * x + v * y) % d == 0,
{
    lemma_fundamental_div_mod(u, d);
    lemma_fundamental_div_mod(v, d);
    let k = (u / d) * x + (v / d) * y;
    assert(u * x + v * y == k * d) by (nonlinear_arith)
        requires
            u == d * (u / d),
            v == d * (v / d),
            k == (u / d) * x + (v / d) * y,
    ;
    lemma_mod_multiples_basic(k, d);
}

/// The result of Euclid's algorithm divides both numbers; it is zero only
/// where both are.
proof fn lemma_gcd_nat_divides(a: nat, b: nat)
    ensures
        gcd_nat(a, b) == 0 <==> a == 0 && b == 0,
        gcd_nat(a, b) > 0 ==> a % gcd_nat(a, b) == 0 && b % gcd_nat(a, b) == 0,
    decreases b,
{
    let g = gcd_nat(a, b) as int;
    if b == 0 {
        if a > 0 {
            lemma_mod_multiples_basic(1, a as int);
            lemma_mod_multiples_basic(0, a as int);
        }
    } else {
        lemma_gcd_nat_divides(b, a % b);
        lemma_fundamental_div_mod(a as int, b as int);
        lemma_divides_combination(g, b as int, (a % b) as int, (a / b) as int, 1);
        assert(b * (a / b) + (a % b) * 1 == a) by (nonlinear_arith)
            requires
                a == b * (a / b) + (a % b),
        ;
    }
}

/// The greatest common divisor divides both numbers, and whatever divides
/// both divides it.
pub proof fn lemma_gcd_is_greatest(a: int, b: int, d: int)
    ensures
        divides(gcd(a, b) as int, a),
        divides(gcd(a, b) as int, b),
        divides(d, a) && divides(d, b) ==> divides(d, gcd(a, b) as int),
{
    let g = gcd(a, b) as int;
    let ma = magnitude(a) as int;
    let mb = magnitude(b) as int;
    lemma_gcd_nat_divides(magnitude(a), magnitude(b));
    if g > 0 {
        let sa = if a < 0 {
            -1int
        } else {
            1int
        };
        let sb = if b < 0 {
            -1int
        } else {
            1int
        };
        lemma_divides_combination(g, ma, mb, sa, 0);
        lemma_divides_combination(g, ma, mb, 0, sb);
        assert(ma * sa + mb * 0 == a) by (nonlinear_arith)
            requires
                (a < 0 && ma == -a && sa == -1) || (a >= 0 && ma == a && sa == 1),
        ;
        assert(ma * 0 + mb * sb == b) by (nonlinear_arith)
            requires
                (b < 0 && mb == -b && sb == -1) || (b >= 0 && mb == b && sb == 1),
        ;
    }
    if divides(d, a) && divides(d, b) && d != 0 {
        let md = magnitude(d) as int;
        let (x, y) = lemma_bezout(magnitude(a), magnitude(b));
        lemma_divides_combination(md, a, b, if a < 0 {
            -x
        } else {
            x
        }, if b < 0 {
            -y
        } else {
            y
        });
        assert(a * (if a < 0 {
            -x
        } else {
            x
        }) + b * (if b < 0 {
            -y
        } else {
            y
        }) == ma * x + mb * y) by (nonlinear_arith)
            requires
                ma == (if a < 0 {
                    -a
                } else {
                    a
                }),
                mb == (if b < 0 {
                    -b
                } else {
                    b
                }),
        ;
    }
}

/// A number has an inverse modulo a nonzero `n` exactly when it is coprime
/// to `n`; modulo zero nothing has one.
pub proof fn lemma_unit_iff_coprime(a: int, n: int)
    ensures
        is_unit(a, n) <==> n != 0 && gcd(a, n) == 1,
{
    let m = magnitude(n) as int;
    let ma = magnitude(a) as int;
    if is_unit(a, n) {
        let r = inverse_mod(a, n);
        assert(is_inverse(a, n, r));
        lemma_gcd_nat_divides(magnitude(a), magnitude(n));
        let g = gcd(a, n) as int;
        lemma_fundamental_div_mod(a * r, m);
        if m > 1 {
            lemma_small_mod(1, m as nat);
            let q = (a * r) / m;
            let sr = if a < 0 {
                -r
            } else {
                r
            };
            lemma_divides_combination(g, ma, m, sr, -q);
            assert(ma * sr + m * (-q) == 1) by (nonlinear_arith)
                requires
                    a * r == m * q + 1,
                    ma == (if a < 0 {
                        -a
                    } else {
                        a
                    }),
                    sr == (if a < 0 {
                        -r
                    } else {
                        r
                    }),
            ;
            if g > 1 {
                lemma_small_mod(1, g as nat);
            }
        } else {
            if g > 1 {
                lemma_small_mod(1, g as nat);
            }
        }
    }
    if n != 0 && gcd(a, n) == 1 {
        let (x, y) = lemma_bezout(magnitude(a), magnitude(n));
        let sx = if a < 0 {
            -x
        } else {
            x
        };
        let r = sx % m;
        assert(a * sx == 1 + m * (-y)) by (nonlinear_arith)
            requires
                ma * x + m * y == 1,
                ma == (if a < 0 {
                    -a
                } else {
                    a
                }),
                sx == (if a < 0 {
                    -x
                } else {
                    x
                }),
        ;
        lemma_mod_multiples_vanish(-y, 1, m);
        assert((a * sx) % m == 1int % m) by {
            assert(m * (-y) + 1 == a * sx);
        }
        lemma_mul_mod_noop_right(a, sx, m);
        assert(is_inverse(a, n, r));
    }
}

/// The inverse of a number coprime to `n`, multiplied by the number, is
/// congruent to 1 modulo `n`.
pub proof fn lemma_inverse_cancels(a: int, n: int)
    requires
        n != 0,
        gcd(a, n) == 1,
    ensures
        is_inverse(a, n, inverse_mod(a, n)),
        residue(inverse_mod(a, n) * a, n) == residue(1, n),
{
    lemma_unit_iff_coprime(a, n);
    assert(inverse_mod(a, n) * a == a * inverse_mod(a, n)) by (nonlinear_arith);
}

/// For a unit `s` modulo `n`, the power with exponent `-k` times the power
/// with exponent `k` is congruent to 1 modulo `n`.
pub proof fn lemma_negative_exponent_cancels(s: int, k: nat, n: int)
    requires
        is_unit(s, n),
    ensures
        residue(power_mod(s, -(k as int), n) * power_mod(s, k as int, n), n) == residue(1, n),
{
    let m = magnitude(n) as int;
    let inv = inverse_mod(s, n);
    assert(is_inverse(s, n, inv));
    let down = pow(inv, k);
    let up = pow(s, k);
    assert(power_mod(s, k as int, n) == up % m);
    assert(power_mod(s, -(k as int), n) == down % m) by {
        if k == 0 {
            lemma_pow0(s);
            lemma_pow0(inv);
        } else {
            assert((-(-(k as int))) as nat == k);
        }
    }
    lemma_mul_mod_noop(down, up, m);
    lemma_pow_distributes(inv, s, k);
    lemma_pow_mod_noop(inv * s, k, m);
    assert(inv * s == s * inv) by (nonlinear_arith);
    if m > 1 {
        lemma_small_mod(1, m as nat);
        lemma1_pow(k);
    }
}

} // verus!

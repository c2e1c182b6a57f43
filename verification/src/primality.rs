//! The primality tests, and the number of rounds that they ask of the engine.

use vstd::arithmetic::power::{lemma_pow0, lemma_pow_adds, lemma_pow1, pow};
use vstd::arithmetic::power2::{
    lemma2_to64, lemma_pow2_adds, lemma_pow2_pos, lemma_pow2_strictly_increases, pow2,
};
use vstd::prelude::*;

use crate::arith;
use crate::arith::{bit_length, magnitude};
use crate::encoding::dec_digits;
use crate::engine::{bn_is_prime_fasttest, bn_num_bits};
use crate::error::{checked, Error};
use crate::lemmas::{
    lemma_bit_length_one, lemma_bit_length_reaches, lemma_bit_length_zero, lemma_dec_digits_reach,
};
use crate::number::{scratch, BigNumber};

verus! {

/// The number of decimal digits of `2^bits`, which is `bits * log10(2)`
/// rounded up; zero for zero bits.
pub open spec fn decimal_length(bits: nat) -> nat {
    if bits == 0 {
        0
    } else {
        dec_digits(pow2(bits)).len()
    }
}

/// The logarithm of `d` to base 2, rounded down; zero for zero.
pub open spec fn floor_log2(d: nat) -> nat {
    if d == 0 {
        0
    } else {
        (bit_length(d) - 1) as nat
    }
}

/// The number of rounds asked for a number of `bits` bits: the logarithm to
/// base 2, rounded down, of its decimal length.
pub open spec fn prime_checks(bits: nat) -> nat {
    floor_log2(decimal_length(bits))
}

/// `10^(2^k - 1)`, the least number with `2^k` decimal digits.
pub open spec fn least_with_digits(k: nat) -> int {
    pow(10, (pow2(k) - 1) as nat)
}

/// Entry `k` is the least bit count that asks for `k` rounds: the bit length
/// of `10^(2^k - 1)`. The last entry lies beyond every bit count that the
/// engine reports.
pub const ROUND_THRESHOLDS: [i64; 31] = [
    1, 4, 10, 24, 50, 103,
    210, 422, 848, 1698, 3399, 6800,
    13604, 27210, 54424, 108850, 217703, 435409,
    870821, 1741644, 3483291, 6966585, 13933173, 27866350,
    55732702, 111465408, 222930818, 445861639, 891723280, 1783446563,
    3566893129,
];

/// Whether entry `k` of the table is the bit length of `10^(2^k - 1)`.
pub open spec fn is_round_threshold(k: nat) -> bool {
    let t = ROUND_THRESHOLDS@[k as int] as int;
    t >= 1 && pow2((t - 1) as nat) < least_with_digits(k) < pow2(t as nat)
}

/// Whether `x` lies strictly between `lo * 2^e` and `hi * 2^e`.
spec fn within(x: int, lo: int, hi: int, e: nat) -> bool {
    lo * pow2(e) < x < hi * pow2(e)
}

/// From one `k` to the next the number squares and gains a factor of 10.
proof fn lemma_least_step(k: nat)
    ensures
        least_with_digits(k + 1) == 10 * least_with_digits(k) * least_with_digits(k),
{
    let a = (pow2(k) - 1) as nat;
    lemma_pow2_pos(k);
    lemma_pow2_adds(k, 1);
    lemma2_to64();
    assert(pow2(k + 1) - 1 == a + a + 1);
    lemma_pow_adds(10, a, a);
    lemma_pow_adds(10, a + a, 1);
    lemma_pow1(10);
    assert(pow(10, a + a + 1) == 10 * pow(10, a) * pow(10, a)) by (nonlinear_arith)
        requires
            pow(10, a + a + 1) == pow(10, a + a) * 10,
            pow(10, a + a) == pow(10, a) * pow(10, a),
    ;
}

/// The step for a number that is known exactly.
proof fn lemma_exact_step(k: nat, v: int, w: int)
    requires
        least_with_digits(k) == v,
        w == 10 * v * v,
    ensures
        least_with_digits(k + 1) == w,
{
    lemma_least_step(k);
    assert(10 * least_with_digits(k) * least_with_digits(k) == w) by (nonlinear_arith)
        requires
            least_with_digits(k) == v,
            w == 10 * v * v,
    ;
}

/// The step for a number that is known within bounds: the bounds square,
/// gain the factor of 10, and are rounded outward to the scale `2^s`.
proof fn lemma_bounded_step(
    k: nat,
    lo: int,
    hi: int,
    e: nat,
    lo2: int,
    hi2: int,
    s: nat,
    p: int,
)
    requires
        0 < lo,
        within(least_with_digits(k), lo, hi, e),
        p == pow2(s),
        lo2 * p <= 10 * lo * lo,
        10 * hi * hi <= hi2 * p,
    ensures
        within(least_with_digits(k + 1), lo2, hi2, 2 * e + s),
{
    let x = least_with_digits(k);
    let q = pow2(e) as int;
    lemma_least_step(k);
    lemma_pow2_pos(e);
    lemma_pow2_adds(e, e);
    lemma_pow2_adds(e + e, s);
    assert(pow2(2 * e + s) == q * q * p) by (nonlinear_arith)
        requires
            pow2(2 * e + s) == pow2(e + e) * pow2(s),
            pow2(e + e) == q * q,
            p == pow2(s),
    ;
    let r = pow2(2 * e + s) as int;
    assert(0 < lo * q) by (nonlinear_arith)
        requires
            0 < lo,
            0 < q,
    ;
    assert((lo * q) * (lo * q) < x * x) by (nonlinear_arith)
        requires
            0 < lo * q,
            lo * q < x,
    ;
    assert(x * x < (hi * q) * (hi * q)) by (nonlinear_arith)
        requires
            0 < lo * q,
            lo * q < x,
            x < hi * q,
    ;
    assert(lo2 * r <= 10 * ((lo * q) * (lo * q))) by (nonlinear_arith)
        requires
            r == q * q * p,
            lo2 * p <= 10 * lo * lo,
            0 < q,
    {
        assert((lo2 * p) * (q * q) <= (10 * lo * lo) * (q * q));
    }
    assert(10 * ((hi * q) * (hi * q)) <= hi2 * r) by (nonlinear_arith)
        requires
            r == q * q * p,
            10 * hi * hi <= hi2 * p,
            0 < q,
    {
        assert((10 * hi * hi) * (q * q) <= (hi2 * p) * (q * q));
    }
    assert(10 * x * x == 10 * (x * x)) by (nonlinear_arith);
}

/// Bounds whose factors lie between `2^63` and `2^64` fix the bit length.
proof fn lemma_within_threshold(x: int, lo: int, hi: int, e: nat)
    requires
        within(x, lo, hi, e),
        0x8000_0000_0000_0000 <= lo,
        hi <= 0x1_0000_0000_0000_0000,
    ensures
        pow2(e + 63) < x < pow2(e + 64),
{
    lemma2_to64();
    lemma_pow2_pos(e);
    lemma_pow2_adds(63, 1);
    lemma_pow2_adds(e, 63);
    lemma_pow2_adds(e, 64);
    let q = pow2(e) as int;
    assert(pow2(63) == 0x8000_0000_0000_0000);
    assert(0x8000_0000_0000_0000 * q <= lo * q) by (nonlinear_arith)
        requires
            0x8000_0000_0000_0000 <= lo,
            0 < q,
    ;
    assert(hi * q <= 0x1_0000_0000_0000_0000 * q) by (nonlinear_arith)
        requires
            hi <= 0x1_0000_0000_0000_0000,
            0 < q,
    ;
    assert(pow2(e + 63) == q * 0x8000_0000_0000_0000);
    assert(pow2(e + 64) == q * 0x1_0000_0000_0000_0000);
}

/// The three scales to which the bounds are rounded.
proof fn lemma_scales()
    ensures
        pow2(66) == 0x4_0000_0000_0000_0000,
        pow2(67) == 0x8_0000_0000_0000_0000,
        pow2(68) == 0x10_0000_0000_0000_0000,
{
    lemma2_to64();
    lemma_pow2_adds(64, 2);
    lemma_pow2_adds(64, 3);
    lemma_pow2_adds(64, 4);
}

/// The first entries, for numbers small enough to write down.
proof fn lemma_thresholds_exact()
    ensures
        is_round_threshold(1),
        is_round_threshold(2),
        is_round_threshold(3),
        is_round_threshold(4),
        least_with_digits(5) == 10_000_000_000_000_000_000_000_000_000_000int,
{
    lemma2_to64();
    lemma_pow2_adds(32, 17);
    lemma_pow2_adds(32, 18);
    lemma_pow0(10);
    assert(least_with_digits(0) == 1);
    lemma_exact_step(0, 1, 10);
    lemma_exact_step(1, 10, 1_000);
    lemma_exact_step(2, 1_000, 10_000_000);
    lemma_exact_step(3, 10_000_000, 1_000_000_000_000_000);
    lemma_exact_step(
        4,
        1_000_000_000_000_000,
        10_000_000_000_000_000_000_000_000_000_000int,
    );
}

/// The bounds of the first number that is not written down again.
proof fn lemma_bounds_5()
    ensures
        within(least_with_digits(5), 0xFC6F_7C40_4581_2296int, 0xFC6F_7C40_4581_2297int, 39),
{
    lemma_thresholds_exact();
    lemma2_to64();
    lemma_pow2_adds(32, 7);
    assert(pow2(39) == 0x80_0000_0000);
}

/// The bounds from entry 5 to entry 11, each from the one before.
proof fn lemma_bounds_11()
    ensures
        is_round_threshold(5),
        is_round_threshold(6),
        is_round_threshold(7),
        is_round_threshold(8),
        is_round_threshold(9),
        is_round_threshold(10),
        is_round_threshold(11),
        within(least_with_digits(11), 0xFDAB_922F_A1FB_C944int, 0xFDAB_922F_A1FB_C9D6int, 6736),
{
    lemma_bounds_5();
    lemma_scales();
    lemma_within_threshold(least_with_digits(5), 0xFC6F_7C40_4581_2296int, 0xFC6F_7C40_4581_2297int, 39);
    lemma_bounded_step(
        5,
        0xFC6F_7C40_4581_2296int,
        0xFC6F_7C40_4581_2297int,
        39,
        0x9B93_4C3B_330C_8577int,
        0x9B93_4C3B_330C_8579int,
        68,
        0x10_0000_0000_0000_0000int,
    );
    lemma_within_threshold(least_with_digits(6), 0x9B93_4C3B_330C_8577int, 0x9B93_4C3B_330C_8579int, 146);
    lemma_bounded_step(
        6,
        0x9B93_4C3B_330C_8577int,
        0x9B93_4C3B_330C_8579int,
        146,
        0xEC5D_3FA8_CE42_7AFEint,
        0xEC5D_3FA8_CE42_7B05int,
        66,
        0x4_0000_0000_0000_0000int,
    );
    lemma_within_threshold(least_with_digits(7), 0xEC5D_3FA8_CE42_7AFEint, 0xEC5D_3FA8_CE42_7B05int, 358);
    lemma_bounded_step(
        7,
        0xEC5D_3FA8_CE42_7AFEint,
        0xEC5D_3FA8_CE42_7B05int,
        358,
        0x8865_8996_17FB_186Fint,
        0x8865_8996_17FB_1878int,
        68,
        0x10_0000_0000_0000_0000int,
    );
    lemma_within_threshold(least_with_digits(8), 0x8865_8996_17FB_186Fint, 0x8865_8996_17FB_1878int, 784);
    lemma_bounded_step(
        8,
        0x8865_8996_17FB_186Fint,
        0x8865_8996_17FB_1878int,
        784,
        0xB5AE_1A25_51A5_4165int,
        0xB5AE_1A25_51A5_417Eint,
        66,
        0x4_0000_0000_0000_0000int,
    );
    lemma_within_threshold(least_with_digits(9), 0xB5AE_1A25_51A5_4165int, 0xB5AE_1A25_51A5_417Eint, 1634);
    lemma_bounded_step(
        9,
        0xB5AE_1A25_51A5_4165int,
        0xB5AE_1A25_51A5_417Eint,
        1634,
        0xA12B_9138_6790_D66Cint,
        0xA12B_9138_6790_D69Aint,
        67,
        0x8_0000_0000_0000_0000int,
    );
    lemma_within_threshold(least_with_digits(10), 0xA12B_9138_6790_D66Cint, 0xA12B_9138_6790_D69Aint, 3335);
    lemma_bounded_step(
        10,
        0xA12B_9138_6790_D66Cint,
        0xA12B_9138_6790_D69Aint,
        3335,
        0xFDAB_922F_A1FB_C944int,
        0xFDAB_922F_A1FB_C9D6int,
        66,
        0x4_0000_0000_0000_0000int,
    );
    lemma_within_threshold(least_with_digits(11), 0xFDAB_922F_A1FB_C944int, 0xFDAB_922F_A1FB_C9D6int, 6736);
}

/// The bounds from entry 11 to entry 17, each from the one before.
proof fn lemma_bounds_17()
    ensures
        is_round_threshold(12),
        is_round_threshold(13),
        is_round_threshold(14),
        is_round_threshold(15),
        is_round_threshold(16),
        is_round_threshold(17),
        within(least_with_digits(17), 0xAD52_DCD6_652C_4D4Aint, 0xAD52_DCD6_652C_6687int, 435345),
{
    lemma_bounds_11();
    lemma_scales();
    lemma_bounded_step(
        11,
        0xFDAB_922F_A1FB_C944int,
        0xFDAB_922F_A1FB_C9D6int,
        6736,
        0x9D19_DB35_3B4D_45E1int,
        0x9D19_DB35_3B4D_4697int,
        68,
        0x10_0000_0000_0000_0000int,
    );
    lemma_within_threshold(least_with_digits(12), 0x9D19_DB35_3B4D_45E1int, 0x9D19_DB35_3B4D_4697int, 13540);
    lemma_bounded_step(
        12,
        0x9D19_DB35_3B4D_45E1int,
        0x9D19_DB35_3B4D_4697int,
        13540,
        0xF105_CFB5_9918_3455int,
        0xF105_CFB5_9918_3685int,
        66,
        0x4_0000_0000_0000_0000int,
    );
    lemma_within_threshold(least_with_digits(13), 0xF105_CFB5_9918_3455int, 0xF105_CFB5_9918_3685int, 27146);
    lemma_bounded_step(
        13,
        0xF105_CFB5_9918_3455int,
        0xF105_CFB5_9918_3685int,
        27146,
        0x8DD3_76C1_8DEB_356Cint,
        0x8DD3_76C1_8DEB_3800int,
        68,
        0x10_0000_0000_0000_0000int,
    );
    lemma_within_threshold(least_with_digits(14), 0x8DD3_76C1_8DEB_356Cint, 0x8DD3_76C1_8DEB_3800int, 54360);
    lemma_bounded_step(
        14,
        0x8DD3_76C1_8DEB_356Cint,
        0x8DD3_76C1_8DEB_3800int,
        54360,
        0xC46E_8EBB_7936_1D5Dint,
        0xC46E_8EBB_7936_2483int,
        66,
        0x4_0000_0000_0000_0000int,
    );
    lemma_within_threshold(least_with_digits(15), 0xC46E_8EBB_7936_1D5Dint, 0xC46E_8EBB_7936_2483int, 108786);
    lemma_bounded_step(
        15,
        0xC46E_8EBB_7936_1D5Dint,
        0xC46E_8EBB_7936_2483int,
        108786,
        0xBC67_D8E1_8CDE_6E08int,
        0xBC67_D8E1_8CDE_7BBFint,
        67,
        0x8_0000_0000_0000_0000int,
    );
    lemma_within_threshold(least_with_digits(16), 0xBC67_D8E1_8CDE_6E08int, 0xBC67_D8E1_8CDE_7BBFint, 217639);
    lemma_bounded_step(
        16,
        0xBC67_D8E1_8CDE_6E08int,
        0xBC67_D8E1_8CDE_7BBFint,
        217639,
        0xAD52_DCD6_652C_4D4Aint,
        0xAD52_DCD6_652C_6687int,
        67,
        0x8_0000_0000_0000_0000int,
    );
    lemma_within_threshold(least_with_digits(17), 0xAD52_DCD6_652C_4D4Aint, 0xAD52_DCD6_652C_6687int, 435345);
}

/// The bounds from entry 17 to entry 23, each from the one before.
proof fn lemma_bounds_23()
    ensures
        is_round_threshold(18),
        is_round_threshold(19),
        is_round_threshold(20),
        is_round_threshold(21),
        is_round_threshold(22),
        is_round_threshold(23),
        within(least_with_digits(23), 0x9A5F_45EC_B7E3_D7DFint, 0x9A5F_45EC_B7E9_76B1int, 27866286),
{
    lemma_bounds_17();
    lemma_scales();
    lemma_bounded_step(
        17,
        0xAD52_DCD6_652C_4D4Aint,
        0xAD52_DCD6_652C_6687int,
        435345,
        0x92AF_5F9E_FBBD_DADBint,
        0x92AF_5F9E_FBBE_0594int,
        67,
        0x8_0000_0000_0000_0000int,
    );
    lemma_within_threshold(least_with_digits(18), 0x92AF_5F9E_FBBD_DADBint, 0x92AF_5F9E_FBBE_0594int, 870757);
    lemma_bounded_step(
        18,
        0x92AF_5F9E_FBBD_DADBint,
        0x92AF_5F9E_FBBE_0594int,
        870757,
        0xD21F_4305_078C_47EEint,
        0xD21F_4305_078C_C254int,
        66,
        0x4_0000_0000_0000_0000int,
    );
    lemma_within_threshold(least_with_digits(19), 0xD21F_4305_078C_47EEint, 0xD21F_4305_078C_C254int, 1741580);
    lemma_bounded_step(
        19,
        0xD21F_4305_078C_47EEint,
        0xD21F_4305_078C_C254int,
        1741580,
        0xD795_2136_F06F_030Aint,
        0xD795_2136_F06F_FE34int,
        67,
        0x8_0000_0000_0000_0000int,
    );
    lemma_within_threshold(least_with_digits(20), 0xD795_2136_F06F_030Aint, 0xD795_2136_F06F_FE34int, 3483227);
    lemma_bounded_step(
        20,
        0xD795_2136_F06F_030Aint,
        0xD795_2136_F06F_FE34int,
        3483227,
        0xE2EE_C9D4_73A4_F1A2int,
        0xE2EE_C9D4_73A7_0269int,
        67,
        0x8_0000_0000_0000_0000int,
    );
    lemma_within_threshold(least_with_digits(21), 0xE2EE_C9D4_73A4_F1A2int, 0xE2EE_C9D4_73A7_0269int, 6966521);
    lemma_bounded_step(
        21,
        0xE2EE_C9D4_73A4_F1A2int,
        0xE2EE_C9D4_73A7_0269int,
        6966521,
        0xFB75_19DC_C2EA_F30Bint,
        0xFB75_19DC_C2EF_86E4int,
        67,
        0x8_0000_0000_0000_0000int,
    );
    lemma_within_threshold(least_with_digits(22), 0xFB75_19DC_C2EA_F30Bint, 0xFB75_19DC_C2EF_86E4int, 13933109);
    lemma_bounded_step(
        22,
        0xFB75_19DC_C2EA_F30Bint,
        0xFB75_19DC_C2EF_86E4int,
        13933109,
        0x9A5F_45EC_B7E3_D7DFint,
        0x9A5F_45EC_B7E9_76B1int,
        68,
        0x10_0000_0000_0000_0000int,
    );
    lemma_within_threshold(least_with_digits(23), 0x9A5F_45EC_B7E3_D7DFint, 0x9A5F_45EC_B7E9_76B1int, 27866286);
}

/// The bounds from entry 23 to entry 30, each from the one before.
proof fn lemma_bounds_30()
    ensures
        is_round_threshold(24),
        is_round_threshold(25),
        is_round_threshold(26),
        is_round_threshold(27),
        is_round_threshold(28),
        is_round_threshold(29),
        is_round_threshold(30),
        within(least_with_digits(30), 0xB26F_F301_48AF_8F6Fint, 0xB26F_F301_4BEF_1F12int, 3566893065),
{
    lemma_bounds_23();
    lemma_scales();
    lemma_bounded_step(
        23,
        0x9A5F_45EC_B7E3_D7DFint,
        0x9A5F_45EC_B7E9_76B1int,
        27866286,
        0xE8B8_E8F6_6F14_2A19int,
        0xE8B8_E8F6_6F25_1C43int,
        66,
        0x4_0000_0000_0000_0000int,
    );
    lemma_within_threshold(least_with_digits(24), 0xE8B8_E8F6_6F14_2A19int, 0xE8B8_E8F6_6F25_1C43int, 55732638);
    lemma_bounded_step(
        24,
        0xE8B8_E8F6_6F14_2A19int,
        0xE8B8_E8F6_6F25_1C43int,
        55732638,
        0x8439_CB60_FBBC_61E7int,
        0x8439_CB60_FBCF_A388int,
        68,
        0x10_0000_0000_0000_0000int,
    );
    lemma_within_threshold(least_with_digits(25), 0x8439_CB60_FBBC_61E7int, 0x8439_CB60_FBCF_A388int, 111465344);
    lemma_bounded_step(
        25,
        0x8439_CB60_FBBC_61E7int,
        0x8439_CB60_FBCF_A388int,
        111465344,
        0xAABD_20F4_87E9_4F12int,
        0xAABD_20F4_881B_0A03int,
        66,
        0x4_0000_0000_0000_0000int,
    );
    lemma_within_threshold(least_with_digits(26), 0xAABD_20F4_87E9_4F12int, 0xAABD_20F4_881B_0A03int, 222930754);
    lemma_bounded_step(
        26,
        0xAABD_20F4_87E9_4F12int,
        0xAABD_20F4_881B_0A03int,
        222930754,
        0x8E57_AA5E_0E44_BCD4int,
        0x8E57_AA5E_0E97_A809int,
        67,
        0x8_0000_0000_0000_0000int,
    );
    lemma_within_threshold(least_with_digits(27), 0x8E57_AA5E_0E44_BCD4int, 0x8E57_AA5E_0E97_A809int, 445861575);
    lemma_bounded_step(
        27,
        0x8E57_AA5E_0E44_BCD4int,
        0x8E57_AA5E_0E97_A809int,
        445861575,
        0xC5DD_6D8D_F4D7_8445int,
        0xC5DD_6D8D_F5BE_0A94int,
        66,
        0x4_0000_0000_0000_0000int,
    );
    lemma_within_threshold(least_with_digits(28), 0xC5DD_6D8D_F4D7_8445int, 0xC5DD_6D8D_F5BE_0A94int, 891723216);
    lemma_bounded_step(
        28,
        0xC5DD_6D8D_F4D7_8445int,
        0xC5DD_6D8D_F5BE_0A94int,
        891723216,
        0xBF2A_2CAB_8502_469Cint,
        0xBF2A_2CAB_86BF_B67Cint,
        67,
        0x8_0000_0000_0000_0000int,
    );
    lemma_within_threshold(least_with_digits(29), 0xBF2A_2CAB_8502_469Cint, 0xBF2A_2CAB_86BF_B67Cint, 1783446499);
    lemma_bounded_step(
        29,
        0xBF2A_2CAB_8502_469Cint,
        0xBF2A_2CAB_86BF_B67Cint,
        1783446499,
        0xB26F_F301_48AF_8F6Fint,
        0xB26F_F301_4BEF_1F12int,
        67,
        0x8_0000_0000_0000_0000int,
    );
    lemma_within_threshold(least_with_digits(30), 0xB26F_F301_48AF_8F6Fint, 0xB26F_F301_4BEF_1F12int, 3566893065);
}

/// Every entry of the table after the first is the bit length of
/// `10^(2^k - 1)`.
pub proof fn lemma_round_thresholds()
    ensures
        forall|k: nat| 1 <= k <= 30 ==> #[trigger] is_round_threshold(k),
{
    lemma_thresholds_exact();
    lemma_bounds_11();
    lemma_bounds_17();
    lemma_bounds_23();
    lemma_bounds_30();
}

/// A number of `bits` bits asks for at least `k` rounds exactly when `bits`
/// reaches entry `k` of the table.
proof fn lemma_checks_reach(bits: nat, k: nat)
    requires
        bits >= 1,
        1 <= k <= 30,
    ensures
        prime_checks(bits) >= k <==> bits >= ROUND_THRESHOLDS@[k as int],
{
    lemma_round_thresholds();
    assert(is_round_threshold(k));
    let t = ROUND_THRESHOLDS@[k as int] as nat;
    let d = decimal_length(bits);
    lemma_pow2_pos(bits);
    lemma_pow2_pos(k);
    lemma_dec_digits_reach(pow2(bits), (pow2(k) - 1) as nat);
    lemma_bit_length_reaches(d, k);
    if bits > t {
        lemma_pow2_strictly_increases(t, bits);
    }
    if bits < t - 1 {
        lemma_pow2_strictly_increases(bits, (t - 1) as nat);
    }
}

/// The number of rounds of the primality test for a number of `bits` bits:
/// the logarithm to base 2, rounded down, of `bits * log10(2)` rounded up.
/// No rounds for a bit count that is not positive.
pub fn prime_check_count(bits: i32) -> (r: i32)
    ensures
        bits > 0 ==> r == prime_checks(bits as nat),
        bits <= 0 ==> r == 0,
        0 <= r <= 29,
{
    if bits <= 0 {
        return 0;
    }
    let mut k: usize = 0;
    while k < 29 && bits as i64 >= ROUND_THRESHOLDS[k + 1]
        invariant
            k <= 29,
            k >= 1 ==> bits >= ROUND_THRESHOLDS@[k as int],
        decreases 29 - k,
    {
        k += 1;
    }
    proof {
        if k >= 1 {
            lemma_checks_reach(bits as nat, k as nat);
        }
        lemma_checks_reach(bits as nat, (k + 1) as nat);
    }
    k as i32
}

/// What is asked of the engine for a primality test.
#[derive(Debug, Clone, Copy, PartialEq, Eq)]
pub struct PrimeTestRequest {
    /// The number of rounds of the probabilistic test.
    pub checks: i32,
    /// Whether small primes are tried as divisors first.
    pub do_trial_division: bool,
}

/// The request that `is_prime` makes for a number of `bits` bits: as many
/// rounds as `prime_check_count` gives, after trial division.
pub fn prime_test_request(bits: i32) -> (r: PrimeTestRequest)
    ensures
        r.do_trial_division,
        bits > 0 ==> r.checks == prime_checks(bits as nat),
        bits <= 0 ==> r.checks == 0,
{
    PrimeTestRequest { checks: prime_check_count(bits), do_trial_division: true }
}

/// The answer of the safe-prime test, from what its three parts found:
/// whether the number is congruent to 2 modulo 3, whether it was found prime,
/// and whether its half was found prime. A part that was not reached counts
/// as not passed.
pub fn safe_prime_verdict(rest_is_two: bool, prime: bool, half_prime: bool) -> (r: bool)
    ensures
        r == (rest_is_two && prime && half_prime),
{
    rest_is_two && prime && half_prime
}

impl BigNumber {
    /// A probabilistic primality test. A number below 2 is not prime, and
    /// the answer `false` is given without asking the engine. Any other
    /// number goes to the engine's test, asked for as `prime_test_request`
    /// says for the bit length: for a prime the answer is `true`; for
    /// another number the answer `true` is unlikely but possible.
    pub fn is_prime(&self) -> (r: Result<bool, Error>)
        ensures
            self@ < 2 ==> r == Ok::<bool, Error>(false),
            r matches Ok(answer) ==> (arith::is_prime(self@) ==> answer) && (answer ==> self@
                >= 2),
            r matches Err(e) ==> e is InvalidState,
    {
        let bits = bn_num_bits(&self.openssl_bn);
        proof {
            lemma_bit_length_zero(magnitude(self@));
            lemma_bit_length_one(magnitude(self@));
        }
        if self.is_negative() || bits < 2 {
            return Ok(false);
        }
        let request = prime_test_request(bits);
        let mut ctx = scratch()?;
        checked(
            bn_is_prime_fasttest(
                &self.openssl_bn,
                request.checks,
                &mut ctx,
                request.do_trial_division,
            ),
        )
    }

    /// Whether the number passes the safe-prime test: it is congruent to 2
    /// modulo 3, it is prime, and its half is prime. The congruence is
    /// tested first, and a test is made only where those before it passed;
    /// the answer is `safe_prime_verdict` of what the tests found. The two
    /// primality tests are those of `is_prime`, so the answer `true` is right
    /// with high probability only, and the answer `false` is certain.
    pub fn is_safe_prime(&self) -> (r: Result<bool, Error>)
        ensures
            r matches Ok(answer) ==> (arith::is_safe_prime(self@) ==> answer) && (answer ==> self@
                % 3 == 2 && self@ >= 5),
            r matches Err(e) ==> e is InvalidState,
    {
        let three = BigNumber::from_u32(3)?;
        let rest = self.modulus(&three)?;
        let two = BigNumber::from_u32(2)?;
        let rest_is_two = rest == two;
        let prime = if rest_is_two {
            self.is_prime()?
        } else {
            false
        };
        let half_prime = if prime {
            let half = self.rshift1()?;
            proof {
                if arith::is_safe_prime(self@) {
                    assert(self@ % 2 != 0) by {
                        if self@ > 2 {
                            assert(self@ % 2 != 0);
                        }
                    }
                    assert(half@ == (self@ - 1) / 2);
                }
            }
            half.is_prime()?
        } else {
            false
        };
        Ok(safe_prime_verdict(rest_is_two, prime, half_prime))
    }
}

} // verus!

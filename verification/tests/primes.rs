use bignumber::error::Error;
use bignumber::number::BigNumber;
use bignumber::primality::{
    prime_check_count, prime_test_request, safe_prime_verdict, PrimeTestRequest, ROUND_THRESHOLDS,
};
use bignumber::random::{
    of_length, prime_request, rand_request, PrimeRequest, RandRequest, TopBits,
};

fn dec(s: &str) -> BigNumber {
    BigNumber::from_dec(s).unwrap()
}

#[test]
fn primes_are_found_prime() {
    for p in ["2", "3", "5", "7", "11", "13", "97", "7919", "1000000007", "170141183460469231731687303715884105727"] {
        assert!(dec(p).is_prime().unwrap(), "{}", p);
    }
}

#[test]
fn composites_and_small_numbers_are_not_prime() {
    for c in ["0", "1", "-7", "4", "9", "561", "1000000011", "170141183460469231731687303715884105725"] {
        assert!(!dec(c).is_prime().unwrap(), "{}", c);
    }
}

#[test]
fn safe_primes_pass() {
    for q in ["5", "11", "23", "47", "59", "83", "107", "2039", "2063"] {
        assert!(dec(q).is_safe_prime().unwrap(), "{}", q);
    }
}

#[test]
fn seven_fails_the_congruence() {
    assert!(!dec("7").is_safe_prime().unwrap());
}

#[test]
fn other_numbers_are_not_safe_primes() {
    for q in ["0", "1", "2", "3", "13", "17", "29", "35", "8", "14", "-5", "41", "1000000009"] {
        assert!(!dec(q).is_safe_prime().unwrap(), "{}", q);
    }
}

#[test]
fn safe_prime_implies_both_primes() {
    for n in 0..600u32 {
        let q = BigNumber::from_u32(n as usize).unwrap();
        if q.is_safe_prime().unwrap() {
            assert!(q.is_prime().unwrap());
            assert!(q.decrement().unwrap().rshift1().unwrap().is_prime().unwrap());
            assert_eq!(q.modulus(&dec("3")).unwrap(), dec("2"));
        }
    }
}

#[test]
fn generated_safe_prime_is_safe_prime() {
    let q = BigNumber::generate_safe_prime(64).unwrap();
    assert!(q.is_safe_prime().unwrap());
    assert_eq!(q.num_bits().unwrap(), 65);
}

#[test]
fn generated_prime_is_prime() {
    let p = BigNumber::generate_prime(128).unwrap();
    assert!(p.is_prime().unwrap());
    assert_eq!(p.num_bits().unwrap(), 128);
    assert!(!p.is_negative());
}

#[test]
fn generate_refuses_a_size_beyond_the_engine() {
    if usize::BITS > 32 {
        let size = i32::MAX as usize + 1;
        assert!(matches!(BigNumber::generate_prime(size), Err(Error::InvalidInput(_))));
        assert!(matches!(BigNumber::generate_safe_prime(size - 1), Err(Error::InvalidInput(_))));
        assert!(matches!(BigNumber::rand(size), Err(Error::InvalidInput(_))));
    }
}

#[test]
fn rand_has_up_to_size_bits() {
    for _ in 0..50 {
        let r = BigNumber::rand(70).unwrap();
        assert!(!r.is_negative());
        assert!(r.num_bits().unwrap() <= 70);
    }
    assert_eq!(BigNumber::rand(0).unwrap(), dec("0"));
}

#[test]
fn rand_range_lies_below_the_bound() {
    let bound = dec("1000");
    for _ in 0..200 {
        let r = bound.rand_range().unwrap();
        assert!(!r.is_negative());
        assert!(r < bound);
    }
    assert_eq!(dec("1").rand_range().unwrap(), dec("0"));
}

#[test]
fn rand_range_of_an_empty_range_fails() {
    assert!(matches!(dec("0").rand_range(), Err(Error::InvalidState(_))));
    assert!(matches!(dec("-5").rand_range(), Err(Error::InvalidState(_))));
}

#[test]
fn check_count_is_the_log_of_the_decimal_length() {
    // bits, decimal length, rounds
    assert_eq!(prime_check_count(0), 0);
    assert_eq!(prime_check_count(-5), 0);
    assert_eq!(prime_check_count(1), 0);
    assert_eq!(prime_check_count(3), 0);
    assert_eq!(prime_check_count(4), 1);
    assert_eq!(prime_check_count(9), 1);
    assert_eq!(prime_check_count(10), 2);
    assert_eq!(prime_check_count(23), 2);
    assert_eq!(prime_check_count(24), 3);
    assert_eq!(prime_check_count(49), 3);
    assert_eq!(prime_check_count(50), 4);
    assert_eq!(prime_check_count(102), 4);
    assert_eq!(prime_check_count(103), 5);
    assert_eq!(prime_check_count(512), 7);
    assert_eq!(prime_check_count(1024), 8);
    assert_eq!(prime_check_count(2048), 9);
    assert_eq!(prime_check_count(4096), 10);
    assert_eq!(prime_check_count(i32::MAX), 29);
}

#[test]
fn check_count_agrees_with_the_digits_of_powers_of_two() {
    let mut power = dec("1");
    for bits in 1..=900 {
        power = power.lshift1().unwrap();
        let digits = power.to_dec().unwrap().len();
        let mut rounds = 0;
        while (1usize << (rounds + 1)) <= digits {
            rounds += 1;
        }
        assert_eq!(prime_check_count(bits), rounds as i32, "{} bits", bits);
    }
}

#[test]
fn thresholds_are_bit_lengths_of_powers_of_ten() {
    let ten = dec("10");
    for k in 0..12usize {
        let exponent = BigNumber::from_u32((1usize << k) - 1).unwrap();
        let least = ten.exp(&exponent).unwrap();
        assert_eq!(least.num_bits().unwrap() as i64, ROUND_THRESHOLDS[k], "entry {}", k);
    }
}

#[test]
fn smallest_primes_are_generated() {
    for _ in 0..20 {
        let p = BigNumber::generate_prime(2).unwrap();
        assert!(p == dec("2") || p == dec("3"));
        let q = BigNumber::generate_prime(3).unwrap();
        assert!(q == dec("5") || q == dec("7"));
    }
}

#[test]
fn generated_primes_have_exactly_the_size() {
    for size in [2usize, 3, 5, 8, 16, 33, 64, 100] {
        let p = BigNumber::generate_prime(size).unwrap();
        assert_eq!(p.num_bits().unwrap() as usize, size);
        assert!(!p.is_negative());
        let q = BigNumber::generate_safe_prime(size + 4).unwrap();
        assert_eq!(q.num_bits().unwrap() as usize, size + 5);
        assert!(!q.is_negative());
    }
}

#[test]
fn generate_prime_of_no_bits_fails() {
    assert!(matches!(BigNumber::generate_prime(0), Err(Error::InvalidState(_))));
    assert!(matches!(BigNumber::generate_prime(1), Err(Error::InvalidState(_))));
}

#[test]
fn rand_draws_differ() {
    let first = BigNumber::rand(256).unwrap();
    let mut differs = false;
    let mut nonzero = first != dec("0");
    for _ in 0..20 {
        let next = BigNumber::rand(256).unwrap();
        differs = differs || next != first;
        nonzero = nonzero || next != dec("0");
    }
    assert!(differs);
    assert!(nonzero);
}

#[test]
fn rand_range_draws_differ() {
    let bound = dec("340282366920938463463374607431768211456");
    let first = bound.rand_range().unwrap();
    let mut differs = false;
    for _ in 0..20 {
        let next = bound.rand_range().unwrap();
        assert!(next < bound);
        differs = differs || next != first;
    }
    assert!(differs);
}

#[test]
fn numbers_below_two_are_not_prime() {
    for n in ["1", "0", "-1", "-2", "-3", "-7", "-170141183460469231731687303715884105727"] {
        assert_eq!(dec(n).is_prime(), Ok(false), "{}", n);
    }
}

#[test]
fn two_and_three_are_prime() {
    assert_eq!(dec("2").is_prime(), Ok(true));
    assert_eq!(dec("3").is_prime(), Ok(true));
}

#[test]
fn verdict_is_the_conjunction_of_the_three_parts() {
    for rest_is_two in [false, true] {
        for prime in [false, true] {
            for half_prime in [false, true] {
                assert_eq!(
                    safe_prime_verdict(rest_is_two, prime, half_prime),
                    rest_is_two && prime && half_prime
                );
            }
        }
    }
    assert!(safe_prime_verdict(true, true, true));
    assert!(!safe_prime_verdict(false, true, true));
    assert!(!safe_prime_verdict(true, false, true));
    assert!(!safe_prime_verdict(true, true, false));
}

#[test]
fn safe_prime_answer_is_the_verdict_of_its_parts() {
    let three = dec("3");
    let two = dec("2");
    for n in 0..300u32 {
        let q = BigNumber::from_u32(n as usize).unwrap();
        let rest_is_two = q.modulus(&three).unwrap() == two;
        let prime = q.is_prime().unwrap();
        let half_prime = q.rshift1().unwrap().is_prime().unwrap();
        assert_eq!(
            q.is_safe_prime().unwrap(),
            safe_prime_verdict(rest_is_two, prime, half_prime),
            "{}",
            n
        );
    }
}

#[test]
fn no_safe_prime_below_five() {
    for n in ["-11", "-5", "0", "1", "2", "3", "4"] {
        assert!(!dec(n).is_safe_prime().unwrap(), "{}", n);
    }
    assert!(dec("5").is_safe_prime().unwrap());
}

#[test]
fn rand_asks_for_size_bits_with_free_top_and_lowest_bit() {
    assert_eq!(
        rand_request(70),
        Some(RandRequest { bits: 70, top: TopBits::MaybeZero, odd: false })
    );
    assert_eq!(
        rand_request(0),
        Some(RandRequest { bits: 0, top: TopBits::MaybeZero, odd: false })
    );
    assert_eq!(
        rand_request(i32::MAX as usize),
        Some(RandRequest { bits: i32::MAX, top: TopBits::MaybeZero, odd: false })
    );
    assert_eq!(rand_request(i32::MAX as usize + 1), None);
    assert_eq!(rand_request(usize::MAX), None);
}

#[test]
fn a_prime_is_asked_for_with_its_size_and_no_constraint() {
    assert_eq!(
        prime_request(128, false),
        Some(PrimeRequest { bits: 128, safe: false, add: None, rem: None })
    );
    assert_eq!(
        prime_request(i32::MAX as usize, false),
        Some(PrimeRequest { bits: i32::MAX, safe: false, add: None, rem: None })
    );
    assert_eq!(prime_request(i32::MAX as usize + 1, false), None);
    assert_eq!(prime_request(usize::MAX, false), None);
}

#[test]
fn a_safe_prime_is_asked_for_with_one_bit_more() {
    assert_eq!(
        prime_request(64, true),
        Some(PrimeRequest { bits: 65, safe: true, add: None, rem: None })
    );
    assert_eq!(
        prime_request(0, true),
        Some(PrimeRequest { bits: 1, safe: true, add: None, rem: None })
    );
    assert_eq!(
        prime_request(i32::MAX as usize - 1, true),
        Some(PrimeRequest { bits: i32::MAX, safe: true, add: None, rem: None })
    );
    assert_eq!(prime_request(i32::MAX as usize, true), None);
    assert_eq!(prime_request(usize::MAX, true), None);
}

#[test]
fn a_number_of_the_length_asked_for_is_accepted() {
    assert_eq!(of_length(dec("5"), 3), Ok(dec("5")));
    assert_eq!(of_length(dec("-5"), 3), Ok(dec("-5")));
    assert_eq!(of_length(dec("0"), 0), Ok(dec("0")));
    assert_eq!(of_length(dec("18446744073709551616"), 65), Ok(dec("18446744073709551616")));
}

#[test]
fn a_number_of_another_length_is_invalid_state() {
    assert!(matches!(of_length(dec("5"), 4), Err(Error::InvalidState(_))));
    assert!(matches!(of_length(dec("5"), 2), Err(Error::InvalidState(_))));
    assert!(matches!(of_length(dec("0"), 1), Err(Error::InvalidState(_))));
    assert!(matches!(of_length(dec("7"), -1), Err(Error::InvalidState(_))));
}

#[test]
fn the_primality_test_is_asked_for_with_trial_division() {
    assert_eq!(
        prime_test_request(1024),
        PrimeTestRequest { checks: 8, do_trial_division: true }
    );
    assert_eq!(prime_test_request(3), PrimeTestRequest { checks: 0, do_trial_division: true });
    assert_eq!(prime_test_request(0), PrimeTestRequest { checks: 0, do_trial_division: true });
    assert_eq!(
        prime_test_request(i32::MAX),
        PrimeTestRequest { checks: 29, do_trial_division: true }
    );
    for bits in [-3, 1, 4, 10, 24, 50, 103, 512, 4096] {
        assert_eq!(prime_test_request(bits).checks, prime_check_count(bits));
    }
}

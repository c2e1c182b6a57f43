use bignumber::error::Error;
use bignumber::number::BigNumber;

fn dec(s: &str) -> BigNumber {
    BigNumber::from_dec(s).unwrap()
}

#[test]
fn add_is_signed() {
    assert_eq!(dec("2").add(&dec("3")).unwrap(), dec("5"));
    assert_eq!(dec("2").add(&dec("-3")).unwrap(), dec("-1"));
    assert_eq!(dec("-2").add(&dec("-3")).unwrap(), dec("-5"));
    assert_eq!(
        dec("18446744073709551615").add(&dec("1")).unwrap(),
        dec("18446744073709551616")
    );
}

#[test]
fn sub_is_signed() {
    assert_eq!(dec("2").sub(&dec("3")).unwrap(), dec("-1"));
    assert_eq!(dec("2").sub(&dec("-3")).unwrap(), dec("5"));
    assert_eq!(dec("-2").sub(&dec("-2")).unwrap(), dec("0"));
}

#[test]
fn mul_is_signed() {
    assert_eq!(dec("6").mul(&dec("7")).unwrap(), dec("42"));
    assert_eq!(dec("-6").mul(&dec("7")).unwrap(), dec("-42"));
    assert_eq!(dec("-6").mul(&dec("-7")).unwrap(), dec("42"));
    assert_eq!(dec("-6").mul(&dec("0")).unwrap(), dec("0"));
    assert!(!dec("-6").mul(&dec("0")).unwrap().is_negative());
}

#[test]
fn sqr_is_the_product_with_itself() {
    assert_eq!(dec("12").sqr().unwrap(), dec("144"));
    assert_eq!(dec("-12").sqr().unwrap(), dec("144"));
    assert_eq!(dec("0").sqr().unwrap(), dec("0"));
    let x = dec("123456789123456789");
    assert_eq!(x.sqr().unwrap(), x.mul(&x).unwrap());
}

#[test]
fn operands_stay_as_they_were() {
    let a = dec("10");
    let b = dec("3");
    let _ = a.add(&b).unwrap();
    let _ = a.mul(&b).unwrap();
    let _ = a.div(&b).unwrap();
    let _ = a.modulus(&b).unwrap();
    assert_eq!(a, dec("10"));
    assert_eq!(b, dec("3"));
}

#[test]
fn div_rounds_toward_zero() {
    assert_eq!(dec("7").div(&dec("2")).unwrap(), dec("3"));
    assert_eq!(dec("-7").div(&dec("2")).unwrap(), dec("-3"));
    assert_eq!(dec("7").div(&dec("-2")).unwrap(), dec("-3"));
    assert_eq!(dec("-7").div(&dec("-2")).unwrap(), dec("3"));
    assert_eq!(dec("-1").div(&dec("2")).unwrap(), dec("0"));
    assert!(!dec("-1").div(&dec("2")).unwrap().is_negative());
    assert_eq!(dec("6").div(&dec("3")).unwrap(), dec("2"));
}

#[test]
fn div_by_zero_is_invalid_input() {
    assert!(matches!(dec("7").div(&dec("0")), Err(Error::InvalidInput(_))));
}

#[test]
fn exp_raises_to_a_power() {
    assert_eq!(dec("2").exp(&dec("10")).unwrap(), dec("1024"));
    assert_eq!(dec("-2").exp(&dec("3")).unwrap(), dec("-8"));
    assert_eq!(dec("-2").exp(&dec("4")).unwrap(), dec("16"));
    assert_eq!(dec("5").exp(&dec("0")).unwrap(), dec("1"));
    assert_eq!(dec("0").exp(&dec("0")).unwrap(), dec("1"));
    assert_eq!(dec("0").exp(&dec("5")).unwrap(), dec("0"));
    assert_eq!(dec("10").exp(&dec("30")).unwrap(), dec("1000000000000000000000000000000"));
}

#[test]
fn exp_refuses_a_negative_exponent() {
    assert!(matches!(dec("2").exp(&dec("-1")), Err(Error::InvalidInput(_))));
}

#[test]
fn gcd_is_symmetric_and_not_negative() {
    for (a, b, g) in [
        ("12", "18", "6"),
        ("-12", "18", "6"),
        ("12", "-18", "6"),
        ("-12", "-18", "6"),
        ("17", "5", "1"),
        ("0", "0", "0"),
        ("1", "0", "1"),
        ("1000000007", "998244353", "1"),
    ] {
        assert_eq!(BigNumber::gcd(&dec(a), &dec(b)).unwrap(), dec(g));
        assert_eq!(BigNumber::gcd(&dec(b), &dec(a)).unwrap(), dec(g));
    }
}

#[test]
fn gcd_with_zero_is_the_magnitude() {
    assert_eq!(BigNumber::gcd(&dec("9"), &dec("0")).unwrap(), dec("9"));
    assert_eq!(BigNumber::gcd(&dec("-9"), &dec("0")).unwrap(), dec("9"));
    assert_eq!(BigNumber::gcd(&dec("0"), &dec("-9")).unwrap(), dec("9"));
}

#[test]
fn increment_and_decrement_step_by_one() {
    assert_eq!(dec("41").increment().unwrap(), dec("42"));
    assert_eq!(dec("-1").increment().unwrap(), dec("0"));
    assert_eq!(dec("-5").increment().unwrap(), dec("-4"));
    assert_eq!(dec("0").decrement().unwrap(), dec("-1"));
    assert_eq!(dec("-5").decrement().unwrap(), dec("-6"));
    assert_eq!(dec("4294967295").increment().unwrap(), dec("4294967296"));
    let x = dec("7");
    let _ = x.increment().unwrap();
    assert_eq!(x, dec("7"));
}

#[test]
fn word_operations_update_in_place() {
    let mut x = dec("10");
    x.add_word(5).unwrap();
    assert_eq!(x, dec("15"));
    x.sub_word(20).unwrap();
    assert_eq!(x, dec("-5"));
    x.mul_word(3).unwrap();
    assert_eq!(x, dec("-15"));
    x.div_word(2).unwrap();
    assert_eq!(x, dec("-7"));
    x.add_word(10).unwrap();
    assert_eq!(x, dec("3"));
    x.mul_word(0).unwrap();
    assert_eq!(x, dec("0"));
    assert!(!x.is_negative());
}

#[test]
fn word_operations_chain() {
    let mut x = dec("1");
    x.add_word(1).unwrap().mul_word(10).unwrap().sub_word(5).unwrap().div_word(4).unwrap();
    assert_eq!(x, dec("3"));
}

#[test]
fn div_word_by_zero_is_invalid_input() {
    let mut x = dec("10");
    assert!(matches!(x.div_word(0), Err(Error::InvalidInput(_))));
    assert_eq!(x, dec("10"));
}

#[test]
fn div_word_of_negative_rounds_toward_zero() {
    let mut x = dec("-1");
    x.div_word(2).unwrap();
    assert_eq!(x, dec("0"));
    assert!(!x.is_negative());
}

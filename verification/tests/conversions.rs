use bignumber::error::Error;
use bignumber::number::BigNumber;
use bignumber::text::{is_decimal, is_hexadecimal};

fn dec(s: &str) -> BigNumber {
    BigNumber::from_dec(s).unwrap()
}

#[test]
fn new_is_zero_and_not_negative() {
    let zero = BigNumber::new().unwrap();
    assert_eq!(zero.to_dec().unwrap(), "0");
    assert!(!zero.is_negative());
    assert_eq!(zero.num_bits().unwrap(), 0);
}

#[test]
fn default_is_zero() {
    assert_eq!(BigNumber::default(), BigNumber::new().unwrap());
    assert_eq!(BigNumber::default().to_dec().unwrap(), "0");
}

#[test]
fn from_u32_gives_the_value() {
    assert_eq!(BigNumber::from_u32(0).unwrap().to_dec().unwrap(), "0");
    assert_eq!(BigNumber::from_u32(7).unwrap().to_dec().unwrap(), "7");
    assert_eq!(BigNumber::from_u32(4294967295).unwrap().to_dec().unwrap(), "4294967295");
}

#[test]
fn from_u32_refuses_more_than_32_bits() {
    if usize::BITS > 32 {
        let n = (u32::MAX as usize) + 8;
        assert!(matches!(BigNumber::from_u32(n), Err(Error::InvalidInput(_))));
    }
}

#[test]
fn hex_ff_is_one_byte() {
    assert_eq!(BigNumber::from_hex("FF").unwrap().to_bytes().unwrap(), vec![0xFF]);
    assert_eq!(BigNumber::from_bytes(&[0xFF]).unwrap().to_hex().unwrap(), "FF");
}

#[test]
fn bytes_are_the_big_endian_magnitude() {
    assert_eq!(dec("4660").to_bytes().unwrap(), vec![0x12, 0x34]);
    assert_eq!(dec("-4660").to_bytes().unwrap(), vec![0x12, 0x34]);
    assert_eq!(dec("256").to_bytes().unwrap(), vec![1, 0]);
    assert_eq!(dec("65536").to_bytes().unwrap(), vec![1, 0, 0]);
}

#[test]
fn zero_has_no_bytes() {
    assert_eq!(BigNumber::new().unwrap().to_bytes().unwrap(), Vec::<u8>::new());
}

#[test]
fn from_bytes_accepts_empty_and_leading_zeros() {
    assert_eq!(BigNumber::from_bytes(&[]).unwrap(), BigNumber::from_u32(0).unwrap());
    assert_eq!(BigNumber::from_bytes(&[0]).unwrap(), BigNumber::from_u32(0).unwrap());
    assert_eq!(BigNumber::from_bytes(&[0, 0, 1, 2]).unwrap(), BigNumber::from_u32(258).unwrap());
    assert_eq!(
        BigNumber::from_bytes(&[0x12, 0x00, 0x34]).unwrap(),
        BigNumber::from_u32(0x120034).unwrap()
    );
}

#[test]
fn bytes_round_trip_gives_the_magnitude() {
    for text in ["0", "1", "255", "256", "-1", "-65535", "123456789012345678901234567890"] {
        let x = dec(text);
        let back = BigNumber::from_bytes(&x.to_bytes().unwrap()).unwrap();
        assert_eq!(back, x.set_negative(false).unwrap());
    }
}

#[test]
fn dec_round_trip_keeps_the_sign() {
    for text in ["0", "9", "10", "-1", "-10", "99999999999999999999", "-340282366920938463463374607431768211456"] {
        let x = dec(text);
        assert_eq!(x.to_dec().unwrap(), text);
        assert_eq!(BigNumber::from_dec(&x.to_dec().unwrap()).unwrap(), x);
    }
}

#[test]
fn hex_round_trip_keeps_the_sign() {
    for text in ["0", "7", "-7", "255", "-256", "4095", "18446744073709551616"] {
        let x = dec(text);
        assert_eq!(BigNumber::from_hex(&x.to_hex().unwrap()).unwrap(), x);
    }
}

#[test]
fn to_hex_is_upper_case_whole_bytes() {
    assert_eq!(dec("0").to_hex().unwrap(), "0");
    assert_eq!(dec("10").to_hex().unwrap(), "0A");
    assert_eq!(dec("255").to_hex().unwrap(), "FF");
    assert_eq!(dec("256").to_hex().unwrap(), "0100");
    assert_eq!(dec("-3054").to_hex().unwrap(), "-0BEE");
    assert_eq!(dec("3735928559").to_hex().unwrap(), "DEADBEEF");
}

#[test]
fn to_dec_has_no_leading_zeros() {
    assert_eq!(dec("007").to_dec().unwrap(), "7");
    assert_eq!(dec("-007").to_dec().unwrap(), "-7");
    assert_eq!(dec("-0").to_dec().unwrap(), "0");
    assert_eq!(dec("000").to_dec().unwrap(), "0");
}

#[test]
fn from_hex_accepts_both_cases() {
    assert_eq!(BigNumber::from_hex("ff").unwrap(), BigNumber::from_u32(255).unwrap());
    assert_eq!(BigNumber::from_hex("fF").unwrap(), BigNumber::from_u32(255).unwrap());
    assert_eq!(BigNumber::from_hex("-aBc").unwrap(), dec("-2748"));
    assert_eq!(BigNumber::from_hex("A").unwrap(), BigNumber::from_u32(10).unwrap());
    assert_eq!(BigNumber::from_hex("-0").unwrap(), BigNumber::from_u32(0).unwrap());
    assert!(!BigNumber::from_hex("-0").unwrap().is_negative());
}

#[test]
fn from_dec_refuses_malformed_text() {
    for text in ["", "-", "+5", "12a", "1 2", " 12", "12 ", "1,000", "0x10", "--1", "1-", "1.5", "١٢", "12\0"] {
        assert!(
            matches!(BigNumber::from_dec(text), Err(Error::InvalidInput(_))),
            "{:?}",
            text
        );
    }
}

#[test]
fn from_hex_refuses_malformed_text() {
    for text in ["", "-", "+F", "0x1F", "G", "1G", "F F", "-F-", "é", "1F\0"] {
        assert!(
            matches!(BigNumber::from_hex(text), Err(Error::InvalidInput(_))),
            "{:?}",
            text
        );
    }
}

#[test]
fn decimal_grammar() {
    assert!(is_decimal("0"));
    assert!(is_decimal("-0"));
    assert!(is_decimal("0123456789"));
    assert!(!is_decimal(""));
    assert!(!is_decimal("-"));
    assert!(!is_decimal("A"));
    assert!(!is_decimal("1-1"));
    assert!(!is_decimal("1\n"));
}

#[test]
fn hexadecimal_grammar() {
    assert!(is_hexadecimal("0123456789abcdefABCDEF"));
    assert!(is_hexadecimal("-a"));
    assert!(!is_hexadecimal("g"));
    assert!(!is_hexadecimal("@"));
    assert!(!is_hexadecimal("`"));
    assert!(!is_hexadecimal("/"));
    assert!(!is_hexadecimal(":"));
    assert!(!is_hexadecimal("G"));
    assert!(!is_hexadecimal("0x0"));
}

#[test]
fn try_clone_keeps_value_and_sign() {
    for text in ["0", "5", "-5", "-123456789012345678901234567890"] {
        let x = dec(text);
        let y = x.try_clone().unwrap();
        assert_eq!(x, y);
        assert_eq!(y.is_negative(), x.is_negative());
    }
}

#[test]
fn clone_is_independent_of_its_source() {
    let x = dec("41");
    let mut y = x.try_clone().unwrap();
    y.add_word(1).unwrap();
    assert_eq!(x, dec("41"));
    assert_eq!(y, dec("42"));
}

#[test]
fn zero_is_never_negative() {
    let zero = BigNumber::from_u32(0).unwrap();
    assert!(!zero.set_negative(true).unwrap().is_negative());
    assert_eq!(zero.set_negative(true).unwrap(), zero);
}

#[test]
fn set_negative_sets_the_sign() {
    assert_eq!(dec("5").set_negative(true).unwrap(), dec("-5"));
    assert_eq!(dec("-5").set_negative(true).unwrap(), dec("-5"));
    assert_eq!(dec("-5").set_negative(false).unwrap(), dec("5"));
    assert_eq!(dec("5").set_negative(false).unwrap(), dec("5"));
}

#[test]
fn order_is_that_of_the_integers() {
    assert!(dec("-2") < dec("-1"));
    assert!(dec("-1") < dec("0"));
    assert!(dec("0") < dec("1"));
    assert!(dec("100") > dec("99"));
    assert!(dec("-100") < dec("99"));
    assert!(dec("7") == dec("7"));
    assert!(dec("7") != dec("-7"));
    assert!(dec("7") <= dec("7"));
    assert_eq!(dec("3").cmp(&dec("4")), std::cmp::Ordering::Less);
    assert_eq!(dec("4").partial_cmp(&dec("3")), Some(std::cmp::Ordering::Greater));
    assert_eq!(dec("4").cmp(&dec("4")), std::cmp::Ordering::Equal);
}

#[test]
fn numbers_are_keys_of_ordered_maps() {
    let mut map = std::collections::BTreeMap::new();
    map.insert(dec("10"), "ten");
    map.insert(dec("-10"), "minus ten");
    map.insert(dec("0"), "zero");
    let order: Vec<&str> = map.values().copied().collect();
    assert_eq!(order, vec!["minus ten", "zero", "ten"]);
}

#[test]
fn from_bytes_takes_what_to_bytes_gives() {
    let big = dec("2").exp(&dec("4099")).unwrap();
    let bytes = big.to_bytes().unwrap();
    assert_eq!(bytes.len(), 513);
    assert!(bytes.len() <= i32::MAX as usize);
    assert_eq!(BigNumber::from_bytes(&bytes).unwrap(), big);
}

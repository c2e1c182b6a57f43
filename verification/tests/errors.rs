use bignumber::error::{checked, Error};
use bignumber::number::BigNumber;

#[test]
fn engine_failure_is_invalid_state_with_prefix() {
    let failure = BigNumber::from_u32(0).unwrap().rand_range().unwrap_err();
    assert!(matches!(failure, Error::InvalidState(_)));
    assert!(failure.message().starts_with("Internal OpenSSL error: "));
    assert!(failure.message().len() > "Internal OpenSSL error: ".len());
}

#[test]
fn conversion_from_the_engine_error_is_invalid_state() {
    let stack = openssl::bn::BigNum::from_dec_str("x").unwrap_err();
    let text = stack.to_string();
    let error = Error::from(stack);
    assert_eq!(error, Error::InvalidState(format!("Internal OpenSSL error: {}", text)));
}

#[test]
fn each_kind_carries_a_message() {
    let input = BigNumber::from_dec("x").unwrap_err();
    assert!(matches!(input, Error::InvalidInput(_)));
    assert!(!input.message().is_empty());
    let six = BigNumber::from_u32(6).unwrap();
    let nine = BigNumber::from_u32(9).unwrap();
    let structure = six.inverse(&nine).unwrap_err();
    assert!(matches!(structure, Error::InvalidStructure(_)));
    assert!(!structure.message().is_empty());
}

#[test]
fn checked_keeps_a_success() {
    assert_eq!(checked(Ok(5u8)), Ok(5u8));
    assert_eq!(checked(Ok(())), Ok(()));
}

#[test]
fn checked_reports_a_failure_as_invalid_state() {
    let stack = openssl::bn::BigNum::from_hex_str("?").unwrap_err();
    let text = stack.to_string();
    let failure = checked::<u8>(Err(stack)).unwrap_err();
    assert_eq!(failure, Error::InvalidState(format!("Internal OpenSSL error: {}", text)));
}

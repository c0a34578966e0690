use failcat::car::Vin;
use failcat::serial::{SerialNumber, SerialNumberParseError};

#[test]
fn parses_trailing_token() {
    assert_eq!(SerialNumber::from_str("car number 123"), Ok(SerialNumber(123)));
    assert_eq!(SerialNumber::from_str("456"), Ok(SerialNumber(456)));
    assert_eq!(SerialNumber::from_str("  789  "), Ok(SerialNumber(789)));
}

#[test]
fn parses_signed_tokens() {
    assert_eq!(SerialNumber::from_str("-5"), Ok(SerialNumber(-5)));
    assert_eq!(SerialNumber::from_str("+42"), Ok(SerialNumber(42)));
    assert_eq!(SerialNumber::from_str("-2147483648"), Ok(SerialNumber(i32::MIN)));
    assert_eq!(SerialNumber::from_str("2147483647"), Ok(SerialNumber(i32::MAX)));
}

#[test]
fn splits_on_unicode_whitespace() {
    assert_eq!(
        SerialNumber::from_str("token\u{a0}123"),
        Ok(SerialNumber(123))
    );
    assert_eq!(
        SerialNumber::from_str("456\u{2003}"),
        Ok(SerialNumber(456))
    );
}

#[test]
fn rejects_blank_input() {
    assert_eq!(
        SerialNumber::from_str(""),
        Err(SerialNumberParseError::NoLastElement)
    );
    assert_eq!(
        SerialNumber::from_str("   \t\n "),
        Err(SerialNumberParseError::NoLastElement)
    );
}

#[test]
fn rejects_non_numeric_token() {
    assert_eq!(
        SerialNumber::from_str("abc"),
        Err(SerialNumberParseError::InvalidDigit)
    );
    assert_eq!(
        SerialNumber::from_str("12 34x"),
        Err(SerialNumberParseError::InvalidDigit)
    );
    assert_eq!(
        SerialNumber::from_str("-"),
        Err(SerialNumberParseError::InvalidDigit)
    );
}

#[test]
fn rejects_out_of_range_token() {
    assert_eq!(
        SerialNumber::from_str("2147483648"),
        Err(SerialNumberParseError::Overflow)
    );
    assert_eq!(
        SerialNumber::from_str("-2147483649"),
        Err(SerialNumberParseError::Overflow)
    );
    assert_eq!(
        SerialNumber::from_str("99999999999999999999"),
        Err(SerialNumberParseError::Overflow)
    );
}

#[test]
fn serial_from_vin_tail() {
    let vin = Vin(String::from("5XYP24GCXPG100000"));
    assert_eq!(SerialNumber::from_vin(&vin), Ok(SerialNumber(100000)));
    let vin = Vin(String::from("5XYP24GCXPG000007"));
    assert_eq!(SerialNumber::from_vin(&vin), Ok(SerialNumber(7)));
}

#[test]
fn every_candidate_parses_back_to_its_serial() {
    for serial in [0, 7, 411975, 411976, 999999] {
        for vin in failcat::candidates::get_possible_vins_from_serial(&SerialNumber(serial)) {
            assert_eq!(
                SerialNumber::from_vin(&Vin(vin)),
                Ok(SerialNumber(serial))
            );
        }
    }
}

#[test]
fn serial_from_vin_rejects_garbage_tail() {
    let vin = Vin(String::from("5XYP24GCXPGABCDEF"));
    assert_eq!(
        SerialNumber::from_vin(&vin),
        Err(SerialNumberParseError::InvalidDigit)
    );
}

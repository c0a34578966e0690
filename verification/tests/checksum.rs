use failcat::vin::{check_digit, is_valid_vin, VinError};
use failcat::year::{lookup_year, year_table, VinYear};
use failcat::serial::SerialNumber;

#[test]
fn check_digit_of_known_vin() {
    assert_eq!(check_digit("5XYP24GC0PG100000"), Ok('X'));
    assert_eq!(check_digit("5XYP24GCXPG100000"), Ok('X'));
}

#[test]
fn check_digit_is_deterministic() {
    let a = check_digit("5XYP3DGC0PG100000");
    let b = check_digit("5XYP3DGC0PG100000");
    assert_eq!(a, b);
    assert_eq!(a, Ok('3'));
}

#[test]
fn check_digit_rejects_short_input() {
    assert_eq!(check_digit(""), Err(VinError::InvalidLength));
    assert_eq!(check_digit("5XYP24GC"), Err(VinError::InvalidLength));
    assert_eq!(check_digit("5XYP24GCXPG10000"), Err(VinError::InvalidLength));
}

#[test]
fn check_digit_rejects_illegal_characters() {
    assert_eq!(check_digit("IXYP24GCXPG100000"), Err(VinError::IllegalCharacter));
    assert_eq!(check_digit("5XYP24GCXPG10000O"), Err(VinError::IllegalCharacter));
    assert_eq!(check_digit("5XYP24GCXPG10000q"), Err(VinError::IllegalCharacter));
}

#[test]
fn valid_vin_round_trip() {
    assert!(is_valid_vin("5XYP24GCXPG100000"));
    assert!(is_valid_vin("5XYP6DGC4PG100000"));
}

#[test]
fn invalid_vin_wrong_check_digit() {
    assert!(!is_valid_vin("5XYP24GC1PG100000"));
    assert!(!is_valid_vin("5XYP24GC0PG100000"));
}

#[test]
fn invalid_vin_wrong_length() {
    assert!(!is_valid_vin(""));
    assert!(!is_valid_vin("5XYP24GCXPG10000"));
    assert!(!is_valid_vin("5XYP24GCXPG1000000"));
}

#[test]
fn year_code_boundary() {
    let below = VinYear::from_serial(SerialNumber(411975)).unwrap();
    assert_eq!(below.year, 2023);
    assert_eq!(below.vin_char, 'P');
    let above = VinYear::from_serial(SerialNumber(411976)).unwrap();
    assert_eq!(above.year, 2024);
    assert_eq!(above.vin_char, 'R');
}

#[test]
fn year_code_small_serial() {
    let y = VinYear::from_serial(SerialNumber(1)).unwrap();
    assert_eq!(y.year, 2023);
    assert_eq!(y.vin_char, 'P');
}

#[test]
fn year_lookup_unsupported_on_empty_table() {
    let empty: Vec<failcat::year::YearEntry> = Vec::new();
    assert_eq!(lookup_year(&empty, 5), Err(VinError::UnsupportedYear));
}

#[test]
fn year_lookup_takes_first_covering_row() {
    let table = year_table();
    let y = lookup_year(&table, 100000).unwrap();
    assert_eq!(y.year, 2023);
    let y = lookup_year(&table, 500000).unwrap();
    assert_eq!(y.year, 2024);
}

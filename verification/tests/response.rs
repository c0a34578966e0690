use failcat::car::CarId;
use failcat::common::{cors_origin_allowed, ScrapeResponse};
use failcat::serial::SerialNumber;

#[test]
fn cors_admits_known_hosts_only() {
    assert!(cors_origin_allowed("https://app.vteng.io"));
    assert!(cors_origin_allowed("http://localhost:8080"));
    assert!(!cors_origin_allowed("https://example.com"));
    assert!(!cors_origin_allowed(""));
}

#[test]
fn found_response_carries_the_id() {
    let r = ScrapeResponse::found(SerialNumber(7), CarId(3));
    assert_eq!(r.attempted, SerialNumber(7));
    assert_eq!(r.found, Some(CarId(3)));
}

#[test]
fn not_found_response_has_no_id() {
    let r = ScrapeResponse::not_found(SerialNumber(9));
    assert_eq!(r.attempted, SerialNumber(9));
    assert_eq!(r.found, None);
}

#[test]
fn new_response_keeps_both_fields() {
    let r = ScrapeResponse::new(SerialNumber(1), Some(CarId(2)));
    assert_eq!(r.attempted, SerialNumber(1));
    assert_eq!(r.found, Some(CarId(2)));
}

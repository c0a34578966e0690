use failcat::car::Car;
use failcat::gaps::highest_serial;
use failcat::serial::SerialNumber;

fn serials(vals: &[i32]) -> Vec<SerialNumber> {
    vals.iter().map(|v| SerialNumber(*v)).collect()
}

#[test]
fn gap_scenario_above_and_below() {
    let persisted = serials(&[1, 2, 3, 5, 6]);
    assert_eq!(
        Car::first_unknown_serial_above(&persisted, SerialNumber(1)),
        Some(SerialNumber(4))
    );
    assert_eq!(
        Car::first_unknown_serial_below(&persisted, SerialNumber(6)),
        Some(SerialNumber(4))
    );
}

#[test]
fn gap_above_skips_serials_below_the_bound() {
    let persisted = serials(&[1, 2, 3, 5, 6]);
    assert_eq!(
        Car::first_unknown_serial_above(&persisted, SerialNumber(5)),
        Some(SerialNumber(7))
    );
}

#[test]
fn gap_above_ignores_order_of_rows() {
    let persisted = serials(&[6, 3, 1, 5, 2]);
    assert_eq!(
        Car::first_unknown_serial_above(&persisted, SerialNumber(1)),
        Some(SerialNumber(4))
    );
}

#[test]
fn gap_above_none_without_persisted_serials_at_bound() {
    let persisted = serials(&[1, 2, 3]);
    assert_eq!(
        Car::first_unknown_serial_above(&persisted, SerialNumber(10)),
        None
    );
    let empty = serials(&[]);
    assert_eq!(
        Car::first_unknown_serial_above(&empty, SerialNumber(0)),
        None
    );
}

#[test]
fn gap_below_none_when_everything_has_a_successor() {
    let persisted = serials(&[1, 2, 3]);
    assert_eq!(
        Car::first_unknown_serial_below(&persisted, SerialNumber(3)),
        None
    );
}

#[test]
fn gap_below_returns_missing_serial_itself() {
    let persisted = serials(&[10, 11, 20]);
    assert_eq!(
        Car::first_unknown_serial_below(&persisted, SerialNumber(20)),
        Some(SerialNumber(12))
    );
}

#[test]
fn highest_serial_of_snapshot() {
    assert_eq!(highest_serial(&serials(&[1, 9, 4])), SerialNumber(9));
    assert_eq!(highest_serial(&serials(&[])), SerialNumber(0));
    assert_eq!(highest_serial(&serials(&[3])), SerialNumber(3));
}

//! Model-year lookup: an ordered, immutable table of serial-number
//! thresholds selects the model year and its VIN year character.

use vstd::prelude::*;
use crate::vin::VinError;

verus! {

/// One row of the threshold table: serials up to `max_serial` (or every
/// serial, when `max_serial` is `None`) belong to `year` and carry
/// `vin_char` at VIN index 9.
#[derive(Debug, Clone, Copy, PartialEq, Eq, Structural)]
pub struct YearEntry {
    pub max_serial: Option<i32>,
    pub year: u32,
    pub vin_char: char,
}

/// A model year together with its VIN year character.
#[derive(Debug, Clone, Copy, PartialEq, Eq, Structural)]
pub struct VinYear {
    pub year: u32,
    pub vin_char: char,
}

/// Whether one table row covers a serial number.
pub open spec fn spec_entry_covers(e: YearEntry, serial: int) -> bool {
    match e.max_serial {
        Some(m) => serial <= m,
        None => true,
    }
}

/// The configured table: serials up to 411975 are year 2023 ('P'); every
/// larger serial is year 2024 ('R').
pub open spec fn spec_year_table() -> Seq<YearEntry> {
    seq![
        YearEntry { max_serial: Some(411975i32), year: 2023u32, vin_char: 'P' },
        YearEntry { max_serial: None, year: 2024u32, vin_char: 'R' },
    ]
}

/// The model year of a serial number under the configured table.
pub open spec fn spec_year_of(serial: int) -> u32 {
    if serial <= 411975 { 2023u32 } else { 2024u32 }
}

/// The VIN year character of a serial number under the configured table.
pub open spec fn spec_year_char(serial: int) -> char {
    if serial <= 411975 { 'P' } else { 'R' }
}

/// The configured threshold table, in ascending threshold order.
pub fn year_table() -> (t: Vec<YearEntry>)
    ensures
        t@ == spec_year_table(),
{
    let mut t: Vec<YearEntry> = Vec::new();
    t.push(YearEntry { max_serial: Some(411975), year: 2023, vin_char: 'P' });
    t.push(YearEntry { max_serial: None, year: 2024, vin_char: 'R' });
    assert(t@ =~= spec_year_table());
    t
}

/// First row of the table that covers the serial, or `UnsupportedYear`
/// when none does.  Extending the table needs no change here.
pub fn lookup_year(table: &Vec<YearEntry>, serial: i32) -> (r: Result<VinYear, VinError>)
    ensures
        match r {
            Ok(y) => exists|i: int|
                0 <= i < table@.len() && #[trigger] spec_entry_covers(table@[i], serial as int)
                    && y == (VinYear { year: table@[i].year, vin_char: table@[i].vin_char })
                    && forall|j: int|
                        0 <= j < i ==> !spec_entry_covers(#[trigger] table@[j], serial as int),
            Err(e) => e == VinError::UnsupportedYear && forall|i: int|
                0 <= i < table@.len() ==> !spec_entry_covers(#[trigger] table@[i], serial as int),
        },
{
    let mut i: usize = 0;
    while i < table.len()
        invariant
            0 <= i <= table@.len(),
            forall|j: int| 0 <= j < i ==> !spec_entry_covers(#[trigger] table@[j], serial as int),
        decreases table@.len() - i,
    {
        let e = table[i];
        let covers = match e.max_serial {
            Some(m) => serial <= m,
            None => true,
        };
        if covers {
            proof {
                assert(e == table@[i as int]);
                assert(spec_entry_covers(table@[i as int], serial as int));
            }
            return Ok(VinYear { year: e.year, vin_char: e.vin_char });
        }
        i = i + 1;
    }
    Err(VinError::UnsupportedYear)
}

impl VinYear {
    /// The model year of a serial number: a threshold lookup in the
    /// configured table, which today covers every serial.
    pub fn from_serial(serial: crate::serial::SerialNumber) -> (r: Result<VinYear, VinError>)
        ensures
            r == Ok::<VinYear, VinError>(
                VinYear {
                    year: spec_year_of(serial.0 as int),
                    vin_char: spec_year_char(serial.0 as int),
                },
            ),
    {
        let table = year_table();
        let r = lookup_year(&table, serial.0);
        proof {
            if serial.0 <= 411975 {
                assert(spec_entry_covers(spec_year_table()[0], serial.0 as int));
            } else {
                assert(!spec_entry_covers(spec_year_table()[0], serial.0 as int));
                assert(spec_entry_covers(spec_year_table()[1], serial.0 as int));
            }
        }
        match r {
            Ok(y) => Ok(y),
            Err(_) => {
                proof {
                    assert(spec_entry_covers(spec_year_table()[1], serial.0 as int));
                }
                Err(VinError::UnsupportedYear)
            },
        }
    }
}

} // verus!

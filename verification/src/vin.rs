//! Checksum engine: character values, position weights, the check digit
//! at index 8, and whole-VIN validity.

use vstd::prelude::*;

verus! {

/// Errors surfaced by the checksum engine and the model-year lookup.
#[derive(Debug, Clone, Copy, PartialEq, Eq, Structural)]
pub enum VinError {
    /// The string is shorter than the 17 characters a VIN needs.
    InvalidLength,
    /// A character carries no value in the North-American VIN table.
    IllegalCharacter,
    /// No configured model-year threshold covers the serial number.
    UnsupportedYear,
}

/// Value of one VIN character in the weighted checksum: digits map to
/// themselves, letters to the fixed North-American table; I, O and Q
/// (and anything else) carry no value.
pub open spec fn spec_char_value(c: char) -> Option<u32> {
    match c {
        'A' => Some(1u32),
        'B' => Some(2u32),
        'C' => Some(3u32),
        'D' => Some(4u32),
        'E' => Some(5u32),
        'F' => Some(6u32),
        'G' => Some(7u32),
        'H' => Some(8u32),
        'J' => Some(1u32),
        'K' => Some(2u32),
        'L' => Some(3u32),
        'M' => Some(4u32),
        'N' => Some(5u32),
        'P' => Some(7u32),
        'R' => Some(9u32),
        'S' => Some(2u32),
        'T' => Some(3u32),
        'U' => Some(4u32),
        'V' => Some(5u32),
        'W' => Some(6u32),
        'X' => Some(7u32),
        'Y' => Some(8u32),
        'Z' => Some(9u32),
        '0' => Some(0u32),
        '1' => Some(1u32),
        '2' => Some(2u32),
        '3' => Some(3u32),
        '4' => Some(4u32),
        '5' => Some(5u32),
        '6' => Some(6u32),
        '7' => Some(7u32),
        '8' => Some(8u32),
        '9' => Some(9u32),
        _ => None,
    }
}

/// The checksum value of a character, counting an illegal character as 0.
/// Legality is tracked separately by `spec_all_legal`.
pub open spec fn spec_char_value_or_zero(c: char) -> u32 {
    match spec_char_value(c) {
        Some(v) => v,
        None => 0u32,
    }
}

/// The fixed 17-element position-weight vector.  Index 8 (the check-digit
/// slot) has weight 0: the slot contributes nothing to its own value.
pub open spec fn spec_weight(i: int) -> u32 {
    if i == 0 { 8u32 }
    else if i == 1 { 7u32 }
    else if i == 2 { 6u32 }
    else if i == 3 { 5u32 }
    else if i == 4 { 4u32 }
    else if i == 5 { 3u32 }
    else if i == 6 { 2u32 }
    else if i == 7 { 10u32 }
    else if i == 8 { 0u32 }
    else if i == 9 { 9u32 }
    else if i == 10 { 8u32 }
    else if i == 11 { 7u32 }
    else if i == 12 { 6u32 }
    else if i == 13 { 5u32 }
    else if i == 14 { 4u32 }
    else if i == 15 { 3u32 }
    else if i == 16 { 2u32 }
    else { 0u32 }
}

/// Every one of the first 17 characters carries a value.
pub open spec fn spec_all_legal(s: Seq<char>) -> bool {
    forall|i: int| 0 <= i < 17 ==> #[trigger] spec_char_value(s[i]) is Some
}

/// Weighted sum of the first `n` characters.
pub open spec fn spec_weighted_sum(s: Seq<char>, n: int) -> int
    decreases n,
{
    if n <= 0 {
        0
    } else {
        spec_weighted_sum(s, n - 1) + spec_char_value_or_zero(s[n - 1]) * spec_weight(n - 1)
    }
}

/// The decimal digit character for a value below 10.
pub open spec fn spec_digit_char(d: int) -> char {
    if d == 0 { '0' }
    else if d == 1 { '1' }
    else if d == 2 { '2' }
    else if d == 3 { '3' }
    else if d == 4 { '4' }
    else if d == 5 { '5' }
    else if d == 6 { '6' }
    else if d == 7 { '7' }
    else if d == 8 { '8' }
    else if d == 9 { '9' }
    else { 'X' }
}

/// The check digit of the first 17 characters: the weighted sum reduced
/// mod 11; remainder 10 becomes 'X', anything else its digit character.
pub open spec fn spec_check_digit(s: Seq<char>) -> char {
    let r = spec_weighted_sum(s, 17) % 11;
    if r == 10 { 'X' } else { spec_digit_char(r) }
}

/// A valid VIN: exactly 17 characters, all legal, and the character at
/// index 8 equals the check digit computed over the others.
pub open spec fn spec_valid_vin(s: Seq<char>) -> bool {
    &&& s.len() == 17
    &&& spec_all_legal(s)
    &&& s[8] == spec_check_digit(s)
}

/// The check digit is pure and deterministic: it depends on the
/// characters alone, so identical inputs always yield identical
/// outputs.
pub proof fn lemma_check_digit_deterministic(a: Seq<char>, b: Seq<char>)
    requires
        a == b,
    ensures
        spec_check_digit(a) == spec_check_digit(b),
{
}

/// Checksum value of one character per the fixed table, `None` for a
/// character outside it.
pub fn char_value(c: char) -> (r: Option<u32>)
    ensures
        r == spec_char_value(c),
{
    match c {
        'A' => Some(1),
        'B' => Some(2),
        'C' => Some(3),
        'D' => Some(4),
        'E' => Some(5),
        'F' => Some(6),
        'G' => Some(7),
        'H' => Some(8),
        'J' => Some(1),
        'K' => Some(2),
        'L' => Some(3),
        'M' => Some(4),
        'N' => Some(5),
        'P' => Some(7),
        'R' => Some(9),
        'S' => Some(2),
        'T' => Some(3),
        'U' => Some(4),
        'V' => Some(5),
        'W' => Some(6),
        'X' => Some(7),
        'Y' => Some(8),
        'Z' => Some(9),
        '0' => Some(0),
        '1' => Some(1),
        '2' => Some(2),
        '3' => Some(3),
        '4' => Some(4),
        '5' => Some(5),
        '6' => Some(6),
        '7' => Some(7),
        '8' => Some(8),
        '9' => Some(9),
        _ => None,
    }
}

/// Weight of a checksum position.
pub fn position_weight(i: usize) -> (r: u32)
    requires
        i < 17,
    ensures
        r == spec_weight(i as int),
{
    match i {
        0 => 8,
        1 => 7,
        2 => 6,
        3 => 5,
        4 => 4,
        5 => 3,
        6 => 2,
        7 => 10,
        8 => 0,
        9 => 9,
        10 => 8,
        11 => 7,
        12 => 6,
        13 => 5,
        14 => 4,
        15 => 3,
        _ => 2,
    }
}

/// Digit character of a remainder below 10.
pub fn digit_char(d: u32) -> (r: char)
    requires
        d < 10,
    ensures
        r == spec_digit_char(d as int),
{
    match d {
        0 => '0',
        1 => '1',
        2 => '2',
        3 => '3',
        4 => '4',
        5 => '5',
        6 => '6',
        7 => '7',
        8 => '8',
        _ => '9',
    }
}

/// The decimal digit characters of a non-negative integer, most
/// significant first, without leading zeros.
pub open spec fn spec_decimal(n: int) -> Seq<char>
    decreases n,
{
    if n < 10 {
        seq![spec_digit_char(n)]
    } else {
        spec_decimal(n / 10).push(spec_digit_char(n % 10))
    }
}

/// Renders a number in decimal.
pub fn u32_decimal(n: u32) -> (r: Vec<char>)
    ensures
        r@ == spec_decimal(n as int),
    decreases n,
{
    if n < 10 {
        let mut v: Vec<char> = Vec::new();
        v.push(digit_char(n));
        assert(v@ =~= spec_decimal(n as int));
        v
    } else {
        let mut v = u32_decimal(n / 10);
        v.push(digit_char(n % 10));
        v
    }
}

/// Check digit over a character buffer; the first 17 characters decide.
pub fn check_digit_chars(v: &Vec<char>) -> (r: Result<char, VinError>)
    ensures
        v@.len() < 17 ==> r == Err::<char, VinError>(VinError::InvalidLength),
        v@.len() >= 17 && spec_all_legal(v@) ==> r == Ok::<char, VinError>(spec_check_digit(v@)),
        v@.len() >= 17 && !spec_all_legal(v@) ==> r == Err::<char, VinError>(
            VinError::IllegalCharacter,
        ),
{
    if v.len() < 17 {
        return Err(VinError::InvalidLength);
    }
    let mut total: u32 = 0;
    let mut i: usize = 0;
    while i < 17
        invariant
            0 <= i <= 17,
            v@.len() >= 17,
            total == spec_weighted_sum(v@, i as int),
            total <= 90 * i,
            forall|j: int| 0 <= j < i ==> #[trigger] spec_char_value(v@[j]) is Some,
        decreases 17 - i,
    {
        let c = v[i];
        match char_value(c) {
            Some(value) => {
                let w = position_weight(i);
                assert(value <= 9 && w <= 10) by {
                    assert(spec_char_value(c) matches Some(x) ==> x <= 9);
                }
                total = total + value * w;
            },
            None => {
                assert(!spec_all_legal(v@));
                return Err(VinError::IllegalCharacter);
            },
        }
        i = i + 1;
    }
    let remain = total % 11;
    if remain == 10 {
        Ok('X')
    } else {
        Ok(digit_char(remain))
    }
}

/// Check digit of a string, as `check_digit_chars` over its characters.
pub fn check_digit(vin: &str) -> (r: Result<char, VinError>)
    ensures
        vin@.len() < 17 ==> r == Err::<char, VinError>(VinError::InvalidLength),
        vin@.len() >= 17 && spec_all_legal(vin@) ==> r == Ok::<char, VinError>(
            spec_check_digit(vin@),
        ),
        vin@.len() >= 17 && !spec_all_legal(vin@) ==> r == Err::<char, VinError>(
            VinError::IllegalCharacter,
        ),
{
    let n = vin.unicode_len();
    let mut chars: Vec<char> = Vec::new();
    let mut i: usize = 0;
    while i < n
        invariant
            0 <= i <= n,
            n == vin@.len(),
            chars@ =~= vin@.subrange(0, i as int),
        decreases n - i,
    {
        let c = vin.get_char(i);
        chars.push(c);
        i = i + 1;
    }
    assert(chars@ =~= vin@);
    check_digit_chars(&chars)
}

/// Whether a string is a valid VIN: exactly 17 characters whose index-8
/// character equals the recomputed check digit.
pub fn is_valid_vin(vin: &str) -> (r: bool)
    ensures
        r == spec_valid_vin(vin@),
{
    let n = vin.unicode_len();
    if n != 17 {
        return false;
    }
    match check_digit(vin) {
        Ok(c) => {
            let at8 = vin.get_char(8);
            c == at8
        },
        Err(_) => {
            assert(!spec_all_legal(vin@));
            false
        },
    }
}

} // verus!

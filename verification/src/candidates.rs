//! Candidate generator: the deterministic, ordered set of plausible VINs
//! for a serial number.  Only the manufacturer/model/drivetrain prefix is
//! unknown; the check digit is always derived, never guessed.

use vstd::prelude::*;
use crate::ports::string_from_chars;
use crate::serial::SerialNumber;
use crate::vin::{
    check_digit_chars, digit_char, spec_all_legal, spec_char_value, spec_check_digit,
    spec_digit_char, spec_valid_vin, spec_weight, spec_weighted_sum,
};
use crate::year::{spec_year_char, VinYear};

verus! {

/// The serial number zero-padded to six decimal digit characters.
pub open spec fn spec_pad6(n: int) -> Seq<char> {
    seq![
        spec_digit_char((n / 100000) % 10),
        spec_digit_char((n / 10000) % 10),
        spec_digit_char((n / 1000) % 10),
        spec_digit_char((n / 100) % 10),
        spec_digit_char((n / 10) % 10),
        spec_digit_char(n % 10),
    ]
}

/// Model code of the candidate at position `i` of the generated list.
pub open spec fn spec_model_code(i: int) -> char {
    if i == 0 || i == 1 { '2' }
    else if i == 2 || i == 3 { '3' }
    else if i == 4 || i == 5 { '5' }
    else { '6' }
}

/// Drivetrain code of the candidate at position `i` of the generated
/// list; '4' sorts before 'D'.
pub open spec fn spec_drive_code(i: int) -> char {
    if i % 2 == 0 { '4' } else { 'D' }
}

/// A candidate before its check digit is spliced in: the fixed
/// manufacturer/plant template around the model and drivetrain codes,
/// a placeholder at index 8, the year character, the plant letter 'G',
/// and the zero-padded serial.
pub open spec fn spec_candidate_base(serial: int, m: char, d: char) -> Seq<char> {
    seq!['5', 'X', 'Y', 'P', m, d, 'G', 'C', '0', spec_year_char(serial), 'G'] + spec_pad6(serial)
}

/// A finished candidate: the base with the computed check digit spliced
/// in at index 8.
pub open spec fn spec_candidate(serial: int, m: char, d: char) -> Seq<char> {
    let base = spec_candidate_base(serial, m, d);
    base.update(8, spec_check_digit(base))
}

/// The candidate at position `i` of the generated list.
pub open spec fn spec_candidate_at(serial: int, i: int) -> Seq<char> {
    spec_candidate(serial, spec_model_code(i), spec_drive_code(i))
}

/// Strict lexicographic order on equal-length character sequences.
pub open spec fn spec_lex_lt(a: Seq<char>, b: Seq<char>) -> bool {
    exists|k: int|
        0 <= k < a.len() && k < b.len() && (forall|j: int| 0 <= j < k ==> a[j] == b[j])
            && #[trigger] a[k] < #[trigger] b[k]
}

/// The zero-padded serial holds only decimal digit characters.
proof fn lemma_pad6_digits_legal(n: int)
    ensures
        forall|k: int|
            0 <= k < 6 ==> spec_char_value(#[trigger] spec_pad6(n)[k]) is Some,
{
    assert forall|k: int| 0 <= k < 6 implies spec_char_value(
        #[trigger] spec_pad6(n)[k],
    ) is Some by {
        let p = spec_pad6(n);
        assert(0 <= (n / 100000) % 10 < 10);
        assert(0 <= (n / 10000) % 10 < 10);
        assert(0 <= (n / 1000) % 10 < 10);
        assert(0 <= (n / 100) % 10 < 10);
        assert(0 <= (n / 10) % 10 < 10);
        assert(0 <= n % 10 < 10);
        assert(forall|d: int| 0 <= d < 10 ==> spec_char_value(#[trigger] spec_digit_char(d)) is Some);
    }
}

/// Two character sequences that agree everywhere but at index 8 have the
/// same weighted sum: position 8 carries weight 0.
pub proof fn lemma_checksum_ignores_slot8(s1: Seq<char>, s2: Seq<char>, n: int)
    requires
        0 <= n <= 17,
        s1.len() >= 17,
        s2.len() >= 17,
        forall|i: int| 0 <= i < 17 && i != 8 ==> s1[i] == s2[i],
    ensures
        spec_weighted_sum(s1, n) == spec_weighted_sum(s2, n),
    decreases n,
{
    if n > 0 {
        lemma_checksum_ignores_slot8(s1, s2, n - 1);
        if n - 1 == 8 {
            assert(spec_weight(8) == 0);
        }
    }
}

/// Splicing the check digit of the base into slot 8 yields a valid VIN,
/// for any serial that fits six digits and any legal model and
/// drivetrain codes.
pub proof fn lemma_candidate_valid(serial: int, m: char, d: char)
    requires
        0 <= serial <= 999999,
        spec_char_value(m) is Some,
        spec_char_value(d) is Some,
    ensures
        spec_valid_vin(spec_candidate(serial, m, d)),
{
    let base = spec_candidate_base(serial, m, d);
    let chk = spec_check_digit(base);
    let cand = spec_candidate(serial, m, d);
    assert(base.len() == 17);
    assert(cand.len() == 17);
    lemma_pad6_digits_legal(serial);
    assert forall|i: int| 0 <= i < 17 implies spec_char_value(#[trigger] cand[i]) is Some by {
        if i == 8 {
            let r = spec_weighted_sum(base, 17) % 11;
            assert(0 <= r < 11);
            assert(forall|v: int| 0 <= v < 10 ==> spec_char_value(
                #[trigger] spec_digit_char(v),
            ) is Some);
            assert(spec_char_value('X') is Some);
        } else if i < 11 {
            assert(cand[i] == base[i]);
        } else {
            assert(cand[i] == spec_pad6(serial)[i - 11]);
        }
    }
    lemma_checksum_ignores_slot8(base, cand, 17);
    assert(spec_check_digit(cand) == chk);
    assert(cand[8] == chk);
}

/// The serial number zero-padded to six digit characters.
pub fn pad6(serial: i32) -> (r: Vec<char>)
    requires
        0 <= serial <= 999999,
    ensures
        r@ == spec_pad6(serial as int),
{
    let u = serial as u32;
    let mut r: Vec<char> = Vec::new();
    r.push(digit_char((u / 100000) % 10));
    r.push(digit_char((u / 10000) % 10));
    r.push(digit_char((u / 1000) % 10));
    r.push(digit_char((u / 100) % 10));
    r.push(digit_char((u / 10) % 10));
    r.push(digit_char(u % 10));
    assert(r@ =~= spec_pad6(serial as int));
    r
}

/// Builds the candidate for one model/drivetrain pair: the fixed prefix,
/// a placeholder in the check-digit slot, the year character, the plant
/// letter, the padded serial, and then the derived check digit spliced
/// into slot 8.
fn build_candidate(serial: SerialNumber, m: char, d: char) -> (r: Vec<char>)
    requires
        0 <= serial.0 <= 999999,
        spec_char_value(m) is Some,
        spec_char_value(d) is Some,
    ensures
        r@ == spec_candidate(serial.0 as int, m, d),
        spec_valid_vin(r@),
{
    let year = match VinYear::from_serial(serial) {
        Ok(y) => y.vin_char,
        Err(_) => {
            proof {
                assert(false);
            }
            ' '
        },
    };
    let mut v: Vec<char> = Vec::new();
    v.push('5');
    v.push('X');
    v.push('Y');
    v.push('P');
    v.push(m);
    v.push(d);
    v.push('G');
    v.push('C');
    v.push('0');
    v.push(year);
    v.push('G');
    let mut digits = pad6(serial.0);
    v.append(&mut digits);
    assert(v@ =~= spec_candidate_base(serial.0 as int, m, d));
    proof {
        lemma_pad6_digits_legal(serial.0 as int);
        assert forall|i: int| 0 <= i < 17 implies spec_char_value(#[trigger] v@[i]) is Some by {
            if i >= 11 {
                assert(v@[i] == spec_pad6(serial.0 as int)[i - 11]);
            }
        }
        assert(spec_all_legal(v@));
    }
    let chk = match check_digit_chars(&v) {
        Ok(c) => c,
        Err(_) => {
            proof {
                assert(false);
            }
            ' '
        },
    };
    v[8] = chk;
    proof {
        lemma_candidate_valid(serial.0 as int, m, d);
    }
    v
}

/// Model and drivetrain codes of the candidate at list position `i`.
fn model_drive(i: usize) -> (r: (char, char))
    requires
        i < 8,
    ensures
        r.0 == spec_model_code(i as int),
        r.1 == spec_drive_code(i as int),
        spec_char_value(r.0) is Some,
        spec_char_value(r.1) is Some,
{
    let m = match i {
        0 | 1 => '2',
        2 | 3 => '3',
        4 | 5 => '5',
        _ => '6',
    };
    let d = if i % 2 == 0 {
        '4'
    } else {
        'D'
    };
    (m, d)
}

/// The ordered, deduplicated set of plausible VINs for a serial number:
/// one valid candidate per configured model/drivetrain prefix, in
/// ascending lexicographic order.
pub fn get_possible_vins_from_serial(serial: &SerialNumber) -> (r: Vec<String>)
    requires
        0 <= serial.0 <= 999999,
    ensures
        r@.len() == 8,
        forall|i: int| 0 <= i < 8 ==> (#[trigger] r@[i])@ == spec_candidate_at(
            serial.0 as int,
            i,
        ),
        forall|i: int| 0 <= i < 8 ==> spec_valid_vin((#[trigger] r@[i])@),
        forall|i: int, j: int| 0 <= i < j < 8 ==> (#[trigger] r@[i])@ != (#[trigger] r@[j])@,
        forall|i: int| 0 <= i < 7 ==> spec_lex_lt((#[trigger] r@[i])@, r@[i + 1]@),
{
    let mut r: Vec<String> = Vec::new();
    let mut i: usize = 0;
    while i < 8
        invariant
            0 <= i <= 8,
            0 <= serial.0 <= 999999,
            r@.len() == i,
            forall|j: int| 0 <= j < i ==> (#[trigger] r@[j])@ == spec_candidate_at(
                serial.0 as int,
                j,
            ),
        decreases 8 - i,
    {
        let (m, d) = model_drive(i);
        let cand = build_candidate(*serial, m, d);
        let s = string_from_chars(&cand);
        r.push(s);
        i = i + 1;
    }
    proof {
        assert forall|i: int| 0 <= i < 8 implies spec_valid_vin((#[trigger] r@[i])@) by {
            lemma_candidate_valid(serial.0 as int, spec_model_code(i), spec_drive_code(i));
        }
        assert forall|i: int, j: int| 0 <= i < j < 8 implies (#[trigger] r@[i])@ != (
        #[trigger] r@[j])@ by {
            lemma_candidates_differ(serial.0 as int, i, j);
        }
        assert forall|i: int| 0 <= i < 7 implies spec_lex_lt(
            (#[trigger] r@[i])@,
            r@[i + 1]@,
        ) by {
            lemma_candidates_ascending(serial.0 as int, i);
        }
    }
    r
}

/// Every candidate is 17 characters and ends with the year character,
/// the plant letter 'G', and the six zero-padded serial digits.
pub proof fn lemma_candidate_shape(serial: int, i: int)
    requires
        0 <= serial <= 999999,
        0 <= i < 8,
    ensures
        spec_candidate_at(serial, i).len() == 17,
        spec_candidate_at(serial, i)[9] == spec_year_char(serial),
        spec_candidate_at(serial, i)[10] == 'G',
        spec_candidate_at(serial, i).subrange(11, 17) == spec_pad6(serial),
{
    let c = spec_candidate_at(serial, i);
    assert(c.subrange(11, 17) =~= spec_pad6(serial));
}

/// Every member of the candidate set passes VIN validation, for every
/// serial number that fits the six VIN digits.
pub proof fn lemma_candidates_all_valid(serial: int, i: int)
    requires
        0 <= serial <= 999999,
        0 <= i < 8,
    ensures
        spec_valid_vin(spec_candidate_at(serial, i)),
{
    lemma_candidate_valid(serial, spec_model_code(i), spec_drive_code(i));
}

/// A run of non-whitespace characters is its own trailing token.
proof fn lemma_token_run_all_nonspace(s: Seq<char>)
    requires
        forall|i: int| 0 <= i < s.len() ==> !crate::serial::spec_is_space(#[trigger] s[i]),
    ensures
        crate::serial::spec_token_run(s) == s,
    decreases s.len(),
{
    if s.len() > 0 {
        lemma_token_run_all_nonspace(s.drop_last());
        assert(crate::serial::spec_token_run(s) =~= s);
    }
}

/// Reading the six padded digits back yields the serial number.
proof fn lemma_pad6_value(n: int)
    requires
        0 <= n <= 999999,
    ensures
        crate::serial::spec_digits_value(spec_pad6(n)) == n,
{
    let p = spec_pad6(n);
    assert(forall|d: int|
        0 <= d < 10 ==> crate::serial::spec_digit_value(#[trigger] spec_digit_char(d)) == d);
    assert(p.drop_last() =~= p.subrange(0, 5));
    assert(p.subrange(0, 5).drop_last() =~= p.subrange(0, 4));
    assert(p.subrange(0, 4).drop_last() =~= p.subrange(0, 3));
    assert(p.subrange(0, 3).drop_last() =~= p.subrange(0, 2));
    assert(p.subrange(0, 2).drop_last() =~= p.subrange(0, 1));
    assert(p.subrange(0, 1).drop_last() =~= p.subrange(0, 0));
    vstd::arithmetic::div_mod::lemma_fundamental_div_mod(n, 10);
    vstd::arithmetic::div_mod::lemma_fundamental_div_mod(n / 10, 10);
    vstd::arithmetic::div_mod::lemma_fundamental_div_mod(n / 100, 10);
    vstd::arithmetic::div_mod::lemma_fundamental_div_mod(n / 1000, 10);
    vstd::arithmetic::div_mod::lemma_fundamental_div_mod(n / 10000, 10);
    vstd::arithmetic::div_mod::lemma_div_denominator(n, 10, 10);
    vstd::arithmetic::div_mod::lemma_div_denominator(n, 100, 10);
    vstd::arithmetic::div_mod::lemma_div_denominator(n, 1000, 10);
    vstd::arithmetic::div_mod::lemma_div_denominator(n, 10000, 10);
    assert(n / 100000 < 10);
    assert((n / 100000) % 10 == n / 100000) by {
        vstd::arithmetic::div_mod::lemma_small_mod((n / 100000) as nat, 10);
    }
    assert(p[0] == spec_digit_char((n / 100000) % 10));
    assert(p[1] == spec_digit_char((n / 10000) % 10));
    assert(p[2] == spec_digit_char((n / 1000) % 10));
    assert(p[3] == spec_digit_char((n / 100) % 10));
    assert(p[4] == spec_digit_char((n / 10) % 10));
    assert(p[5] == spec_digit_char(n % 10));
    assert(p.subrange(0, 1).last() == p[0]);
    assert(p.subrange(0, 2).last() == p[1]);
    assert(p.subrange(0, 3).last() == p[2]);
    assert(p.subrange(0, 4).last() == p[3]);
    assert(p.subrange(0, 5).last() == p[4]);
    assert(p.last() == p[5]);
    assert(crate::serial::spec_digits_value(p.subrange(0, 0)) == 0);
    assert(crate::serial::spec_digits_value(p.subrange(0, 1)) == n / 100000);
    assert(crate::serial::spec_digits_value(p.subrange(0, 2)) == n / 10000);
    assert(crate::serial::spec_digits_value(p.subrange(0, 3)) == n / 1000);
    assert(crate::serial::spec_digits_value(p.subrange(0, 4)) == n / 100);
    assert(crate::serial::spec_digits_value(p.subrange(0, 5)) == n / 10);
}

/// Round trip between the generator and the serial parser: the trailing
/// six characters of every candidate parse back to the serial number
/// they were generated from.
pub proof fn lemma_candidate_serial_round_trip(serial: int, i: int)
    requires
        0 <= serial <= 999999,
        0 <= i < 8,
    ensures
        ({
            let tail = spec_candidate_at(serial, i).subrange(11, 17);
            &&& crate::serial::spec_token_well_formed(crate::serial::spec_last_token(tail))
            &&& crate::serial::spec_token_value(crate::serial::spec_last_token(tail)) == serial
        }),
{
    lemma_candidate_shape(serial, i);
    let tail = spec_candidate_at(serial, i).subrange(11, 17);
    let p = spec_pad6(serial);
    assert(tail == p);
    assert(forall|d: int|
        0 <= d < 10 ==> crate::serial::spec_is_digit(#[trigger] spec_digit_char(d)));
    assert(forall|d: int|
        0 <= d < 10 ==> !crate::serial::spec_is_space(#[trigger] spec_digit_char(d)));
    assert(forall|k: int| 0 <= k < 6 ==> !crate::serial::spec_is_space(#[trigger] p[k]));
    lemma_token_run_all_nonspace(p);
    assert(crate::serial::spec_last_token(p) == p);
    assert(forall|k: int| 0 <= k < 6 ==> crate::serial::spec_is_digit(#[trigger] p[k]));
    assert(p[0] != '+' && p[0] != '-');
    assert(crate::serial::spec_token_digits(p) == p);
    lemma_pad6_value(serial);
}

/// Distinct list positions give distinct candidates: they differ at the
/// model slot (index 4) or the drivetrain slot (index 5).
proof fn lemma_candidates_differ(serial: int, i: int, j: int)
    requires
        0 <= i < j < 8,
    ensures
        spec_candidate_at(serial, i) != spec_candidate_at(serial, j),
{
    let a = spec_candidate_at(serial, i);
    let b = spec_candidate_at(serial, j);
    if spec_model_code(i) == spec_model_code(j) {
        assert(a[5] == spec_drive_code(i));
        assert(b[5] == spec_drive_code(j));
        assert(spec_drive_code(i) != spec_drive_code(j));
    } else {
        assert(a[4] == spec_model_code(i));
        assert(b[4] == spec_model_code(j));
    }
}

/// Adjacent candidates in the generated list ascend lexicographically:
/// the first difference sits at the model or drivetrain slot, and those
/// codes were laid out in ascending character order.
proof fn lemma_candidates_ascending(serial: int, i: int)
    requires
        0 <= i < 7,
    ensures
        spec_lex_lt(spec_candidate_at(serial, i), spec_candidate_at(serial, i + 1)),
{
    let a = spec_candidate_at(serial, i);
    let b = spec_candidate_at(serial, i + 1);
    if spec_model_code(i) == spec_model_code(i + 1) {
        assert(forall|j: int| 0 <= j < 5 ==> a[j] == b[j]);
        assert(a[5] == spec_drive_code(i) && b[5] == spec_drive_code(i + 1));
        assert(a[5] == '4' && b[5] == 'D');
        assert(0 <= 5 < a.len() && 5 < b.len() && (forall|j: int| 0 <= j < 5 ==> a[j] == b[j])
            && a[5] < b[5]);
    } else {
        assert(forall|j: int| 0 <= j < 4 ==> a[j] == b[j]);
        assert(a[4] == spec_model_code(i) && b[4] == spec_model_code(i + 1));
        assert(a[4] < b[4]);
        assert(0 <= 4 < a.len() && 4 < b.len() && (forall|j: int| 0 <= j < 4 ==> a[j] == b[j])
            && a[4] < b[4]);
    }
}

} // verus!

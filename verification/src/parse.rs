//! Document parser: locates fixed anchor labels by substring search in
//! document order, slices the text between consecutive anchors for each
//! field, and assembles a vehicle record.  An anchor that is not found
//! defaults its position to the start of the document, which is
//! reproduced as-is; slices whose bounds come out inconsistent yield no
//! record instead of a panic.

use vstd::prelude::*;
use crate::car::{Car, CarView, Vin};
use crate::ports::string_from_chars;
use crate::serial::{
    spec_is_space, spec_last_token, spec_token_value, spec_token_well_formed, SerialNumber,
};
use crate::vin::{spec_decimal, u32_decimal};
use crate::year::{spec_year_of, VinYear};

verus! {

/// The pattern occurs in `t` at position `i`.
pub open spec fn spec_match_at(t: Seq<char>, p: Seq<char>, i: int) -> bool {
    &&& 0 <= i
    &&& i + p.len() <= t.len()
    &&& forall|k: int| 0 <= k < p.len() ==> t[i + k] == p[k]
}

/// The first occurrence of `p` in `t` at or after `i`.
pub open spec fn spec_find_from(t: Seq<char>, p: Seq<char>, i: int) -> Option<int>
    decreases t.len() - i,
{
    if i < 0 || i + p.len() > t.len() {
        None
    } else if spec_match_at(t, p, i) {
        Some(i)
    } else {
        spec_find_from(t, p, i + 1)
    }
}

/// The first occurrence of `p` in `t`.
pub open spec fn spec_find(t: Seq<char>, p: Seq<char>) -> Option<int> {
    spec_find_from(t, p, 0)
}

/// The first occurrence, or the start of the document when the pattern
/// is absent.
pub open spec fn spec_find_or_zero(t: Seq<char>, p: Seq<char>) -> int {
    match spec_find(t, p) {
        Some(i) => i,
        None => 0,
    }
}

/// A found occurrence lies within the text.
pub proof fn lemma_find_bound(t: Seq<char>, p: Seq<char>, i: int)
    requires
        spec_find_from(t, p, i) is Some,
    ensures
        i <= spec_find_from(t, p, i).unwrap(),
        spec_find_from(t, p, i).unwrap() + p.len() <= t.len(),
    decreases t.len() - i,
{
    if !(i < 0 || i + p.len() > t.len()) && !spec_match_at(t, p, i) {
        lemma_find_bound(t, p, i + 1);
    }
}

/// The anchor position never exceeds the text length.
pub proof fn lemma_find_or_zero_bound(t: Seq<char>, p: Seq<char>)
    ensures
        0 <= spec_find_or_zero(t, p) <= t.len(),
{
    if spec_find(t, p) is Some {
        lemma_find_bound(t, p, 0);
    }
}

/// `s` with trailing whitespace removed.
pub open spec fn spec_trim_end(s: Seq<char>) -> Seq<char>
    decreases s.len(),
{
    if s.len() > 0 && spec_is_space(s.last()) {
        spec_trim_end(s.drop_last())
    } else {
        s
    }
}

/// `s` with leading whitespace removed.
pub open spec fn spec_trim_start(s: Seq<char>) -> Seq<char>
    decreases s.len(),
{
    if s.len() > 0 && spec_is_space(s.first()) {
        spec_trim_start(s.drop_first())
    } else {
        s
    }
}

/// `s` with whitespace removed from both ends.
pub open spec fn spec_trim(s: Seq<char>) -> Seq<char> {
    spec_trim_start(spec_trim_end(s))
}

/// Whether the character at `i` is whitespace.
fn space_at(s: &str, i: usize) -> (r: bool)
    requires
        i < s@.len(),
    ensures
        r == spec_is_space(s@[i as int]),
{
    let c = s.get_char(i);
    crate::serial::is_space(c)
}

/// Whether the pattern occurs at position `i` of the text.
fn match_at(text: &str, pat: &str, i: usize) -> (r: bool)
    requires
        i + pat@.len() <= text@.len(),
        text@.len() <= usize::MAX,
    ensures
        r == spec_match_at(text@, pat@, i as int),
{
    let m = pat.unicode_len();
    let mut k: usize = 0;
    while k < m
        invariant
            0 <= k <= m,
            m == pat@.len(),
            i + m <= text@.len(),
            text@.len() <= usize::MAX,
            forall|j: int| 0 <= j < k ==> text@[i + j] == pat@[j],
        decreases m - k,
    {
        let a = text.get_char(i + k);
        let b = pat.get_char(k);
        if a != b {
            assert(text@[i + k] != pat@[k as int]);
            return false;
        }
        k = k + 1;
    }
    true
}

/// The position of the first occurrence of `pat` in `text`.
pub fn find_sub(text: &str, pat: &str) -> (r: Option<usize>)
    ensures
        match r {
            Some(i) => spec_find(text@, pat@) == Some(i as int),
            None => spec_find(text@, pat@) is None,
        },
{
    let n = text.unicode_len();
    let m = pat.unicode_len();
    let mut i: usize = 0;
    while m <= n && i <= n - m
        invariant
            0 <= i,
            i <= n + 1,
            n == text@.len(),
            m == pat@.len(),
            spec_find(text@, pat@) == spec_find_from(text@, pat@, i as int),
        decreases n - i,
    {
        if match_at(text, pat, i) {
            return Some(i);
        }
        i = i + 1;
    }
    proof {
        assert(i as int + pat@.len() > text@.len());
    }
    None
}

/// The anchor position used for slicing: the first occurrence, or the
/// start of the document when the label is absent.
pub fn find_or_zero(text: &str, pat: &str) -> (r: usize)
    ensures
        r == spec_find_or_zero(text@, pat@),
        r <= text@.len(),
{
    proof {
        lemma_find_or_zero_bound(text@, pat@);
    }
    match find_sub(text, pat) {
        Some(i) => i,
        None => 0,
    }
}

/// The characters of `text` between `a` and `b`, with whitespace removed
/// from both ends.
pub fn trim_range(text: &str, a: usize, b: usize) -> (r: String)
    requires
        a <= b,
        b <= text@.len(),
    ensures
        r@ == spec_trim(text@.subrange(a as int, b as int)),
{
    let mut hi: usize = b;
    while hi > a && space_at(text, hi - 1)
        invariant
            a <= hi <= b,
            b <= text@.len(),
            spec_trim_end(text@.subrange(a as int, b as int)) == spec_trim_end(
                text@.subrange(a as int, hi as int),
            ),
        decreases hi,
    {
        proof {
            let pre = text@.subrange(a as int, hi as int);
            assert(pre.last() == text@[hi - 1]);
            assert(pre.drop_last() =~= text@.subrange(a as int, hi - 1));
        }
        hi = hi - 1;
    }
    proof {
        let cur = text@.subrange(a as int, hi as int);
        if hi > a {
            assert(cur.last() == text@[hi - 1]);
        }
        assert(spec_trim_end(cur) == cur);
    }
    let mut lo: usize = a;
    while lo < hi && space_at(text, lo)
        invariant
            a <= lo <= hi,
            hi <= text@.len(),
            spec_trim_end(text@.subrange(a as int, b as int)) == text@.subrange(
                a as int,
                hi as int,
            ),
            spec_trim_start(text@.subrange(a as int, hi as int)) == spec_trim_start(
                text@.subrange(lo as int, hi as int),
            ),
        decreases hi - lo,
    {
        proof {
            let cur = text@.subrange(lo as int, hi as int);
            assert(cur.first() == text@[lo as int]);
            assert(cur.drop_first() =~= text@.subrange(lo + 1, hi as int));
        }
        lo = lo + 1;
    }
    proof {
        let cur = text@.subrange(lo as int, hi as int);
        if lo < hi {
            assert(cur.first() == text@[lo as int]);
        }
        assert(spec_trim_start(cur) == cur);
    }
    let piece = text.substring_char(lo, hi);
    piece.to_owned()
}

/// The option code inside the model/option region: the trimmed text
/// between the first and second '/', or after the first '/' when there
/// is no second, or empty when there is none at all.
pub open spec fn spec_opt_code(region: Seq<char>) -> Seq<char> {
    match spec_find(region, "/"@) {
        None => Seq::<char>::empty(),
        Some(p1) => {
            let rest = region.subrange(p1 + 1, region.len() as int);
            match spec_find(rest, "/"@) {
                None => spec_trim(rest),
                Some(p2) => spec_trim(rest.subrange(0, p2)),
            }
        },
    }
}

/// Extracts the option code from the model/option region.
fn opt_code_of(region: &str) -> (r: String)
    ensures
        r@ == spec_opt_code(region@),
{
    let rlen = region.unicode_len();
    match find_sub(region, "/") {
        None => {
            let r = String::new();
            assert(r@ =~= Seq::<char>::empty());
            r
        },
        Some(p1) => {
            proof {
                lemma_find_bound(region@, "/"@, 0);
                reveal_strlit("/");
            }
            let rest = region.substring_char(p1 + 1, rlen);
            let restlen = rest.unicode_len();
            match find_sub(rest, "/") {
                None => {
                    let r = trim_range(rest, 0, restlen);
                    proof {
                        assert(rest@.subrange(0, restlen as int) =~= rest@);
                    }
                    r
                },
                Some(p2) => {
                    proof {
                        lemma_find_bound(rest@, "/"@, 0);
                    }
                    trim_range(rest, 0, p2)
                },
            }
        },
    }
}

/// Whether the anchor slices of a document text are consistent, so that
/// a record can be assembled from it: each field slice must end at or
/// after it starts, the ship-to slice must fit in the text, the sold-to
/// value must carry at least the five dealer-code characters, and the
/// VIN value must carry a parsable serial in its tail.
pub open spec fn spec_parse_ok(t: Seq<char>) -> bool {
    let im = spec_find_or_zero(t, "MODEL/OPT.CODE"@);
    let ie = spec_find_or_zero(t, "EXTERIOR COLOR"@);
    let ii = spec_find_or_zero(t, "INTERIOR COLOR"@);
    let iv = spec_find_or_zero(t, "VEHICLE ID NUMBER"@);
    let ip = spec_find_or_zero(t, "PORT OF ENTRY"@);
    let isd = spec_find_or_zero(t, "Sold To"@);
    let ish = spec_find_or_zero(t, "Ship To"@);
    &&& im + 15 <= ie
    &&& ie + 15 <= ii
    &&& ii + 15 <= iv
    &&& iv + 18 <= ip
    &&& isd + 9 <= ish
    &&& ish + 14 <= t.len()
    &&& spec_trim(t.subrange(isd + 9, ish)).len() >= 5
    &&& {
        let vinv = spec_trim(t.subrange(iv + 18, ip));
        &&& vinv.len() >= 11
        &&& spec_token_well_formed(spec_last_token(vinv.subrange(11, vinv.len() as int)))
        &&& i32::MIN <= spec_token_value(
            spec_last_token(vinv.subrange(11, vinv.len() as int)),
        ) <= i32::MAX
    }
}

/// The record assembled from a document text whose slices are
/// consistent: each field is the trimmed text between its anchor and the
/// next, the serial number is parsed from the VIN value's tail, and the
/// model year comes from the year table, not the document.
pub open spec fn spec_parsed_car(t: Seq<char>, created: Seq<char>) -> CarView {
    let im = spec_find_or_zero(t, "MODEL/OPT.CODE"@);
    let ie = spec_find_or_zero(t, "EXTERIOR COLOR"@);
    let ii = spec_find_or_zero(t, "INTERIOR COLOR"@);
    let iv = spec_find_or_zero(t, "VEHICLE ID NUMBER"@);
    let ip = spec_find_or_zero(t, "PORT OF ENTRY"@);
    let isd = spec_find_or_zero(t, "Sold To"@);
    let ish = spec_find_or_zero(t, "Ship To"@);
    let vinv = spec_trim(t.subrange(iv + 18, ip));
    let serial = spec_token_value(spec_last_token(vinv.subrange(11, vinv.len() as int)));
    CarView {
        id: None,
        vin: vinv,
        ext_color: spec_trim(t.subrange(ie + 15, ii)),
        int_color: spec_trim(t.subrange(ii + 15, iv)),
        car_model: spec_trim(t.subrange(0, im)),
        opt_code: spec_opt_code(t.subrange(im + 15, ie)),
        ship_to: spec_trim(t.subrange(ish + 9, ish + 14)),
        sold_to: spec_trim(t.subrange(isd + 9, ish)).subrange(0, 5),
        created_date: created,
        serial_number: serial,
        model_year: spec_decimal(spec_year_of(serial) as int),
    }
}

/// Parses a document text into a record, or nothing where the anchor
/// slices come out inconsistent.
pub fn car_from_text(text: &str, created_date: String) -> (r: Option<Car>)
    ensures
        r is Some <==> spec_parse_ok(text@),
        r matches Some(c) ==> c@ == spec_parsed_car(text@, created_date@),
{
    proof {
        reveal_strlit("MODEL/OPT.CODE");
        reveal_strlit("EXTERIOR COLOR");
        reveal_strlit("INTERIOR COLOR");
        reveal_strlit("VEHICLE ID NUMBER");
        reveal_strlit("PORT OF ENTRY");
        reveal_strlit("Sold To");
        reveal_strlit("Ship To");
    }
    let n = text.unicode_len();
    let im = find_or_zero(text, "MODEL/OPT.CODE");
    let ie = find_or_zero(text, "EXTERIOR COLOR");
    let ii = find_or_zero(text, "INTERIOR COLOR");
    let iv = find_or_zero(text, "VEHICLE ID NUMBER");
    let ip = find_or_zero(text, "PORT OF ENTRY");
    let isd = find_or_zero(text, "Sold To");
    let ish = find_or_zero(text, "Ship To");
    if !(ie >= 15 && im <= ie - 15) {
        return None;
    }
    if !(ii >= 15 && ie <= ii - 15) {
        return None;
    }
    if !(iv >= 15 && ii <= iv - 15) {
        return None;
    }
    if !(ip >= 18 && iv <= ip - 18) {
        return None;
    }
    if !(ish >= 9 && isd <= ish - 9) {
        return None;
    }
    if !(n >= 14 && ish <= n - 14) {
        return None;
    }
    let car_model = trim_range(text, 0, im);
    let region = text.substring_char(im + 15, ie);
    let opt_code = opt_code_of(region);
    let ext_color = trim_range(text, ie + 15, ii);
    let int_color = trim_range(text, ii + 15, iv);
    let vin_value = trim_range(text, iv + 18, ip);
    let sold_value = trim_range(text, isd + 9, ish);
    let ship_to = trim_range(text, ish + 9, ish + 14);
    let vlen = vin_value.as_str().unicode_len();
    if vlen < 11 {
        return None;
    }
    let tail = vin_value.as_str().substring_char(11, vlen);
    let serial = match SerialNumber::from_str(tail) {
        Ok(sn) => sn,
        Err(_) => {
            return None;
        },
    };
    let slen = sold_value.as_str().unicode_len();
    if slen < 5 {
        return None;
    }
    let sold_to = sold_value.as_str().substring_char(0, 5).to_owned();
    let year = match VinYear::from_serial(serial) {
        Ok(y) => y,
        Err(_) => {
            proof {
                assert(false);
            }
            return None;
        },
    };
    let year_chars = u32_decimal(year.year);
    let model_year = string_from_chars(&year_chars);
    let car = Car::new_at(
        Vin(vin_value),
        ext_color,
        int_color,
        car_model,
        opt_code,
        ship_to,
        sold_to,
        created_date,
        serial,
        model_year,
    );
    proof {
        assert(sold_to@ =~= spec_trim(text@.subrange(isd + 9, ish as int)).subrange(0, 5));
    }
    Some(car)
}

} // verus!

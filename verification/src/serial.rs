//! Serial numbers: the manufacturer-assigned integer embedded in a VIN's
//! final digits, parsed from the trailing whitespace-delimited token of a
//! string or taken directly.

use vstd::prelude::*;

verus! {

/// A manufacturer-assigned serial number.
#[derive(Debug, Clone, Copy, PartialEq, Eq, Hash, Structural)]
pub struct SerialNumber(pub i32);

/// Why a string failed to parse as a serial number.
#[derive(Debug, Clone, Copy, PartialEq, Eq, Structural)]
pub enum SerialNumberParseError {
    /// The string holds no whitespace-delimited token.
    NoLastElement,
    /// The trailing token holds a character that is no decimal digit
    /// (after an optional leading sign), or nothing after the sign.
    InvalidDigit,
    /// The trailing token names an integer outside the 32-bit range.
    Overflow,
}

/// Whitespace for token splitting: the characters with the Unicode
/// White_Space property.
pub open spec fn spec_is_space(c: char) -> bool {
    ||| c == '\u{9}'
    ||| c == '\u{a}'
    ||| c == '\u{b}'
    ||| c == '\u{c}'
    ||| c == '\u{d}'
    ||| c == ' '
    ||| c == '\u{85}'
    ||| c == '\u{a0}'
    ||| c == '\u{1680}'
    ||| c == '\u{2000}'
    ||| c == '\u{2001}'
    ||| c == '\u{2002}'
    ||| c == '\u{2003}'
    ||| c == '\u{2004}'
    ||| c == '\u{2005}'
    ||| c == '\u{2006}'
    ||| c == '\u{2007}'
    ||| c == '\u{2008}'
    ||| c == '\u{2009}'
    ||| c == '\u{200a}'
    ||| c == '\u{2028}'
    ||| c == '\u{2029}'
    ||| c == '\u{202f}'
    ||| c == '\u{205f}'
    ||| c == '\u{3000}'
}

/// The maximal run of non-whitespace characters at the end of `s`.
pub open spec fn spec_token_run(s: Seq<char>) -> Seq<char>
    decreases s.len(),
{
    if s.len() == 0 {
        Seq::<char>::empty()
    } else if spec_is_space(s.last()) {
        Seq::<char>::empty()
    } else {
        spec_token_run(s.drop_last()).push(s.last())
    }
}

/// The last whitespace-delimited token of `s`: trailing whitespace is
/// dropped, then the trailing run of non-whitespace is taken.  Empty when
/// `s` holds only whitespace.
pub open spec fn spec_last_token(s: Seq<char>) -> Seq<char>
    decreases s.len(),
{
    if s.len() == 0 {
        Seq::<char>::empty()
    } else if spec_is_space(s.last()) {
        spec_last_token(s.drop_last())
    } else {
        spec_token_run(s)
    }
}

/// Whether `c` is a decimal digit.
pub open spec fn spec_is_digit(c: char) -> bool {
    '0' <= c <= '9'
}

/// The value of a decimal digit character.
pub open spec fn spec_digit_value(c: char) -> int {
    c as int - '0' as int
}

/// Value of a sequence of digit characters, most significant first.
pub open spec fn spec_digits_value(s: Seq<char>) -> int
    decreases s.len(),
{
    if s.len() == 0 {
        0
    } else {
        10 * spec_digits_value(s.drop_last()) + spec_digit_value(s.last())
    }
}

pub open spec fn spec_all_digits(s: Seq<char>) -> bool {
    forall|i: int| 0 <= i < s.len() ==> spec_is_digit(#[trigger] s[i])
}

/// The digits of a token after its optional leading sign.
pub open spec fn spec_token_digits(t: Seq<char>) -> Seq<char> {
    if t.len() > 0 && (t[0] == '+' || t[0] == '-') {
        t.subrange(1, t.len() as int)
    } else {
        t
    }
}

/// Whether the token is a well-formed integer: an optional sign followed
/// by at least one digit, and nothing else.
pub open spec fn spec_token_well_formed(t: Seq<char>) -> bool {
    t.len() > 0 && spec_token_digits(t).len() > 0 && spec_all_digits(spec_token_digits(t))
}

/// The signed value of a well-formed token.
pub open spec fn spec_token_value(t: Seq<char>) -> int {
    if t.len() > 0 && t[0] == '-' {
        -spec_digits_value(spec_token_digits(t))
    } else {
        spec_digits_value(spec_token_digits(t))
    }
}

/// Once a digit prefix exceeds a positive bound, the whole digit string
/// does too.
proof fn lemma_digits_value_grows(s: Seq<char>, n: int, bound: int)
    requires
        0 <= n <= s.len(),
        bound >= 1,
        spec_all_digits(s),
        spec_digits_value(s.subrange(0, n)) > bound,
    ensures
        spec_digits_value(s) > bound,
    decreases s.len() - n,
{
    if n == s.len() {
        assert(s.subrange(0, n) =~= s);
    } else {
        let p = s.subrange(0, n + 1);
        assert(p.drop_last() =~= s.subrange(0, n));
        assert(spec_is_digit(s[n]));
        assert(spec_digit_value(p.last()) >= 0);
        assert(spec_digits_value(p) == 10 * spec_digits_value(s.subrange(0, n))
            + spec_digit_value(p.last()));
        lemma_digits_value_grows(s, n + 1, bound);
    }
}

/// Extending an all-digit sequence by one digit keeps it all digits.
proof fn lemma_all_digits_push(q: Seq<char>)
    requires
        q.len() > 0,
        spec_all_digits(q.drop_last()),
        spec_is_digit(q.last()),
    ensures
        spec_all_digits(q),
{
    assert forall|j: int| 0 <= j < q.len() implies spec_is_digit(#[trigger] q[j]) by {
        if j < q.len() - 1 {
            assert(q.drop_last()[j] == q[j]);
            assert(spec_is_digit(q.drop_last()[j]));
        }
    }
}

impl SerialNumber {
    /// The serial number embedded in a VIN: its characters from index
    /// 11 on, parsed as a decimal integer.
    pub fn from_vin(vin: &crate::car::Vin) -> (r: Result<SerialNumber, SerialNumberParseError>)
        requires
            vin.0@.len() >= 11,
        ensures
            match r {
                Ok(sn) => spec_token_well_formed(
                    spec_last_token(vin.0@.subrange(11, vin.0@.len() as int)),
                ) && sn.0 == spec_token_value(
                    spec_last_token(vin.0@.subrange(11, vin.0@.len() as int)),
                ),
                Err(SerialNumberParseError::NoLastElement) => spec_last_token(
                    vin.0@.subrange(11, vin.0@.len() as int),
                ).len() == 0,
                Err(SerialNumberParseError::InvalidDigit) => spec_last_token(
                    vin.0@.subrange(11, vin.0@.len() as int),
                ).len() > 0 && !spec_token_well_formed(
                    spec_last_token(vin.0@.subrange(11, vin.0@.len() as int)),
                ),
                Err(SerialNumberParseError::Overflow) => spec_token_well_formed(
                    spec_last_token(vin.0@.subrange(11, vin.0@.len() as int)),
                ) && !(i32::MIN <= spec_token_value(
                    spec_last_token(vin.0@.subrange(11, vin.0@.len() as int)),
                ) <= i32::MAX),
            },
    {
        let n = vin.0.as_str().unicode_len();
        let tail = vin.0.as_str().substring_char(11, n);
        SerialNumber::from_str(tail)
    }
}

/// Whitespace test for token splitting.
pub fn is_space(c: char) -> (r: bool)
    ensures
        r == spec_is_space(c),
{
    match c {
        '\u{9}' | '\u{a}' | '\u{b}' | '\u{c}' | '\u{d}' | ' ' | '\u{85}' | '\u{a0}'
        | '\u{1680}' | '\u{2000}' | '\u{2001}' | '\u{2002}' | '\u{2003}' | '\u{2004}'
        | '\u{2005}' | '\u{2006}' | '\u{2007}' | '\u{2008}' | '\u{2009}' | '\u{200a}'
        | '\u{2028}' | '\u{2029}' | '\u{202f}' | '\u{205f}' | '\u{3000}' => true,
        _ => false,
    }
}

/// Whether the character at `i` is whitespace; guards `get_char`.
fn space_at(s: &str, i: usize) -> (r: bool)
    requires
        i < s@.len(),
    ensures
        r == spec_is_space(s@[i as int]),
{
    let c = s.get_char(i);
    is_space(c)
}

impl SerialNumber {
    /// Parses the trailing whitespace-delimited token of `s` as a signed
    /// decimal integer.
    pub fn from_str(s: &str) -> (r: Result<SerialNumber, SerialNumberParseError>)
        ensures
            match r {
                Ok(sn) => spec_token_well_formed(spec_last_token(s@)) && sn.0
                    == spec_token_value(spec_last_token(s@)),
                Err(SerialNumberParseError::NoLastElement) => spec_last_token(s@).len() == 0,
                Err(SerialNumberParseError::InvalidDigit) => spec_last_token(s@).len() > 0
                    && !spec_token_well_formed(spec_last_token(s@)),
                Err(SerialNumberParseError::Overflow) => spec_token_well_formed(
                    spec_last_token(s@),
                ) && !(i32::MIN <= spec_token_value(spec_last_token(s@)) <= i32::MAX),
            },
    {
        let n = s.unicode_len();
        proof {
            assert(s@.subrange(0, n as int) =~= s@);
        }
        // Drop trailing whitespace.
        let mut end: usize = n;
        while end > 0 && space_at(s, end - 1)
            invariant
                0 <= end <= n,
                n == s@.len(),
                spec_last_token(s@) == spec_last_token(s@.subrange(0, end as int)),
            decreases end,
        {
            proof {
                let pre = s@.subrange(0, end as int);
                assert(pre.last() == s@[end - 1]);
                assert(pre.drop_last() =~= s@.subrange(0, end - 1));
            }
            end = end - 1;
        }
        if end == 0 {
            proof {
                assert(s@.subrange(0, 0) =~= Seq::<char>::empty());
            }
            return Err(SerialNumberParseError::NoLastElement);
        }
        let ghost trimmed = s@.subrange(0, end as int);
        proof {
            assert(trimmed.last() == s@[end - 1]);
            assert(!spec_is_space(trimmed.last()));
            assert(spec_last_token(s@) == spec_token_run(trimmed));
        }
        // Walk back over the trailing run of non-whitespace.
        let mut start: usize = end;
        proof {
            assert(s@.subrange(end as int, end as int) =~= Seq::<char>::empty());
            assert(spec_token_run(trimmed) + s@.subrange(end as int, end as int) =~= spec_token_run(
                trimmed,
            ));
        }
        while start > 0 && !space_at(s, start - 1)
            invariant
                0 <= start <= end,
                0 < end <= n,
                n == s@.len(),
                trimmed == s@.subrange(0, end as int),
                spec_token_run(trimmed) == spec_token_run(s@.subrange(0, start as int))
                    + s@.subrange(start as int, end as int),
                forall|j: int| start <= j < end ==> !spec_is_space(#[trigger] s@[j]),
            decreases start,
        {
            proof {
                let pre = s@.subrange(0, start as int);
                assert(pre.last() == s@[start - 1]);
                assert(pre.drop_last() =~= s@.subrange(0, start - 1));
                assert(spec_token_run(pre) == spec_token_run(pre.drop_last()).push(pre.last()));
                assert(spec_token_run(s@.subrange(0, start - 1)) + s@.subrange(start - 1, end as int)
                    =~= spec_token_run(pre) + s@.subrange(start as int, end as int));
            }
            start = start - 1;
        }
        proof {
            if start > 0 {
                let pre = s@.subrange(0, start as int);
                assert(pre.last() == s@[start - 1]);
                assert(spec_is_space(pre.last()));
                assert(spec_token_run(pre) =~= Seq::<char>::empty());
            } else {
                assert(s@.subrange(0, 0) =~= Seq::<char>::empty());
            }
            assert(spec_token_run(s@.subrange(0, start as int)) =~= Seq::<char>::empty());
            assert(spec_token_run(trimmed) =~= s@.subrange(start as int, end as int));
            // The trailing character is non-whitespace, so the token is
            // not empty.
            if start == end {
                assert(spec_token_run(trimmed) =~= Seq::<char>::empty());
                assert(spec_token_run(trimmed) == spec_token_run(trimmed.drop_last()).push(
                    trimmed.last(),
                ));
            }
        }
        let ghost token = spec_last_token(s@);
        proof {
            assert(token =~= s@.subrange(start as int, end as int));
            assert(start < end);
            assert(token.len() == end - start);
        }
        // Optional leading sign.
        let first = s.get_char(start);
        let negative = first == '-';
        let signed: bool = first == '-' || first == '+';
        let mut i: usize = if signed {
            start + 1
        } else {
            start
        };
        let ghost digits = spec_token_digits(token);
        proof {
            assert(token[0] == s@[start as int]);
            if signed {
                assert(digits =~= s@.subrange(start + 1, end as int));
            } else {
                assert(digits =~= s@.subrange(start as int, end as int));
            }
        }
        if i == end {
            // A bare sign holds no digits.
            assert(digits.len() == 0);
            assert(!spec_token_well_formed(token));
            return Err(SerialNumberParseError::InvalidDigit);
        }
        let ghost dstart = i as int;
        // Accumulate the magnitude, stopping once it can no longer fit.
        let mut value: u64 = 0;
        while i < end
            invariant
                0 <= dstart <= i <= end,
                0 < end <= n,
                n == s@.len(),
                dstart < end,
                token == spec_last_token(s@),
                token =~= s@.subrange(start as int, end as int),
                token.len() > 0,
                token[0] == s@[start as int],
                negative == (token[0] == '-'),
                digits == spec_token_digits(token),
                digits == s@.subrange(dstart, end as int),
                spec_all_digits(s@.subrange(dstart, i as int)),
                value == spec_digits_value(s@.subrange(dstart, i as int)),
                value <= 0x8000_0000u64,
            decreases end - i,
        {
            let c = s.get_char(i);
            if !('0' <= c && c <= '9') {
                proof {
                    assert(digits[i - dstart] == c);
                    assert(!spec_is_digit(digits[i - dstart]));
                    assert(!spec_all_digits(digits));
                    assert(!spec_token_well_formed(token));
                }
                return Err(SerialNumberParseError::InvalidDigit);
            }
            let d = (c as u32) - ('0' as u32);
            proof {
                let p = s@.subrange(dstart, i + 1);
                assert(p.drop_last() =~= s@.subrange(dstart, i as int));
                assert(p.last() == c);
                lemma_all_digits_push(p);
            }
            let next = value * 10 + (d as u64);
            if next > 0x8000_0000u64 {
                // The magnitude exceeds every 32-bit value; remaining
                // digits only push it further, so check them and report
                // overflow or an invalid digit.
                let mut k = i + 1;
                while k < end
                    invariant
                        i < k <= end,
                        n == s@.len(),
                        end <= n,
                        0 <= dstart <= i,
                        dstart < end,
                        token == spec_last_token(s@),
                        token.len() > 0,
                        negative == (token[0] == '-'),
                        digits == spec_token_digits(token),
                        digits == s@.subrange(dstart, end as int),
                        spec_all_digits(s@.subrange(dstart, k as int)),
                    decreases end - k,
                {
                    let c2 = s.get_char(k);
                    if !('0' <= c2 && c2 <= '9') {
                        proof {
                            assert(digits[k - dstart] == c2);
                            assert(!spec_is_digit(digits[k - dstart]));
                            assert(!spec_all_digits(digits));
                            assert(!spec_token_well_formed(token));
                        }
                        return Err(SerialNumberParseError::InvalidDigit);
                    }
                    proof {
                        let p = s@.subrange(dstart, k + 1);
                        assert(p.drop_last() =~= s@.subrange(dstart, k as int));
                        assert(p.last() == c2);
                        lemma_all_digits_push(p);
                    }
                    k = k + 1;
                }
                proof {
                    assert(s@.subrange(dstart, end as int) =~= digits);
                    assert(spec_all_digits(digits));
                    assert(spec_token_well_formed(token));
                    let p = s@.subrange(dstart, i + 1);
                    assert(spec_digits_value(p) == next);
                    assert(p =~= digits.subrange(0, i + 1 - dstart));
                    if i + 1 == end {
                        assert(digits.subrange(0, i + 1 - dstart) =~= digits);
                    } else {
                        assert(spec_digits_value(digits.subrange(0, i + 1 - dstart))
                            > 0x8000_0000) by {
                            assert(spec_digits_value(digits.subrange(0, i + 1 - dstart)) == next);
                        }
                        lemma_digits_value_grows(digits, i + 1 - dstart, 0x8000_0000);
                    }
                    assert(spec_digits_value(digits) > 0x8000_0000);
                }
                return Err(SerialNumberParseError::Overflow);
            }
            value = next;
            i = i + 1;
        }
        proof {
            assert(s@.subrange(dstart, i as int) =~= digits);
            assert(spec_all_digits(digits));
            assert(spec_token_well_formed(token));
            assert(value == spec_digits_value(digits));
        }
        if negative {
            if value > 0x8000_0000u64 {
                return Err(SerialNumberParseError::Overflow);
            }
            let v = -(value as i64);
            Ok(SerialNumber(v as i32))
        } else {
            if value > 0x7FFF_FFFFu64 {
                return Err(SerialNumberParseError::Overflow);
            }
            Ok(SerialNumber(value as i32))
        }
    }
}

} // verus!

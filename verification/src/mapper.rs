//! The record mapper's field-level normalization rules: sentinel
//! suppression, boolean coding, numeric coding and flexible date parsing.
//! Every rule is a total function of the raw field text.

use vstd::prelude::*;
use vstd::string::*;

use crate::text::{
    is_blank, seq_eq_ignore_ascii_case, str_eq_ignore_ascii_case, str_is_blank,
};

verus! {

/// Values that stand for "no data" in the source files: the two literal
/// sentinels (compared ASCII-case-insensitively) and blank text.
pub open spec fn is_sentinel(s: Seq<char>) -> bool {
    ||| seq_eq_ignore_ascii_case(s, "Not Applicable"@)
    ||| seq_eq_ignore_ascii_case(s, "Not Available"@)
    ||| is_blank(s)
}

/// Decides `is_sentinel` for a raw field.
pub fn sentinel(s: &str) -> (r: bool)
    ensures
        r == is_sentinel(s@),
{
    str_eq_ignore_ascii_case(s, "Not Applicable") || str_eq_ignore_ascii_case(s, "Not Available")
        || str_is_blank(s)
}

/// The view of an optional owned string.
pub open spec fn opt_str_view(o: Option<String>) -> Option<Seq<char>> {
    match o {
        Some(s) => Some(s@),
        None => None,
    }
}

/// Sentinel suppression for text fields: a sentinel becomes absent,
/// anything else is kept as is.
pub open spec fn spec_normalize_string(s: Seq<char>) -> Option<Seq<char>> {
    if is_sentinel(s) {
        None
    } else {
        Some(s)
    }
}

/// Applies sentinel suppression to one raw text field.
pub fn normalize_string(s: &str) -> (r: Option<String>)
    ensures
        opt_str_view(r) == spec_normalize_string(s@),
{
    if sentinel(s) {
        None
    } else {
        Some(s.to_owned())
    }
}

/// Boolean coding: "Yes" and "No" (ASCII-case-insensitively) code true
/// and false; any other value is absent, never an error.
pub open spec fn spec_parse_yes_no(s: Seq<char>) -> Option<bool> {
    if seq_eq_ignore_ascii_case(s, "Yes"@) {
        Some(true)
    } else if seq_eq_ignore_ascii_case(s, "No"@) {
        Some(false)
    } else {
        None
    }
}

/// Applies boolean coding to one raw field.
pub fn parse_yes_no(s: &str) -> (r: Option<bool>)
    ensures
        r == spec_parse_yes_no(s@),
{
    if str_eq_ignore_ascii_case(s, "Yes") {
        Some(true)
    } else if str_eq_ignore_ascii_case(s, "No") {
        Some(false)
    } else {
        None
    }
}

/// An ASCII decimal digit.
pub open spec fn is_dec_digit(c: char) -> bool {
    ('0' as u32) <= (c as u32) <= ('9' as u32)
}

/// The numeric value of an ASCII decimal digit.
pub open spec fn digit_of(c: char) -> int {
    (c as u32) - ('0' as u32)
}

/// The value of a run of decimal digits, most significant first.
pub open spec fn digits_val(s: Seq<char>) -> int
    decreases s.len(),
{
    if s.len() == 0 {
        0
    } else {
        digits_val(s.drop_last()) * 10 + digit_of(s.last())
    }
}

pub open spec fn all_dec_digits(s: Seq<char>) -> bool {
    forall|i: int| 0 <= i < s.len() ==> is_dec_digit(s[i])
}

/// The digit run of an integer literal, after an optional sign.
pub open spec fn int_str_digits(s: Seq<char>) -> Seq<char> {
    if s.len() > 0 && (s[0] == '+' || s[0] == '-') {
        s.drop_first()
    } else {
        s
    }
}

pub open spec fn int_str_is_negative(s: Seq<char>) -> bool {
    s.len() > 0 && s[0] == '-'
}

/// A well-formed integer literal: an optional sign, then one or more
/// decimal digits and nothing else, as `i32::from_str` accepts it.
pub open spec fn valid_int_str(s: Seq<char>) -> bool {
    int_str_digits(s).len() > 0 && all_dec_digits(int_str_digits(s))
}

/// The mathematical value of a well-formed integer literal.
pub open spec fn int_str_val(s: Seq<char>) -> int {
    if int_str_is_negative(s) {
        -digits_val(int_str_digits(s))
    } else {
        digits_val(int_str_digits(s))
    }
}

/// What `str::parse::<i32>` returns: the literal's value when it is
/// well formed and representable, absent otherwise.
pub open spec fn spec_parse_i32(s: Seq<char>) -> Option<i32> {
    if valid_int_str(s) && -0x8000_0000 <= int_str_val(s) <= 0x7fff_ffff {
        Some(int_str_val(s) as i32)
    } else {
        None
    }
}

proof fn lemma_digits_val_nonneg(s: Seq<char>)
    requires
        all_dec_digits(s),
    ensures
        digits_val(s) >= 0,
    decreases s.len(),
{
    if s.len() > 0 {
        assert(all_dec_digits(s.drop_last()));
        lemma_digits_val_nonneg(s.drop_last());
    }
}

/// Appending digits can only grow a digit run's value.
proof fn lemma_digits_val_prefix(s: Seq<char>, k: int)
    requires
        all_dec_digits(s),
        0 <= k <= s.len(),
    ensures
        digits_val(s) >= digits_val(s.subrange(0, k)),
    decreases s.len() - k,
{
    if k < s.len() {
        lemma_digits_val_prefix(s, k + 1);
        let p = s.subrange(0, k);
        let q = s.subrange(0, k + 1);
        assert(q.drop_last() =~= p);
        assert(all_dec_digits(p)) by {
            assert(forall|i: int| 0 <= i < p.len() ==> p[i] == s[i]);
        }
        lemma_digits_val_nonneg(p);
        assert(digits_val(q) == digits_val(p) * 10 + digit_of(s[k]));
    } else {
        assert(s.subrange(0, k) =~= s);
    }
}

/// Parses a decimal integer exactly as `str::parse::<i32>` does: an
/// optional sign, one or more digits, and a representable value.
pub fn parse_i32(s: &str) -> (r: Option<i32>)
    ensures
        r == spec_parse_i32(s@),
{
    let len = s.unicode_len();
    if len == 0 {
        return None;
    }
    let c0 = s.get_char(0);
    let neg = c0 == '-';
    let start: usize = if c0 == '-' || c0 == '+' {
        1
    } else {
        0
    };
    proof {
        assert(int_str_digits(s@) =~= s@.subrange(start as int, len as int));
    }
    if start == len {
        return None;
    }
    let ghost digits = s@.subrange(start as int, len as int);
    let mut acc: u64 = 0;
    let mut i: usize = start;
    while i < len
        invariant
            len == s@.len(),
            start <= i <= len,
            digits == s@.subrange(start as int, len as int),
            digits == int_str_digits(s@),
            neg == int_str_is_negative(s@),
            acc == digits_val(s@.subrange(start as int, i as int)),
            acc <= 0x8000_0000,
            all_dec_digits(s@.subrange(start as int, i as int)),
        decreases len - i,
    {
        let c = s.get_char(i);
        let u = c as u32;
        if u < 48 || u > 57 {
            proof {
                assert(digits[i - start] == s@[i as int]);
                assert(!is_dec_digit(digits[i - start]));
            }
            return None;
        }
        let d: u64 = (u - 48) as u64;
        let ghost prev = s@.subrange(start as int, i as int);
        let ghost cur = s@.subrange(start as int, i + 1);
        proof {
            assert(cur.drop_last() =~= prev);
            assert(cur.last() == s@[i as int]);
        }
        acc = acc * 10 + d;
        i = i + 1;
        if acc > 0x8000_0000 {
            proof {
                assert(cur =~= digits.subrange(0, i - start));
                if valid_int_str(s@) {
                    lemma_digits_val_prefix(digits, i - start);
                }
            }
            return None;
        }
    }
    proof {
        assert(s@.subrange(start as int, i as int) =~= digits);
        assert(valid_int_str(s@));
    }
    if neg {
        let v: i64 = -(acc as i64);
        Some(v as i32)
    } else {
        if acc > 0x7fff_ffff {
            return None;
        }
        Some(acc as i32)
    }
}

/// Numeric coding for integer fields: sentinels and unparsable values
/// are absent, never an error.
pub open spec fn spec_parse_optional_i32(s: Seq<char>) -> Option<i32> {
    if is_sentinel(s) {
        None
    } else {
        spec_parse_i32(s)
    }
}

/// Applies numeric coding to one raw field.
pub fn parse_optional_i32(s: &str) -> (r: Option<i32>)
    ensures
        r == spec_parse_optional_i32(s@),
{
    if sentinel(s) {
        None
    } else {
        parse_i32(s)
    }
}

/// A calendar date, held as plain year, month and day numbers.
#[derive(Clone, Copy, PartialEq, Eq, Structural, Debug)]
pub struct Date {
    pub year: u32,
    pub month: u32,
    pub day: u32,
}

pub open spec fn is_leap_year(y: int) -> bool {
    y % 4 == 0 && (y % 100 != 0 || y % 400 == 0)
}

pub open spec fn days_in_month(y: int, m: int) -> int {
    if m == 2 {
        if is_leap_year(y) {
            29
        } else {
            28
        }
    } else if m == 4 || m == 6 || m == 9 || m == 11 {
        30
    } else {
        31
    }
}

/// A date that exists in the proleptic Gregorian calendar.
pub open spec fn valid_date(d: Date) -> bool {
    1 <= d.month <= 12 && 1 <= d.day <= days_in_month(d.year as int, d.month as int)
}

/// The dashed literal date format: `YYYY-MM-DD`.
pub open spec fn dashed_date_form(s: Seq<char>) -> bool {
    &&& s.len() == 10
    &&& is_dec_digit(s[0]) && is_dec_digit(s[1]) && is_dec_digit(s[2]) && is_dec_digit(s[3])
    &&& s[4] == '-'
    &&& is_dec_digit(s[5]) && is_dec_digit(s[6])
    &&& s[7] == '-'
    &&& is_dec_digit(s[8]) && is_dec_digit(s[9])
}

/// The compact literal date format: `YYYYMMDD`.
pub open spec fn compact_date_form(s: Seq<char>) -> bool {
    s.len() == 8 && all_dec_digits(s)
}

pub open spec fn dashed_date_of(s: Seq<char>) -> Date {
    Date {
        year: (digit_of(s[0]) * 1000 + digit_of(s[1]) * 100 + digit_of(s[2]) * 10 + digit_of(
            s[3],
        )) as u32,
        month: (digit_of(s[5]) * 10 + digit_of(s[6])) as u32,
        day: (digit_of(s[8]) * 10 + digit_of(s[9])) as u32,
    }
}

pub open spec fn compact_date_of(s: Seq<char>) -> Date {
    Date {
        year: (digit_of(s[0]) * 1000 + digit_of(s[1]) * 100 + digit_of(s[2]) * 10 + digit_of(
            s[3],
        )) as u32,
        month: (digit_of(s[4]) * 10 + digit_of(s[5])) as u32,
        day: (digit_of(s[6]) * 10 + digit_of(s[7])) as u32,
    }
}

/// Date coding: the dashed format is tried first, then the compact one;
/// a match must also name a date that exists; anything else is absent.
pub open spec fn spec_parse_date(s: Seq<char>) -> Option<Date> {
    if dashed_date_form(s) {
        if valid_date(dashed_date_of(s)) {
            Some(dashed_date_of(s))
        } else {
            None
        }
    } else if compact_date_form(s) {
        if valid_date(compact_date_of(s)) {
            Some(compact_date_of(s))
        } else {
            None
        }
    } else {
        None
    }
}

fn digit_at(s: &str, i: usize) -> (r: Option<u32>)
    requires
        i < s@.len(),
    ensures
        match r {
            Some(d) => is_dec_digit(s@[i as int]) && d == digit_of(s@[i as int]),
            None => !is_dec_digit(s@[i as int]),
        },
{
    let u = s.get_char(i) as u32;
    if 48 <= u && u <= 57 {
        Some(u - 48)
    } else {
        None
    }
}

fn check_date(d: Date) -> (r: bool)
    ensures
        r == valid_date(d),
{
    if d.month < 1 || d.month > 12 || d.day < 1 {
        return false;
    }
    let leap = d.year % 4 == 0 && (d.year % 100 != 0 || d.year % 400 == 0);
    let max_day: u32 = if d.month == 2 {
        if leap {
            29
        } else {
            28
        }
    } else if d.month == 4 || d.month == 6 || d.month == 9 || d.month == 11 {
        30
    } else {
        31
    };
    d.day <= max_day
}

/// Parses one of the two accepted literal date formats.
pub fn parse_date(s: &str) -> (r: Option<Date>)
    ensures
        r == spec_parse_date(s@),
{
    let len = s.unicode_len();
    if len == 10 {
        if s.get_char(4) != '-' || s.get_char(7) != '-' {
            return None;
        }
        let y0 = match digit_at(s, 0) {
            Some(v) => v,
            None => {
                return None;
            },
        };
        let y1 = match digit_at(s, 1) {
            Some(v) => v,
            None => {
                return None;
            },
        };
        let y2 = match digit_at(s, 2) {
            Some(v) => v,
            None => {
                return None;
            },
        };
        let y3 = match digit_at(s, 3) {
            Some(v) => v,
            None => {
                return None;
            },
        };
        let m0 = match digit_at(s, 5) {
            Some(v) => v,
            None => {
                return None;
            },
        };
        let m1 = match digit_at(s, 6) {
            Some(v) => v,
            None => {
                return None;
            },
        };
        let d0 = match digit_at(s, 8) {
            Some(v) => v,
            None => {
                return None;
            },
        };
        let d1 = match digit_at(s, 9) {
            Some(v) => v,
            None => {
                return None;
            },
        };
        let d = Date { year: y0 * 1000 + y1 * 100 + y2 * 10 + y3, month: m0 * 10 + m1, day: d0 * 10
            + d1 };
        if check_date(d) {
            Some(d)
        } else {
            None
        }
    } else if len == 8 {
        let y0 = match digit_at(s, 0) {
            Some(v) => v,
            None => {
                return None;
            },
        };
        let y1 = match digit_at(s, 1) {
            Some(v) => v,
            None => {
                return None;
            },
        };
        let y2 = match digit_at(s, 2) {
            Some(v) => v,
            None => {
                return None;
            },
        };
        let y3 = match digit_at(s, 3) {
            Some(v) => v,
            None => {
                return None;
            },
        };
        let m0 = match digit_at(s, 4) {
            Some(v) => v,
            None => {
                return None;
            },
        };
        let m1 = match digit_at(s, 5) {
            Some(v) => v,
            None => {
                return None;
            },
        };
        let d0 = match digit_at(s, 6) {
            Some(v) => v,
            None => {
                return None;
            },
        };
        let d1 = match digit_at(s, 7) {
            Some(v) => v,
            None => {
                return None;
            },
        };
        let d = Date { year: y0 * 1000 + y1 * 100 + y2 * 10 + y3, month: m0 * 10 + m1, day: d0 * 10
            + d1 };
        if check_date(d) {
            Some(d)
        } else {
            None
        }
    } else {
        None
    }
}

/// Date coding with sentinel suppression, the rule applied to raw
/// date fields.
pub open spec fn spec_parse_optional_date(s: Seq<char>) -> Option<Date> {
    if is_sentinel(s) {
        None
    } else {
        spec_parse_date(s)
    }
}

/// Applies date coding to one raw field.
pub fn parse_optional_date(s: &str) -> (r: Option<Date>)
    ensures
        r == spec_parse_optional_date(s@),
{
    if sentinel(s) {
        None
    } else {
        parse_date(s)
    }
}

} // verus!

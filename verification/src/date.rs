//! Civil dates: strict `YYYY-MM-DD` parsing, calendar validity with leap
//! years, and conversion to seconds since the Unix epoch, all verified.

use vstd::prelude::*;
use crate::strutil::{dec_padded, u64_to_padded_string};

verus! {

/// A calendar date in the proleptic Gregorian calendar.
#[derive(Debug, Clone, Copy, PartialEq, Eq, Structural)]
pub struct CivilDate {
    pub year: u32,
    pub month: u32,
    pub day: u32,
}

pub open spec fn spec_is_leap_year(y: int) -> bool {
    (y % 4 == 0 && y % 100 != 0) || y % 400 == 0
}

pub open spec fn spec_days_in_month(y: int, m: int) -> int {
    if m == 1 {
        31
    } else if m == 2 {
        if spec_is_leap_year(y) {
            29
        } else {
            28
        }
    } else if m == 3 {
        31
    } else if m == 4 {
        30
    } else if m == 5 {
        31
    } else if m == 6 {
        30
    } else if m == 7 {
        31
    } else if m == 8 {
        31
    } else if m == 9 {
        30
    } else if m == 10 {
        31
    } else if m == 11 {
        30
    } else {
        31
    }
}

impl CivilDate {
    /// A date the calendar admits: the year has four decimal digits, the
    /// month exists, and the day exists in that month of that year.
    pub open spec fn valid(self) -> bool {
        &&& self.year <= 9999
        &&& 1 <= self.month <= 12
        &&& 1 <= self.day <= spec_days_in_month(self.year as int, self.month as int)
    }
}

pub fn is_leap_year(y: u32) -> (r: bool)
    ensures
        r == spec_is_leap_year(y as int),
{
    (y % 4 == 0 && y % 100 != 0) || y % 400 == 0
}

pub fn days_in_month(y: u32, m: u32) -> (r: u32)
    requires
        1 <= m <= 12,
    ensures
        r == spec_days_in_month(y as int, m as int),
{
    if m == 2 {
        if is_leap_year(y) {
            29
        } else {
            28
        }
    } else if m == 4 || m == 6 || m == 9 || m == 11 {
        30
    } else {
        31
    }
}

/// Days in the year `y`.
pub open spec fn spec_days_in_year(y: int) -> int {
    if spec_is_leap_year(y) {
        366
    } else {
        365
    }
}

/// Days from 1970-01-01 to the first day of year `y` (negative before 1970).
pub open spec fn spec_days_before_year(y: int) -> int
    decreases
            (if y >= 1970 {
                y - 1970
            } else {
                1970 - y
            }),
{
    if y == 1970 {
        0
    } else if y > 1970 {
        spec_days_before_year(y - 1) + spec_days_in_year(y - 1)
    } else {
        spec_days_before_year(y + 1) - spec_days_in_year(y)
    }
}

/// Days from the first of January to the first of month `m` in year `y`.
pub open spec fn spec_days_before_month(y: int, m: int) -> int
    decreases m,
{
    if m <= 1 {
        0
    } else {
        spec_days_before_month(y, m - 1) + spec_days_in_month(y, m - 1)
    }
}

/// Days from 1970-01-01 to the given date (negative before the epoch).
pub open spec fn spec_days_from_epoch(d: CivilDate) -> int {
    spec_days_before_year(d.year as int) + spec_days_before_month(d.year as int, d.month as int)
        + (d.day - 1)
}

/// Seconds since the Unix epoch of midnight (UTC) on the given date.
pub open spec fn spec_midnight_epoch_seconds(d: CivilDate) -> int {
    spec_days_from_epoch(d) * 86400
}

proof fn lemma_days_before_year_bounds(y: int)
    requires
        0 <= y <= 9999,
    ensures
        -800000 <= spec_days_before_year(y) <= 3000000,
{
    if y >= 1970 {
        lemma_days_before_year_upper(y);
        lemma_days_before_year_nonneg(y);
    } else {
        lemma_days_before_year_lower(y);
        lemma_days_before_year_nonpos(y);
    }
}

proof fn lemma_days_before_year_upper(y: int)
    requires
        1970 <= y,
    ensures
        spec_days_before_year(y) <= 366 * (y - 1970),
    decreases y - 1970,
{
    if y > 1970 {
        lemma_days_before_year_upper(y - 1);
    }
}

proof fn lemma_days_before_year_nonneg(y: int)
    requires
        1970 <= y,
    ensures
        spec_days_before_year(y) >= 0,
    decreases y - 1970,
{
    if y > 1970 {
        lemma_days_before_year_nonneg(y - 1);
    }
}

proof fn lemma_days_before_year_lower(y: int)
    requires
        y <= 1970,
    ensures
        spec_days_before_year(y) >= -366 * (1970 - y),
    decreases 1970 - y,
{
    if y < 1970 {
        lemma_days_before_year_lower(y + 1);
    }
}

proof fn lemma_days_before_year_nonpos(y: int)
    requires
        y <= 1970,
    ensures
        spec_days_before_year(y) <= 0,
    decreases 1970 - y,
{
    if y < 1970 {
        lemma_days_before_year_nonpos(y + 1);
    }
}

proof fn lemma_days_before_month_bounds(y: int, m: int)
    requires
        1 <= m <= 13,
    ensures
        0 <= spec_days_before_month(y, m) <= 31 * (m - 1),
    decreases m,
{
    if m > 1 {
        lemma_days_before_month_bounds(y, m - 1);
    }
}

/// Days from 1970-01-01 to the first day of year `y`, computed by walking
/// year by year from the epoch.
fn days_before_year(y: u32) -> (r: i64)
    requires
        y <= 9999,
    ensures
        r == spec_days_before_year(y as int),
{
    proof {
        lemma_days_before_year_bounds(y as int);
    }
    if y >= 1970 {
        let mut acc: i64 = 0;
        let mut cur: u32 = 1970;
        while cur < y
            invariant
                1970 <= cur <= y <= 9999,
                acc == spec_days_before_year(cur as int),
            decreases y - cur,
        {
            proof {
                lemma_days_before_year_bounds(cur as int);
                lemma_days_before_year_bounds((cur + 1) as int);
            }
            if is_leap_year(cur) {
                acc = acc + 366;
            } else {
                acc = acc + 365;
            }
            cur = cur + 1;
        }
        acc
    } else {
        let mut acc: i64 = 0;
        let mut cur: u32 = 1970;
        while cur > y
            invariant
                y <= cur <= 1970,
                acc == spec_days_before_year(cur as int),
            decreases cur,
        {
            proof {
                lemma_days_before_year_bounds(cur as int);
                lemma_days_before_year_bounds((cur - 1) as int);
            }
            if is_leap_year(cur - 1) {
                acc = acc - 366;
            } else {
                acc = acc - 365;
            }
            cur = cur - 1;
        }
        acc
    }
}

/// Seconds since the Unix epoch of midnight (UTC) on the given date.
pub fn midnight_epoch_seconds(d: &CivilDate) -> (r: i64)
    requires
        d.valid(),
    ensures
        r == spec_midnight_epoch_seconds(*d),
{
    proof {
        lemma_days_before_year_bounds(d.year as int);
        lemma_days_before_month_bounds(d.year as int, d.month as int);
    }
    let years = days_before_year(d.year);
    let mut months: i64 = 0;
    let mut m: u32 = 1;
    while m < d.month
        invariant
            1 <= m <= d.month <= 12,
            months == spec_days_before_month(d.year as int, m as int),
            months <= 31 * (m - 1),
            months >= 0,
        decreases d.month - m,
    {
        proof {
            lemma_days_before_month_bounds(d.year as int, (m + 1) as int);
        }
        months = months + days_in_month(d.year, m) as i64;
        m = m + 1;
    }
    let days: i64 = years + months + (d.day as i64 - 1);
    days * 86400
}

/// The digit value of a decimal digit character, `None` for any other.
pub open spec fn spec_digit_value(c: char) -> Option<int> {
    if c == '0' {
        Some(0int)
    } else if c == '1' {
        Some(1int)
    } else if c == '2' {
        Some(2int)
    } else if c == '3' {
        Some(3int)
    } else if c == '4' {
        Some(4int)
    } else if c == '5' {
        Some(5int)
    } else if c == '6' {
        Some(6int)
    } else if c == '7' {
        Some(7int)
    } else if c == '8' {
        Some(8int)
    } else if c == '9' {
        Some(9int)
    } else {
        None
    }
}

pub fn digit_value(c: char) -> (r: Option<u32>)
    ensures
        match r {
            Some(v) => spec_digit_value(c) == Some(v as int) && v <= 9,
            None => spec_digit_value(c) is None,
        },
{
    match c {
        '0' => Some(0),
        '1' => Some(1),
        '2' => Some(2),
        '3' => Some(3),
        '4' => Some(4),
        '5' => Some(5),
        '6' => Some(6),
        '7' => Some(7),
        '8' => Some(8),
        '9' => Some(9),
        _ => None,
    }
}

/// The shape `YYYY-MM-DD`: ten characters, digits in the digit places and
/// dashes in the dash places.
pub open spec fn spec_date_shape(s: Seq<char>) -> bool {
    &&& s.len() == 10
    &&& (forall|i: int|
        (0 <= i < 4 || i == 5 || i == 6 || i == 8 || i == 9) ==> #[trigger] spec_digit_value(
            s[i],
        ) is Some)
    &&& s[4] == '-'
    &&& s[7] == '-'
}

pub open spec fn spec_two_digit_value(a: char, b: char) -> int
    recommends
        spec_digit_value(a) is Some,
        spec_digit_value(b) is Some,
{
    10 * spec_digit_value(a).unwrap() + spec_digit_value(b).unwrap()
}

/// The date a well-shaped `YYYY-MM-DD` string denotes.
pub open spec fn spec_date_of(s: Seq<char>) -> CivilDate
    recommends
        spec_date_shape(s),
{
    CivilDate {
        year: (1000 * spec_digit_value(s[0]).unwrap() + 100 * spec_digit_value(s[1]).unwrap() + 10
            * spec_digit_value(s[2]).unwrap() + spec_digit_value(s[3]).unwrap()) as u32,
        month: spec_two_digit_value(s[5], s[6]) as u32,
        day: spec_two_digit_value(s[8], s[9]) as u32,
    }
}

/// The strings the import pipeline accepts as dates: shaped `YYYY-MM-DD`
/// and denoting a date the calendar admits.
pub open spec fn spec_parse_date(s: Seq<char>) -> Option<CivilDate> {
    if spec_date_shape(s) && spec_date_of(s).valid() {
        Some(spec_date_of(s))
    } else {
        None
    }
}

/// Parses a strict `YYYY-MM-DD` date, checking calendar validity.
pub fn parse_date(s: &str) -> (r: Option<CivilDate>)
    ensures
        r == spec_parse_date(s@),
{
    let n = s.unicode_len();
    if n != 10 {
        return None;
    }
    if s.get_char(4) != '-' || s.get_char(7) != '-' {
        return None;
    }
    let d0 = digit_value(s.get_char(0));
    let d1 = digit_value(s.get_char(1));
    let d2 = digit_value(s.get_char(2));
    let d3 = digit_value(s.get_char(3));
    let m0 = digit_value(s.get_char(5));
    let m1 = digit_value(s.get_char(6));
    let a0 = digit_value(s.get_char(8));
    let a1 = digit_value(s.get_char(9));
    match (d0, d1, d2, d3, m0, m1, a0, a1) {
        (
            Some(d0),
            Some(d1),
            Some(d2),
            Some(d3),
            Some(m0),
            Some(m1),
            Some(a0),
            Some(a1),
        ) => {
            proof {
                assert(spec_date_shape(s@)) by {
                    assert forall|i: int|
                        (0 <= i < 4 || i == 5 || i == 6 || i == 8 || i
                            == 9) implies #[trigger] spec_digit_value(s@[i]) is Some by {}
                };
            }
            let year = 1000 * d0 + 100 * d1 + 10 * d2 + d3;
            let month = 10 * m0 + m1;
            let day = 10 * a0 + a1;
            if month < 1 || month > 12 {
                return None;
            }
            if day < 1 || day > days_in_month(year, month) {
                return None;
            }
            Some(CivilDate { year, month, day })
        },
        _ => None,
    }
}

/// The `YYYYMMDD` rendering of a date.
pub open spec fn spec_compact_date(d: CivilDate) -> Seq<char> {
    dec_padded(d.year as nat, 4) + dec_padded(d.month as nat, 2) + dec_padded(d.day as nat, 2)
}

/// Renders a date as `YYYYMMDD`.
pub fn compact_date_string(d: &CivilDate) -> (r: String)
    requires
        d.valid(),
    ensures
        r@ == spec_compact_date(*d),
{
    let y = u64_to_padded_string(d.year as u64, 4);
    let m = u64_to_padded_string(d.month as u64, 2);
    let a = u64_to_padded_string(d.day as u64, 2);
    let r = y.concat(m.as_str()).concat(a.as_str());
    proof {
        assert(r@ =~= spec_compact_date(*d));
    }
    r
}

} // verus!

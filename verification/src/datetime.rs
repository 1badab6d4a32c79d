//! Calendar datetimes as plain values: tolerant parsing through chrono,
//! epoch-second computation, and fixed-format display.
use crate::strutil::{spec_dec, spec_pad_zeros, u32_dec_pad};
use vstd::arithmetic::div_mod::lemma_mod_multiples_vanish;
use vstd::math::abs;
use vstd::prelude::*;
use vstd::string::*;

verus! {

/// A calendar datetime held as plain fields, seconds precision.
#[derive(Clone, Copy, PartialEq, Eq, Structural, Debug)]
pub struct DateTime {
    pub year: i32,
    pub month: u8,
    pub day: u8,
    pub hour: u8,
    pub minute: u8,
    pub second: u8,
}

impl DateTime {
    /// Field ranges guaranteed by chrono for any `NaiveDateTime`.
    pub open spec fn wf(self) -> bool {
        &&& -262143 <= self.year <= 262142
        &&& 1 <= self.month <= 12
        &&& 1 <= self.day <= 31
        &&& self.hour <= 23
        &&& self.minute <= 59
        &&& self.second <= 59
    }
}

/// The datetime that chrono's `NaiveDateTime::parse_from_str` reads from `s`
/// with format `fmt`, or `None` where it errors.
pub uninterp spec fn chrono_parse(s: Seq<char>, fmt: Seq<char>) -> Option<DateTime>;

/// Relies on chrono's `NaiveDateTime::parse_from_str`: the result depends on
/// the two strings alone, and the field ranges hold of every `NaiveDateTime`.
#[verifier::external_body]
fn parse_datetime(s: &str, fmt: &str) -> (r: Option<DateTime>)
    ensures
        r == chrono_parse(s@, fmt@),
        r matches Some(d) ==> d.wf(),
{
    match chrono::NaiveDateTime::parse_from_str(s, fmt) {
        Ok(d) => Some(DateTime {
            year: chrono::Datelike::year(&d),
            month: chrono::Datelike::month(&d) as u8,
            day: chrono::Datelike::day(&d) as u8,
            hour: chrono::Timelike::hour(&d) as u8,
            minute: chrono::Timelike::minute(&d) as u8,
            second: chrono::Timelike::second(&d) as u8,
        }),
        Err(_) => None,
    }
}

/// The tolerant date-parsing rule: seconds format first, then minutes, then
/// the bare date, which is retried with a default time of 17:00 appended.
pub open spec fn spec_match_dates(s: Seq<char>) -> Option<DateTime> {
    if chrono_parse(s, "%Y-%m-%d %H:%M:%S"@) is Some {
        chrono_parse(s, "%Y-%m-%d %H:%M:%S"@)
    } else if chrono_parse(s, "%Y-%m-%d %H:%M"@) is Some {
        chrono_parse(s, "%Y-%m-%d %H:%M"@)
    } else if chrono_parse(s, "%Y-%m-%d"@) is Some {
        chrono_parse(s, "%Y-%m-%d"@)
    } else {
        chrono_parse(s + " 17:00"@, "%Y-%m-%d %H:%M"@)
    }
}

/// Tries the accepted date formats in order; `None` when all fail.
pub fn match_possible_dates(s: &str) -> (r: Option<DateTime>)
    ensures
        r == spec_match_dates(s@),
        r matches Some(d) ==> d.wf(),
{
    if let Some(d) = parse_datetime(s, "%Y-%m-%d %H:%M:%S") {
        return Some(d);
    }
    if let Some(d) = parse_datetime(s, "%Y-%m-%d %H:%M") {
        return Some(d);
    }
    if let Some(d) = parse_datetime(s, "%Y-%m-%d") {
        return Some(d);
    }
    let extended = String::from_str(s).concat(" 17:00");
    parse_datetime(extended.as_str(), "%Y-%m-%d %H:%M")
}

/// The proleptic-Gregorian leap-year rule.
pub open spec fn is_leap_year(y: int) -> bool {
    y % 4 == 0 && (y % 100 != 0 || y % 400 == 0)
}

/// The leap-year rule repeats every 400 years.
pub proof fn lemma_leap_period(y: int, k: int)
    requires
        k >= 0,
    ensures
        is_leap_year(y + 400 * k) == is_leap_year(y),
    decreases k,
{
    if k > 0 {
        lemma_leap_period(y, k - 1);
        let b = y + 400 * (k - 1);
        lemma_mod_multiples_vanish(100, b, 4);
        lemma_mod_multiples_vanish(4, b, 100);
        lemma_mod_multiples_vanish(1, b, 400);
        assert(400 * k == 400 * (k - 1) + 400);
        assert(y + 400 * k == 4 * 100 + b);
        assert(y + 400 * k == 100 * 4 + b);
        assert(y + 400 * k == 400 * 1 + b);
    }
}

/// Decides the leap-year rule.
pub fn is_leap_exec(y: i32) -> (r: bool)
    requires
        -262400 <= y <= 262400,
    ensures
        r == is_leap_year(y as int),
{
    let z: u32 = (y + 262400) as u32;
    proof {
        lemma_leap_period(y as int, 656);
        assert(y + 400 * 656 == z as int);
    }
    z % 4 == 0 && (z % 100 != 0 || z % 400 == 0)
}

/// Days in year `y`.
pub open spec fn spec_days_in_year(y: int) -> int {
    if is_leap_year(y) {
        366
    } else {
        365
    }
}

/// Days from 1970-01-01 to the first day of year `y` (negative before 1970).
pub open spec fn spec_days_to_year(y: int) -> int
    decreases abs(y - 1970),
{
    if y == 1970 {
        0
    } else if y > 1970 {
        spec_days_to_year(y - 1) + spec_days_in_year(y - 1)
    } else {
        spec_days_to_year(y + 1) - spec_days_in_year(y)
    }
}

/// The day count to a year grows at most 366 days per year.
pub proof fn lemma_days_to_year_bound(y: int)
    ensures
        abs(spec_days_to_year(y)) <= 366 * abs(y - 1970),
    decreases abs(y - 1970),
{
    if y > 1970 {
        lemma_days_to_year_bound(y - 1);
    } else if y < 1970 {
        lemma_days_to_year_bound(y + 1);
    }
}

/// Computes the day count from 1970-01-01 to the first day of `year`.
fn days_to_year(year: i32) -> (r: i64)
    requires
        -262143 <= year <= 262142,
    ensures
        r as int == spec_days_to_year(year as int),
{
    let mut acc: i64 = 0;
    if year >= 1970 {
        let mut y: i32 = 1970;
        while y < year
            invariant
                1970 <= y <= year <= 262142,
                acc as int == spec_days_to_year(y as int),
            decreases year - y,
        {
            proof {
                lemma_days_to_year_bound(y as int);
                lemma_days_to_year_bound(y + 1 as int);
            }
            acc = acc + if is_leap_exec(y) {
                366
            } else {
                365
            };
            y = y + 1;
        }
    } else {
        let mut y: i32 = 1970;
        while y > year
            invariant
                -262143 <= year <= y <= 1970,
                acc as int == spec_days_to_year(y as int),
            decreases y - year,
        {
            proof {
                lemma_days_to_year_bound(y as int);
                lemma_days_to_year_bound(y - 1 as int);
            }
            acc = acc - if is_leap_exec(y - 1) {
                366
            } else {
                365
            };
            y = y - 1;
        }
    }
    acc
}

/// Days in month `m` of year `y`.
pub open spec fn spec_days_in_month(y: int, m: int) -> int {
    if m == 2 {
        if is_leap_year(y) {
            29
        } else {
            28
        }
    } else if m == 4 || m == 6 || m == 9 || m == 11 {
        30
    } else {
        31
    }
}

/// Days from the first day of year `y` to the first day of month `m`.
pub open spec fn spec_days_before_month(y: int, m: int) -> int
    decreases m,
{
    if m <= 1 {
        0
    } else {
        spec_days_before_month(y, m - 1) + spec_days_in_month(y, m - 1)
    }
}

/// Computes the day count inside year `y` up to month `m`.
fn days_before_month(y: i32, m: u8) -> (r: i64)
    requires
        -262143 <= y <= 262142,
        1 <= m <= 12,
    ensures
        r as int == spec_days_before_month(y as int, m as int),
        0 <= r <= 366,
{
    let mut acc: i64 = 0;
    let mut i: u8 = 1;
    while i < m
        invariant
            1 <= i <= m <= 12,
            -262143 <= y <= 262142,
            acc as int == spec_days_before_month(y as int, i as int),
            0 <= acc <= 31 * (i - 1),
        decreases m - i,
    {
        let d: i64 = if i == 2 {
            if is_leap_exec(y) {
                29
            } else {
                28
            }
        } else if i == 4 || i == 6 || i == 9 || i == 11 {
            30
        } else {
            31
        };
        acc = acc + d;
        i = i + 1;
    }
    acc
}

/// Seconds from 1970-01-01T00:00:00 to `dt`, the datetime read as UTC.
pub open spec fn spec_timestamp(dt: DateTime) -> int {
    (spec_days_to_year(dt.year as int) + spec_days_before_month(dt.year as int, dt.month as int)
        + (dt.day - 1)) * 86400 + dt.hour * 3600 + dt.minute * 60 + dt.second
}

/// Computes the epoch-second form of `dt`.
pub fn timestamp(dt: &DateTime) -> (r: i64)
    requires
        dt.wf(),
    ensures
        r as int == spec_timestamp(*dt),
{
    proof {
        lemma_days_to_year_bound(dt.year as int);
    }
    let days: i64 = days_to_year(dt.year) + days_before_month(dt.year, dt.month) + (
    dt.day as i64 - 1);
    days * 86400 + (dt.hour as i64) * 3600 + (dt.minute as i64) * 60 + dt.second as i64
}

/// The year part of the fixed display format: at least four digits, zero
/// padded; a minus sign for negative years and a plus sign for years of
/// five or more digits, as chrono's `%Y` prints them.
pub open spec fn spec_year_str(y: int) -> Seq<char> {
    if y < 0 {
        seq!['-'] + spec_pad_zeros(spec_dec(-y), 4)
    } else if y >= 10000 {
        seq!['+'] + spec_pad_zeros(spec_dec(y), 4)
    } else {
        spec_pad_zeros(spec_dec(y), 4)
    }
}

/// `dt` written as `YYYY-MM-DD HH:MM`.
pub open spec fn spec_format_ymd_hm(dt: DateTime) -> Seq<char> {
    spec_year_str(dt.year as int) + seq!['-'] + spec_pad_zeros(spec_dec(dt.month as int), 2)
        + seq!['-'] + spec_pad_zeros(spec_dec(dt.day as int), 2) + seq![' '] + spec_pad_zeros(
        spec_dec(dt.hour as int),
        2,
    ) + seq![':'] + spec_pad_zeros(spec_dec(dt.minute as int), 2)
}

/// Writes `dt` as `YYYY-MM-DD HH:MM`.
pub fn format_ymd_hm(dt: &DateTime) -> (r: String)
    requires
        dt.wf(),
    ensures
        r@ == spec_format_ymd_hm(*dt),
{
    proof {
        reveal_strlit("-");
        reveal_strlit("+");
        reveal_strlit(" ");
        reveal_strlit(":");
    }
    let mut out = String::new();
    if dt.year < 0 {
        out.append("-");
        let pos = u32_dec_pad((-dt.year) as u32, 4);
        out.append(pos.as_str());
    } else if dt.year >= 10000 {
        out.append("+");
        let pos = u32_dec_pad(dt.year as u32, 4);
        out.append(pos.as_str());
    } else {
        let pos = u32_dec_pad(dt.year as u32, 4);
        out.append(pos.as_str());
    }
    out.append("-");
    out.append(u32_dec_pad(dt.month as u32, 2).as_str());
    out.append("-");
    out.append(u32_dec_pad(dt.day as u32, 2).as_str());
    out.append(" ");
    out.append(u32_dec_pad(dt.hour as u32, 2).as_str());
    out.append(":");
    out.append(u32_dec_pad(dt.minute as u32, 2).as_str());
    proof {
        assert(out@ =~= spec_format_ymd_hm(*dt));
    }
    out
}

} // verus!

use vstd::prelude::*;

use crate::text::decimal;

verus! {

/// The earliest year that a calendar date may have.
pub const MIN_YEAR: i32 = -262143;

/// The latest year that a calendar date may have.
pub const MAX_YEAR: i32 = 262142;

/// A day of the proleptic Gregorian calendar.
#[derive(Clone, Copy, Debug, PartialEq, Eq, Hash)]
pub struct Date {
    pub year: i32,
    pub month: u32,
    pub day: u32,
}

pub open spec fn is_leap_year(y: int) -> bool {
    (y % 4 == 0 && y % 100 != 0) || y % 400 == 0
}

pub open spec fn days_in_month(y: int, m: int) -> int {
    if m == 2 {
        if is_leap_year(y) {
            29
        } else {
            28
        }
    } else if m == 4 || m == 6 || m == 9 || m == 11 {
        30
    } else {
        31
    }
}

/// The text `%Y-%m` as a format string.
pub open spec fn year_month_format() -> Seq<char> {
    seq!['%', 'Y', '-', '%', 'm']
}

/// The text `%Y-%m-%d` as a format string.
pub open spec fn year_month_day_format() -> Seq<char> {
    seq!['%', 'Y', '-', '%', 'm', '-', '%', 'd']
}

/// `n` in decimal, with zeros in front up to `width` digits.
pub open spec fn padded(n: nat, width: nat) -> Seq<char> {
    let d = decimal(n);
    if d.len() >= width {
        d
    } else {
        Seq::new((width - d.len()) as nat, |i: int| '0') + d
    }
}

/// `%Y` of a year: four digits, zero-padded, for years 0 to 9999; otherwise a sign
/// followed by the digits of its magnitude, zero-padded to four.
pub open spec fn year_text(y: int) -> Seq<char> {
    if 0 <= y <= 9999 {
        padded(y as nat, 4)
    } else if y < 0 {
        seq!['-'] + padded((-y) as nat, 4)
    } else {
        seq!['+'] + padded(y as nat, 4)
    }
}

impl Date {
    /// The date is a real calendar day within the supported range of years.
    pub open spec fn wf(self) -> bool {
        MIN_YEAR <= self.year <= MAX_YEAR && 1 <= self.month <= 12 && 1 <= self.day
            <= days_in_month(self.year as int, self.month as int)
    }

    /// The earliest supported date, which has no day before it.
    pub open spec fn is_earliest(self) -> bool {
        self.year == MIN_YEAR && self.month == 1 && self.day == 1
    }

    /// The calendar day before this one.
    pub open spec fn previous(self) -> Date {
        if self.day > 1 {
            Date { year: self.year, month: self.month, day: (self.day - 1) as u32 }
        } else if self.month > 1 {
            Date {
                year: self.year,
                month: (self.month - 1) as u32,
                day: days_in_month(self.year as int, self.month - 1) as u32,
            }
        } else {
            Date { year: (self.year - 1) as i32, month: 12, day: 31 }
        }
    }

    /// `%Y-%m` of the date.
    pub open spec fn year_month(self) -> Seq<char> {
        year_text(self.year as int) + seq!['-'] + padded(self.month as nat, 2)
    }

    /// `%Y-%m-%d` of the date.
    pub open spec fn year_month_day(self) -> Seq<char> {
        self.year_month() + seq!['-'] + padded(self.day as nat, 2)
    }
}

/// Relies on std's `SystemTime::duration_since` on `SystemTime::now()`: the whole
/// seconds since the Unix epoch, `None` where the clock reads earlier.
#[verifier::external_body]
pub(crate) fn unix_seconds() -> (r: Option<u64>)
{
    std::time::SystemTime::now().duration_since(std::time::UNIX_EPOCH).ok().map(|d| d.as_secs())
}

/// Relies on chrono's `DateTime::<Utc>::from_timestamp`: the UTC date of a count of
/// seconds since the Unix epoch, `None` past the range of representable dates.
#[verifier::external_body]
pub(crate) fn date_of_timestamp(secs: u64) -> (r: Option<Date>)
    ensures
        r matches Some(d) ==> d.wf() && d.year >= 1970,
{
    let t = chrono::DateTime::<chrono::Utc>::from_timestamp(i64::try_from(secs).ok()?, 0)?;
    let d = t.date_naive();
    Some(
        Date {
            year: chrono::Datelike::year(&d),
            month: chrono::Datelike::month(&d),
            day: chrono::Datelike::day(&d),
        },
    )
}

/// Relies on chrono's `NaiveDate::pred_opt`: the day before, `None` only for the
/// earliest date.
#[verifier::external_body]
pub(crate) fn previous_day(d: Date) -> (r: Option<Date>)
    requires
        d.wf(),
    ensures
        d.is_earliest() ==> r is None,
        !d.is_earliest() ==> r == Some(d.previous()),
{
    chrono::NaiveDate::from_ymd_opt(d.year, d.month, d.day).unwrap().pred_opt().map(
        |p|
            Date {
                year: chrono::Datelike::year(&p),
                month: chrono::Datelike::month(&p),
                day: chrono::Datelike::day(&p),
            },
    )
}

/// Relies on chrono's `NaiveDate::format` with `%Y-%m` or `%Y-%m-%d`: `%Y` is the
/// year zero-padded to four digits, with a sign outside 0 to 9999; `%m` and `%d` are
/// the month and day zero-padded to two.
#[verifier::external_body]
pub(crate) fn format_date(d: Date, format: &str) -> (r: String)
    requires
        d.wf(),
        format@ == year_month_format() || format@ == year_month_day_format(),
    ensures
        format@ == year_month_format() ==> r@ == d.year_month(),
        format@ == year_month_day_format() ==> r@ == d.year_month_day(),
{
    chrono::NaiveDate::from_ymd_opt(d.year, d.month, d.day).unwrap().format(format).to_string()
}

} // verus!

//! Calendar dates: the proleptic Gregorian calendar of `chrono::NaiveDate`,
//! with the conversions this crate asks of `chrono`.

use vstd::prelude::*;
use chrono::Datelike;
use crate::text::decimal;

verus! {

/// Whether `year` is a leap year of the proleptic Gregorian calendar.
pub open spec fn is_leap_year(year: int) -> bool {
    (year % 4 == 0 && year % 100 != 0) || year % 400 == 0
}

/// The number of days in `month` (1 to 12) of `year`.
pub open spec fn days_in_month(year: int, month: int) -> int {
    if month == 2 {
        if is_leap_year(year) {
            29
        } else {
            28
        }
    } else if month == 4 || month == 6 || month == 9 || month == 11 {
        30
    } else {
        31
    }
}

/// The first year that `chrono::NaiveDate` holds.
pub open spec fn min_year() -> int {
    -262143
}

/// The last year that `chrono::NaiveDate` holds.
pub open spec fn max_year() -> int {
    262142
}

/// Whether year, month and day name a day of the calendar within the range
/// of `chrono::NaiveDate`.
pub open spec fn is_valid_date(year: int, month: int, day: int) -> bool {
    &&& min_year() <= year <= max_year()
    &&& 1 <= month <= 12
    &&& 1 <= day <= days_in_month(year, month)
}

/// The number of days from 1970-01-01 to the given day (negative before it).
pub open spec fn days_from_civil(year: int, month: int, day: int) -> int {
    let y = if month <= 2 {
        year - 1
    } else {
        year
    };
    let era = y / 400;
    let year_of_era = y - era * 400;
    let shifted_month = if month > 2 {
        month - 3
    } else {
        month + 9
    };
    let day_of_year = (153 * shifted_month + 2) / 5 + day - 1;
    let day_of_era = year_of_era * 365 + year_of_era / 4 - year_of_era / 100 + day_of_year;
    era * 146097 + day_of_era - 719468
}

/// A day of the calendar, as `chrono::NaiveDate` holds one: it is always a
/// valid date within `chrono`'s range.
pub struct Date {
    year: i32,
    month: u32,
    day: u32,
}

impl View for Date {
    type V = (i32, u32, u32);

    closed spec fn view(&self) -> (i32, u32, u32) {
        (self.year, self.month, self.day)
    }
}

/// The year, month and day of an optional date.
pub open spec fn date_view(d: Option<Date>) -> Option<(i32, u32, u32)> {
    match d {
        Some(d) => Some(d@),
        None => None,
    }
}

/// `digits` padded on the left with zeros to at least `width` characters.
pub open spec fn zero_padded(digits: Seq<char>, width: nat) -> Seq<char> {
    if digits.len() < width {
        Seq::new((width - digits.len()) as nat, |i: int| '0') + digits
    } else {
        digits
    }
}

/// The year as `chrono` writes `%Y`: four digits at least, and a sign for
/// the years outside 0 to 9999.
pub open spec fn year_text(year: int) -> Seq<char> {
    if 0 <= year <= 9999 {
        zero_padded(decimal(year as nat), 4)
    } else if year > 9999 {
        seq!['+'] + decimal(year as nat)
    } else {
        seq!['-'] + zero_padded(decimal((0 - year) as nat), 4)
    }
}

/// The text `YYYY-MM-DD` of a date, as `chrono` writes `%Y-%m-%d`.
pub open spec fn ymd_text(year: int, month: nat, day: nat) -> Seq<char> {
    year_text(year) + seq!['-'] + zero_padded(decimal(month), 2) + seq!['-'] + zero_padded(
        decimal(day),
        2,
    )
}

impl Date {
    #[verifier::type_invariant]
    spec fn well_formed(self) -> bool {
        is_valid_date(self.year as int, self.month as int, self.day as int)
    }

    /// The date of `year`, `month` and `day` where they name a day of the
    /// calendar within `chrono`'s range, `None` otherwise.
    pub fn from_ymd_opt(year: i32, month: u32, day: u32) -> (r: Option<Date>)
        ensures
            r is Some <==> is_valid_date(year as int, month as int, day as int),
            r matches Some(d) ==> d@ == (year, month, day),
    {
        naive_date_from_ymd_opt(year, month, day)
    }

    /// The year.
    pub fn year(&self) -> (r: i32)
        ensures
            r == self@.0,
    {
        self.year
    }

    /// The month, 1 to 12.
    pub fn month(&self) -> (r: u32)
        ensures
            r == self@.1,
    {
        self.month
    }

    /// The day of the month.
    pub fn day(&self) -> (r: u32)
        ensures
            r == self@.2,
    {
        self.day
    }

    /// The date written as `YYYY-MM-DD`.
    pub fn format_ymd(&self) -> (r: String)
        ensures
            r@ == ymd_text(self@.0 as int, self@.1 as nat, self@.2 as nat),
    {
        naive_date_format_ymd(self)
    }
}

/// `chrono::NaiveDate::from_ymd_opt`: the date of `year`, `month` and `day`
/// where they name a day of the calendar within `chrono`'s range, `None`
/// otherwise, as `chrono` documents it.
#[verifier::external_body]
fn naive_date_from_ymd_opt(year: i32, month: u32, day: u32) -> (r: Option<Date>)
    ensures
        r is Some <==> is_valid_date(year as int, month as int, day as int),
        r matches Some(d) ==> d@ == (year, month, day),
{
    match chrono::NaiveDate::from_ymd_opt(year, month, day) {
        Some(d) => Some(Date { year: d.year(), month: d.month(), day: d.day() }),
        None => None,
    }
}

/// `chrono::NaiveDate::format("%Y-%m-%d").to_string()` on the `NaiveDate`
/// of `d`: the year with at least four digits (and a sign outside 0 to
/// 9999), a dash, the month in two digits, a dash, the day in two digits.
#[verifier::external_body]
fn naive_date_format_ymd(d: &Date) -> (r: String)
    ensures
        r@ == ymd_text(d@.0 as int, d@.1 as nat, d@.2 as nat),
{
    match chrono::NaiveDate::from_ymd_opt(d.year, d.month, d.day) {
        Some(n) => n.format("%Y-%m-%d").to_string(),
        None => String::new(),
    }
}

/// `chrono::DateTime::<Utc>::from_timestamp(secs, 0)` followed by
/// `date_naive()`: the UTC calendar day of a Unix time, `None` where that day
/// lies outside `chrono`'s range.
#[verifier::external_body]
fn chrono_utc_date_of_timestamp(secs: i64) -> (r: Option<Date>)
    ensures
        r is None <==> (secs / 86400 < days_from_civil(min_year(), 1, 1) || secs / 86400
            > days_from_civil(max_year(), 12, 31)),
        r matches Some(d) ==> days_from_civil(d@.0 as int, d@.1 as int, d@.2 as int) == secs
            / 86400,
{
    match chrono::DateTime::<chrono::Utc>::from_timestamp(secs, 0) {
        Some(t) => {
            let d = t.date_naive();
            Some(Date { year: d.year(), month: d.month(), day: d.day() })
        },
        None => None,
    }
}

/// The UTC calendar day of a Unix time, `None` where that day lies outside
/// `chrono`'s range.
pub(crate) fn utc_date_of_timestamp(secs: i64) -> (r: Option<Date>)
    ensures
        r is None <==> (secs / 86400 < days_from_civil(min_year(), 1, 1) || secs / 86400
            > days_from_civil(max_year(), 12, 31)),
        r matches Some(d) ==> days_from_civil(d@.0 as int, d@.1 as int, d@.2 as int) == secs
            / 86400,
        r matches Some(d) ==> is_valid_date(d@.0 as int, d@.1 as int, d@.2 as int),
{
    let r = chrono_utc_date_of_timestamp(secs);
    if let Some(d) = &r {
        proof {
            use_type_invariant(d);
        }
    }
    r
}

} // verus!

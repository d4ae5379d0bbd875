//! Calendar dates as plain year, month and day numbers.
//!
//! [`Date`] is the executable date. Its mathematical model is [`Ymd`], over
//! which every contract of this crate that speaks of dates is written. The
//! date arithmetic is `chrono`'s: each operation below converts to a
//! `chrono::NaiveDate`, calls `chrono`, and converts back. The clock is read
//! in one place, [`Date::today`].

use chrono::{Datelike, Days, Months, NaiveDate, Utc};
use vstd::prelude::*;

verus! {

/// The first year that a [`Date`] can hold.
pub const MIN_YEAR: i32 = -262143;

/// The last year that a [`Date`] can hold.
pub const MAX_YEAR: i32 = 262142;

/// Whether `year` is a leap year of the proleptic Gregorian calendar.
pub open spec fn is_leap_year(year: int) -> bool {
    year % 4 == 0 && (year % 100 != 0 || year % 400 == 0)
}

/// The number of days of `month` in `year`; 0 where `month` is no month.
pub open spec fn month_length(year: int, month: int) -> int {
    if month < 1 || month > 12 {
        0
    } else if month == 2 {
        if is_leap_year(year) {
            29
        } else {
            28
        }
    } else if month == 4 || month == 6 || month == 9 || month == 11 {
        30
    } else {
        31
    }
}

/// The number of days between 0001-01-01 and the first day of `year`.
pub open spec fn days_before_year(year: int) -> int {
    let y = year - 1;
    365 * y + y / 4 - y / 100 + y / 400
}

/// The number of days of `year` that lie before the first day of `month`.
pub open spec fn days_before_month(year: int, month: int) -> int {
    let common: int = if month <= 1 {
        0
    } else if month == 2 {
        31
    } else if month == 3 {
        59
    } else if month == 4 {
        90
    } else if month == 5 {
        120
    } else if month == 6 {
        151
    } else if month == 7 {
        181
    } else if month == 8 {
        212
    } else if month == 9 {
        243
    } else if month == 10 {
        273
    } else if month == 11 {
        304
    } else {
        334
    };
    if month > 2 && is_leap_year(year) {
        common + 1
    } else {
        common
    }
}

/// A calendar date as three mathematical integers: the model of [`Date`].
pub struct Ymd {
    pub year: int,
    pub month: int,
    pub day: int,
}

impl Ymd {
    /// The date exists in the calendar and its year is one a [`Date`] can hold.
    pub open spec fn valid(self) -> bool {
        &&& MIN_YEAR <= self.year <= MAX_YEAR
        &&& 1 <= self.month <= 12
        &&& 1 <= self.day <= month_length(self.year, self.month)
    }

    /// `self` is strictly earlier than `other`.
    pub open spec fn before(self, other: Ymd) -> bool {
        ||| self.year < other.year
        ||| self.year == other.year && self.month < other.month
        ||| self.year == other.year && self.month == other.month && self.day < other.day
    }

    /// `self` is `other` or earlier.
    pub open spec fn not_after(self, other: Ymd) -> bool {
        !other.before(self)
    }

    /// The months since year 0, counted from 0 for its January.
    pub open spec fn month_index(self) -> int {
        self.year * 12 + self.month - 1
    }

    /// The day's number, 1 for 0001-01-01.
    pub open spec fn day_number(self) -> int {
        days_before_year(self.year) + days_before_month(self.year, self.month) + self.day
    }

    /// The same month with the day replaced, where that day exists.
    pub open spec fn with_day(self, day: int) -> Option<Ymd> {
        let d = Ymd { year: self.year, month: self.month, day };
        if d.valid() {
            Some(d)
        } else {
            None
        }
    }

    /// The same year and day with the month replaced, where that date exists.
    pub open spec fn with_month(self, month: int) -> Option<Ymd> {
        let d = Ymd { year: self.year, month, day: self.day };
        if d.valid() {
            Some(d)
        } else {
            None
        }
    }

    /// The date `months` months later, its day lowered to the last day of the
    /// month reached where that month is shorter; `None` past [`MAX_YEAR`].
    pub open spec fn plus_months(self, months: int) -> Option<Ymd> {
        let index = self.month_index() + months;
        let year = index / 12;
        let month = index % 12 + 1;
        let length = month_length(year, month);
        let day = if self.day > length {
            length
        } else {
            self.day
        };
        if MIN_YEAR <= year <= MAX_YEAR {
            Some(Ymd { year, month, day })
        } else {
            None
        }
    }

    /// The following day; `None` after the last day of [`MAX_YEAR`].
    pub open spec fn next_day(self) -> Option<Ymd> {
        if self.day < month_length(self.year, self.month) {
            Some(Ymd { year: self.year, month: self.month, day: self.day + 1 })
        } else if self.month < 12 {
            Some(Ymd { year: self.year, month: self.month + 1, day: 1 })
        } else if self.year < MAX_YEAR {
            Some(Ymd { year: self.year + 1, month: 1, day: 1 })
        } else {
            None
        }
    }
}

/// A calendar date between the first day of [`MIN_YEAR`] and the last day of
/// [`MAX_YEAR`]. Every value is an existing date.
#[derive(Clone, Copy, Debug, PartialEq, Eq, Hash, Structural)]
pub struct Date {
    year: i32,
    month: u32,
    day: u32,
}

impl View for Date {
    type V = Ymd;

    closed spec fn view(&self) -> Ymd {
        Ymd { year: self.year as int, month: self.month as int, day: self.day as int }
    }
}

/// `NaiveDate::from_ymd_opt`: the date of these three numbers where it exists
/// in the calendar and its year lies in `chrono`'s range, else `None`.
#[verifier::external_body]
fn naive_from_ymd(year: i32, month: u32, day: u32) -> (r: Option<Date>)
    ensures
        r is Some <==> (Ymd { year: year as int, month: month as int, day: day as int }).valid(),
        r matches Some(d) ==> d@ == (Ymd { year: year as int, month: month as int, day: day as int }),
{
    let d = NaiveDate::from_ymd_opt(year, month, day)?;
    Some(Date { year: d.year(), month: d.month(), day: d.day() })
}

/// The model of an optional date.
pub open spec fn model(date: Option<Date>) -> Option<Ymd> {
    match date {
        Some(d) => Some(d@),
        None => None,
    }
}

/// `Datelike::with_day` on a `NaiveDate`: the date with its day of the month
/// replaced, `None` where the month has no such day.
#[verifier::external_body]
fn naive_with_day(date: Date, day: u32) -> (r: Option<Date>)
    requires
        date@.valid(),
    ensures
        model(r) == date@.with_day(day as int),
{
    let d = NaiveDate::from_ymd_opt(date.year, date.month, date.day)?.with_day(day)?;
    Some(Date { year: d.year(), month: d.month(), day: d.day() })
}

/// `Datelike::with_month` on a `NaiveDate`: the date with its month replaced,
/// `None` where there is no such month or it has no such day.
#[verifier::external_body]
fn naive_with_month(date: Date, month: u32) -> (r: Option<Date>)
    requires
        date@.valid(),
    ensures
        model(r) == date@.with_month(month as int),
{
    let d = NaiveDate::from_ymd_opt(date.year, date.month, date.day)?.with_month(month)?;
    Some(Date { year: d.year(), month: d.month(), day: d.day() })
}

/// `NaiveDate::checked_add_months`: the date that many months later, on the
/// last day of the month reached where the day does not exist in it; `None`
/// where the year reached is out of `chrono`'s range.
#[verifier::external_body]
fn naive_add_months(date: Date, months: u32) -> (r: Option<Date>)
    requires
        date@.valid(),
    ensures
        model(r) == date@.plus_months(months as int),
{
    let d = NaiveDate::from_ymd_opt(date.year, date.month, date.day)?
        .checked_add_months(Months::new(months))?;
    Some(Date { year: d.year(), month: d.month(), day: d.day() })
}

/// `NaiveDate::checked_add_days` with one day: the following day, `None`
/// after the last day of `chrono`'s range.
#[verifier::external_body]
fn naive_next_day(date: Date) -> (r: Option<Date>)
    requires
        date@.valid(),
    ensures
        model(r) == date@.next_day(),
{
    let d = NaiveDate::from_ymd_opt(date.year, date.month, date.day)?
        .checked_add_days(Days::new(1))?;
    Some(Date { year: d.year(), month: d.month(), day: d.day() })
}

/// `NaiveDate::signed_duration_since` and `TimeDelta::num_days`: the number
/// of days from `from` to `to`, negative where `to` is the earlier one. Two
/// dates always have one.
#[verifier::external_body]
fn naive_days_between(from: Date, to: Date) -> (r: Option<i64>)
    requires
        from@.valid(),
        to@.valid(),
    ensures
        r is Some,
        r matches Some(days) ==> days == to@.day_number() - from@.day_number(),
{
    let a = NaiveDate::from_ymd_opt(from.year, from.month, from.day)?;
    let b = NaiveDate::from_ymd_opt(to.year, to.month, to.day)?;
    Some(b.signed_duration_since(a).num_days())
}

/// `Utc::now` and `DateTime::date_naive`: the day it is by the clock, in UTC.
/// Which day that is is left open; it is a date of the calendar in `chrono`'s
/// range.
#[verifier::external_body]
fn utc_today() -> (r: Date)
    ensures
        r@.valid(),
{
    let d = Utc::now().date_naive();
    Date { year: d.year(), month: d.month(), day: d.day() }
}

impl Date {
    /// Every `Date` is a valid date.
    #[verifier::type_invariant]
    pub open spec fn inv(self) -> bool {
        self@.valid()
    }

    /// The day it is by the clock, in UTC.
    pub fn today() -> (r: Date)
        ensures
            r@.valid(),
    {
        utc_today()
    }

    /// The date of the given year, month and day, where there is one.
    pub fn from_ymd(year: i32, month: u32, day: u32) -> (r: Option<Date>)
        ensures
            r is Some <==> (Ymd { year: year as int, month: month as int, day: day as int }).valid(),
            r matches Some(d) ==> d@ == (Ymd { year: year as int, month: month as int, day: day as int }),
    {
        naive_from_ymd(year, month, day)
    }

    pub fn year(&self) -> (r: i32)
        ensures
            r == self@.year,
            MIN_YEAR <= r <= MAX_YEAR,
    {
        proof {
            use_type_invariant(self);
        }
        self.year
    }

    pub fn month(&self) -> (r: u32)
        ensures
            r == self@.month,
            1 <= r <= 12,
    {
        proof {
            use_type_invariant(self);
        }
        self.month
    }

    pub fn day(&self) -> (r: u32)
        ensures
            r == self@.day,
            1 <= r <= 31,
    {
        proof {
            use_type_invariant(self);
        }
        self.day
    }

    /// Whether `self` is strictly earlier than `other`.
    pub fn is_before(&self, other: &Date) -> (r: bool)
        ensures
            r == self@.before(other@),
    {
        self.year < other.year || (self.year == other.year && (self.month < other.month || (
        self.month == other.month && self.day < other.day)))
    }

    /// The same month with the day replaced; `None` where the month has no
    /// such day.
    pub fn with_day(&self, day: u32) -> (r: Option<Date>)
        ensures
            model(r) == self@.with_day(day as int),
    {
        proof {
            use_type_invariant(self);
        }
        naive_with_day(*self, day)
    }

    /// The same year and day with the month replaced; `None` where there is
    /// no such month or it has no such day.
    pub fn with_month(&self, month: u32) -> (r: Option<Date>)
        ensures
            model(r) == self@.with_month(month as int),
    {
        proof {
            use_type_invariant(self);
        }
        naive_with_month(*self, month)
    }

    /// The date `months` months later, on the last day of the month reached
    /// where that month is shorter; `None` past the last year.
    pub fn checked_add_months(&self, months: u32) -> (r: Option<Date>)
        ensures
            model(r) == self@.plus_months(months as int),
    {
        proof {
            use_type_invariant(self);
        }
        naive_add_months(*self, months)
    }

    /// The following day; `None` after the last day of the last year.
    pub fn succ(&self) -> (r: Option<Date>)
        ensures
            model(r) == self@.next_day(),
    {
        proof {
            use_type_invariant(self);
        }
        naive_next_day(*self)
    }

    /// The number of days from `self` to `other`, negative where `other` is
    /// the earlier one.
    pub fn days_until(&self, other: &Date) -> (r: i64)
        ensures
            r == other@.day_number() - self@.day_number(),
    {
        proof {
            use_type_invariant(self);
            use_type_invariant(other);
        }
        naive_days_between(*self, *other).unwrap()
    }

    /// The number of days of `month` in `year`; 0 where `month` is no month.
    pub fn days_in(year: i32, month: u32) -> (r: u32)
        ensures
            r == month_length(year as int, month as int),
    {
        if month < 1 || month > 12 {
            0
        } else if month == 2 {
            if year % 4 == 0 && (year % 100 != 0 || year % 400 == 0) {
                29
            } else {
                28
            }
        } else if month == 4 || month == 6 || month == 9 || month == 11 {
            30
        } else {
            31
        }
    }
}

/// Every fourth, hundredth and four hundredth number adds one to the
/// quotient by 4, by 100 and by 400.
proof fn lemma_quotient_steps(y: int)
    ensures
        y / 4 - (y - 1) / 4 == if y % 4 == 0 { 1int } else { 0int },
        y / 100 - (y - 1) / 100 == if y % 100 == 0 { 1int } else { 0int },
        y / 400 - (y - 1) / 400 == if y % 400 == 0 { 1int } else { 0int },
        y % 400 == 0 ==> y % 100 == 0,
        y % 100 == 0 ==> y % 4 == 0,
{
    if y % 400 == 0 {
        assert(y == 100 * (4 * (y / 400)));
    }
    if y % 100 == 0 {
        assert(y == 4 * (25 * (y / 100)));
    }
}

/// A year has 365 days, a leap year 366.
pub proof fn lemma_year_length(year: int)
    ensures
        days_before_year(year + 1) == days_before_year(year) + if is_leap_year(year) {
            366int
        } else {
            365int
        },
{
    lemma_quotient_steps(year);
}

/// Later years begin later, by at least 365 and at most 366 days a year.
pub proof fn lemma_years_ordered(a: int, b: int)
    requires
        a <= b,
    ensures
        365 * (b - a) <= days_before_year(b) - days_before_year(a) <= 366 * (b - a),
    decreases b - a,
{
    if a < b {
        lemma_years_ordered(a, b - 1);
        lemma_year_length(b - 1);
    }
}

/// The day number orders valid dates as the calendar does.
pub proof fn lemma_day_number_ordered(a: Ymd, b: Ymd)
    requires
        a.valid(),
        b.valid(),
    ensures
        a.before(b) <==> a.day_number() < b.day_number(),
        a == b <==> a.day_number() == b.day_number(),
{
    if a.year < b.year {
        lemma_year_length(a.year);
        lemma_years_ordered(a.year + 1, b.year);
    } else if b.year < a.year {
        lemma_year_length(b.year);
        lemma_years_ordered(b.year + 1, a.year);
    }
}

/// Any two valid dates lie fewer than 200 million days apart.
pub proof fn lemma_day_span(a: Ymd, b: Ymd)
    requires
        a.valid(),
        b.valid(),
    ensures
        b.day_number() - a.day_number() < 200_000_000,
{
    if a.year <= b.year {
        lemma_years_ordered(a.year, b.year);
    } else {
        lemma_years_ordered(b.year, a.year);
    }
}

/// What `plus_months` reaches from a valid date is a valid date of the month
/// that many months later, on the same day of the month or an earlier one.
pub proof fn lemma_plus_months(date: Ymd, months: int)
    requires
        date.valid(),
        0 <= months,
    ensures
        date.plus_months(months) matches Some(d) ==> {
            &&& d.valid()
            &&& d.month_index() == date.month_index() + months
            &&& d.day <= date.day
            &&& (months == 0 ==> d == date)
            &&& (months > 0 ==> date.before(d))
        },
        date.plus_months(months) is None <==> date.month_index() + months > MAX_YEAR * 12 + 11,
{
}

/// The day after a valid date is the earliest date after it.
pub proof fn lemma_next_day(date: Ymd, other: Ymd)
    requires
        date.valid(),
        other.valid(),
    ensures
        date.next_day() matches Some(n) ==> n.valid() && (other.before(n) <==> other.not_after(
            date,
        )),
        date.next_day() is None ==> other.not_after(date),
{
}

} // verus!

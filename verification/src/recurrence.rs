//! Recurrence rules and the count of their occurrences between two dates.

use crate::calendar::{
    lemma_day_number_ordered, lemma_day_span, lemma_next_day, lemma_plus_months, model,
    month_length, Date, Ymd,
};
use vstd::prelude::*;

verus! {

/// The days of month `m` in a year that is no leap year; 0 where `m` is no
/// month.
pub open spec fn common_month_length(m: int) -> int {
    if m < 1 || m > 12 {
        0
    } else if m == 2 {
        28
    } else if m == 4 || m == 6 || m == 9 || m == 11 {
        30
    } else {
        31
    }
}

/// Returns the amount of days in a month, leap years left aside.
pub fn days_in_month(m: u8) -> (r: u8)
    ensures
        r == common_month_length(m as int),
{
    match m {
        1 => 31,
        2 => 28,
        3 => 31,
        4 => 30,
        5 => 31,
        6 => 30,
        7 => 31,
        8 => 31,
        9 => 30,
        10 => 31,
        11 => 30,
        12 => 31,
        _ => 0,
    }
}

/// The kind of a recurrence, without its numbers.
#[derive(Debug, Clone, Copy, PartialEq, Eq, Hash, Structural)]
pub enum SimpleRecurrence {
    Day,
    Month,
    Year,
}

/// A repeating schedule.
#[derive(Debug, Clone, Copy, PartialEq, Eq, Hash, Structural)]
pub enum Recurrence {
    /// Amount of days
    Day(u8),
    /// Day of the month, amount of months
    Month(u8, u8),
    /// Day of the month, month of the year, amount of years
    Year(u8, u8, u8),
}

/// Why a recurrence is refused.
#[derive(Debug, Clone, Copy, PartialEq, Eq, Hash, Structural)]
pub enum InvalidRule {
    /// The rule repeats every 0 days, months or years.
    ZeroInterval,
    /// The day of the month is not one of 1 to 31.
    DayOutOfRange,
    /// The month of the year is not one of 1 to 12.
    MonthOutOfRange,
}

impl InvalidRule {
    /// A sentence that says what is wrong with the rule.
    pub fn message(&self) -> (r: String)
        ensures
            r@ == match *self {
                InvalidRule::ZeroInterval => "the interval of a recurrence must be at least 1"@,
                InvalidRule::DayOutOfRange => "the day of the month must be between 1 and 31"@,
                InvalidRule::MonthOutOfRange => "the month of the year must be between 1 and 12"@,
            },
    {
        match self {
            InvalidRule::ZeroInterval => "the interval of a recurrence must be at least 1".to_owned(),
            InvalidRule::DayOutOfRange => "the day of the month must be between 1 and 31".to_owned(),
            InvalidRule::MonthOutOfRange => "the month of the year must be between 1 and 12".to_owned(),
        }
    }
}

/// `day`, lowered to the last day of `month` in `year` where that month is
/// shorter.
pub open spec fn clamped_day(day: int, year: int, month: int) -> int {
    if day > month_length(year, month) {
        month_length(year, month)
    } else {
        day
    }
}

impl Recurrence {
    /// The rule that the four numbers of a form describe, unchecked.
    pub open spec fn assemble(value: SimpleRecurrence, days: u8, months: u8, years: u8) -> Recurrence {
        match value {
            SimpleRecurrence::Day => Recurrence::Day(days),
            SimpleRecurrence::Month => Recurrence::Month(days, months),
            SimpleRecurrence::Year => Recurrence::Year(days, months, years),
        }
    }

    /// The rule's interval: a number of days, months or years.
    pub open spec fn interval(self) -> int {
        match self {
            Recurrence::Day(n) => n as int,
            Recurrence::Month(_, n) => n as int,
            Recurrence::Year(_, _, n) => n as int,
        }
    }

    /// What is wrong with the rule: the interval is looked at first, then the
    /// day of the month, then the month. `None` for a rule that can be used.
    pub open spec fn defect(self) -> Option<InvalidRule> {
        if self.interval() == 0 {
            Some(InvalidRule::ZeroInterval)
        } else {
            match self {
                Recurrence::Day(_) => None,
                Recurrence::Month(day, _) => if 1 <= day <= 31 {
                    None
                } else {
                    Some(InvalidRule::DayOutOfRange)
                },
                Recurrence::Year(day, month, _) => if !(1 <= day <= 31) {
                    Some(InvalidRule::DayOutOfRange)
                } else if !(1 <= month <= 12) {
                    Some(InvalidRule::MonthOutOfRange)
                } else {
                    None
                },
            }
        }
    }

    /// The interval is at least 1 and the anchor is a day of 1 to 31, in a
    /// month of 1 to 12.
    pub open spec fn valid(self) -> bool {
        self.defect() is None
    }

    /// The months between two occurrences of a monthly or yearly rule.
    pub open spec fn step(self) -> int {
        match self {
            Recurrence::Day(_) => 0,
            Recurrence::Month(_, n) => n as int,
            Recurrence::Year(_, _, n) => 12 * n,
        }
    }

    /// The first candidate of a monthly or yearly rule: the anchor day in the
    /// month of `from`, or in the anchor month of the year of `from`, on the
    /// month's last day where the month is shorter than the anchor day asks.
    pub open spec fn anchor(self, from: Ymd) -> Ymd {
        match self {
            Recurrence::Day(_) => from,
            Recurrence::Month(day, _) => Ymd {
                year: from.year,
                month: from.month,
                day: clamped_day(day as int, from.year, from.month),
            },
            Recurrence::Year(day, month, _) => Ymd {
                year: from.year,
                month: month as int,
                day: clamped_day(day as int, from.year, month as int),
            },
        }
    }

    /// Creates a recurrence from a simple recurrence.
    ///
    /// `days` is the amount of days of a `Day` recurrence and the day of the
    /// month otherwise; `months` is the amount of months of a `Month`
    /// recurrence and the month of the year of a `Year` recurrence; `years`
    /// is the amount of years of a `Year` recurrence. A rule that cannot be
    /// used is refused.
    pub fn from_simple_recurrence(value: SimpleRecurrence, days: u8, months: u8, years: u8) -> (r:
        Result<Self, InvalidRule>)
        ensures
            match r {
                Ok(rule) => rule == Self::assemble(value, days, months, years) && rule.valid(),
                Err(e) => Self::assemble(value, days, months, years).defect() == Some(e),
            },
    {
        let rule = match value {
            SimpleRecurrence::Day => Self::Day(days),
            SimpleRecurrence::Month => Self::Month(days, months),
            SimpleRecurrence::Year => Self::Year(days, months, years),
        };
        match rule.check() {
            Ok(()) => Ok(rule),
            Err(e) => Err(e),
        }
    }

    /// Says whether the rule can be used, and if not, why.
    pub fn check(&self) -> (r: Result<(), InvalidRule>)
        ensures
            match r {
                Ok(_) => self.valid(),
                Err(e) => self.defect() == Some(e),
            },
    {
        match *self {
            Recurrence::Day(n) => {
                if n == 0 {
                    Err(InvalidRule::ZeroInterval)
                } else {
                    Ok(())
                }
            },
            Recurrence::Month(day, n) => {
                if n == 0 {
                    Err(InvalidRule::ZeroInterval)
                } else if day < 1 || day > 31 {
                    Err(InvalidRule::DayOutOfRange)
                } else {
                    Ok(())
                }
            },
            Recurrence::Year(day, month, n) => {
                if n == 0 {
                    Err(InvalidRule::ZeroInterval)
                } else if day < 1 || day > 31 {
                    Err(InvalidRule::DayOutOfRange)
                } else if month < 1 || month > 12 {
                    Err(InvalidRule::MonthOutOfRange)
                } else {
                    Ok(())
                }
            },
        }
    }

    /// The name of the rule's kind.
    pub fn to_simple_str(&self) -> (r: &'static str)
        ensures
            r@ == match *self {
                Recurrence::Day(_) => "Day"@,
                Recurrence::Month(_, _) => "Month"@,
                Recurrence::Year(_, _, _) => "Year"@,
            },
    {
        match self {
            Self::Day(_) => "Day",
            Self::Month(_, _) => "Month",
            Self::Year(_, _, _) => "Year",
        }
    }
}

/// The number of candidates that are not after `to`, where the candidates are
/// `first` and every date that `plus_months` reaches from the candidate
/// before it in `step` months. A candidate from which the next one would lie
/// past the last year is the last one. (Of two dates that exist, the one that
/// is not after the other does not lie in a later month: the second
/// condition only makes the count end for any three numbers.)
pub open spec fn count_from(first: Ymd, to: Ymd, step: int) -> nat
    decreases to.month_index() - first.month_index() + step,
{
    if step >= 1 && first.month_index() <= to.month_index() && first.not_after(to) {
        match first.plus_months(step) {
            Some(next) => 1 + count_from(next, to, step),
            None => 1,
        }
    } else {
        0
    }
}

/// How many times `rule` occurs from `from` through `to`.
///
/// A daily rule occurs once every full interval of days that fits between the
/// two dates, and never where `to` is not after `from`. A monthly or yearly
/// rule starts from its anchor in the month (or year) of `from`: an anchor
/// before `from` is skipped, the candidates then follow one interval apart;
/// an anchor that is not before `from` counts once as the first occurrence,
/// and the candidates that start with it are counted after that.
pub open spec fn occurrences(rule: Recurrence, from: Ymd, to: Ymd) -> nat {
    match rule {
        Recurrence::Day(n) => {
            let days = to.day_number() - from.day_number();
            if days > 0 && n >= 1 {
                (days / (n as int)) as nat
            } else {
                0
            }
        },
        _ => {
            let anchor = rule.anchor(from);
            if anchor.before(from) {
                match anchor.plus_months(rule.step()) {
                    Some(next) => count_from(next, to, rule.step()),
                    None => 0,
                }
            } else {
                1 + count_from(anchor, to, rule.step())
            }
        },
    }
}

/// No more candidates are counted than there are steps between the months of
/// the first one and of `to`.
pub proof fn lemma_count_from_bounded(first: Ymd, to: Ymd, step: int)
    requires
        first.valid(),
    ensures
        count_from(first, to, step) <= to.month_index() - first.month_index() + 1 || count_from(
            first,
            to,
            step,
        ) == 0,
    decreases to.month_index() - first.month_index() + step,
{
    if step >= 1 && first.month_index() <= to.month_index() && first.not_after(to) {
        lemma_plus_months(first, step);
        match first.plus_months(step) {
            Some(next) => {
                lemma_count_from_bounded(next, to, step);
            },
            None => {},
        }
    }
}

/// A valid rule occurs fewer than 200 million times between any two dates.
pub proof fn lemma_occurrences_bounded(rule: Recurrence, from: Ymd, to: Ymd)
    requires
        rule.valid(),
        from.valid(),
        to.valid(),
    ensures
        occurrences(rule, from, to) < 200_000_000,
{
    match rule {
        Recurrence::Day(n) => {
            lemma_day_span(from, to);
            let days = to.day_number() - from.day_number();
            if days > 0 {
                assert(days / (n as int) <= days) by (nonlinear_arith)
                    requires
                        days > 0,
                        n >= 1,
                ;
            }
        },
        _ => {
            let anchor = rule.anchor(from);
            lemma_plus_months(anchor, rule.step());
            if anchor.before(from) {
                match anchor.plus_months(rule.step()) {
                    Some(next) => {
                        lemma_count_from_bounded(next, to, rule.step());
                    },
                    None => {},
                }
            } else {
                lemma_count_from_bounded(anchor, to, rule.step());
            }
        },
    }
}

/// With a later end, no fewer candidates are counted.
pub proof fn lemma_count_from_monotonic(first: Ymd, to: Ymd, later: Ymd, step: int)
    requires
        first.valid(),
        to.valid(),
        later.valid(),
        to.not_after(later),
    ensures
        count_from(first, to, step) <= count_from(first, later, step),
    decreases to.month_index() - first.month_index() + step,
{
    if step >= 1 && first.month_index() <= to.month_index() && first.not_after(to) {
        lemma_plus_months(first, step);
        match first.plus_months(step) {
            Some(next) => {
                lemma_count_from_monotonic(next, to, later, step);
            },
            None => {},
        }
    }
}

/// The count of occurrences does not decrease as the end of the window moves
/// later while its start stays.
pub proof fn lemma_occurrences_monotonic(rule: Recurrence, from: Ymd, to: Ymd, later: Ymd)
    requires
        rule.valid(),
        from.valid(),
        to.valid(),
        later.valid(),
        to.not_after(later),
    ensures
        occurrences(rule, from, to) <= occurrences(rule, from, later),
{
    match rule {
        Recurrence::Day(n) => {
            lemma_day_number_ordered(to, later);
            let a = to.day_number() - from.day_number();
            let b = later.day_number() - from.day_number();
            if a > 0 {
                assert(a / (n as int) <= b / (n as int)) by (nonlinear_arith)
                    requires
                        0 < a <= b,
                        n >= 1,
                ;
            }
        },
        _ => {
            let anchor = rule.anchor(from);
            lemma_plus_months(anchor, rule.step());
            if anchor.before(from) {
                match anchor.plus_months(rule.step()) {
                    Some(next) => {
                        lemma_count_from_monotonic(next, to, later, rule.step());
                    },
                    None => {},
                }
            } else {
                lemma_count_from_monotonic(anchor, to, later, rule.step());
            }
        },
    }
}

/// A rule of every day occurs once for each day that follows `from`, up to
/// and including `to`.
pub proof fn lemma_daily_occurrences(from: Ymd, to: Ymd)
    requires
        from.valid(),
        to.valid(),
    ensures
        from.before(to) ==> occurrences(Recurrence::Day(1), from, to) == to.day_number()
            - from.day_number(),
        !from.before(to) ==> occurrences(Recurrence::Day(1), from, to) == 0,
{
    lemma_day_number_ordered(from, to);
}

/// Month by month, every candidate up to the month of `to` is counted where
/// the first one falls on a day of the month that is not after the day of
/// `to`.
pub proof fn lemma_count_every_month(first: Ymd, to: Ymd)
    requires
        first.valid(),
        to.valid(),
        first.month_index() <= to.month_index(),
        first.day <= to.day,
    ensures
        count_from(first, to, 1) == to.month_index() - first.month_index() + 1,
    decreases to.month_index() - first.month_index(),
{
    lemma_plus_months(first, 1);
    match first.plus_months(1) {
        Some(next) => {
            if first.month_index() < to.month_index() {
                lemma_count_every_month(next, to);
            }
        },
        None => {},
    }
}

/// A rule of every month occurs exactly 12 times in a window of 12 months
/// that opens after the rule's day of the month has passed: `to` is the date
/// 12 months after `from`, and the anchor day lies before the day of `from`.
pub proof fn lemma_monthly_occurrences_in_a_year(day: u8, from: Ymd, to: Ymd)
    requires
        1 <= day <= 31,
        from.valid(),
        from.plus_months(12) == Some(to),
        clamped_day(day as int, from.year, from.month) < from.day,
    ensures
        occurrences(Recurrence::Month(day, 1), from, to) == 12,
{
    let rule = Recurrence::Month(day, 1);
    let anchor = rule.anchor(from);
    lemma_plus_months(from, 12);
    lemma_plus_months(anchor, 1);
    let next = anchor.plus_months(1).unwrap();
    lemma_count_every_month(next, to);
}

/// The first candidate of a monthly or yearly rule.
fn first_candidate(rule: Recurrence, from: Date) -> (r: Date)
    requires
        rule.valid(),
    ensures
        r@ == rule.anchor(from@),
{
    proof {
        use_type_invariant(&from);
    }
    match rule {
        Recurrence::Day(_) => from,
        Recurrence::Month(day, _) => {
            let length = Date::days_in(from.year(), from.month());
            let day: u32 = if day as u32 > length {
                length
            } else {
                day as u32
            };
            from.with_day(day).unwrap()
        },
        Recurrence::Year(day, month, _) => {
            let length = Date::days_in(from.year(), month as u32);
            let day: u32 = if day as u32 > length {
                length
            } else {
                day as u32
            };
            from.with_day(1).unwrap().with_month(month as u32).unwrap().with_day(day).unwrap()
        },
    }
}

/// Whether `date` lies before `target`, the day after the last day counted;
/// no `target` stands for a day after every date.
fn before_target(date: &Date, target: &Option<Date>) -> (r: bool)
    ensures
        r == match *target {
            Some(t) => date@.before(t@),
            None => true,
        },
{
    match target {
        Some(t) => date.is_before(t),
        None => true,
    }
}

/// Returns the amount of times the recurrence occurs between the two given
/// dates, or why the recurrence cannot be used.
pub fn times_until(recurrence: Recurrence, from: Date, to: Date) -> (r: Result<u32, InvalidRule>)
    ensures
        match r {
            Ok(times) => recurrence.valid() && times == occurrences(recurrence, from@, to@),
            Err(e) => recurrence.defect() == Some(e),
        },
{
    if let Err(e) = recurrence.check() {
        return Err(e);
    }
    proof {
        use_type_invariant(&from);
        use_type_invariant(&to);
        lemma_occurrences_bounded(recurrence, from@, to@);
    }
    match recurrence {
        Recurrence::Day(each_days) => {
            let days = from.days_until(&to);
            if days <= 0 {
                Ok(0)
            } else {
                Ok((days / (each_days as i64)) as u32)
            }
        },
        _ => {
            let step: u32 = match recurrence {
                Recurrence::Year(_, _, each_years) => each_years as u32 * 12,
                Recurrence::Month(_, each_months) => each_months as u32,
                Recurrence::Day(_) => 0,
            };
            let mut start = first_candidate(recurrence, from);
            let mut times: u32 = 0;
            if start.is_before(&from) {
                match start.checked_add_months(step) {
                    Some(next) => {
                        start = next;
                    },
                    None => {
                        return Ok(0);
                    },
                }
            } else {
                times = 1;
            }
            let target = to.succ();
            let ghost total = occurrences(recurrence, from@, to@);
            while before_target(&start, &target)
                invariant
                    step >= 1,
                    to@.valid(),
                    model(target) == to@.next_day(),
                    recurrence.valid(),
                    total == occurrences(recurrence, from@, to@),
                    total < 200_000_000,
                    times + count_from(start@, to@, step as int) == total,
                decreases to@.month_index() - start@.month_index() + step,
            {
                proof {
                    use_type_invariant(&start);
                    lemma_next_day(to@, start@);
                    lemma_plus_months(start@, step as int);
                }
                times += 1;
                match start.checked_add_months(step) {
                    Some(next) => {
                        start = next;
                    },
                    None => {
                        return Ok(times);
                    },
                }
            }
            proof {
                use_type_invariant(&start);
                lemma_next_day(to@, start@);
            }
            Ok(times)
        },
    }
}

} // verus!

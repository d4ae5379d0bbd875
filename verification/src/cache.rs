//! A cache for occurrence counts, owned by whoever counts often. Counting
//! through the cache gives what counting without it gives.

use crate::calendar::{Date, Ymd, MIN_YEAR};
use crate::recurrence::{occurrences, times_until, InvalidRule, Recurrence};
use std::collections::HashMap;
use vstd::prelude::*;

verus! {

/// A number that stands for a rule and for no other rule.
pub open spec fn rule_code(rule: Recurrence) -> int {
    match rule {
        Recurrence::Day(days) => days as int,
        Recurrence::Month(day, months) => 0x100_0000 + day * 0x100 + months,
        Recurrence::Year(day, month, years) => 0x200_0000 + day * 0x1_0000 + month * 0x100 + years,
    }
}

/// A number that stands for a valid date and for no other valid date.
pub open spec fn date_code(date: Ymd) -> int {
    ((date.year - MIN_YEAR) * 16 + date.month) * 32 + date.day
}

/// A number that stands for a rule and a window, and for no other.
pub open spec fn window_code(rule: Recurrence, from: Ymd, to: Ymd) -> int {
    (rule_code(rule) * 0x1000_0000 + date_code(from)) * 0x1000_0000 + date_code(to)
}

/// Two windows with one code are one window.
pub proof fn lemma_window_code_decides(
    rule: Recurrence,
    from: Ymd,
    to: Ymd,
    other_rule: Recurrence,
    other_from: Ymd,
    other_to: Ymd,
)
    requires
        from.valid(),
        to.valid(),
        other_from.valid(),
        other_to.valid(),
        window_code(rule, from, to) == window_code(other_rule, other_from, other_to),
    ensures
        rule == other_rule,
        from == other_from,
        to == other_to,
        0 <= window_code(rule, from, to) < 0x4_0000_0000_0000_0000_0000,
{
    assert(0 <= date_code(from) < 0x1000_0000);
    assert(0 <= date_code(to) < 0x1000_0000);
    assert(0 <= date_code(other_from) < 0x1000_0000);
    assert(0 <= date_code(other_to) < 0x1000_0000);
    assert(0 <= rule_code(rule) < 0x300_0000);
    assert(0 <= rule_code(other_rule) < 0x300_0000);
    assert(date_code(to) == date_code(other_to));
    assert(date_code(from) == date_code(other_from));
    assert(rule_code(rule) == rule_code(other_rule));
}

/// The code of a date.
fn code_of_date(date: &Date) -> (r: u128)
    ensures
        r == date_code(date@),
        r < 0x1000_0000,
{
    proof {
        use_type_invariant(date);
    }
    let years = (date.year() as i64 - MIN_YEAR as i64) as u128;
    (years * 16 + date.month() as u128) * 32 + date.day() as u128
}

/// The code of a rule.
fn code_of_rule(rule: Recurrence) -> (r: u128)
    ensures
        r == rule_code(rule),
        r < 0x300_0000,
{
    match rule {
        Recurrence::Day(days) => days as u128,
        Recurrence::Month(day, months) => 0x100_0000 + day as u128 * 0x100 + months as u128,
        Recurrence::Year(day, month, years) => 0x200_0000 + day as u128 * 0x1_0000 + month as u128
            * 0x100 + years as u128,
    }
}

/// Occurrence counts by rule and window, each kept once it was computed.
pub struct OccurrenceCache {
    counts: HashMap<u128, u32>,
}

impl OccurrenceCache {
    /// Every count that the cache holds is the count of its rule and window.
    #[verifier::type_invariant]
    pub closed spec fn inv(self) -> bool {
        forall|rule: Recurrence, from: Ymd, to: Ymd|
            rule.valid() && from.valid() && to.valid() && self.counts@.contains_key(
                #[trigger] window_code(rule, from, to) as u128,
            ) ==> self.counts@[window_code(rule, from, to) as u128] == occurrences(rule, from, to)
    }

    /// The number of counts held.
    pub closed spec fn count(self) -> nat {
        self.counts@.len()
    }

    /// Whether the count of this rule and window is held.
    pub closed spec fn holds(self, rule: Recurrence, from: Ymd, to: Ymd) -> bool {
        self.counts@.contains_key(window_code(rule, from, to) as u128)
    }

    /// A cache that holds nothing yet.
    pub fn new() -> (r: Self)
        ensures
            r.count() == 0,
            forall|rule: Recurrence, from: Ymd, to: Ymd| !r.holds(rule, from, to),
    {
        OccurrenceCache { counts: HashMap::new() }
    }

    /// The number of counts held.
    pub fn len(&self) -> (r: usize)
        ensures
            r == self.count(),
    {
        self.counts.len()
    }

    /// Returns the amount of times the recurrence occurs between the two
    /// given dates, or why the recurrence cannot be used: what
    /// [`times_until`] returns, taken from the cache where it holds the count
    /// and put there where it does not.
    pub fn times_until(&mut self, recurrence: Recurrence, from: Date, to: Date) -> (r: Result<
        u32,
        InvalidRule,
    >)
        ensures
            match r {
                Ok(times) => recurrence.valid() && times == occurrences(recurrence, from@, to@),
                Err(e) => recurrence.defect() == Some(e),
            },
            recurrence.valid() ==> final(self).holds(recurrence, from@, to@),
            final(self).count() == old(self).count() + if recurrence.valid() && !old(self).holds(
                recurrence,
                from@,
                to@,
            ) {
                1nat
            } else {
                0nat
            },
            forall|rule: Recurrence, a: Ymd, b: Ymd|
                old(self).holds(rule, a, b) ==> final(self).holds(rule, a, b),
    {
        proof {
            use_type_invariant(&*self);
            use_type_invariant(&from);
            use_type_invariant(&to);
        }
        if let Err(e) = recurrence.check() {
            return Err(e);
        }
        let key = (code_of_rule(recurrence) * 0x1000_0000 + code_of_date(&from)) * 0x1000_0000
            + code_of_date(&to);
        assert(key == window_code(recurrence, from@, to@));
        if let Some(times) = self.counts.get(&key) {
            return Ok(*times);
        }
        match times_until(recurrence, from, to) {
            Ok(times) => {
                let mut counts = HashMap::new();
                std::mem::swap(&mut counts, &mut self.counts);
                let ghost before = counts@;
                counts.insert(key, times);
                proof {
                    assert forall|rule: Recurrence, a: Ymd, b: Ymd|
                        rule.valid() && a.valid() && b.valid() && counts@.contains_key(
                            #[trigger] window_code(rule, a, b) as u128,
                        ) implies counts@[window_code(rule, a, b) as u128] == occurrences(
                        rule,
                        a,
                        b,
                    ) by {
                        lemma_window_code_decides(rule, a, b, rule, a, b);
                        lemma_window_code_decides(recurrence, from@, to@, recurrence, from@, to@);
                        if window_code(rule, a, b) == window_code(recurrence, from@, to@) {
                            lemma_window_code_decides(rule, a, b, recurrence, from@, to@);
                        }
                    }
                }
                self.counts = counts;
                Ok(times)
            },
            Err(e) => Err(e),
        }
    }
}

} // verus!

//! Recurring items: subscriptions and recurring incomes.

use crate::calendar::{Date, Ymd};
use crate::identity::{fresh_uuid, is_random_uuid};
use crate::recurrence::{
    lemma_occurrences_bounded, occurrences, times_until, InvalidRule, Recurrence,
    SimpleRecurrence,
};
use vstd::prelude::*;

verus! {

/// How often a rule is taken to occur in a year of 365 days, 12 months: the
/// whole intervals that fit, the rest dropped.
pub open spec fn times_per_year(rule: Recurrence) -> int {
    match rule {
        Recurrence::Day(each_days) => 365int / (each_days as int),
        Recurrence::Month(_, each_months) => 12int / (each_months as int),
        Recurrence::Year(_, _, each_years) => 1int / (each_years as int),
    }
}

/// How often a rule is taken to occur in a month of 30 days: the whole
/// intervals that fit, the rest dropped. A rule of every 40 days occurs 0
/// times a month, and so does every yearly rule.
pub open spec fn times_per_month(rule: Recurrence) -> int {
    match rule {
        Recurrence::Day(each_days) => 30int / (each_days as int),
        Recurrence::Month(_, each_months) => 1int / (each_months as int),
        Recurrence::Year(_, _, each_years) => 1int / (12 * each_years),
    }
}

/// No item costs more than this in a month: 30 times the highest cost.
pub const MAX_COST_PER_MONTH: u64 = 128_849_018_850;

/// No item costs more than this in a year: 365 times the highest cost.
pub const MAX_COST_PER_YEAR: u64 = 1_567_663_062_675;

/// The model of a [`Subscription`].
pub struct SubscriptionView {
    pub uuid: u128,
    pub name: Seq<char>,
    pub cost: u32,
    pub recurrence: Recurrence,
}

impl SubscriptionView {
    /// The cost of all occurrences from `today` through `horizon`.
    pub open spec fn cost_until(self, today: Ymd, horizon: Ymd) -> int {
        self.cost * occurrences(self.recurrence, today, horizon)
    }

    /// The cost of a year.
    pub open spec fn cost_per_year(self) -> int {
        self.cost * times_per_year(self.recurrence)
    }

    /// The cost of a month.
    pub open spec fn cost_per_month(self) -> int {
        self.cost * times_per_month(self.recurrence)
    }
}

/// A recurring expense or income: an identity, a name, a cost in cents and a
/// recurrence that can be used.
#[derive(Debug, PartialEq, Eq, Hash)]
pub struct Subscription {
    uuid: u128,
    name: String,
    cost: u32,
    recurrence: Recurrence,
}

impl View for Subscription {
    type V = SubscriptionView;

    closed spec fn view(&self) -> SubscriptionView {
        SubscriptionView {
            uuid: self.uuid,
            name: self.name@,
            cost: self.cost,
            recurrence: self.recurrence,
        }
    }
}

impl Clone for Subscription {
    fn clone(&self) -> (r: Self)
        ensures
            r == *self,
    {
        proof {
            use_type_invariant(self);
        }
        Subscription {
            uuid: self.uuid,
            name: self.name.clone(),
            cost: self.cost,
            recurrence: self.recurrence,
        }
    }
}

impl Subscription {
    /// The recurrence of every `Subscription` can be used.
    #[verifier::type_invariant]
    pub open spec fn inv(self) -> bool {
        self@.recurrence.valid()
    }

    /// A subscription with a fresh random identity; an unusable recurrence
    /// is refused.
    pub fn new(name: String, cost: u32, recurrence: Recurrence) -> (r: Result<Self, InvalidRule>)
        ensures
            match r {
                Ok(s) => {
                    &&& recurrence.valid()
                    &&& is_random_uuid(s@.uuid)
                    &&& s@.name == name@
                    &&& s@.cost == cost
                    &&& s@.recurrence == recurrence
                },
                Err(e) => recurrence.defect() == Some(e),
            },
    {
        Self::with_uuid(fresh_uuid(), name, cost, recurrence)
    }

    /// A subscription with the given identity; an unusable recurrence is
    /// refused.
    pub fn with_uuid(uuid: u128, name: String, cost: u32, recurrence: Recurrence) -> (r: Result<
        Self,
        InvalidRule,
    >)
        ensures
            match r {
                Ok(s) => recurrence.valid() && s@ == (SubscriptionView {
                    uuid,
                    name: name@,
                    cost,
                    recurrence,
                }),
                Err(e) => recurrence.defect() == Some(e),
            },
    {
        match recurrence.check() {
            Ok(()) => Ok(Subscription { uuid, name, cost, recurrence }),
            Err(e) => Err(e),
        }
    }

    pub fn uuid(&self) -> (r: u128)
        ensures
            r == self@.uuid,
    {
        self.uuid
    }

    pub fn name(&self) -> (r: &str)
        ensures
            r@ == self@.name,
    {
        self.name.as_str()
    }

    pub fn cost(&self) -> (r: u32)
        ensures
            r == self@.cost,
    {
        self.cost
    }

    pub fn recurrence(&self) -> (r: Recurrence)
        ensures
            r == self@.recurrence,
            r.valid(),
    {
        proof {
            use_type_invariant(self);
        }
        self.recurrence
    }

    /// The cost of all occurrences from `today` through `datetime`.
    pub fn cost_until(&self, today: Date, datetime: Date) -> (r: u64)
        ensures
            r == self@.cost_until(today@, datetime@),
            r < 200_000_000 * 0x1_0000_0000,
    {
        proof {
            use_type_invariant(self);
            use_type_invariant(&today);
            use_type_invariant(&datetime);
            lemma_occurrences_bounded(self.recurrence, today@, datetime@);
        }
        let times: u32 = match times_until(self.recurrence, today, datetime) {
            Ok(times) => times,
            Err(_) => 0,
        };
        assert(self.cost * times < 200_000_000 * 0x1_0000_0000) by (nonlinear_arith)
            requires
                self.cost < 0x1_0000_0000,
                times < 200_000_000,
        ;
        self.cost as u64 * times as u64
    }

    /// The cost of a year: the cost times the whole number of times that the
    /// interval fits into 365 days, 12 months or 1 year.
    pub fn cost_per_year(&self) -> (r: u64)
        ensures
            r == self@.cost_per_year(),
            r <= MAX_COST_PER_YEAR,
    {
        proof {
            use_type_invariant(self);
        }
        let times: u32 = match self.recurrence {
            Recurrence::Day(each_days) => 365 / each_days as u32,
            Recurrence::Month(_, each_months) => 12 / each_months as u32,
            Recurrence::Year(_, _, each_years) => 1 / each_years as u32,
        };
        assert(times <= 365) by {
            lemma_quotient_bounded(365, self.recurrence.interval());
            lemma_quotient_bounded(12, self.recurrence.interval());
            lemma_quotient_bounded(1, self.recurrence.interval());
        }
        assert(self.cost * times <= 365 * self.cost) by (nonlinear_arith)
            requires
                times <= 365,
        ;
        self.cost as u64 * times as u64
    }

    /// The cost of a month: the cost times the whole number of times that the
    /// interval fits into 30 days or 1 month.
    pub fn cost_per_month(&self) -> (r: u64)
        ensures
            r == self@.cost_per_month(),
            r <= MAX_COST_PER_MONTH,
    {
        proof {
            use_type_invariant(self);
        }
        let times: u32 = match self.recurrence {
            Recurrence::Day(each_days) => 30 / each_days as u32,
            Recurrence::Month(_, each_months) => 1 / each_months as u32,
            Recurrence::Year(_, _, each_years) => 1 / (each_years as u32 * 12),
        };
        assert(times <= 30) by {
            lemma_quotient_bounded(30, self.recurrence.interval());
            lemma_quotient_bounded(1, self.recurrence.interval());
            lemma_quotient_bounded(1, 12 * self.recurrence.interval());
        }
        assert(self.cost * times <= 30 * self.cost) by (nonlinear_arith)
            requires
                times <= 30,
        ;
        self.cost as u64 * times as u64
    }
}

/// What fits into a number a whole number of times fits at most that number
/// of times.
proof fn lemma_quotient_bounded(dividend: int, divisor: int)
    by (nonlinear_arith)
    requires
        0 <= dividend,
        1 <= divisor,
    ensures
        0 <= dividend / divisor <= dividend,
{
}

/// The fields of the form for a new subscription.
pub struct TmpSubscription {
    pub name: String,
    pub cost: u32,
    pub recurrence: SimpleRecurrence,
    pub days: u8,
    pub months: u8,
    pub years: u8,
}

impl Clone for TmpSubscription {
    fn clone(&self) -> (r: Self)
        ensures
            r == *self,
    {
        TmpSubscription {
            name: self.name.clone(),
            cost: self.cost,
            recurrence: self.recurrence,
            days: self.days,
            months: self.months,
            years: self.years,
        }
    }
}

impl Default for TmpSubscription {
    /// An unnamed monthly subscription of 10.00 on the first of each month.
    fn default() -> (r: Self)
        ensures
            r.is_blank(),
    {
        Self {
            name: String::new(),
            cost: 1000,
            recurrence: SimpleRecurrence::Month,
            days: 1,
            months: 1,
            years: 1,
        }
    }
}

impl TmpSubscription {
    /// The form as it is before anything was filled in: no name, a cost of
    /// 10.00, every month on the first; the number of years is 1.
    pub open spec fn is_blank(self) -> bool {
        &&& self.name@ == Seq::<char>::empty()
        &&& self.cost == 1000
        &&& self.recurrence == SimpleRecurrence::Month
        &&& self.days == 1
        &&& self.months == 1
        &&& self.years == 1
    }

    /// The rule that the form describes, unchecked.
    pub open spec fn rule(self) -> Recurrence {
        Recurrence::assemble(self.recurrence, self.days, self.months, self.years)
    }

    /// The subscription that the form describes, with a fresh random
    /// identity; a form whose recurrence cannot be used is refused.
    pub fn into_subscription(self) -> (r: Result<Subscription, InvalidRule>)
        ensures
            match r {
                Ok(s) => {
                    &&& self.rule().valid()
                    &&& is_random_uuid(s@.uuid)
                    &&& s@.name == self.name@
                    &&& s@.cost == self.cost
                    &&& s@.recurrence == self.rule()
                },
                Err(e) => self.rule().defect() == Some(e),
            },
    {
        match Recurrence::from_simple_recurrence(self.recurrence, self.days, self.months, self.years) {
            Ok(rule) => Subscription::new(self.name, self.cost, rule),
            Err(e) => Err(e),
        }
    }
}

} // verus!

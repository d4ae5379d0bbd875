//! One-off items: fixed expenses and punctual incomes.

use crate::calendar::{Date, Ymd};
use crate::identity::{fresh_uuid, is_random_uuid};
use vstd::prelude::*;

verus! {

/// The model of a [`FixedExpense`].
pub struct FixedExpenseView {
    pub uuid: u128,
    pub name: Seq<char>,
    pub cost: u32,
    pub date: Ymd,
}

impl FixedExpenseView {
    /// The item's date lies strictly before `today`.
    pub open spec fn expired(self, today: Ymd) -> bool {
        self.date.before(today)
    }

    /// What the item adds to a window from `today` through `window_end`: its
    /// whole cost where its date lies in the window, nothing otherwise.
    pub open spec fn cost_within(self, today: Ymd, window_end: Ymd) -> int {
        if today.not_after(self.date) && self.date.not_after(window_end) {
            self.cost as int
        } else {
            0
        }
    }
}

/// A one-off expense or income: an identity, a name, a cost in cents and the
/// date on which it falls.
#[derive(Debug, PartialEq, Eq, Hash)]
pub struct FixedExpense {
    uuid: u128,
    pub name: String,
    pub cost: u32,

    pub date: Date,
}

impl View for FixedExpense {
    type V = FixedExpenseView;

    closed spec fn view(&self) -> FixedExpenseView {
        FixedExpenseView { uuid: self.uuid, name: self.name@, cost: self.cost, date: self.date@ }
    }
}

impl Clone for FixedExpense {
    fn clone(&self) -> (r: Self)
        ensures
            r == *self,
    {
        FixedExpense {
            uuid: self.uuid,
            name: self.name.clone(),
            cost: self.cost,
            date: self.date,
        }
    }
}

impl Default for FixedExpense {
    /// An unnamed item of no cost, dated today, with a fresh random
    /// identity.
    fn default() -> (r: Self)
        ensures
            is_random_uuid(r@.uuid),
            r@.name == Seq::<char>::empty(),
            r@.cost == 0,
            r@.date.valid(),
    {
        Self::new(String::new(), 0, Date::today())
    }
}

impl FixedExpense {
    /// An item with a fresh random identity.
    pub fn new(name: String, cost: u32, date: Date) -> (r: Self)
        ensures
            is_random_uuid(r@.uuid),
            r@.name == name@,
            r@.cost == cost,
            r@.date == date@,
    {
        Self::with_uuid(fresh_uuid(), name, cost, date)
    }

    /// An item with the given identity.
    pub fn with_uuid(uuid: u128, name: String, cost: u32, date: Date) -> (r: Self)
        ensures
            r@ == (FixedExpenseView { uuid, name: name@, cost, date: date@ }),
    {
        FixedExpense { uuid, name, cost, date }
    }

    pub fn name(&self) -> (r: &str)
        ensures
            r@ == self@.name,
    {
        self.name.as_str()
    }

    pub fn cost(&self) -> (r: u32)
        ensures
            r == self@.cost,
    {
        self.cost
    }

    pub fn date(&self) -> (r: Date)
        ensures
            r@ == self@.date,
    {
        self.date
    }

    pub fn uuid(&self) -> (r: u128)
        ensures
            r == self@.uuid,
    {
        self.uuid
    }

    /// Whether the item's date lies strictly before `today`.
    pub fn is_expired(&self, today: &Date) -> (r: bool)
        ensures
            r == self@.expired(today@),
    {
        self.date.is_before(today)
    }

    /// What the item adds to a window from `today` through `window_end`.
    pub fn cost_within(&self, today: &Date, window_end: &Date) -> (r: u32)
        ensures
            r == self@.cost_within(today@, window_end@),
    {
        if !self.date.is_before(today) && !window_end.is_before(&self.date) {
            self.cost
        } else {
            0
        }
    }
}

} // verus!

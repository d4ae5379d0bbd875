//! Personal budget engine: recurrence counting over calendar dates, the cost
//! views of recurring and one-off items, balance projections, and the sweep
//! that settles one-off items once their date has passed.
//!
//! Amounts are whole cents: a cost is a `u32`, the savings an `i64`, and what
//! is summed over a budget an `i128`, which no sum of a budget can leave.
//! Dates are calendar dates of the proleptic Gregorian calendar, in the range
//! of `chrono`, which does the date arithmetic. What is counted and
//! projected never depends on the clock: every function that needs to know
//! what day it is takes that day, which [`Date::today`] gives.
//!
//! Each type has a mathematical model, its view, and the contracts are
//! written over the models: [`calendar::Ymd`] for a date,
//! [`subscription::SubscriptionView`] and
//! [`fixed_expense::FixedExpenseView`] for the items and
//! [`budget::AppView`] for a budget.

pub mod budget;
pub mod cache;
pub mod calendar;
pub mod fixed_expense;
pub mod identity;
pub mod recurrence;
pub mod subscription;
pub mod totals;
pub mod windows;

pub use budget::{cost_to_year_end, App, SavingsOutOfRange};
pub use cache::OccurrenceCache;
pub use calendar::Date;
pub use fixed_expense::FixedExpense;
pub use recurrence::{days_in_month, times_until, InvalidRule, Recurrence, SimpleRecurrence};
pub use subscription::{Subscription, TmpSubscription};
pub use windows::{
    Form, FormEvent, NewExpenseWindow, NewIncomeWindow, NewPunctualIncomeWindow,
    NewSubscriptionWindow,
};

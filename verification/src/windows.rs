//! The forms through which items are created, and what a budget does when
//! one of them is submitted or dismissed.

use crate::budget::{App, AppView};
use crate::calendar::Date;
use crate::fixed_expense::FixedExpense;
use crate::identity::is_random_uuid;
use crate::recurrence::InvalidRule;
use crate::subscription::{Subscription, TmpSubscription};
use vstd::prelude::*;

verus! {

/// The form for a new subscription.
pub struct NewSubscriptionWindow {
    pub tmp_subscription: TmpSubscription,
}

/// The form for a new recurring income.
pub struct NewIncomeWindow {
    pub tmp_subscription: TmpSubscription,
}

/// The form for a new fixed expense.
pub struct NewExpenseWindow {
    pub name: String,
    pub cost: u32,
    pub date: Date,
}

/// The form for a new punctual income.
pub struct NewPunctualIncomeWindow {
    pub name: String,
    pub cost: u32,
    pub date: Date,
}

/// `item` is a recurring item with a random identity and the fields of
/// `draft`.
pub open spec fn made_from(item: Subscription, draft: TmpSubscription) -> bool {
    &&& is_random_uuid(item@.uuid)
    &&& item@.name == draft.name@
    &&& item@.cost == draft.cost
    &&& item@.recurrence == draft.rule()
}

/// `item` is a one-off item with a random identity and the given fields.
pub open spec fn made_of(item: FixedExpense, name: Seq<char>, cost: u32, date: Date) -> bool {
    &&& is_random_uuid(item@.uuid)
    &&& item@.name == name
    &&& item@.cost == cost
    &&& item@.date == date@
}

impl Default for NewSubscriptionWindow {
    fn default() -> (r: Self)
        ensures
            r.tmp_subscription.is_blank(),
    {
        Self { tmp_subscription: TmpSubscription::default() }
    }
}

impl Default for NewIncomeWindow {
    fn default() -> (r: Self)
        ensures
            r.tmp_subscription.is_blank(),
    {
        Self { tmp_subscription: TmpSubscription::default() }
    }
}

impl Default for NewExpenseWindow {
    /// An empty form, dated today.
    fn default() -> (r: Self)
        ensures
            r.name@ == Seq::<char>::empty(),
            r.cost == 0,
            r.date@.valid(),
    {
        Self::new(Date::today())
    }
}

impl Default for NewPunctualIncomeWindow {
    /// An empty form, dated today.
    fn default() -> (r: Self)
        ensures
            r.name@ == Seq::<char>::empty(),
            r.cost == 0,
            r.date@.valid(),
    {
        Self::new(Date::today())
    }
}

impl NewSubscriptionWindow {
    /// The subscription that the form describes, or why its recurrence
    /// cannot be used.
    pub fn submit(&self) -> (r: Result<Subscription, InvalidRule>)
        ensures
            match r {
                Ok(s) => self.tmp_subscription.rule().valid() && made_from(s, self.tmp_subscription),
                Err(e) => self.tmp_subscription.rule().defect() == Some(e),
            },
    {
        self.tmp_subscription.clone().into_subscription()
    }
}

impl NewIncomeWindow {
    /// The recurring income that the form describes, or why its recurrence
    /// cannot be used.
    pub fn submit(&self) -> (r: Result<Subscription, InvalidRule>)
        ensures
            match r {
                Ok(s) => self.tmp_subscription.rule().valid() && made_from(s, self.tmp_subscription),
                Err(e) => self.tmp_subscription.rule().defect() == Some(e),
            },
    {
        self.tmp_subscription.clone().into_subscription()
    }
}

impl NewExpenseWindow {
    /// An empty form, dated `today`.
    pub fn new(today: Date) -> (r: Self)
        ensures
            r.name@ == Seq::<char>::empty(),
            r.cost == 0,
            r.date == today,
    {
        Self { name: String::new(), cost: 0, date: today }
    }

    /// The fixed expense that the form describes.
    pub fn submit(&self) -> (r: FixedExpense)
        ensures
            made_of(r, self.name@, self.cost, self.date),
    {
        FixedExpense::new(self.name.clone(), self.cost, self.date)
    }
}

impl NewPunctualIncomeWindow {
    /// An empty form, dated `today`.
    pub fn new(today: Date) -> (r: Self)
        ensures
            r.name@ == Seq::<char>::empty(),
            r.cost == 0,
            r.date == today,
    {
        Self { name: String::new(), cost: 0, date: today }
    }

    /// The punctual income that the form describes.
    pub fn submit(&self) -> (r: FixedExpense)
        ensures
            made_of(r, self.name@, self.cost, self.date),
    {
        FixedExpense::new(self.name.clone(), self.cost, self.date)
    }
}

/// The form that is open, if any: at most one is.
pub enum Form {
    Closed,
    NewSubscription(NewSubscriptionWindow),
    NewIncome(NewIncomeWindow),
    NewExpense(NewExpenseWindow),
    NewPunctualIncome(NewPunctualIncomeWindow),
}

/// What happened to the open form since it was last looked at.
#[derive(Debug, Clone, Copy, PartialEq, Eq, Structural)]
pub enum FormEvent {
    /// It is still being filled in.
    Pending,
    /// Its item is to be added.
    Submitted,
    /// It was closed without adding anything.
    Dismissed,
}

/// Whether `after` is `before` with one more item: the one that `form`
/// describes, in the collection that `form` is for.
pub open spec fn submitted(before: AppView, form: Form, after: AppView) -> bool {
    match form {
        Form::Closed => after == before,
        Form::NewSubscription(w) => exists|s: Subscription|
            made_from(s, w.tmp_subscription) && after == (AppView {
                subscriptions: before.subscriptions.insert(s@.uuid, s),
                ..before
            }),
        Form::NewIncome(w) => exists|s: Subscription|
            made_from(s, w.tmp_subscription) && after == (AppView {
                incomes: before.incomes.insert(s@.uuid, s),
                ..before
            }),
        Form::NewExpense(w) => exists|e: FixedExpense|
            made_of(e, w.name@, w.cost, w.date) && after == (AppView {
                fixed_expenses: before.fixed_expenses.insert(e@.uuid, e),
                ..before
            }),
        Form::NewPunctualIncome(w) => exists|e: FixedExpense|
            made_of(e, w.name@, w.cost, w.date) && after == (AppView {
                p_incomes: before.p_incomes.insert(e@.uuid, e),
                ..before
            }),
    }
}

impl Form {
    /// What is wrong with the recurrence that a form for a recurring item
    /// describes; `None` where it can be used, and for every other form.
    pub open spec fn defect(self) -> Option<InvalidRule> {
        match self {
            Form::NewSubscription(w) => w.tmp_subscription.rule().defect(),
            Form::NewIncome(w) => w.tmp_subscription.rule().defect(),
            _ => None,
        }
    }
}

impl App {
    /// Does what follows from `event` for the open form. A form that is
    /// submitted has its item added to its collection and is closed, and the
    /// budget is to be saved, which the result `Ok(true)` says; a form whose
    /// recurrence cannot be used stays open and nothing is added. A form
    /// that is dismissed is closed. Otherwise nothing changes.
    pub fn handle_form(&mut self, form: &mut Form, event: FormEvent) -> (r: Result<
        bool,
        InvalidRule,
    >)
        ensures
            match event {
                FormEvent::Pending => {
                    &&& r == Ok::<bool, InvalidRule>(false)
                    &&& *final(form) == *old(form)
                    &&& final(self)@ == old(self)@
                },
                FormEvent::Dismissed => {
                    &&& r == Ok::<bool, InvalidRule>(false)
                    &&& *final(form) == Form::Closed
                    &&& final(self)@ == old(self)@
                },
                FormEvent::Submitted => match old(form).defect() {
                    Some(e) => {
                        &&& r == Err::<bool, InvalidRule>(e)
                        &&& *final(form) == *old(form)
                        &&& final(self)@ == old(self)@
                    },
                    None => {
                        &&& r == Ok::<bool, InvalidRule>(!(*old(form) == Form::Closed))
                        &&& *final(form) == Form::Closed
                        &&& submitted(old(self)@, *old(form), final(self)@)
                    },
                },
            },
    {
        match event {
            FormEvent::Pending => Ok(false),
            FormEvent::Dismissed => {
                *form = Form::Closed;
                Ok(false)
            },
            FormEvent::Submitted => {
                let saved = match form {
                    Form::Closed => false,
                    Form::NewSubscription(w) => {
                        match w.submit() {
                            Ok(item) => {
                                self.insert_subscription(item);
                            },
                            Err(e) => {
                                return Err(e);
                            },
                        }
                        true
                    },
                    Form::NewIncome(w) => {
                        match w.submit() {
                            Ok(item) => {
                                self.insert_income(item);
                            },
                            Err(e) => {
                                return Err(e);
                            },
                        }
                        true
                    },
                    Form::NewExpense(w) => {
                        let item = w.submit();
                        self.insert_expense(item);
                        true
                    },
                    Form::NewPunctualIncome(w) => {
                        let item = w.submit();
                        self.insert_punctual_income(item);
                        true
                    },
                };
                *form = Form::Closed;
                Ok(saved)
            },
        }
    }
}

} // verus!

use nix_bucks::{
    App, Date, Form, FormEvent, InvalidRule, NewExpenseWindow, NewIncomeWindow,
    NewPunctualIncomeWindow, NewSubscriptionWindow, Recurrence, SimpleRecurrence,
};

fn today() -> Date {
    Date::from_ymd(2023, 5, 17).unwrap()
}

#[test]
fn a_new_form_for_a_subscription_is_the_default_draft() {
    let w = NewSubscriptionWindow::default();
    assert_eq!(w.tmp_subscription.name, "");
    assert_eq!(w.tmp_subscription.cost, 1000);
    assert_eq!(w.tmp_subscription.recurrence, SimpleRecurrence::Month);
    let w = NewIncomeWindow::default();
    assert_eq!(w.tmp_subscription.cost, 1000);
    assert_eq!((w.tmp_subscription.days, w.tmp_subscription.months), (1, 1));
}

#[test]
fn a_new_form_for_an_expense_is_dated_today() {
    let w = NewExpenseWindow::new(today());
    assert_eq!(w.name, "");
    assert_eq!(w.cost, 0);
    assert_eq!(w.date, today());
    let w = NewPunctualIncomeWindow::new(today());
    assert_eq!(w.name, "");
    assert_eq!(w.cost, 0);
    assert_eq!(w.date, today());
}

#[test]
fn submitting_a_form_gives_its_item() {
    let mut w = NewSubscriptionWindow::default();
    w.tmp_subscription.name = String::from("Music");
    w.tmp_subscription.cost = 999;
    let s = w.submit().unwrap();
    assert_eq!(s.name(), "Music");
    assert_eq!(s.cost(), 999);
    assert_eq!(s.recurrence(), Recurrence::Month(1, 1));

    let mut w = NewIncomeWindow::default();
    w.tmp_subscription.recurrence = SimpleRecurrence::Day;
    w.tmp_subscription.days = 0;
    assert_eq!(w.submit().err(), Some(InvalidRule::ZeroInterval));

    let mut w = NewExpenseWindow::new(today());
    w.name = String::from("Bike");
    w.cost = 45_000;
    let e = w.submit();
    assert_eq!(e.name(), "Bike");
    assert_eq!(e.cost(), 45_000);
    assert_eq!(e.date(), today());

    let mut w = NewPunctualIncomeWindow::new(today());
    w.cost = 7;
    assert_eq!(w.submit().cost(), 7);
}

#[test]
fn a_pending_form_stays_open() {
    let mut app = App::default();
    let mut form = Form::NewExpense(NewExpenseWindow::new(today()));
    assert_eq!(app.handle_form(&mut form, FormEvent::Pending), Ok(false));
    assert!(matches!(form, Form::NewExpense(_)));
    assert!(app.fixed_expenses().is_empty());
}

#[test]
fn a_dismissed_form_is_closed_and_adds_nothing() {
    let mut app = App::default();
    let mut form = Form::NewSubscription(NewSubscriptionWindow::default());
    assert_eq!(app.handle_form(&mut form, FormEvent::Dismissed), Ok(false));
    assert!(matches!(form, Form::Closed));
    assert!(app.subscriptions().is_empty());
}

#[test]
fn a_submitted_form_adds_its_item_and_asks_to_save() {
    let mut app = App::default();

    let mut w = NewSubscriptionWindow::default();
    w.tmp_subscription.name = String::from("Music");
    let mut form = Form::NewSubscription(w);
    assert_eq!(app.handle_form(&mut form, FormEvent::Submitted), Ok(true));
    assert!(matches!(form, Form::Closed));
    assert_eq!(app.subscriptions().len(), 1);
    assert_eq!(app.subscriptions()[0].name(), "Music");

    let mut form = Form::NewIncome(NewIncomeWindow::default());
    assert_eq!(app.handle_form(&mut form, FormEvent::Submitted), Ok(true));
    assert_eq!(app.incomes().len(), 1);
    assert_eq!(app.incomes()[0].cost(), 1000);

    let mut w = NewExpenseWindow::new(today());
    w.cost = 5;
    let mut form = Form::NewExpense(w);
    assert_eq!(app.handle_form(&mut form, FormEvent::Submitted), Ok(true));
    assert_eq!(app.fixed_expenses().len(), 1);
    assert_eq!(app.fixed_expenses()[0].cost(), 5);
    assert_eq!(app.fixed_expenses()[0].date(), today());

    let mut form = Form::NewPunctualIncome(NewPunctualIncomeWindow::new(today()));
    assert_eq!(app.handle_form(&mut form, FormEvent::Submitted), Ok(true));
    assert_eq!(app.p_incomes().len(), 1);
    assert_eq!(app.subscriptions().len(), 1);
}

#[test]
fn a_form_with_an_unusable_recurrence_stays_open() {
    let mut app = App::default();
    let mut w = NewSubscriptionWindow::default();
    w.tmp_subscription.months = 0;
    let mut form = Form::NewSubscription(w);
    assert_eq!(
        app.handle_form(&mut form, FormEvent::Submitted),
        Err(InvalidRule::ZeroInterval)
    );
    assert!(matches!(form, Form::NewSubscription(_)));
    assert!(app.subscriptions().is_empty());
}

#[test]
fn nothing_follows_where_no_form_is_open() {
    let mut app = App::default();
    let mut form = Form::Closed;
    assert_eq!(app.handle_form(&mut form, FormEvent::Submitted), Ok(false));
    assert_eq!(app.handle_form(&mut form, FormEvent::Dismissed), Ok(false));
    assert_eq!(app.handle_form(&mut form, FormEvent::Pending), Ok(false));
    assert!(matches!(form, Form::Closed));
}

#[test]
fn the_default_form_for_an_expense_is_dated_by_the_clock() {
    let before = Date::today();
    let w = NewExpenseWindow::default();
    let p = NewPunctualIncomeWindow::default();
    let after = Date::today();
    assert_eq!(w.name, "");
    assert_eq!(w.cost, 0);
    assert!(!w.date.is_before(&before) && !after.is_before(&w.date));
    assert_eq!(p.name, "");
    assert_eq!(p.cost, 0);
    assert!(!p.date.is_before(&before) && !after.is_before(&p.date));
}

use nix_bucks::{
    cost_to_year_end, App, Date, FixedExpense, Recurrence, SavingsOutOfRange, Subscription,
};

fn at(year: i32, month: u32, day: u32) -> Date {
    Date::from_ymd(year, month, day).unwrap()
}

fn recurring(id: u128, cost: u32, recurrence: Recurrence) -> Subscription {
    Subscription::with_uuid(id, format!("recurring {}", id), cost, recurrence).unwrap()
}

fn punctual(id: u128, cost: u32, date: Date) -> FixedExpense {
    FixedExpense::with_uuid(id, format!("punctual {}", id), cost, date)
}

fn sorted_subscriptions(mut items: Vec<Subscription>) -> Vec<Subscription> {
    items.sort_by_key(|s| s.uuid());
    items
}

fn sorted_expenses(mut items: Vec<FixedExpense>) -> Vec<FixedExpense> {
    items.sort_by_key(|e| e.uuid());
    items
}

fn sample() -> App {
    let mut app = App::default();
    app.set_initial_savings(100_000);
    app.insert_subscription(recurring(1, 999, Recurrence::Month(1, 1)));
    app.insert_subscription(recurring(2, 250, Recurrence::Day(10)));
    app.insert_subscription(recurring(3, 12_000, Recurrence::Year(15, 11, 1)));
    app.insert_income(recurring(4, 200_000, Recurrence::Month(28, 1)));
    app.insert_income(recurring(5, 5_000, Recurrence::Day(40)));
    app.insert_expense(punctual(6, 30_000, at(2021, 8, 1)));
    app.insert_expense(punctual(7, 45_000, at(2022, 2, 1)));
    app.insert_expense(punctual(8, 1_000, at(2021, 3, 1)));
    app.insert_punctual_income(punctual(9, 70_000, at(2021, 12, 31)));
    app.insert_punctual_income(punctual(10, 5_500, at(2021, 1, 5)));
    app
}

fn same_budget(a: &App, b: &App) -> bool {
    a.initial_savings() == b.initial_savings()
        && a.lang() == b.lang()
        && a.dismissed_ad() == b.dismissed_ad()
        && sorted_subscriptions(a.subscriptions()) == sorted_subscriptions(b.subscriptions())
        && sorted_subscriptions(a.incomes()) == sorted_subscriptions(b.incomes())
        && sorted_expenses(a.fixed_expenses()) == sorted_expenses(b.fixed_expenses())
        && sorted_expenses(a.p_incomes()) == sorted_expenses(b.p_incomes())
}

#[test]
fn the_default_budget_is_empty_and_english() {
    let app = App::default();
    assert_eq!(app.initial_savings(), 0);
    assert_eq!(app.lang(), "en");
    assert!(!app.dismissed_ad());
    assert!(app.subscriptions().is_empty());
    assert!(app.incomes().is_empty());
    assert!(app.fixed_expenses().is_empty());
    assert!(app.p_incomes().is_empty());
    assert_eq!(app.monthly_costs(), 0);
    assert_eq!(app.yearly_costs(), 0);
    assert_eq!(app.monthly_balance(), 0);
    assert_eq!(app.year_end_balance(at(2021, 1, 1)), 0);
}

#[test]
fn the_settings_are_kept() {
    let mut app = sample();
    app.set_lang(String::from("es"));
    app.set_dismissed_ad(true);
    app.set_initial_savings(-5);
    assert_eq!(app.lang(), "es");
    assert!(app.dismissed_ad());
    assert_eq!(app.initial_savings(), -5);
    assert_eq!(app.subscriptions().len(), 3);
    assert_eq!(app.p_incomes().len(), 2);
}

#[test]
fn the_listings_hold_every_item_once() {
    let app = sample();
    let ids = |items: Vec<Subscription>| -> Vec<u128> {
        sorted_subscriptions(items).iter().map(|s| s.uuid()).collect()
    };
    assert_eq!(ids(app.subscriptions()), vec![1, 2, 3]);
    assert_eq!(ids(app.incomes()), vec![4, 5]);
    let ids = |items: Vec<FixedExpense>| -> Vec<u128> {
        sorted_expenses(items).iter().map(|e| e.uuid()).collect()
    };
    assert_eq!(ids(app.fixed_expenses()), vec![6, 7, 8]);
    assert_eq!(ids(app.p_incomes()), vec![9, 10]);
    let first = &sorted_subscriptions(app.subscriptions())[0];
    assert_eq!(first.name(), "recurring 1");
    assert_eq!(first.cost(), 999);
    assert_eq!(first.recurrence(), Recurrence::Month(1, 1));
}

#[test]
fn an_item_with_the_same_identity_takes_the_place_of_the_old_one() {
    let mut app = sample();
    app.insert_subscription(recurring(2, 777, Recurrence::Day(3)));
    let items = sorted_subscriptions(app.subscriptions());
    assert_eq!(items.len(), 3);
    assert_eq!(items[1].cost(), 777);
    assert_eq!(items[1].recurrence(), Recurrence::Day(3));
}

#[test]
fn removing_an_expense_leaves_the_rest() {
    let mut app = sample();
    let before = app.clone();
    app.remove_expense(7);
    assert_eq!(
        sorted_expenses(app.fixed_expenses()),
        vec![punctual(6, 30_000, at(2021, 8, 1)), punctual(8, 1_000, at(2021, 3, 1))]
    );
    assert_eq!(sorted_subscriptions(app.subscriptions()), sorted_subscriptions(before.subscriptions()));
    assert_eq!(sorted_subscriptions(app.incomes()), sorted_subscriptions(before.incomes()));
    assert_eq!(sorted_expenses(app.p_incomes()), sorted_expenses(before.p_incomes()));
    assert_eq!(app.initial_savings(), before.initial_savings());
    assert_eq!(app.lang(), before.lang());
    assert_eq!(app.dismissed_ad(), before.dismissed_ad());
}

#[test]
fn removing_from_each_collection() {
    let mut app = sample();
    app.remove_subscription(1);
    app.remove_income(5);
    app.remove_punctual_income(&9);
    assert_eq!(sorted_subscriptions(app.subscriptions()).iter().map(|s| s.uuid()).collect::<Vec<u128>>(), vec![2, 3]);
    assert_eq!(sorted_subscriptions(app.incomes()).iter().map(|s| s.uuid()).collect::<Vec<u128>>(), vec![4]);
    assert_eq!(sorted_expenses(app.p_incomes()).iter().map(|e| e.uuid()).collect::<Vec<u128>>(), vec![10]);
    assert_eq!(app.fixed_expenses().len(), 3);
}

#[test]
fn removing_what_is_not_there_changes_nothing() {
    let mut app = sample();
    let before = app.clone();
    app.remove_expense(1);
    app.remove_subscription(6);
    app.remove_income(99);
    app.remove_punctual_income(&4);
    assert!(same_budget(&app, &before));
}

#[test]
fn the_costs_of_a_month_and_of_a_year() {
    let app = sample();
    assert_eq!(app.monthly_costs(), 999 + 3 * 250);
    assert_eq!(app.yearly_costs(), 12 * 999 + 36 * 250 + 12_000);
}

#[test]
fn the_balance_of_a_month() {
    let app = sample();
    assert_eq!(app.monthly_balance(), 200_000 - (999 + 3 * 250));
    let mut poor = App::default();
    poor.insert_subscription(recurring(1, 500, Recurrence::Month(1, 1)));
    assert_eq!(poor.monthly_balance(), -500);
}

#[test]
fn cost_to_year_end_sums_both_kinds() {
    let subscriptions = vec![
        recurring(1, 999, Recurrence::Month(1, 1)),
        recurring(2, 250, Recurrence::Day(10)),
        recurring(3, 12_000, Recurrence::Year(15, 11, 1)),
    ];
    let expenses = vec![
        punctual(6, 30_000, at(2021, 8, 1)),
        punctual(7, 45_000, at(2022, 2, 1)),
        punctual(8, 1_000, at(2021, 3, 1)),
    ];
    let today = at(2021, 6, 15);
    // monthly on the 1st: July to December; every 10 days: 199 days / 10;
    // yearly on 15 November: counted once as the first occurrence and once
    // as a candidate; of the one-off items only the one of August.
    assert_eq!(
        cost_to_year_end(&subscriptions, &expenses, today),
        6 * 999 + 19 * 250 + 2 * 12_000 + 30_000
    );
    assert_eq!(cost_to_year_end(&Vec::new(), &Vec::new(), today), 0);
}

#[test]
fn the_projections_to_the_end_of_the_year() {
    let app = sample();
    let today = at(2021, 6, 15);
    assert_eq!(app.costs_to_year_end(today), 6 * 999 + 19 * 250 + 2 * 12_000 + 30_000);
    // monthly on the 28th: counted once as the first occurrence, then June
    // to December; every 40 days: 199 days / 40; the income of 31 December.
    assert_eq!(app.income_to_year_end(today), 8 * 200_000 + 4 * 5_000 + 70_000);
    assert_eq!(
        app.year_end_balance(today),
        100_000 + (8 * 200_000 + 4 * 5_000 + 70_000) - (6 * 999 + 19 * 250 + 2 * 12_000 + 30_000)
    );
}

#[test]
fn a_deficit_is_a_negative_balance() {
    let mut app = App::default();
    app.set_initial_savings(1_000);
    app.insert_expense(punctual(1, 5_000, at(2021, 12, 31)));
    assert_eq!(app.year_end_balance(at(2021, 12, 31)), -4_000);
    assert_eq!(app.year_end_balance(at(2021, 1, 1)), -4_000);
}

#[test]
fn the_largest_budget_entries_do_not_overflow() {
    let mut app = App::default();
    app.set_initial_savings(i64::MIN);
    app.insert_subscription(recurring(1, u32::MAX, Recurrence::Day(1)));
    app.insert_expense(punctual(2, u32::MAX, at(-262143, 12, 31)));
    let today = at(-262143, 1, 1);
    assert_eq!(
        app.year_end_balance(today),
        i64::MIN as i128 - 364 * 4_294_967_295 - 4_294_967_295
    );
}

#[test]
fn an_expired_expense_is_settled_once() {
    let mut app = App::default();
    app.set_initial_savings(10_000);
    app.insert_expense(punctual(1, 2_500, at(2020, 1, 1)));
    assert_eq!(app.update(at(2025, 1, 1)), Ok(()));
    assert!(app.fixed_expenses().is_empty());
    assert_eq!(app.initial_savings(), 7_500);
    assert_eq!(app.update(at(2025, 1, 1)), Ok(()));
    assert_eq!(app.initial_savings(), 7_500);
}

#[test]
fn an_expired_income_is_settled_once() {
    let mut app = App::default();
    app.set_initial_savings(10_000);
    app.insert_punctual_income(punctual(1, 2_500, at(2020, 1, 1)));
    assert_eq!(app.update(at(2025, 1, 1)), Ok(()));
    assert!(app.p_incomes().is_empty());
    assert_eq!(app.initial_savings(), 12_500);
    assert_eq!(app.update(at(2025, 1, 1)), Ok(()));
    assert_eq!(app.initial_savings(), 12_500);
}

#[test]
fn update_settles_what_lies_before_today() {
    let mut app = sample();
    assert_eq!(app.update(at(2021, 8, 1)), Ok(()));
    assert_eq!(app.initial_savings(), 100_000 - 1_000 + 5_500);
    assert_eq!(
        sorted_expenses(app.fixed_expenses()),
        vec![punctual(6, 30_000, at(2021, 8, 1)), punctual(7, 45_000, at(2022, 2, 1))]
    );
    assert_eq!(sorted_expenses(app.p_incomes()), vec![punctual(9, 70_000, at(2021, 12, 31))]);
    assert_eq!(app.subscriptions().len(), 3);
    assert_eq!(app.incomes().len(), 2);
    assert_eq!(app.update(at(2021, 8, 2)), Ok(()));
    assert_eq!(app.initial_savings(), 100_000 - 1_000 + 5_500 - 30_000);
    assert_eq!(app.fixed_expenses().len(), 1);
}

#[test]
fn update_twice_is_update_once() {
    for today in [at(2020, 1, 1), at(2021, 3, 2), at(2021, 8, 1), at(2022, 1, 1), at(2030, 1, 1)] {
        let mut once = sample();
        assert_eq!(once.update(today), Ok(()));
        let mut twice = once.clone();
        assert_eq!(twice.update(today), Ok(()));
        assert!(same_budget(&once, &twice));
    }
}

#[test]
fn update_with_nothing_expired_changes_nothing() {
    let mut app = sample();
    let before = app.clone();
    assert_eq!(app.update(at(2021, 1, 5)), Ok(()));
    assert!(same_budget(&app, &before));
}

#[test]
fn update_refuses_savings_out_of_range() {
    let mut app = App::default();
    app.set_initial_savings(i64::MIN + 10);
    app.insert_expense(punctual(1, 11, at(2020, 1, 1)));
    app.insert_expense(punctual(2, 5, at(2030, 1, 1)));
    let before = app.clone();
    assert_eq!(app.update(at(2025, 1, 1)), Err(SavingsOutOfRange));
    assert!(same_budget(&app, &before));
    app.insert_punctual_income(punctual(3, 1, at(2020, 1, 1)));
    assert_eq!(app.update(at(2025, 1, 1)), Ok(()));
    assert_eq!(app.initial_savings(), i64::MIN);
    assert_eq!(app.fixed_expenses().len(), 1);
    assert!(app.p_incomes().is_empty());

    let mut rich = App::default();
    rich.set_initial_savings(i64::MAX);
    rich.insert_punctual_income(punctual(1, 1, at(2020, 1, 1)));
    assert_eq!(rich.update(at(2025, 1, 1)), Err(SavingsOutOfRange));
    assert_eq!(rich.initial_savings(), i64::MAX);
    assert_eq!(rich.p_incomes().len(), 1);
}

#[test]
fn a_budget_is_restored_from_its_listings() {
    let app = sample();
    let again = App::restore(
        app.initial_savings(),
        app.dismissed_ad(),
        String::from(app.lang()),
        app.subscriptions(),
        app.incomes(),
        app.fixed_expenses(),
        app.p_incomes(),
    );
    assert!(same_budget(&app, &again));
}

#[test]
fn restoring_keeps_the_later_of_two_items_with_one_identity() {
    let app = App::restore(
        -1,
        true,
        String::from("es"),
        vec![recurring(1, 10, Recurrence::Day(1)), recurring(1, 20, Recurrence::Day(2))],
        Vec::new(),
        vec![punctual(2, 1, at(2021, 1, 1))],
        Vec::new(),
    );
    assert_eq!(app.initial_savings(), -1);
    assert!(app.dismissed_ad());
    assert_eq!(app.lang(), "es");
    let items = app.subscriptions();
    assert_eq!(items.len(), 1);
    assert_eq!(items[0].cost(), 20);
    assert_eq!(app.fixed_expenses().len(), 1);
    assert!(app.incomes().is_empty());
}

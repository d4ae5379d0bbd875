//! The budget: savings, the four collections of items, and what is projected
//! from them.

use crate::calendar::{Date, Ymd};
use crate::fixed_expense::FixedExpense;
use crate::subscription::{Subscription, MAX_COST_PER_MONTH, MAX_COST_PER_YEAR};
use crate::totals::{
    collected, keyed, lemma_collected_keyed, lemma_listing_collected, lemma_listing_total,
    lemma_map_total_zero, lemma_walk_lists, lists, map_total, seq_total, walked,
};
use std::collections::HashMap;
use vstd::prelude::*;
use vstd::std_specs::hash::{spec_hash_map_iter, spec_hash_map_len};
use vstd::std_specs::iter::IteratorSpec;

verus! {

/// The identity of a recurring item, as a function.
pub open spec fn subscription_key() -> spec_fn(Subscription) -> u128 {
    |s: Subscription| s@.uuid
}

/// The identity of a one-off item, as a function.
pub open spec fn expense_key() -> spec_fn(FixedExpense) -> u128 {
    |e: FixedExpense| e@.uuid
}

/// What a recurring item costs in a month, as a function.
pub open spec fn per_month() -> spec_fn(Subscription) -> int {
    |s: Subscription| s@.cost_per_month()
}

/// What a recurring item costs in a year, as a function.
pub open spec fn per_year() -> spec_fn(Subscription) -> int {
    |s: Subscription| s@.cost_per_year()
}

/// What a recurring item costs from `today` through `horizon`, as a function.
pub open spec fn until(today: Ymd, horizon: Ymd) -> spec_fn(Subscription) -> int {
    |s: Subscription| s@.cost_until(today, horizon)
}

/// What a one-off item adds to the window from `today` through `window_end`,
/// as a function.
pub open spec fn within(today: Ymd, window_end: Ymd) -> spec_fn(FixedExpense) -> int {
    |e: FixedExpense| e@.cost_within(today, window_end)
}

/// The cost of a one-off item whose date lies before `today`, 0 for any
/// other, as a function.
pub open spec fn due(today: Ymd) -> spec_fn(FixedExpense) -> int {
    |e: FixedExpense|
        if e@.expired(today) {
            e@.cost as int
        } else {
            0
        }
}

/// The last day of the year of `today`.
pub open spec fn year_end(today: Ymd) -> Ymd {
    Ymd { year: today.year, month: 12, day: 31 }
}

/// The one-off items of `m` whose date does not lie before `today`.
pub open spec fn kept(m: Map<u128, FixedExpense>, today: Ymd) -> Map<u128, FixedExpense> {
    Map::new(|k: u128| m.contains_key(k) && !m[k]@.expired(today), |k: u128| m[k])
}

/// What the recurring items `subscriptions` and the one-off items `expenses`
/// come to from `today` through the last day of its year.
pub open spec fn year_end_total(
    subscriptions: Seq<Subscription>,
    expenses: Seq<FixedExpense>,
    today: Ymd,
) -> int {
    seq_total(subscriptions, until(today, year_end(today))) + seq_total(
        expenses,
        within(today, year_end(today)),
    )
}

/// The model of an [`App`]: the savings in cents, the four collections by
/// identity, and the two settings.
pub struct AppView {
    pub initial_savings: int,
    pub subscriptions: Map<u128, Subscription>,
    pub incomes: Map<u128, Subscription>,
    pub fixed_expenses: Map<u128, FixedExpense>,
    pub p_incomes: Map<u128, FixedExpense>,
    pub dismissed_ad: bool,
    pub lang: Seq<char>,
}

impl AppView {
    /// The collections are finite and every item stands under its identity.
    pub open spec fn wf(self) -> bool {
        &&& self.subscriptions.dom().finite()
        &&& self.incomes.dom().finite()
        &&& self.fixed_expenses.dom().finite()
        &&& self.p_incomes.dom().finite()
        &&& keyed(self.subscriptions, subscription_key())
        &&& keyed(self.incomes, subscription_key())
        &&& keyed(self.fixed_expenses, expense_key())
        &&& keyed(self.p_incomes, expense_key())
    }

    /// What all subscriptions cost in a year.
    pub open spec fn yearly_costs(self) -> int {
        map_total(self.subscriptions, per_year())
    }

    /// What all subscriptions cost in a month.
    pub open spec fn monthly_costs(self) -> int {
        map_total(self.subscriptions, per_month())
    }

    /// What is left of a month's recurring incomes after a month's
    /// subscriptions.
    pub open spec fn monthly_balance(self) -> int {
        map_total(self.incomes, per_month()) - map_total(self.subscriptions, per_month())
    }

    /// What the subscriptions and the fixed expenses cost from `today`
    /// through the last day of its year.
    pub open spec fn costs_to_year_end(self, today: Ymd) -> int {
        map_total(self.subscriptions, until(today, year_end(today))) + map_total(
            self.fixed_expenses,
            within(today, year_end(today)),
        )
    }

    /// What the recurring and the punctual incomes bring from `today` through
    /// the last day of its year.
    pub open spec fn income_to_year_end(self, today: Ymd) -> int {
        map_total(self.incomes, until(today, year_end(today))) + map_total(
            self.p_incomes,
            within(today, year_end(today)),
        )
    }

    /// The savings on the last day of the year of `today`; negative for a
    /// deficit.
    pub open spec fn year_end_balance(self, today: Ymd) -> int {
        self.initial_savings + self.income_to_year_end(today) - self.costs_to_year_end(today)
    }

    /// The savings once every one-off item dated before `today` has been
    /// settled: the punctual incomes added, the fixed expenses taken off.
    pub open spec fn swept_savings(self, today: Ymd) -> int {
        self.initial_savings + map_total(self.p_incomes, due(today)) - map_total(
            self.fixed_expenses,
            due(today),
        )
    }

    /// The budget once every one-off item dated before `today` has been
    /// settled and removed.
    pub open spec fn swept(self, today: Ymd) -> AppView {
        AppView {
            initial_savings: self.swept_savings(today),
            fixed_expenses: kept(self.fixed_expenses, today),
            p_incomes: kept(self.p_incomes, today),
            ..self
        }
    }
}

/// A budget is the one that is restored from its savings, its settings and a
/// listing of each of its collections.
pub proof fn lemma_restore_listings(
    budget: AppView,
    subscriptions: Seq<Subscription>,
    incomes: Seq<Subscription>,
    fixed_expenses: Seq<FixedExpense>,
    p_incomes: Seq<FixedExpense>,
)
    requires
        lists(subscriptions, budget.subscriptions, subscription_key()),
        lists(incomes, budget.incomes, subscription_key()),
        lists(fixed_expenses, budget.fixed_expenses, expense_key()),
        lists(p_incomes, budget.p_incomes, expense_key()),
    ensures
        budget == (AppView {
            subscriptions: collected(subscriptions, subscription_key()),
            incomes: collected(incomes, subscription_key()),
            fixed_expenses: collected(fixed_expenses, expense_key()),
            p_incomes: collected(p_incomes, expense_key()),
            ..budget
        }),
{
    lemma_listing_collected(subscriptions, budget.subscriptions, subscription_key());
    lemma_listing_collected(incomes, budget.incomes, subscription_key());
    lemma_listing_collected(fixed_expenses, budget.fixed_expenses, expense_key());
    lemma_listing_collected(p_incomes, budget.p_incomes, expense_key());
}

/// Settling a budget that was just settled on the same day changes nothing.
pub proof fn lemma_sweep_idempotent(budget: AppView, today: Ymd)
    requires
        budget.wf(),
    ensures
        budget.swept(today).wf(),
        budget.swept(today).swept(today) == budget.swept(today),
{
    let once = budget.swept(today);
    assert(once.fixed_expenses.dom().finite() && once.p_incomes.dom().finite()) by {
        assert(once.fixed_expenses.dom().subset_of(budget.fixed_expenses.dom()));
        assert(once.p_incomes.dom().subset_of(budget.p_incomes.dom()));
        vstd::set_lib::lemma_len_subset(once.fixed_expenses.dom(), budget.fixed_expenses.dom());
        vstd::set_lib::lemma_len_subset(once.p_incomes.dom(), budget.p_incomes.dom());
    }
    lemma_map_total_zero(once.fixed_expenses, due(today));
    lemma_map_total_zero(once.p_incomes, due(today));
    assert(kept(once.fixed_expenses, today) =~= once.fixed_expenses);
    assert(kept(once.p_incomes, today) =~= once.p_incomes);
}

/// What a walk through `m` yields, as the model of the iterator has it, is
/// a walk that meets each entry of `m` once.
proof fn lemma_walk<V>(m: &HashMap<u128, V>, key: spec_fn(V) -> u128)
    requires
        keyed(m@, key),
        spec_hash_map_iter(m).remaining().no_duplicates(),
    ensures
        lists(walked(spec_hash_map_iter(m).remaining()), m@, key),
{
    let pairs = spec_hash_map_iter(m).remaining();
    assert forall|i: int| #![trigger pairs[i]] 0 <= i < pairs.len() implies m@.contains_key(
        *pairs[i].0,
    ) && m@[*pairs[i].0] == *pairs[i].1 by {
        assert(m@.contains_key(*pairs[i].0));
    }
    lemma_walk_lists(pairs, m@, key);
}

/// A walk through a map is no longer than a `usize` can count.
proof fn lemma_walk_length<V>(m: &HashMap<u128, V>)
    ensures
        spec_hash_map_iter(m).remaining().len() <= usize::MAX,
{
    assert(spec_hash_map_iter(m).remaining().len() == spec_hash_map_len(m));
}

/// The recurring items of a collection, each once, in no particular order.
fn list_subscriptions(m: &HashMap<u128, Subscription>) -> (r: Vec<Subscription>)
    requires
        keyed(m@, subscription_key()),
    ensures
        lists(r@, m@, subscription_key()),
{
    let mut out: Vec<Subscription> = Vec::new();
    let ghost pairs = spec_hash_map_iter(m).remaining();
    for (_id, item) in it: m.iter()
        invariant
            it.seq() == pairs,
            out@ == walked(pairs).take(it.index()),
    {
        out.push(item.clone());
        assert(out@ =~= walked(pairs).take(it.index() + 1));
    }
    proof {
        lemma_walk(m, subscription_key());
        assert(out@ =~= walked(pairs));
    }
    out
}

/// The one-off items of a collection, each once, in no particular order.
fn list_expenses(m: &HashMap<u128, FixedExpense>) -> (r: Vec<FixedExpense>)
    requires
        keyed(m@, expense_key()),
    ensures
        lists(r@, m@, expense_key()),
{
    let mut out: Vec<FixedExpense> = Vec::new();
    let ghost pairs = spec_hash_map_iter(m).remaining();
    for (_id, item) in it: m.iter()
        invariant
            it.seq() == pairs,
            out@ == walked(pairs).take(it.index()),
    {
        out.push(item.clone());
        assert(out@ =~= walked(pairs).take(it.index() + 1));
    }
    proof {
        lemma_walk(m, expense_key());
        assert(out@ =~= walked(pairs));
    }
    out
}

/// What the items of a collection cost in a month.
fn month_total(m: &HashMap<u128, Subscription>) -> (r: i128)
    requires
        keyed(m@, subscription_key()),
    ensures
        r == map_total(m@, per_month()),
        0 <= r <= 0x40_0000_0000_0000_0000_0000_0000,
{
    let mut total: i128 = 0;
    let ghost pairs = spec_hash_map_iter(m).remaining();
    proof {
        lemma_walk_length(m);
    }
    for (_id, item) in it: m.iter()
        invariant
            it.seq() == pairs,
            pairs.len() <= usize::MAX,
            total == seq_total(walked(pairs).take(it.index()), per_month()),
            0 <= total <= MAX_COST_PER_MONTH * it.index(),
    {
        assert(walked(pairs).take(it.index() + 1).drop_last() =~= walked(pairs).take(it.index()));
        total = total + item.cost_per_month() as i128;
    }
    proof {
        lemma_walk(m, subscription_key());
        assert(walked(pairs).take(pairs.len() as int) =~= walked(pairs));
        lemma_listing_total(walked(pairs), m@, subscription_key(), per_month());
    }
    total
}

/// What the items of a collection cost in a year.
fn year_total(m: &HashMap<u128, Subscription>) -> (r: i128)
    requires
        keyed(m@, subscription_key()),
    ensures
        r == map_total(m@, per_year()),
        0 <= r <= 0x800_0000_0000_0000_0000_0000_0000,
{
    let mut total: i128 = 0;
    let ghost pairs = spec_hash_map_iter(m).remaining();
    proof {
        lemma_walk_length(m);
    }
    for (_id, item) in it: m.iter()
        invariant
            it.seq() == pairs,
            pairs.len() <= usize::MAX,
            total == seq_total(walked(pairs).take(it.index()), per_year()),
            0 <= total <= MAX_COST_PER_YEAR * it.index(),
    {
        assert(walked(pairs).take(it.index() + 1).drop_last() =~= walked(pairs).take(it.index()));
        total = total + item.cost_per_year() as i128;
    }
    proof {
        lemma_walk(m, subscription_key());
        assert(walked(pairs).take(pairs.len() as int) =~= walked(pairs));
        lemma_listing_total(walked(pairs), m@, subscription_key(), per_year());
    }
    total
}

/// The costs of the one-off items of a collection that are dated before
/// `today`.
fn due_total(m: &HashMap<u128, FixedExpense>, today: &Date) -> (r: i128)
    requires
        keyed(m@, expense_key()),
    ensures
        r == map_total(m@, due(today@)),
        0 <= r <= 0x1_0000_0000_0000_0000_0000_0000,
{
    let mut total: i128 = 0;
    let ghost pairs = spec_hash_map_iter(m).remaining();
    proof {
        lemma_walk_length(m);
    }
    for (_id, item) in it: m.iter()
        invariant
            it.seq() == pairs,
            pairs.len() <= usize::MAX,
            total == seq_total(walked(pairs).take(it.index()), due(today@)),
            0 <= total <= 0xffff_ffff * it.index(),
    {
        assert(walked(pairs).take(it.index() + 1).drop_last() =~= walked(pairs).take(it.index()));
        if item.is_expired(today) {
            total = total + item.cost() as i128;
        }
    }
    proof {
        lemma_walk(m, expense_key());
        assert(walked(pairs).take(pairs.len() as int) =~= walked(pairs));
        lemma_listing_total(walked(pairs), m@, expense_key(), due(today@));
    }
    total
}

/// Removes from a collection the one-off items that are dated before
/// `today`.
fn remove_due(m: &mut HashMap<u128, FixedExpense>, today: &Date)
    requires
        keyed(old(m)@, expense_key()),
    ensures
        final(m)@ == kept(old(m)@, today@),
{
    let ghost before = m@;
    let ghost pairs = spec_hash_map_iter(m).remaining();
    let mut gone: Vec<u128> = Vec::new();
    for (id, item) in it: m.iter()
        invariant
            it.seq() == pairs,
            pairs == spec_hash_map_iter(m).remaining(),
            before == m@,
            forall|j: int|
                0 <= j < gone@.len() ==> before.contains_key(#[trigger] gone@[j])
                    && before[gone@[j]]@.expired(today@),
            forall|i: int|
                #![trigger pairs[i]]
                0 <= i < it.index() && pairs[i].1@.expired(today@) ==> gone@.contains(*pairs[i].0),
    {
        assert(before.contains_key(*pairs[it.index()].0));
        if item.is_expired(today) {
            let ghost earlier = gone@;
            gone.push(*id);
            assert(forall|j: int| 0 <= j < earlier.len() ==> gone@[j] == earlier[j]);
            assert(gone@[earlier.len() as int] == *id);
        }
    }
    proof {
        assert forall|k: u128| before.contains_key(k) && before[k]@.expired(today@) implies gone@.contains(
            k,
        ) by {
            assert(pairs.contains((&k, &before[k])));
            let i = choose|i: int| 0 <= i < pairs.len() && pairs[i] == (&k, &before[k]);
            assert(pairs[i].1@.expired(today@));
        }
    }
    for j in 0..gone.len()
        invariant
            forall|k: u128| #[trigger]
                m@.contains_key(k) <==> before.contains_key(k) && !(exists|a: int|
                    0 <= a < j && gone@[a] == k),
            forall|k: u128| #[trigger] m@.contains_key(k) ==> m@[k] == before[k],
    {
        let id = gone[j];
        m.remove(&id);
    }
    assert(m@ =~= kept(before, today@)) by {
        assert forall|k: u128| m@.contains_key(k) <==> #[trigger] kept(
            before,
            today@,
        ).contains_key(k) by {
            if before.contains_key(k) && before[k]@.expired(today@) {
                assert(gone@.contains(k));
            }
        }
    }
}

/// The recurring items of `items`, each under its identity.
fn collect_subscriptions(items: Vec<Subscription>) -> (r: HashMap<u128, Subscription>)
    ensures
        r@ == collected(items@, subscription_key()),
{
    let mut out: HashMap<u128, Subscription> = HashMap::new();
    let ghost all = items@;
    for item in it: items.into_iter()
        invariant
            it.seq() == all,
            out@ == collected(all.take(it.index()), subscription_key()),
    {
        assert(all.take(it.index() + 1).drop_last() =~= all.take(it.index()));
        out.insert(item.uuid(), item);
    }
    assert(all.take(all.len() as int) =~= all);
    out
}

/// The one-off items of `items`, each under its identity.
fn collect_expenses(items: Vec<FixedExpense>) -> (r: HashMap<u128, FixedExpense>)
    ensures
        r@ == collected(items@, expense_key()),
{
    let mut out: HashMap<u128, FixedExpense> = HashMap::new();
    let ghost all = items@;
    for item in it: items.into_iter()
        invariant
            it.seq() == all,
            out@ == collected(all.take(it.index()), expense_key()),
    {
        assert(all.take(it.index() + 1).drop_last() =~= all.take(it.index()));
        out.insert(item.uuid(), item);
    }
    assert(all.take(all.len() as int) =~= all);
    out
}

/// Returns what the recurring items `subscriptions` and the one-off items
/// `expenses` come to from `today` through the last day of its year.
pub fn cost_to_year_end(
    subscriptions: &Vec<Subscription>,
    expenses: &Vec<FixedExpense>,
    today: Date,
) -> (r: i128)
    ensures
        r == year_end_total(subscriptions@, expenses@, today@),
        0 <= r <= 0x1000_0000_0000_0000 * subscriptions@.len() + 0xffff_ffff * expenses@.len(),
{
    proof {
        use_type_invariant(&today);
    }
    let horizon = Date::from_ymd(today.year(), 12, 31).unwrap();
    let mut amount: i128 = 0;
    for i in 0..subscriptions.len()
        invariant
            horizon@ == year_end(today@),
            amount == seq_total(subscriptions@.take(i as int), until(today@, horizon@)),
            0 <= amount <= 0x1000_0000_0000_0000 * i,
    {
        assert(subscriptions@.take(i + 1).drop_last() =~= subscriptions@.take(i as int));
        amount = amount + subscriptions[i].cost_until(today, horizon) as i128;
    }
    assert(subscriptions@.take(subscriptions@.len() as int) =~= subscriptions@);
    let ghost recurring = amount;
    for i in 0..expenses.len()
        invariant
            horizon@ == year_end(today@),
            amount == recurring + seq_total(expenses@.take(i as int), within(today@, horizon@)),
            subscriptions@.len() <= usize::MAX,
            0 <= recurring <= 0x1000_0000_0000_0000 * subscriptions@.len(),
            0 <= amount - recurring <= 0xffff_ffff * i,
    {
        assert(expenses@.take(i + 1).drop_last() =~= expenses@.take(i as int));
        amount = amount + expenses[i].cost_within(&today, &horizon) as i128;
    }
    assert(expenses@.take(expenses@.len() as int) =~= expenses@);
    amount
}

/// The savings would leave the range of amounts that a budget can hold.
#[derive(Debug, Clone, Copy, PartialEq, Eq, Structural)]
pub struct SavingsOutOfRange;

/// A budget: the savings in cents, the subscriptions, the recurring incomes,
/// the fixed expenses and the punctual incomes, each collection keyed by the
/// identity of its items, and the two settings that are kept with them.
#[derive(Debug)]
pub struct App {
    initial_savings: i64,
    subscriptions: HashMap<u128, Subscription>,
    incomes: HashMap<u128, Subscription>,
    fixed_expenses: HashMap<u128, FixedExpense>,
    p_incomes: HashMap<u128, FixedExpense>,
    dismissed_ad: bool,
    lang: String,
}

impl View for App {
    type V = AppView;

    closed spec fn view(&self) -> AppView {
        AppView {
            initial_savings: self.initial_savings as int,
            subscriptions: self.subscriptions@,
            incomes: self.incomes@,
            fixed_expenses: self.fixed_expenses@,
            p_incomes: self.p_incomes@,
            dismissed_ad: self.dismissed_ad,
            lang: self.lang@,
        }
    }
}

impl Clone for App {
    fn clone(&self) -> (r: Self)
        ensures
            r@ == self@,
    {
        proof {
            use_type_invariant(self);
        }
        App {
            initial_savings: self.initial_savings,
            subscriptions: self.subscriptions.clone(),
            incomes: self.incomes.clone(),
            fixed_expenses: self.fixed_expenses.clone(),
            p_incomes: self.p_incomes.clone(),
            dismissed_ad: self.dismissed_ad,
            lang: self.lang.clone(),
        }
    }
}

impl Default for App {
    /// A budget without items or savings, in English.
    fn default() -> (r: Self)
        ensures
            r@ == (AppView {
                initial_savings: 0,
                subscriptions: Map::empty(),
                incomes: Map::empty(),
                fixed_expenses: Map::empty(),
                p_incomes: Map::empty(),
                dismissed_ad: false,
                lang: "en"@,
            }),
    {
        Self {
            initial_savings: 0,
            subscriptions: HashMap::new(),
            incomes: HashMap::new(),
            fixed_expenses: HashMap::new(),
            p_incomes: HashMap::new(),
            dismissed_ad: false,
            lang: "en".to_owned(),
        }
    }
}

impl App {
    /// In every budget each item stands under its own identity.
    #[verifier::type_invariant]
    pub open spec fn inv(self) -> bool {
        self@.wf() && i64::MIN <= self@.initial_savings <= i64::MAX
    }

    /// Creates a new budget: the one without items or savings, in English.
    pub fn new() -> (r: Self)
        ensures
            r@ == (AppView {
                initial_savings: 0,
                subscriptions: Map::empty(),
                incomes: Map::empty(),
                fixed_expenses: Map::empty(),
                p_incomes: Map::empty(),
                dismissed_ad: false,
                lang: "en"@,
            }),
    {
        Self::default()
    }

    /// The budget with the given savings and settings that holds the given
    /// items, each under its identity; of two items of one collection with
    /// one identity, the later one.
    pub fn restore(
        initial_savings: i64,
        dismissed_ad: bool,
        lang: String,
        subscriptions: Vec<Subscription>,
        incomes: Vec<Subscription>,
        fixed_expenses: Vec<FixedExpense>,
        p_incomes: Vec<FixedExpense>,
    ) -> (r: Self)
        ensures
            r@ == (AppView {
                initial_savings: initial_savings as int,
                subscriptions: collected(subscriptions@, subscription_key()),
                incomes: collected(incomes@, subscription_key()),
                fixed_expenses: collected(fixed_expenses@, expense_key()),
                p_incomes: collected(p_incomes@, expense_key()),
                dismissed_ad,
                lang: lang@,
            }),
    {
        proof {
            lemma_collected_keyed(subscriptions@, subscription_key());
            lemma_collected_keyed(incomes@, subscription_key());
            lemma_collected_keyed(fixed_expenses@, expense_key());
            lemma_collected_keyed(p_incomes@, expense_key());
        }
        App {
            initial_savings,
            subscriptions: collect_subscriptions(subscriptions),
            incomes: collect_subscriptions(incomes),
            fixed_expenses: collect_expenses(fixed_expenses),
            p_incomes: collect_expenses(p_incomes),
            dismissed_ad,
            lang,
        }
    }

    pub fn initial_savings(&self) -> (r: i64)
        ensures
            r == self@.initial_savings,
    {
        self.initial_savings
    }

    pub fn set_initial_savings(&mut self, cents: i64)
        ensures
            final(self)@ == (AppView { initial_savings: cents as int, ..old(self)@ }),
    {
        proof {
            use_type_invariant(&*self);
        }
        self.initial_savings = cents;
    }

    pub fn lang(&self) -> (r: &str)
        ensures
            r@ == self@.lang,
    {
        self.lang.as_str()
    }

    pub fn set_lang(&mut self, lang: String)
        ensures
            final(self)@ == (AppView { lang: lang@, ..old(self)@ }),
    {
        proof {
            use_type_invariant(&*self);
        }
        self.lang = lang;
    }

    pub fn dismissed_ad(&self) -> (r: bool)
        ensures
            r == self@.dismissed_ad,
    {
        self.dismissed_ad
    }

    pub fn set_dismissed_ad(&mut self, dismissed: bool)
        ensures
            final(self)@ == (AppView { dismissed_ad: dismissed, ..old(self)@ }),
    {
        proof {
            use_type_invariant(&*self);
        }
        self.dismissed_ad = dismissed;
    }

    /// Adds a subscription under its identity, in place of the one that
    /// stood there, if any.
    pub fn insert_subscription(&mut self, subscription: Subscription)
        ensures
            final(self)@ == (AppView {
                subscriptions: old(self)@.subscriptions.insert(subscription@.uuid, subscription),
                ..old(self)@
            }),
    {
        proof {
            use_type_invariant(&*self);
        }
        let mut items = HashMap::new();
        std::mem::swap(&mut items, &mut self.subscriptions);
        items.insert(subscription.uuid(), subscription);
        self.subscriptions = items;
    }

    /// Adds a recurring income under its identity, in place of the one that
    /// stood there, if any.
    pub fn insert_income(&mut self, income: Subscription)
        ensures
            final(self)@ == (AppView {
                incomes: old(self)@.incomes.insert(income@.uuid, income),
                ..old(self)@
            }),
    {
        proof {
            use_type_invariant(&*self);
        }
        let mut items = HashMap::new();
        std::mem::swap(&mut items, &mut self.incomes);
        items.insert(income.uuid(), income);
        self.incomes = items;
    }

    /// Adds a fixed expense under its identity, in place of the one that
    /// stood there, if any.
    pub fn insert_expense(&mut self, expense: FixedExpense)
        ensures
            final(self)@ == (AppView {
                fixed_expenses: old(self)@.fixed_expenses.insert(expense@.uuid, expense),
                ..old(self)@
            }),
    {
        proof {
            use_type_invariant(&*self);
        }
        let mut items = HashMap::new();
        std::mem::swap(&mut items, &mut self.fixed_expenses);
        items.insert(expense.uuid(), expense);
        self.fixed_expenses = items;
    }

    /// Adds a punctual income under its identity, in place of the one that
    /// stood there, if any.
    pub fn insert_punctual_income(&mut self, income: FixedExpense)
        ensures
            final(self)@ == (AppView {
                p_incomes: old(self)@.p_incomes.insert(income@.uuid, income),
                ..old(self)@
            }),
    {
        proof {
            use_type_invariant(&*self);
        }
        let mut items = HashMap::new();
        std::mem::swap(&mut items, &mut self.p_incomes);
        items.insert(income.uuid(), income);
        self.p_incomes = items;
    }

    /// Removes a subscription; nothing else changes.
    pub fn remove_subscription(&mut self, uuid: u128)
        ensures
            final(self)@ == (AppView {
                subscriptions: old(self)@.subscriptions.remove(uuid),
                ..old(self)@
            }),
    {
        proof {
            use_type_invariant(&*self);
        }
        let mut items = HashMap::new();
        std::mem::swap(&mut items, &mut self.subscriptions);
        items.remove(&uuid);
        self.subscriptions = items;
    }

    /// Removes a recurring income; nothing else changes.
    pub fn remove_income(&mut self, uuid: u128)
        ensures
            final(self)@ == (AppView { incomes: old(self)@.incomes.remove(uuid), ..old(self)@ }),
    {
        proof {
            use_type_invariant(&*self);
        }
        let mut items = HashMap::new();
        std::mem::swap(&mut items, &mut self.incomes);
        items.remove(&uuid);
        self.incomes = items;
    }

    /// Removes an expense; nothing else changes.
    pub fn remove_expense(&mut self, uuid: u128)
        ensures
            final(self)@ == (AppView {
                fixed_expenses: old(self)@.fixed_expenses.remove(uuid),
                ..old(self)@
            }),
    {
        proof {
            use_type_invariant(&*self);
        }
        let mut items = HashMap::new();
        std::mem::swap(&mut items, &mut self.fixed_expenses);
        items.remove(&uuid);
        self.fixed_expenses = items;
    }

    /// Remove a punctual income; nothing else changes.
    pub fn remove_punctual_income(&mut self, uuid: &u128)
        ensures
            final(self)@ == (AppView {
                p_incomes: old(self)@.p_incomes.remove(*uuid),
                ..old(self)@
            }),
    {
        proof {
            use_type_invariant(&*self);
        }
        let mut items = HashMap::new();
        std::mem::swap(&mut items, &mut self.p_incomes);
        items.remove(uuid);
        self.p_incomes = items;
    }

    /// The subscriptions, each once, in no particular order.
    pub fn subscriptions(&self) -> (r: Vec<Subscription>)
        ensures
            lists(r@, self@.subscriptions, subscription_key()),
    {
        proof {
            use_type_invariant(self);
        }
        list_subscriptions(&self.subscriptions)
    }

    /// The recurring incomes, each once, in no particular order.
    pub fn incomes(&self) -> (r: Vec<Subscription>)
        ensures
            lists(r@, self@.incomes, subscription_key()),
    {
        proof {
            use_type_invariant(self);
        }
        list_subscriptions(&self.incomes)
    }

    /// The fixed expenses, each once, in no particular order.
    pub fn fixed_expenses(&self) -> (r: Vec<FixedExpense>)
        ensures
            lists(r@, self@.fixed_expenses, expense_key()),
    {
        proof {
            use_type_invariant(self);
        }
        list_expenses(&self.fixed_expenses)
    }

    /// The punctual incomes, each once, in no particular order.
    pub fn p_incomes(&self) -> (r: Vec<FixedExpense>)
        ensures
            lists(r@, self@.p_incomes, expense_key()),
    {
        proof {
            use_type_invariant(self);
        }
        list_expenses(&self.p_incomes)
    }

    /// Returns the total cost of all subscriptions in a whole year.
    pub fn yearly_costs(&self) -> (r: i128)
        ensures
            r == self@.yearly_costs(),
    {
        proof {
            use_type_invariant(self);
        }
        year_total(&self.subscriptions)
    }

    /// Returns the total cost of all subscriptions in a month.
    pub fn monthly_costs(&self) -> (r: i128)
        ensures
            r == self@.monthly_costs(),
    {
        proof {
            use_type_invariant(self);
        }
        month_total(&self.subscriptions)
    }

    /// Returns the balance at the end of each month: what all income streams
    /// bring in a month less what all subscriptions cost in a month.
    pub fn monthly_balance(&self) -> (r: i128)
        ensures
            r == self@.monthly_balance(),
    {
        proof {
            use_type_invariant(self);
        }
        month_total(&self.incomes) - month_total(&self.subscriptions)
    }

    /// Returns what the subscriptions and the fixed expenses cost from
    /// `today` through the last day of its year.
    pub fn costs_to_year_end(&self, today: Date) -> (r: i128)
        ensures
            r == self@.costs_to_year_end(today@),
            0 <= r <= 0x1000_0001_0000_0000_0000_0000_0000_0000,
    {
        let subscriptions = self.subscriptions();
        let expenses = self.fixed_expenses();
        proof {
            use_type_invariant(self);
            assert(subscriptions@.len() == subscriptions.len());
            assert(expenses@.len() == expenses.len());
            let horizon = year_end(today@);
            lemma_listing_total(
                subscriptions@,
                self@.subscriptions,
                subscription_key(),
                until(today@, horizon),
            );
            lemma_listing_total(
                expenses@,
                self@.fixed_expenses,
                expense_key(),
                within(today@, horizon),
            );
        }
        cost_to_year_end(&subscriptions, &expenses, today)
    }

    /// Returns what the recurring and the punctual incomes bring from `today`
    /// through the last day of its year.
    pub fn income_to_year_end(&self, today: Date) -> (r: i128)
        ensures
            r == self@.income_to_year_end(today@),
            0 <= r <= 0x1000_0001_0000_0000_0000_0000_0000_0000,
    {
        let incomes = self.incomes();
        let punctual = self.p_incomes();
        proof {
            use_type_invariant(self);
            assert(incomes@.len() == incomes.len());
            assert(punctual@.len() == punctual.len());
            let horizon = year_end(today@);
            lemma_listing_total(
                incomes@,
                self@.incomes,
                subscription_key(),
                until(today@, horizon),
            );
            lemma_listing_total(punctual@, self@.p_incomes, expense_key(), within(today@, horizon));
        }
        cost_to_year_end(&incomes, &punctual, today)
    }

    /// Returns the savings projected for the last day of the year of `today`:
    /// the savings, with the incomes up to then and without the costs up to
    /// then. A negative balance is a deficit.
    pub fn year_end_balance(&self, today: Date) -> (r: i128)
        ensures
            r == self@.year_end_balance(today@),
    {
        self.initial_savings as i128 + self.income_to_year_end(today) - self.costs_to_year_end(
            today,
        )
    }

    /// Updates the budget by removing the fixed expenses and punctual incomes
    /// dated before `today`, taking the expenses off the savings and adding
    /// the incomes to them. A budget is left as it is, with an error, where
    /// the savings would leave the range of amounts that it can hold.
    pub fn update(&mut self, today: Date) -> (r: Result<(), SavingsOutOfRange>)
        ensures
            i64::MIN <= old(self)@.swept_savings(today@) <= i64::MAX ==> r is Ok
                && final(self)@ == old(self)@.swept(today@),
            !(i64::MIN <= old(self)@.swept_savings(today@) <= i64::MAX) ==> r is Err
                && final(self)@ == old(self)@,
    {
        proof {
            use_type_invariant(&*self);
        }
        let gained = due_total(&self.p_incomes, &today);
        let spent = due_total(&self.fixed_expenses, &today);
        let savings = self.initial_savings as i128 + gained - spent;
        if savings < i64::MIN as i128 || savings > i64::MAX as i128 {
            return Err(SavingsOutOfRange);
        }
        let mut expenses = HashMap::new();
        std::mem::swap(&mut expenses, &mut self.fixed_expenses);
        remove_due(&mut expenses, &today);
        self.fixed_expenses = expenses;
        let mut incomes = HashMap::new();
        std::mem::swap(&mut incomes, &mut self.p_incomes);
        remove_due(&mut incomes, &today);
        self.p_incomes = incomes;
        self.initial_savings = savings as i64;
        Ok(())
    }
}

} // verus!

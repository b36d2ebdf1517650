//! Recomputation of every derived value of a month document.
use vstd::prelude::*;

use crate::config::{
    AccountConfig, AccountKind, AppConfig, account_ids, config_error, earmark_ids, pot_ids,
    signed_balance,
};
use crate::config::{account_id_refs, earmark_id_refs, pot_id_refs};
use crate::error::{BudgetError, BudgetErrorView};
use crate::money::Money;
use crate::month::document::{DerivedCache, MonthDocument, MonthMeta, SavingsPotState};
use crate::month::entries::EntryMap;
use crate::month::id::MonthId;
use crate::text::{concat2, concat3, least_key, lemma_lex_irreflexive, lemma_lex_total, lemma_lex_trans, lemma_least_key, lex_lt, str_eq, str_lex_lt};

verus! {

/// Fully recomputed view of a persisted month document.
#[derive(Clone, Debug, PartialEq, Eq)]
pub struct CalculatedMonth {
    pub month: MonthId,
    pub account_rows: Vec<AccountRow>,
    pub timing: TimingCalculation,
    pub earmark_rows: Vec<EarmarkRow>,
    pub pot_rows: Vec<PotRow>,
    pub totals: Totals,
    pub validation: ValidationState,
}

/// Calculated account row with both raw and sign-normalised values.
#[derive(Clone, Debug, PartialEq, Eq)]
pub struct AccountRow {
    pub id: String,
    pub label: String,
    pub kind: AccountKind,
    /// User-entered balance before asset or liability sign rules are applied.
    pub raw_balance: Money,
    /// Signed balance used by totals, validation, and summaries.
    pub normalised_balance: Money,
}

/// Derived timing-adjustment values: the `*_raw` fields mirror what the user
/// typed, the `*_effect` fields are the signed values that flow into totals.
#[derive(Clone, Copy, Debug, PartialEq, Eq)]
pub struct TimingCalculation {
    pub investment_not_yet_sent_raw: Money,
    pub investment_effect: Money,
    pub previous_month_spending_correction_raw: Money,
    pub previous_month_spending_correction_effect: Money,
    pub subtotal: Money,
}

/// Calculated next-month earmark row.
#[derive(Clone, Debug, PartialEq, Eq)]
pub struct EarmarkRow {
    pub id: String,
    pub label: String,
    pub amount: Money,
}

/// Calculated savings-pot row.
#[derive(Clone, Debug, PartialEq, Eq)]
pub struct PotRow {
    pub id: String,
    pub label: String,
    pub carried_over: Money,
    pub monthly_change: Money,
    pub final_balance: Money,
}

/// Aggregated totals that drive summary panels and validation.
#[derive(Clone, Copy, Debug, PartialEq, Eq)]
pub struct Totals {
    pub accounts_subtotal: Money,
    pub timing_adjustments_subtotal: Money,
    pub net_available: Money,
    pub pots_carried_total: Money,
    pub pots_monthly_change_total: Money,
    pub pots_final_total: Money,
    pub next_month_earmarks_subtotal: Money,
    pub total_allocated: Money,
}

/// Final balancing result for a month.
#[derive(Clone, Copy, Debug, PartialEq, Eq)]
pub struct ValidationState {
    pub tolerance: Money,
    pub overall_difference: Money,
    pub is_valid: bool,
}

/// Sum of a sequence of integers.
pub open spec fn seq_sum(s: Seq<int>) -> int
    decreases s.len(),
{
    if s.len() == 0 {
        0
    } else {
        seq_sum(s.drop_last()) + s.last()
    }
}

/// `x` fits in an `i64`.
pub open spec fn in_i64(x: int) -> bool {
    i64::MIN <= x <= i64::MAX
}

/// The raw balance the document holds for the `i`-th configured account.
pub open spec fn raw_account(c: AppConfig, d: MonthDocument, i: int) -> int {
    d.accounts@[c.accounts@[i].id@] as int
}

/// The signed contribution of each configured account, in order.
pub open spec fn account_values(c: AppConfig, d: MonthDocument) -> Seq<int> {
    Seq::new(
        c.accounts@.len(),
        |i: int| signed_balance(c.accounts@[i].kind, raw_account(c, d, i)),
    )
}

/// The amount the document holds for the `i`-th configured earmark.
pub open spec fn earmark_amount(c: AppConfig, d: MonthDocument, i: int) -> int {
    d.next_month_earmarks@[c.next_month_earmarks@[i].id@] as int
}

/// The earmark amounts, in configuration order.
pub open spec fn earmark_values(c: AppConfig, d: MonthDocument) -> Seq<int> {
    Seq::new(c.next_month_earmarks@.len(), |i: int| earmark_amount(c, d, i))
}

/// Carried-over balance of the `i`-th configured pot.
pub open spec fn pot_carried(c: AppConfig, d: MonthDocument, i: int) -> int {
    d.savings_pots@[c.savings_pots@[i].id@].carried_over as int
}

/// Monthly change of the `i`-th configured pot.
pub open spec fn pot_change(c: AppConfig, d: MonthDocument, i: int) -> int {
    d.savings_pots@[c.savings_pots@[i].id@].monthly_change as int
}

/// Carried-over balances of the pots, in configuration order.
pub open spec fn carried_values(c: AppConfig, d: MonthDocument) -> Seq<int> {
    Seq::new(c.savings_pots@.len(), |i: int| pot_carried(c, d, i))
}

/// Monthly changes of the pots, in configuration order.
pub open spec fn change_values(c: AppConfig, d: MonthDocument) -> Seq<int> {
    Seq::new(c.savings_pots@.len(), |i: int| pot_change(c, d, i))
}

/// Final balances of the pots, in configuration order.
pub open spec fn final_values(c: AppConfig, d: MonthDocument) -> Seq<int> {
    Seq::new(c.savings_pots@.len(), |i: int| pot_carried(c, d, i) + pot_change(c, d, i))
}

/// Position of the first `true`, or the length when there is none.
pub open spec fn first_true(s: Seq<bool>) -> int
    decreases s.len(),
{
    if s.len() == 0 {
        0
    } else if s[0] {
        0
    } else {
        1 + first_true(s.drop_first())
    }
}

/// The facts that make `first_true` the first match.
pub proof fn lemma_first_true(s: Seq<bool>)
    ensures
        0 <= first_true(s) <= s.len(),
        first_true(s) < s.len() ==> s[first_true(s)],
        forall|k: int| 0 <= k < first_true(s) ==> !s[k],
    decreases s.len(),
{
    if s.len() > 0 && !s[0] {
        lemma_first_true(s.drop_first());
        assert forall|k: int| 0 <= k < first_true(s) implies !s[k] by {
            if k > 0 {
                assert(s[k] == s.drop_first()[k - 1]);
            }
        }
    }
}

/// The index `first_true` picks is the first `true`.
pub proof fn lemma_first_true_is(s: Seq<bool>, i: int)
    requires
        0 <= i <= s.len(),
        i < s.len() ==> s[i],
        forall|k: int| 0 <= k < i ==> !s[k],
    ensures
        first_true(s) == i,
{
    lemma_first_true(s);
    if first_true(s) < i {
        assert(s[first_true(s)]);
    }
    if i < first_true(s) {
        assert(!s[i]);
    }
}

/// The failure of comparing the identifiers a document holds in one section
/// (`actual`) with those configured (`expected`): the least missing one,
/// else the least unexpected one.
pub open spec fn key_error(section: Seq<char>, actual: Set<Seq<char>>, expected: Set<Seq<char>>) -> Option<BudgetErrorView> {
    let missing = expected.difference(actual);
    let unexpected = actual.difference(expected);
    if exists|x: Seq<char>| missing.contains(x) {
        Some(BudgetErrorView::MissingEntry { section, id: least_key(missing) })
    } else if exists|x: Seq<char>| unexpected.contains(x) {
        Some(BudgetErrorView::UnexpectedEntry { section, id: least_key(unexpected) })
    } else {
        None
    }
}

/// The configuration is valid and each document section holds exactly the
/// configured identifiers.
pub open spec fn keys_match(c: AppConfig, d: MonthDocument) -> bool {
    &&& config_error(c) is None
    &&& key_error("accounts"@, d.accounts@.dom(), account_ids(c).to_set()) is None
    &&& key_error("next_month_earmarks"@, d.next_month_earmarks@.dom(), earmark_ids(c).to_set()) is None
    &&& key_error("savings_pots"@, d.savings_pots@.dom(), pot_ids(c).to_set()) is None
}

/// Whether each configured account has a negative entered balance.
pub open spec fn negative_accounts(c: AppConfig, d: MonthDocument) -> Seq<bool> {
    Seq::new(c.accounts@.len(), |i: int| raw_account(c, d, i) < 0)
}

/// Whether each configured earmark has a negative amount.
pub open spec fn negative_earmarks(c: AppConfig, d: MonthDocument) -> Seq<bool> {
    Seq::new(c.next_month_earmarks@.len(), |i: int| earmark_amount(c, d, i) < 0)
}

/// Whether each configured pot starts or ends below zero.
pub open spec fn bad_pots(c: AppConfig, d: MonthDocument) -> Seq<bool> {
    Seq::new(
        c.savings_pots@.len(),
        |i: int| pot_carried(c, d, i) < 0 || pot_carried(c, d, i) + pot_change(c, d, i) < 0,
    )
}

/// The failure that calculating `d` under `c` reports, if any, in the order
/// the checks are made: configuration, section identifiers, account
/// balances, the investment timing entry, earmarks, then savings pots.
pub open spec fn calc_error(c: AppConfig, d: MonthDocument) -> Option<BudgetErrorView> {
    let acc = key_error("accounts"@, d.accounts@.dom(), account_ids(c).to_set());
    let ear = key_error("next_month_earmarks"@, d.next_month_earmarks@.dom(), earmark_ids(c).to_set());
    let pot = key_error("savings_pots"@, d.savings_pots@.dom(), pot_ids(c).to_set());
    let na = first_true(negative_accounts(c, d));
    let ne = first_true(negative_earmarks(c, d));
    let bp = first_true(bad_pots(c, d));
    if config_error(c) is Some {
        config_error(c)
    } else if acc is Some {
        acc
    } else if ear is Some {
        ear
    } else if pot is Some {
        pot
    } else if na < c.accounts@.len() {
        Some(BudgetErrorView::NegativeValue { field: "accounts."@ + c.accounts@[na].id@ })
    } else if d.timing_adjustments.investment_not_yet_sent_raw < 0 {
        Some(BudgetErrorView::NegativeValue { field: "timing_adjustments.investment_not_yet_sent_raw"@ })
    } else if ne < c.next_month_earmarks@.len() {
        Some(BudgetErrorView::NegativeValue { field: "next_month_earmarks."@ + c.next_month_earmarks@[ne].id@ })
    } else if bp < c.savings_pots@.len() {
        if pot_carried(c, d, bp) < 0 {
            Some(BudgetErrorView::NegativeValue {
                field: "savings_pots."@ + c.savings_pots@[bp].id@ + ".carried_over"@,
            })
        } else {
            Some(BudgetErrorView::NegativePotFinal {
                id: c.savings_pots@[bp].id@,
                carried_over: pot_carried(c, d, bp),
                monthly_change: pot_change(c, d, bp),
            })
        }
    } else {
        None
    }
}

/// Timing subtotal: the spending correction less the investment not yet sent.
pub open spec fn timing_total(d: MonthDocument) -> int {
    d.timing_adjustments.previous_month_spending_correction_raw - d.timing_adjustments.investment_not_yet_sent_raw
}

/// Net position plus timing adjustments.
pub open spec fn net_total(c: AppConfig, d: MonthDocument) -> int {
    seq_sum(account_values(c, d)) + timing_total(d)
}

/// Pots' final balances plus next-month earmarks.
pub open spec fn allocated_total(c: AppConfig, d: MonthDocument) -> int {
    seq_sum(final_values(c, d)) + seq_sum(earmark_values(c, d))
}

/// Every total the calculation reports fits in an `i64` minor-unit amount.
pub open spec fn totals_fit(c: AppConfig, d: MonthDocument) -> bool {
    &&& in_i64(seq_sum(account_values(c, d)))
    &&& in_i64(timing_total(d))
    &&& in_i64(seq_sum(earmark_values(c, d)))
    &&& in_i64(seq_sum(carried_values(c, d)))
    &&& in_i64(seq_sum(change_values(c, d)))
    &&& forall|i: int| 0 <= i < c.savings_pots@.len() ==> in_i64(#[trigger] final_values(c, d)[i])
    &&& in_i64(seq_sum(final_values(c, d)))
    &&& in_i64(net_total(c, d))
    &&& in_i64(allocated_total(c, d))
    &&& in_i64(net_total(c, d) - allocated_total(c, d))
}

/// The amounts of a month that calculates without error stay within the
/// range of `i64` minor units.
pub open spec fn calculation_fits(c: AppConfig, d: MonthDocument) -> bool {
    calc_error(c, d) is None ==> totals_fit(c, d)
}

/// `m` is the calculation of `d` under `c`.
pub open spec fn calculated_as(c: AppConfig, d: MonthDocument, m: CalculatedMonth) -> bool {
    let invest = d.timing_adjustments.investment_not_yet_sent_raw as int;
    let prev = d.timing_adjustments.previous_month_spending_correction_raw as int;
    let tolerance = c.validation_tolerance_minor as int;
    let difference = net_total(c, d) - allocated_total(c, d);
    &&& m.month == d.month
    &&& m.account_rows@.len() == c.accounts@.len()
    &&& forall|i: int| 0 <= i < c.accounts@.len() ==> {
        let row = #[trigger] m.account_rows@[i];
        &&& row.id@ == c.accounts@[i].id@
        &&& row.label@ == c.accounts@[i].label@
        &&& row.kind == c.accounts@[i].kind
        &&& row.raw_balance@ == raw_account(c, d, i)
        &&& row.normalised_balance@ == account_values(c, d)[i]
    }
    &&& m.timing.investment_not_yet_sent_raw@ == invest
    &&& m.timing.investment_effect@ == -invest
    &&& m.timing.previous_month_spending_correction_raw@ == prev
    &&& m.timing.previous_month_spending_correction_effect@ == prev
    &&& m.timing.subtotal@ == timing_total(d)
    &&& m.earmark_rows@.len() == c.next_month_earmarks@.len()
    &&& forall|i: int| 0 <= i < c.next_month_earmarks@.len() ==> {
        let row = #[trigger] m.earmark_rows@[i];
        &&& row.id@ == c.next_month_earmarks@[i].id@
        &&& row.label@ == c.next_month_earmarks@[i].label@
        &&& row.amount@ == earmark_amount(c, d, i)
    }
    &&& m.pot_rows@.len() == c.savings_pots@.len()
    &&& forall|i: int| 0 <= i < c.savings_pots@.len() ==> {
        let row = #[trigger] m.pot_rows@[i];
        &&& row.id@ == c.savings_pots@[i].id@
        &&& row.label@ == c.savings_pots@[i].label@
        &&& row.carried_over@ == pot_carried(c, d, i)
        &&& row.monthly_change@ == pot_change(c, d, i)
        &&& row.final_balance@ == pot_carried(c, d, i) + pot_change(c, d, i)
    }
    &&& m.totals.accounts_subtotal@ == seq_sum(account_values(c, d))
    &&& m.totals.timing_adjustments_subtotal@ == timing_total(d)
    &&& m.totals.net_available@ == net_total(c, d)
    &&& m.totals.pots_carried_total@ == seq_sum(carried_values(c, d))
    &&& m.totals.pots_monthly_change_total@ == seq_sum(change_values(c, d))
    &&& m.totals.pots_final_total@ == seq_sum(final_values(c, d))
    &&& m.totals.next_month_earmarks_subtotal@ == seq_sum(earmark_values(c, d))
    &&& m.totals.total_allocated@ == allocated_total(c, d)
    &&& m.validation.tolerance@ == tolerance
    &&& m.validation.overall_difference@ == difference
    &&& m.validation.is_valid == (-tolerance <= difference <= tolerance)
}

impl CalculatedMonth {
    /// Builds the inspectable derived cache written back into month files.
    pub fn cache(&self) -> (r: DerivedCache)
        ensures
            r.accounts_subtotal_minor == self.totals.accounts_subtotal@,
            r.timing_adjustments_subtotal_minor == self.totals.timing_adjustments_subtotal@,
            r.net_available_minor == self.totals.net_available@,
            r.pots_carried_total_minor == self.totals.pots_carried_total@,
            r.pots_monthly_change_total_minor == self.totals.pots_monthly_change_total@,
            r.pots_final_total_minor == self.totals.pots_final_total@,
            r.next_month_earmarks_subtotal_minor == self.totals.next_month_earmarks_subtotal@,
            r.total_allocated_minor == self.totals.total_allocated@,
            r.overall_difference_minor == self.validation.overall_difference@,
            r.is_valid == self.validation.is_valid,
    {
        DerivedCache {
            accounts_subtotal_minor: self.totals.accounts_subtotal.minor(),
            timing_adjustments_subtotal_minor: self.totals.timing_adjustments_subtotal.minor(),
            net_available_minor: self.totals.net_available.minor(),
            pots_carried_total_minor: self.totals.pots_carried_total.minor(),
            pots_monthly_change_total_minor: self.totals.pots_monthly_change_total.minor(),
            pots_final_total_minor: self.totals.pots_final_total.minor(),
            next_month_earmarks_subtotal_minor: self.totals.next_month_earmarks_subtotal.minor(),
            total_allocated_minor: self.totals.total_allocated.minor(),
            overall_difference_minor: self.validation.overall_difference.minor(),
            is_valid: self.validation.is_valid,
        }
    }
}

/// Reports whether `key` is one of `ids`.
fn ids_contain(ids: &Vec<&String>, key: &str) -> (r: bool)
    ensures
        r == ids@.map_values(|s: &String| s@).contains(key@),
{
    let ghost all = ids@.map_values(|s: &String| s@);
    let mut i: usize = 0;
    while i < ids.len()
        invariant
            i <= ids@.len(),
            all == ids@.map_values(|s: &String| s@),
            forall|k: int| 0 <= k < i ==> all[k] != key@,
        decreases ids.len() - i,
    {
        if str_eq(ids[i].as_str(), key) {
            proof {
                assert(all[i as int] == key@);
            }
            return true;
        }
        i += 1;
    }
    false
}

/// Compares the identifiers `map` holds with the configured `ids`.
fn check_keys<T>(section: &'static str, map: &EntryMap<T>, ids: &Vec<&String>) -> (r: Result<(), BudgetError>)
    ensures
        match r {
            Ok(()) => key_error(section@, map@.dom(), ids@.map_values(|s: &String| s@).to_set()) is None,
            Err(e) => key_error(section@, map@.dom(), ids@.map_values(|s: &String| s@).to_set()) == Some(e@),
        },
{
    let ghost all = ids@.map_values(|s: &String| s@);
    let ghost expected = all.to_set();
    let ghost actual = map@.dom();
    let ghost missing = expected.difference(actual);
    let ghost unexpected = actual.difference(expected);
    // The least configured identifier the map lacks.
    let mut best: Option<usize> = None;
    let mut i: usize = 0;
    while i < ids.len()
        invariant
            i <= ids@.len(),
            all == ids@.map_values(|s: &String| s@),
            actual == map@.dom(),
            match best {
                Some(b) => b < i && !actual.contains(all[b as int]) && forall|k: int|
                    0 <= k < i && !actual.contains(#[trigger] all[k]) ==> !lex_lt(all[k], all[b as int]),
                None => forall|k: int| 0 <= k < i ==> actual.contains(#[trigger] all[k]),
            },
        decreases ids.len() - i,
    {
        if !map.contains_key(ids[i].as_str()) {
            match best {
                None => {
                    best = Some(i);
                    proof {
                        lemma_lex_irreflexive(all[i as int]);
                    }
                },
                Some(b) => {
                    if str_lex_lt(ids[i].as_str(), ids[b].as_str()) {
                        best = Some(i);
                        proof {
                            lemma_lex_irreflexive(all[i as int]);
                            assert forall|k: int| 0 <= k < i + 1 && !actual.contains(#[trigger] all[k])
                                implies !lex_lt(all[k], all[i as int]) by {
                                if k < i && lex_lt(all[k], all[i as int]) {
                                    lemma_lex_trans(all[k], all[i as int], all[b as int]);
                                }
                            }
                        }
                    } else {
                        proof {
                            assert(!lex_lt(all[i as int], all[b as int]));
                        }
                    }
                },
            }
        }
        i += 1;
    }
    if let Some(b) = best {
        proof {
            assert(missing.contains(all[b as int]));
            assert forall|y: Seq<char>| missing.contains(y) implies !lex_lt(y, all[b as int]) by {
                let k = choose|k: int| 0 <= k < all.len() && all[k] == y;
            }
            lemma_least_key(missing, all[b as int]);
        }
        return Err(BudgetError::MissingEntry { section, id: ids[b].clone() });
    }
    proof {
        assert forall|x: Seq<char>| !missing.contains(x) by {
            if expected.contains(x) {
                let k = choose|k: int| 0 <= k < all.len() && all[k] == x;
            }
        }
    }
    // The least identifier the map holds that is not configured.
    let n = map.len();
    let mut best: Option<usize> = None;
    let mut j: usize = 0;
    while j < n
        invariant
            j <= n,
            n == map.pairs().len(),
            all == ids@.map_values(|s: &String| s@),
            expected == all.to_set(),
            match best {
                Some(b) => b < j && !expected.contains(map.pairs()[b as int].0) && forall|k: int|
                    0 <= k < j && !expected.contains(#[trigger] map.pairs()[k].0) ==> !lex_lt(
                        map.pairs()[k].0,
                        map.pairs()[b as int].0,
                    ),
                None => forall|k: int| 0 <= k < j ==> expected.contains(#[trigger] map.pairs()[k].0),
            },
        decreases n - j,
    {
        let key = map.key_at(j);
        if !ids_contain(ids, key.as_str()) {
            match best {
                None => {
                    best = Some(j);
                    proof {
                        lemma_lex_irreflexive(map.pairs()[j as int].0);
                    }
                },
                Some(b) => {
                    if str_lex_lt(key.as_str(), map.key_at(b).as_str()) {
                        best = Some(j);
                        proof {
                            lemma_lex_irreflexive(map.pairs()[j as int].0);
                            assert forall|k: int| 0 <= k < j + 1 && !expected.contains(#[trigger] map.pairs()[k].0)
                                implies !lex_lt(map.pairs()[k].0, map.pairs()[j as int].0) by {
                                if k < j && lex_lt(map.pairs()[k].0, map.pairs()[j as int].0) {
                                    lemma_lex_trans(map.pairs()[k].0, map.pairs()[j as int].0, map.pairs()[b as int].0);
                                }
                            }
                        }
                    }
                },
            }
        }
        j += 1;
    }
    if let Some(b) = best {
        proof {
            let x = map.pairs()[b as int].0;
            assert(unexpected.contains(x));
            assert forall|y: Seq<char>| unexpected.contains(y) implies !lex_lt(y, x) by {
                let k = choose|k: int| 0 <= k < map.pairs().len() && #[trigger] map.pairs()[k].0 == y;
            }
            lemma_least_key(unexpected, x);
        }
        return Err(BudgetError::UnexpectedEntry { section, id: map.key_at(b).clone() });
    }
    proof {
        assert forall|x: Seq<char>| !unexpected.contains(x) by {
            if actual.contains(x) {
                let k = choose|k: int| 0 <= k < map.pairs().len() && #[trigger] map.pairs()[k].0 == x;
            }
        }
    }
    Ok(())
}

/// With matching identifiers, each configured identifier is present in the
/// document section and each present identifier is configured.
pub proof fn lemma_key_sets(section: Seq<char>, actual: Set<Seq<char>>, expected: Set<Seq<char>>)
    requires
        key_error(section, actual, expected) is None,
    ensures
        forall|x: Seq<char>| expected.contains(x) ==> actual.contains(x),
        forall|x: Seq<char>| actual.contains(x) ==> expected.contains(x),
{
    assert forall|x: Seq<char>| expected.contains(x) implies actual.contains(x) by {
        if !actual.contains(x) {
            assert(expected.difference(actual).contains(x));
        }
    }
    assert forall|x: Seq<char>| actual.contains(x) implies expected.contains(x) by {
        if !expected.contains(x) {
            assert(actual.difference(expected).contains(x));
        }
    }
}

/// Summing one more element.
pub proof fn lemma_sum_take(s: Seq<int>, i: int)
    requires
        0 <= i < s.len(),
    ensures
        seq_sum(s.take(i + 1)) == seq_sum(s.take(i)) + s[i],
{
    assert(s.take(i + 1).drop_last() =~= s.take(i));
}

/// Taking the whole sequence.
pub proof fn lemma_take_all<A>(s: Seq<A>)
    ensures
        s.take(s.len() as int) == s,
{
    assert(s.take(s.len() as int) =~= s);
}

const BOUND: i128 = 0x8000_0000_0000_0000;

/// The account rows and the sum of their signed balances.
#[verifier::loop_isolation(false)]
fn account_rows(c: &AppConfig, d: &MonthDocument) -> (r: Result<(Vec<AccountRow>, i128), BudgetError>)
    requires
        keys_match(*c, *d),
    ensures
        match r {
            Ok((rows, total)) => {
                &&& first_true(negative_accounts(*c, *d)) == c.accounts@.len()
                &&& total == seq_sum(account_values(*c, *d))
                &&& rows@.len() == c.accounts@.len()
                &&& forall|i: int| 0 <= i < c.accounts@.len() ==> {
                    let row = #[trigger] rows@[i];
                    &&& row.id@ == c.accounts@[i].id@
                    &&& row.label@ == c.accounts@[i].label@
                    &&& row.kind == c.accounts@[i].kind
                    &&& row.raw_balance@ == raw_account(*c, *d, i)
                    &&& row.normalised_balance@ == account_values(*c, *d)[i]
                }
            },
            Err(e) => first_true(negative_accounts(*c, *d)) < c.accounts@.len() && e@
                == BudgetErrorView::NegativeValue {
                field: "accounts."@ + c.accounts@[first_true(negative_accounts(*c, *d))].id@,
            },
        },
{
    proof {
        lemma_key_sets("accounts"@, d.accounts@.dom(), account_ids(*c).to_set());
        lemma_first_true(negative_accounts(*c, *d));
    }
    let ghost values = account_values(*c, *d);
    let mut rows: Vec<AccountRow> = Vec::new();
    let mut total: i128 = 0;
    let mut i: usize = 0;
    while i < c.accounts.len()
        invariant
            i <= c.accounts@.len(),
            rows@.len() == i,
            total == seq_sum(values.take(i as int)),
            -(i as int) * (BOUND as int) <= total <= (i as int) * (BOUND as int),
            forall|k: int| 0 <= k < i ==> !negative_accounts(*c, *d)[k],
            forall|k: int| 0 <= k < i ==> {
                let row = #[trigger] rows@[k];
                &&& row.id@ == c.accounts@[k].id@
                &&& row.label@ == c.accounts@[k].label@
                &&& row.kind == c.accounts@[k].kind
                &&& row.raw_balance@ == raw_account(*c, *d, k)
                &&& row.normalised_balance@ == values[k]
            },
        decreases c.accounts.len() - i,
    {
        let account: &AccountConfig = &c.accounts[i];
        proof {
            assert(account_ids(*c)[i as int] == account.id@);
            assert(account_ids(*c).to_set().contains(account.id@));
        }
        let raw: i64 = match d.accounts.get(account.id.as_str()) {
            Some(v) => *v,
            None => {
                return Err(BudgetError::MissingEntry { section: "accounts", id: account.id.clone() });
            },
        };
        if raw < 0 {
            proof {
                assert(negative_accounts(*c, *d)[i as int]);
                lemma_first_true_is(negative_accounts(*c, *d), i as int);
            }
            return Err(BudgetError::NegativeValue { field: concat2("accounts.", account.id.as_str()) });
        }
        let normalised = account.apply_sign(raw);
        rows.push(AccountRow {
            id: account.id.clone(),
            label: account.label.clone(),
            kind: account.kind,
            raw_balance: Money::from_minor(raw),
            normalised_balance: normalised,
        });
        proof {
            lemma_sum_take(values, i as int);
        }
        total = total + normalised.minor() as i128;
        i += 1;
    }
    proof {
        lemma_take_all(values);
        lemma_first_true_is(negative_accounts(*c, *d), c.accounts@.len() as int);
    }
    Ok((rows, total))
}

/// The earmark rows and the sum of their amounts.
#[verifier::loop_isolation(false)]
fn earmark_rows(c: &AppConfig, d: &MonthDocument) -> (r: Result<(Vec<EarmarkRow>, i128), BudgetError>)
    requires
        keys_match(*c, *d),
    ensures
        match r {
            Ok((rows, total)) => {
                &&& first_true(negative_earmarks(*c, *d)) == c.next_month_earmarks@.len()
                &&& total == seq_sum(earmark_values(*c, *d))
                &&& rows@.len() == c.next_month_earmarks@.len()
                &&& forall|i: int| 0 <= i < c.next_month_earmarks@.len() ==> {
                    let row = #[trigger] rows@[i];
                    &&& row.id@ == c.next_month_earmarks@[i].id@
                    &&& row.label@ == c.next_month_earmarks@[i].label@
                    &&& row.amount@ == earmark_amount(*c, *d, i)
                }
            },
            Err(e) => first_true(negative_earmarks(*c, *d)) < c.next_month_earmarks@.len() && e@
                == BudgetErrorView::NegativeValue {
                field: "next_month_earmarks."@ + c.next_month_earmarks@[first_true(
                    negative_earmarks(*c, *d),
                )].id@,
            },
        },
{
    proof {
        lemma_key_sets("next_month_earmarks"@, d.next_month_earmarks@.dom(), earmark_ids(*c).to_set());
        lemma_first_true(negative_earmarks(*c, *d));
    }
    let ghost values = earmark_values(*c, *d);
    let mut rows: Vec<EarmarkRow> = Vec::new();
    let mut total: i128 = 0;
    let mut i: usize = 0;
    while i < c.next_month_earmarks.len()
        invariant
            i <= c.next_month_earmarks@.len(),
            rows@.len() == i,
            total == seq_sum(values.take(i as int)),
            -(i as int) * (BOUND as int) <= total <= (i as int) * (BOUND as int),
            forall|k: int| 0 <= k < i ==> !negative_earmarks(*c, *d)[k],
            forall|k: int| 0 <= k < i ==> {
                let row = #[trigger] rows@[k];
                &&& row.id@ == c.next_month_earmarks@[k].id@
                &&& row.label@ == c.next_month_earmarks@[k].label@
                &&& row.amount@ == earmark_amount(*c, *d, k)
            },
        decreases c.next_month_earmarks.len() - i,
    {
        let item = &c.next_month_earmarks[i];
        proof {
            assert(earmark_ids(*c)[i as int] == item.id@);
            assert(earmark_ids(*c).to_set().contains(item.id@));
        }
        let amount: i64 = match d.next_month_earmarks.get(item.id.as_str()) {
            Some(v) => *v,
            None => {
                return Err(BudgetError::MissingEntry { section: "next_month_earmarks", id: item.id.clone() });
            },
        };
        if amount < 0 {
            proof {
                assert(negative_earmarks(*c, *d)[i as int]);
                lemma_first_true_is(negative_earmarks(*c, *d), i as int);
            }
            return Err(BudgetError::NegativeValue { field: concat2("next_month_earmarks.", item.id.as_str()) });
        }
        rows.push(EarmarkRow { id: item.id.clone(), label: item.label.clone(), amount: Money::from_minor(amount) });
        proof {
            lemma_sum_take(values, i as int);
        }
        total = total + amount as i128;
        i += 1;
    }
    proof {
        lemma_take_all(values);
        lemma_first_true_is(negative_earmarks(*c, *d), c.next_month_earmarks@.len() as int);
    }
    Ok((rows, total))
}

/// Checks every savings pot starts and ends at or above zero.
#[verifier::loop_isolation(false)]
fn check_pots(c: &AppConfig, d: &MonthDocument) -> (r: Result<(), BudgetError>)
    requires
        keys_match(*c, *d),
    ensures
        match r {
            Ok(()) => first_true(bad_pots(*c, *d)) == c.savings_pots@.len(),
            Err(e) => {
                let bp = first_true(bad_pots(*c, *d));
                &&& bp < c.savings_pots@.len()
                &&& e@ == (if pot_carried(*c, *d, bp) < 0 {
                    BudgetErrorView::NegativeValue {
                        field: "savings_pots."@ + c.savings_pots@[bp].id@ + ".carried_over"@,
                    }
                } else {
                    BudgetErrorView::NegativePotFinal {
                        id: c.savings_pots@[bp].id@,
                        carried_over: pot_carried(*c, *d, bp),
                        monthly_change: pot_change(*c, *d, bp),
                    }
                })
            },
        },
{
    proof {
        lemma_key_sets("savings_pots"@, d.savings_pots@.dom(), pot_ids(*c).to_set());
        lemma_first_true(bad_pots(*c, *d));
    }
    let mut i: usize = 0;
    while i < c.savings_pots.len()
        invariant
            i <= c.savings_pots@.len(),
            forall|k: int| 0 <= k < i ==> !bad_pots(*c, *d)[k],
        decreases c.savings_pots.len() - i,
    {
        let pot = &c.savings_pots[i];
        proof {
            assert(pot_ids(*c)[i as int] == pot.id@);
            assert(pot_ids(*c).to_set().contains(pot.id@));
        }
        let state = match d.savings_pots.get(pot.id.as_str()) {
            Some(v) => *v,
            None => {
                return Err(BudgetError::MissingEntry { section: "savings_pots", id: pot.id.clone() });
            },
        };
        if state.carried_over < 0 {
            proof {
                assert(bad_pots(*c, *d)[i as int]);
                lemma_first_true_is(bad_pots(*c, *d), i as int);
            }
            return Err(BudgetError::NegativeValue {
                field: concat3("savings_pots.", pot.id.as_str(), ".carried_over"),
            });
        }
        if (state.carried_over as i128) + (state.monthly_change as i128) < 0 {
            proof {
                assert(bad_pots(*c, *d)[i as int]);
                lemma_first_true_is(bad_pots(*c, *d), i as int);
            }
            return Err(BudgetError::NegativePotFinal {
                id: pot.id.clone(),
                carried_over: state.carried_over,
                monthly_change: state.monthly_change,
            });
        }
        i += 1;
    }
    proof {
        lemma_first_true_is(bad_pots(*c, *d), c.savings_pots@.len() as int);
    }
    Ok(())
}

/// The pot rows with the carried-over and monthly-change totals.
#[verifier::loop_isolation(false)]
fn pot_rows(c: &AppConfig, d: &MonthDocument) -> (r: (Vec<PotRow>, i128, i128))
    requires
        keys_match(*c, *d),
        calc_error(*c, *d) is None,
        totals_fit(*c, *d),
    ensures
        r.1 == seq_sum(carried_values(*c, *d)),
        r.2 == seq_sum(change_values(*c, *d)),
        seq_sum(final_values(*c, *d)) == r.1 + r.2,
        r.0@.len() == c.savings_pots@.len(),
        forall|i: int| 0 <= i < c.savings_pots@.len() ==> {
            let row = #[trigger] r.0@[i];
            &&& row.id@ == c.savings_pots@[i].id@
            &&& row.label@ == c.savings_pots@[i].label@
            &&& row.carried_over@ == pot_carried(*c, *d, i)
            &&& row.monthly_change@ == pot_change(*c, *d, i)
            &&& row.final_balance@ == pot_carried(*c, *d, i) + pot_change(*c, *d, i)
        },
{
    proof {
        lemma_key_sets("savings_pots"@, d.savings_pots@.dom(), pot_ids(*c).to_set());
    }
    let ghost carried = carried_values(*c, *d);
    let ghost change = change_values(*c, *d);
    let ghost finals = final_values(*c, *d);
    let mut rows: Vec<PotRow> = Vec::new();
    let mut carried_total: i128 = 0;
    let mut change_total: i128 = 0;
    let mut i: usize = 0;
    while i < c.savings_pots.len()
        invariant
            i <= c.savings_pots@.len(),
            rows@.len() == i,
            carried_total == seq_sum(carried.take(i as int)),
            change_total == seq_sum(change.take(i as int)),
            seq_sum(finals.take(i as int)) == carried_total + change_total,
            -(i as int) * (BOUND as int) <= carried_total <= (i as int) * (BOUND as int),
            -(i as int) * (BOUND as int) <= change_total <= (i as int) * (BOUND as int),
            forall|k: int| 0 <= k < i ==> {
                let row = #[trigger] rows@[k];
                &&& row.id@ == c.savings_pots@[k].id@
                &&& row.label@ == c.savings_pots@[k].label@
                &&& row.carried_over@ == pot_carried(*c, *d, k)
                &&& row.monthly_change@ == pot_change(*c, *d, k)
                &&& row.final_balance@ == pot_carried(*c, *d, k) + pot_change(*c, *d, k)
            },
        decreases c.savings_pots.len() - i,
    {
        let pot = &c.savings_pots[i];
        proof {
            assert(pot_ids(*c)[i as int] == pot.id@);
            assert(pot_ids(*c).to_set().contains(pot.id@));
        }
        let state = match d.savings_pots.get(pot.id.as_str()) {
            Some(v) => *v,
            None => {
                proof {
                    assert(false);
                }
                SavingsPotState { carried_over: 0, monthly_change: 0 }
            },
        };
        proof {
            assert(in_i64(finals[i as int]));
            lemma_sum_take(carried, i as int);
            lemma_sum_take(change, i as int);
            lemma_sum_take(finals, i as int);
        }
        let final_balance: i64 = ((state.carried_over as i128) + (state.monthly_change as i128)) as i64;
        rows.push(PotRow {
            id: pot.id.clone(),
            label: pot.label.clone(),
            carried_over: Money::from_minor(state.carried_over),
            monthly_change: Money::from_minor(state.monthly_change),
            final_balance: Money::from_minor(final_balance),
        });
        carried_total = carried_total + state.carried_over as i128;
        change_total = change_total + state.monthly_change as i128;
        i += 1;
    }
    proof {
        lemma_take_all(carried);
        lemma_take_all(change);
        lemma_take_all(finals);
    }
    (rows, carried_total, change_total)
}

/// Runs every check of a calculation in order, returning the account and
/// earmark rows with their sums when all of them pass.
#[verifier::loop_isolation(false)]
fn checked_rows(config: &AppConfig, document: &MonthDocument) -> (r: Result<(Vec<AccountRow>, i128, Vec<EarmarkRow>, i128), BudgetError>)
    ensures
        match r {
            Ok((account_rows, accounts_total, earmark_rows, earmarks_total)) => {
                &&& calc_error(*config, *document) is None
                &&& keys_match(*config, *document)
                &&& accounts_total == seq_sum(account_values(*config, *document))
                &&& earmarks_total == seq_sum(earmark_values(*config, *document))
                &&& account_rows@.len() == config.accounts@.len()
                &&& forall|i: int| 0 <= i < config.accounts@.len() ==> {
                    let row = #[trigger] account_rows@[i];
                    &&& row.id@ == config.accounts@[i].id@
                    &&& row.label@ == config.accounts@[i].label@
                    &&& row.kind == config.accounts@[i].kind
                    &&& row.raw_balance@ == raw_account(*config, *document, i)
                    &&& row.normalised_balance@ == account_values(*config, *document)[i]
                }
                &&& earmark_rows@.len() == config.next_month_earmarks@.len()
                &&& forall|i: int| 0 <= i < config.next_month_earmarks@.len() ==> {
                    let row = #[trigger] earmark_rows@[i];
                    &&& row.id@ == config.next_month_earmarks@[i].id@
                    &&& row.label@ == config.next_month_earmarks@[i].label@
                    &&& row.amount@ == earmark_amount(*config, *document, i)
                }
            },
            Err(e) => calc_error(*config, *document) == Some(e@),
        },
{
    match config.validate() {
        Ok(()) => {},
        Err(e) => {
            return Err(e);
        },
    }
    // The document must hold exactly the configured entries of each section.
    let ids = account_id_refs(&config.accounts);
    match check_keys("accounts", &document.accounts, &ids) {
        Ok(()) => {},
        Err(e) => {
            return Err(e);
        },
    }
    let ids = earmark_id_refs(&config.next_month_earmarks);
    match check_keys("next_month_earmarks", &document.next_month_earmarks, &ids) {
        Ok(()) => {},
        Err(e) => {
            return Err(e);
        },
    }
    let ids = pot_id_refs(&config.savings_pots);
    match check_keys("savings_pots", &document.savings_pots, &ids) {
        Ok(()) => {},
        Err(e) => {
            return Err(e);
        },
    }
    let (account_rows, accounts_total) = match account_rows(config, document) {
        Ok(x) => x,
        Err(e) => {
            return Err(e);
        },
    };
    if document.timing_adjustments.investment_not_yet_sent_raw < 0 {
        return Err(BudgetError::NegativeValue {
            field: crate::text::owned("timing_adjustments.investment_not_yet_sent_raw"),
        });
    }
    let (earmark_rows, earmarks_total) = match earmark_rows(config, document) {
        Ok(x) => x,
        Err(e) => {
            return Err(e);
        },
    };
    match check_pots(config, document) {
        Ok(()) => {},
        Err(e) => {
            return Err(e);
        },
    }
    Ok((account_rows, accounts_total, earmark_rows, earmarks_total))
}

/// Assembles the calculated month once every check has passed.
fn finish_month(
    config: &AppConfig,
    document: &MonthDocument,
    account_rows: Vec<AccountRow>,
    accounts_total: i128,
    earmark_rows: Vec<EarmarkRow>,
    earmarks_total: i128,
) -> (r: CalculatedMonth)
    requires
        calc_error(*config, *document) is None,
        keys_match(*config, *document),
        totals_fit(*config, *document),
        accounts_total == seq_sum(account_values(*config, *document)),
        earmarks_total == seq_sum(earmark_values(*config, *document)),
        account_rows@.len() == config.accounts@.len(),
        forall|i: int| 0 <= i < config.accounts@.len() ==> {
            let row = #[trigger] account_rows@[i];
            &&& row.id@ == config.accounts@[i].id@
            &&& row.label@ == config.accounts@[i].label@
            &&& row.kind == config.accounts@[i].kind
            &&& row.raw_balance@ == raw_account(*config, *document, i)
            &&& row.normalised_balance@ == account_values(*config, *document)[i]
        },
        earmark_rows@.len() == config.next_month_earmarks@.len(),
        forall|i: int| 0 <= i < config.next_month_earmarks@.len() ==> {
            let row = #[trigger] earmark_rows@[i];
            &&& row.id@ == config.next_month_earmarks@[i].id@
            &&& row.label@ == config.next_month_earmarks@[i].label@
            &&& row.amount@ == earmark_amount(*config, *document, i)
        },
    ensures
        calculated_as(*config, *document, r),
{
    let (pot_rows, carried_total, change_total) = pot_rows(config, document);
    let invest = document.timing_adjustments.investment_not_yet_sent_raw;
    let prev = document.timing_adjustments.previous_month_spending_correction_raw;
    let accounts_subtotal = accounts_total as i64;
    let timing_subtotal = ((prev as i128) - (invest as i128)) as i64;
    let earmarks_subtotal = earmarks_total as i64;
    let carried = carried_total as i64;
    let change = change_total as i64;
    let finals = (carried_total + change_total) as i64;
    let net = ((accounts_subtotal as i128) + (timing_subtotal as i128)) as i64;
    let allocated = ((finals as i128) + (earmarks_subtotal as i128)) as i64;
    let difference = ((net as i128) - (allocated as i128)) as i64;
    let tolerance = config.validation_tolerance_minor;
    let is_valid = -tolerance <= difference && difference <= tolerance;
    CalculatedMonth {
        month: document.month,
        account_rows,
        timing: TimingCalculation {
            investment_not_yet_sent_raw: Money::from_minor(invest),
            investment_effect: Money::from_minor(-invest),
            previous_month_spending_correction_raw: Money::from_minor(prev),
            previous_month_spending_correction_effect: Money::from_minor(prev),
            subtotal: Money::from_minor(timing_subtotal),
        },
        earmark_rows,
        pot_rows,
        totals: Totals {
            accounts_subtotal: Money::from_minor(accounts_subtotal),
            timing_adjustments_subtotal: Money::from_minor(timing_subtotal),
            net_available: Money::from_minor(net),
            pots_carried_total: Money::from_minor(carried),
            pots_monthly_change_total: Money::from_minor(change),
            pots_final_total: Money::from_minor(finals),
            next_month_earmarks_subtotal: Money::from_minor(earmarks_subtotal),
            total_allocated: Money::from_minor(allocated),
        },
        validation: ValidationState {
            tolerance: Money::from_minor(tolerance),
            overall_difference: Money::from_minor(difference),
            is_valid,
        },
    }
}

/// Reports whether every total of a month that passed its checks fits in
/// `i64` minor units.
#[verifier::loop_isolation(false)]
fn totals_within_range(config: &AppConfig, document: &MonthDocument, accounts_total: i128, earmarks_total: i128) -> (r: bool)
    requires
        calc_error(*config, *document) is None,
        keys_match(*config, *document),
        accounts_total == seq_sum(account_values(*config, *document)),
        earmarks_total == seq_sum(earmark_values(*config, *document)),
    ensures
        r == totals_fit(*config, *document),
{
    proof {
        lemma_key_sets("savings_pots"@, document.savings_pots@.dom(), pot_ids(*config).to_set());
    }
    let ghost carried = carried_values(*config, *document);
    let ghost change = change_values(*config, *document);
    let ghost finals = final_values(*config, *document);
    let mut carried_total: i128 = 0;
    let mut change_total: i128 = 0;
    let mut each_fits = true;
    let mut i: usize = 0;
    while i < config.savings_pots.len()
        invariant
            i <= config.savings_pots@.len(),
            carried_total == seq_sum(carried.take(i as int)),
            change_total == seq_sum(change.take(i as int)),
            seq_sum(finals.take(i as int)) == carried_total + change_total,
            -(i as int) * (BOUND as int) <= carried_total <= (i as int) * (BOUND as int),
            -(i as int) * (BOUND as int) <= change_total <= (i as int) * (BOUND as int),
            each_fits == forall|k: int| 0 <= k < i ==> in_i64(#[trigger] finals[k]),
        decreases config.savings_pots.len() - i,
    {
        let pot = &config.savings_pots[i];
        proof {
            assert(pot_ids(*config)[i as int] == pot.id@);
            assert(pot_ids(*config).to_set().contains(pot.id@));
        }
        let state = match document.savings_pots.get(pot.id.as_str()) {
            Some(v) => *v,
            None => {
                proof {
                    assert(false);
                }
                SavingsPotState { carried_over: 0, monthly_change: 0 }
            },
        };
        proof {
            lemma_sum_take(carried, i as int);
            lemma_sum_take(change, i as int);
            lemma_sum_take(finals, i as int);
        }
        let final_balance = (state.carried_over as i128) + (state.monthly_change as i128);
        if final_balance < i64::MIN as i128 || final_balance > i64::MAX as i128 {
            each_fits = false;
        }
        carried_total = carried_total + state.carried_over as i128;
        change_total = change_total + state.monthly_change as i128;
        i += 1;
    }
    proof {
        lemma_take_all(carried);
        lemma_take_all(change);
        lemma_take_all(finals);
    }
    let lo = i64::MIN as i128;
    let hi = i64::MAX as i128;
    let timing = (document.timing_adjustments.previous_month_spending_correction_raw as i128)
        - (document.timing_adjustments.investment_not_yet_sent_raw as i128);
    if !(each_fits && lo <= accounts_total && accounts_total <= hi && lo <= timing && timing <= hi
        && lo <= earmarks_total && earmarks_total <= hi && lo <= carried_total && carried_total
        <= hi && lo <= change_total && change_total <= hi) {
        return false;
    }
    let finals_total = carried_total + change_total;
    if !(lo <= finals_total && finals_total <= hi) {
        return false;
    }
    let net = accounts_total + timing;
    let allocated = finals_total + earmarks_total;
    lo <= net && net <= hi && lo <= allocated && allocated <= hi && lo <= net - allocated && net
        - allocated <= hi
}

/// Recomputes all derived values for a month document.
///
/// Fails when the configuration is invalid, when a section of the document
/// lacks a configured identifier or holds one that is not configured, or
/// when an entered value breaks a rule: balances, the investment not yet
/// sent and earmarks are never negative, and each savings pot starts and
/// ends at or above zero.
pub fn calculate_month(config: &AppConfig, document: &MonthDocument) -> (r: Result<CalculatedMonth, BudgetError>)
    requires
        calculation_fits(*config, *document),
    ensures
        match r {
            Ok(m) => calc_error(*config, *document) is None && calculated_as(*config, *document, m),
            Err(e) => calc_error(*config, *document) == Some(e@),
        },
{
    match checked_rows(config, document) {
        Ok((account_rows, accounts_total, earmark_rows, earmarks_total)) => Ok(
            finish_month(config, document, account_rows, accounts_total, earmark_rows, earmarks_total),
        ),
        Err(e) => Err(e),
    }
}

/// Recomputes a month like [`calculate_month`], first testing that its
/// totals fit in `i64` minor units; `None` when they do not.
pub fn checked_calculate_month(config: &AppConfig, document: &MonthDocument) -> (r: Option<Result<CalculatedMonth, BudgetError>>)
    ensures
        match r {
            None => !calculation_fits(*config, *document),
            Some(Ok(m)) => calculation_fits(*config, *document) && calc_error(*config, *document) is None
                && calculated_as(*config, *document, m),
            Some(Err(e)) => calculation_fits(*config, *document) && calc_error(*config, *document) == Some(e@),
        },
{
    match checked_rows(config, document) {
        Ok((account_rows, accounts_total, earmark_rows, earmarks_total)) => {
            if totals_within_range(config, document, accounts_total, earmarks_total) {
                Some(Ok(finish_month(config, document, account_rows, accounts_total, earmark_rows, earmarks_total)))
            } else {
                None
            }
        },
        Err(e) => Some(Err(e)),
    }
}

/// The sum of pointwise sums is the sum of the sums.
proof fn lemma_sum_pointwise(a: Seq<int>, b: Seq<int>, c: Seq<int>)
    requires
        a.len() == b.len(),
        b.len() == c.len(),
        forall|i: int| 0 <= i < c.len() ==> c[i] == a[i] + b[i],
    ensures
        seq_sum(c) == seq_sum(a) + seq_sum(b),
    decreases c.len(),
{
    if c.len() > 0 {
        lemma_sum_pointwise(a.drop_last(), b.drop_last(), c.drop_last());
    }
}

/// The totals of a calculated month add up: pots end at what they carried
/// plus their change, the net position is the accounts plus the timing
/// adjustments, the allocation is the pots plus the earmarks, and the
/// difference is what the net position leaves unallocated, valid exactly
/// when it lies within the tolerance, edges included.
pub proof fn lemma_totals_add_up(c: AppConfig, d: MonthDocument, m: CalculatedMonth)
    requires
        calculated_as(c, d, m),
    ensures
        m.totals.pots_final_total@ == m.totals.pots_carried_total@ + m.totals.pots_monthly_change_total@,
        m.totals.net_available@ == m.totals.accounts_subtotal@ + m.totals.timing_adjustments_subtotal@,
        m.totals.total_allocated@ == m.totals.pots_final_total@ + m.totals.next_month_earmarks_subtotal@,
        m.validation.overall_difference@ == m.totals.net_available@ - m.totals.total_allocated@,
        m.validation.is_valid <==> (-m.validation.tolerance@ <= m.validation.overall_difference@
            <= m.validation.tolerance@),
        forall|i: int|
            0 <= i < m.pot_rows@.len() ==> (#[trigger] m.pot_rows@[i]).final_balance@
                == m.pot_rows@[i].carried_over@ + m.pot_rows@[i].monthly_change@,
{
    lemma_sum_pointwise(carried_values(c, d), change_values(c, d), final_values(c, d));
    assert forall|i: int| 0 <= i < m.pot_rows@.len() implies (#[trigger] m.pot_rows@[i]).final_balance@
        == m.pot_rows@[i].carried_over@ + m.pot_rows@[i].monthly_change@ by {}
}

/// The cached totals a document carries play no part in its calculation:
/// the same checks fail, and the same results are the calculation.
pub proof fn lemma_calculation_ignores_cache(
    c: AppConfig,
    d: MonthDocument,
    cache: Option<DerivedCache>,
    m: CalculatedMonth,
)
    ensures
        calc_error(c, d) == calc_error(c, MonthDocument { derived: cache, ..d }),
        calculation_fits(c, d) == calculation_fits(c, MonthDocument { derived: cache, ..d }),
        calculated_as(c, d, m) == calculated_as(c, MonthDocument { derived: cache, ..d }, m),
{
    let e = MonthDocument { derived: cache, ..d };
    assert(account_values(c, d) =~= account_values(c, e));
    assert(earmark_values(c, d) =~= earmark_values(c, e));
    assert(carried_values(c, d) =~= carried_values(c, e));
    assert(change_values(c, d) =~= change_values(c, e));
    assert(final_values(c, d) =~= final_values(c, e));
    assert(negative_accounts(c, d) =~= negative_accounts(c, e));
    assert(negative_earmarks(c, d) =~= negative_earmarks(c, e));
    assert(bad_pots(c, d) =~= bad_pots(c, e));
}

impl MonthDocument {
    /// The document as it is written to disk: with a freshly recomputed
    /// derived cache for people reading the file. `None` when the month's
    /// totals do not fit in `i64` minor units.
    pub fn with_derived_cache(&self, config: &AppConfig) -> (r: Option<Result<MonthDocument, BudgetError>>)
        ensures
            match r {
                None => !calculation_fits(*config, *self),
                Some(Err(e)) => calc_error(*config, *self) == Some(e@),
                Some(Ok(d)) => calc_error(*config, *self) is None && d.month == self.month
                    && d.accounts@ == self.accounts@ && d.timing_adjustments == self.timing_adjustments
                    && d.next_month_earmarks@ == self.next_month_earmarks@ && d.savings_pots@
                    == self.savings_pots@ && d.meta == self.meta && (d.derived matches Some(c)
                    && exists|m: CalculatedMonth|
                    calculated_as(*config, *self, m) && c == (DerivedCache {
                        accounts_subtotal_minor: m.totals.accounts_subtotal@ as i64,
                        timing_adjustments_subtotal_minor: m.totals.timing_adjustments_subtotal@ as i64,
                        net_available_minor: m.totals.net_available@ as i64,
                        pots_carried_total_minor: m.totals.pots_carried_total@ as i64,
                        pots_monthly_change_total_minor: m.totals.pots_monthly_change_total@ as i64,
                        pots_final_total_minor: m.totals.pots_final_total@ as i64,
                        next_month_earmarks_subtotal_minor: m.totals.next_month_earmarks_subtotal@ as i64,
                        total_allocated_minor: m.totals.total_allocated@ as i64,
                        overall_difference_minor: m.validation.overall_difference@ as i64,
                        is_valid: m.validation.is_valid,
                    })),
            },
    {
        match checked_calculate_month(config, self) {
            None => None,
            Some(Err(e)) => Some(Err(e)),
            Some(Ok(m)) => {
                let cache = m.cache();
                let meta = MonthMeta {
                    created_at: match &self.meta.created_at {
                        Some(s) => Some(s.clone()),
                        None => None,
                    },
                    updated_at: match &self.meta.updated_at {
                        Some(s) => Some(s.clone()),
                        None => None,
                    },
                };
                Some(
                    Ok(
                        MonthDocument {
                            month: self.month,
                            accounts: self.accounts.duplicate(),
                            timing_adjustments: self.timing_adjustments,
                            next_month_earmarks: self.next_month_earmarks.duplicate(),
                            savings_pots: self.savings_pots.duplicate(),
                            meta,
                            derived: Some(cache),
                        },
                    ),
                )
            },
        }
    }
}

} // verus!

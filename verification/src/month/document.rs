//! The persisted, editable month document.
use vstd::prelude::*;

use crate::config::{AppConfig, EarmarkConfig, SavingsPotConfig, account_ids, earmark_ids, pot_ids};
use crate::month::calculation::{CalculatedMonth, PotRow};
use crate::month::entries::EntryMap;
use crate::month::id::MonthId;
use crate::clock::{format_rfc3339, now_utc};
use crate::text::str_eq;

verus! {

/// Raw user-entered timing adjustments.
#[derive(Clone, Copy, Debug, PartialEq, Eq)]
pub struct TimingAdjustments {
    pub investment_not_yet_sent_raw: i64,
    pub previous_month_spending_correction_raw: i64,
}

impl Default for TimingAdjustments {
    fn default() -> (r: Self)
        ensures
            r.investment_not_yet_sent_raw == 0,
            r.previous_month_spending_correction_raw == 0,
    {
        TimingAdjustments { investment_not_yet_sent_raw: 0, previous_month_spending_correction_raw: 0 }
    }
}

/// Persisted state for a single savings pot row.
#[derive(Clone, Copy, Debug, PartialEq, Eq)]
pub struct SavingsPotState {
    pub carried_over: i64,
    pub monthly_change: i64,
}

impl Default for SavingsPotState {
    fn default() -> (r: Self)
        ensures
            r.carried_over == 0,
            r.monthly_change == 0,
    {
        SavingsPotState { carried_over: 0, monthly_change: 0 }
    }
}

/// Metadata stored alongside the editable month data.
#[derive(Clone, Debug, PartialEq, Eq)]
pub struct MonthMeta {
    pub created_at: Option<String>,
    pub updated_at: Option<String>,
}

impl Default for MonthMeta {
    fn default() -> (r: Self)
        ensures
            r.created_at is None,
            r.updated_at is None,
    {
        MonthMeta { created_at: None, updated_at: None }
    }
}

/// Convenience cache persisted for humans inspecting the repository; it is
/// never read back into a calculation.
#[derive(Clone, Copy, Debug, PartialEq, Eq)]
pub struct DerivedCache {
    pub accounts_subtotal_minor: i64,
    pub timing_adjustments_subtotal_minor: i64,
    pub net_available_minor: i64,
    pub pots_carried_total_minor: i64,
    pub pots_monthly_change_total_minor: i64,
    pub pots_final_total_minor: i64,
    pub next_month_earmarks_subtotal_minor: i64,
    pub total_allocated_minor: i64,
    pub overall_difference_minor: i64,
    pub is_valid: bool,
}

/// Persisted editable month document.
#[derive(Clone, Debug, PartialEq, Eq)]
pub struct MonthDocument {
    pub month: MonthId,
    pub accounts: EntryMap<i64>,
    pub timing_adjustments: TimingAdjustments,
    pub next_month_earmarks: EntryMap<i64>,
    pub savings_pots: EntryMap<SavingsPotState>,
    pub meta: MonthMeta,
    pub derived: Option<DerivedCache>,
}

/// The map built by inserting each configured earmark's default in order,
/// later entries replacing earlier ones with the same identifier.
pub open spec fn earmark_defaults(items: Seq<EarmarkConfig>) -> Map<Seq<char>, i64>
    decreases items.len(),
{
    if items.len() == 0 {
        Map::empty()
    } else {
        earmark_defaults(items.drop_last()).insert(
            items.last().id@,
            items.last().default_amount_minor,
        )
    }
}

/// The zero balance for each configured account identifier.
pub open spec fn zero_balances(ids: Seq<Seq<char>>) -> Map<Seq<char>, i64> {
    Map::new(|k: Seq<char>| ids.contains(k), |k: Seq<char>| 0i64)
}

/// Final balance carried into a pot from the previous month: that of the
/// first row for the pot, or zero without one.
pub open spec fn carried_from(previous: Option<CalculatedMonth>, id: Seq<char>) -> i64 {
    match previous {
        Some(month) => {
            let rows = month.pot_rows@;
            if exists|i: int| 0 <= i < rows.len() && (#[trigger] rows[i]).id@ == id {
                let i = choose|i: int|
                    0 <= i < rows.len() && (#[trigger] rows[i]).id@ == id && forall|j: int|
                        0 <= j < i ==> rows[j].id@ != id;
                rows[i].final_balance@ as i64
            } else {
                0
            }
        },
        None => 0,
    }
}

/// The pot states a new draft starts from, built by inserting each
/// configured pot in order.
pub open spec fn pot_starts(items: Seq<SavingsPotConfig>, previous: Option<CalculatedMonth>) -> Map<
    Seq<char>,
    SavingsPotState,
>
    decreases items.len(),
{
    if items.len() == 0 {
        Map::empty()
    } else {
        pot_starts(items.drop_last(), previous).insert(
            items.last().id@,
            SavingsPotState {
                carried_over: carried_from(previous, items.last().id@),
                monthly_change: items.last().default_monthly_change_minor,
            },
        )
    }
}

/// The copy of `previous` a draft reads balances from.
pub open spec fn previous_month(previous: Option<&CalculatedMonth>) -> Option<CalculatedMonth> {
    match previous {
        Some(p) => Some(*p),
        None => None,
    }
}

/// Final balance of the first row for pot `id` in `previous`, else zero.
fn carried_balance(previous: Option<&CalculatedMonth>, id: &str) -> (r: i64)
    ensures
        r == carried_from(previous_month(previous), id@),
{
    match previous {
        None => 0,
        Some(month) => {
            let ghost rows = month.pot_rows@;
            let mut i: usize = 0;
            while i < month.pot_rows.len()
                invariant
                    i <= rows.len(),
                    rows == month.pot_rows@,
                    previous == Some(month),
                    forall|k: int| 0 <= k < i ==> (#[trigger] rows[k]).id@ != id@,
                decreases month.pot_rows.len() - i,
            {
                if str_eq(month.pot_rows[i].id.as_str(), id) {
                    proof {
                        assert(0 <= i < rows.len() && rows[i as int].id@ == id@ && forall|k: int|
                            0 <= k < i ==> rows[k].id@ != id@);
                        let j = choose|j: int|
                            0 <= j < rows.len() && (#[trigger] rows[j]).id@ == id@ && forall|k: int|
                                0 <= k < j ==> rows[k].id@ != id@;
                        assert(j == i) by {
                            if j < i {
                                assert(rows[j].id@ != id@);
                            }
                            if i < j {
                                assert(rows[i as int].id@ != id@);
                            }
                        }
                        crate::money::lemma_money_range(rows[i as int].final_balance);
                    }
                    return month.pot_rows[i].final_balance.minor();
                }
                i += 1;
            }
            0
        },
    }
}

impl MonthDocument {
    /// Creates a new editable draft for the requested month.
    ///
    /// Accounts start at zero, next-month earmarks start from configuration
    /// defaults, and savings pots carry forward the previous month's final
    /// balances when there is one, with their configured monthly change.
    pub fn new_draft(month: MonthId, config: &AppConfig, previous: Option<&CalculatedMonth>) -> (r: Self)
        ensures
            r.month == month,
            r.accounts@ == zero_balances(account_ids(*config)),
            r.timing_adjustments.investment_not_yet_sent_raw == 0,
            r.timing_adjustments.previous_month_spending_correction_raw == 0,
            r.next_month_earmarks@ == earmark_defaults(config.next_month_earmarks@),
            r.savings_pots@ == pot_starts(config.savings_pots@, previous_month(previous)),
            r.meta.created_at is None,
            r.meta.updated_at is None,
            r.derived is None,
    {
        let ghost ids = account_ids(*config);
        let mut accounts: EntryMap<i64> = EntryMap::new();
        let mut i: usize = 0;
        while i < config.accounts.len()
            invariant
                i <= config.accounts@.len(),
                ids == account_ids(*config),
                accounts@ == zero_balances(ids.take(i as int)),
            decreases config.accounts.len() - i,
        {
            accounts.insert(config.accounts[i].id.clone(), 0);
            proof {
                assert(ids[i as int] == config.accounts@[i as int].id@);
                let t0 = ids.take(i as int);
                let t1 = ids.take(i + 1);
                assert(zero_balances(t1) =~= zero_balances(t0).insert(ids[i as int], 0i64)) by {
                    assert forall|k: Seq<char>| t1.contains(k) <==> (t0.contains(k) || k == ids[i as int]) by {
                        if t1.contains(k) {
                            let j = choose|j: int| 0 <= j < t1.len() && t1[j] == k;
                            if j < i {
                                assert(t0[j] == k);
                            }
                        }
                        if t0.contains(k) {
                            let j = choose|j: int| 0 <= j < t0.len() && t0[j] == k;
                            assert(t1[j] == k);
                        }
                        if k == ids[i as int] {
                            assert(t1[i as int] == k);
                        }
                    }
                }
            }
            i += 1;
        }
        proof {
            assert(ids.take(ids.len() as int) =~= ids);
        }
        let ghost items = config.next_month_earmarks@;
        let mut earmarks: EntryMap<i64> = EntryMap::new();
        let mut j: usize = 0;
        proof {
            assert(earmarks@ =~= earmark_defaults(items.take(0)));
        }
        while j < config.next_month_earmarks.len()
            invariant
                j <= items.len(),
                items == config.next_month_earmarks@,
                earmarks@ == earmark_defaults(items.take(j as int)),
            decreases config.next_month_earmarks.len() - j,
        {
            let item = &config.next_month_earmarks[j];
            earmarks.insert(item.id.clone(), item.default_amount_minor);
            proof {
                assert(items.take(j + 1).drop_last() =~= items.take(j as int));
            }
            j += 1;
        }
        proof {
            assert(items.take(items.len() as int) =~= items);
        }
        let ghost pots = config.savings_pots@;
        let mut savings_pots: EntryMap<SavingsPotState> = EntryMap::new();
        let mut k: usize = 0;
        proof {
            assert(savings_pots@ =~= pot_starts(pots.take(0), previous_month(previous)));
        }
        while k < config.savings_pots.len()
            invariant
                k <= pots.len(),
                pots == config.savings_pots@,
                savings_pots@ == pot_starts(pots.take(k as int), previous_month(previous)),
            decreases config.savings_pots.len() - k,
        {
            let pot = &config.savings_pots[k];
            // Carry forward the last known final balance so the user confirms
            // real-world pot changes instead of retyping everything.
            let carried_over = carried_balance(previous, pot.id.as_str());
            savings_pots.insert(
                pot.id.clone(),
                SavingsPotState { carried_over, monthly_change: pot.default_monthly_change_minor },
            );
            proof {
                assert(pots.take(k + 1).drop_last() =~= pots.take(k as int));
            }
            k += 1;
        }
        proof {
            assert(pots.take(pots.len() as int) =~= pots);
        }
        MonthDocument {
            month,
            accounts,
            timing_adjustments: TimingAdjustments::default(),
            next_month_earmarks: earmarks,
            savings_pots,
            meta: MonthMeta::default(),
            derived: None,
        }
    }

    /// Records `stamp` as the update time, and as the creation time when the
    /// document has none yet.
    pub fn stamp_updated_at(&mut self, stamp: String)
        ensures
            final(self).meta.updated_at == Some(stamp),
            final(self).meta.created_at == (if old(self).meta.created_at is Some {
                old(self).meta.created_at
            } else {
                Some(stamp)
            }),
            final(self).month == old(self).month,
            final(self).accounts == old(self).accounts,
            final(self).timing_adjustments == old(self).timing_adjustments,
            final(self).next_month_earmarks == old(self).next_month_earmarks,
            final(self).savings_pots == old(self).savings_pots,
            final(self).derived == old(self).derived,
    {
        if self.meta.created_at.is_none() {
            self.meta.created_at = Some(stamp.clone());
        }
        self.meta.updated_at = Some(stamp);
    }

    /// Updates the document timestamps to the current UTC instant, written
    /// in RFC 3339 form. The document is left as it was when the instant
    /// cannot be written in that form.
    pub fn stamp_updated_now(&mut self)
        ensures
            final(self).month == old(self).month,
            final(self).accounts == old(self).accounts,
            final(self).timing_adjustments == old(self).timing_adjustments,
            final(self).next_month_earmarks == old(self).next_month_earmarks,
            final(self).savings_pots == old(self).savings_pots,
            final(self).derived == old(self).derived,
            final(self).meta == old(self).meta || (final(self).meta.updated_at matches Some(stamp)
                && final(self).meta.created_at == (if old(self).meta.created_at is Some {
                old(self).meta.created_at
            } else {
                Some(stamp)
            })),
    {
        match format_rfc3339(now_utc()) {
            Some(stamp) => self.stamp_updated_at(stamp),
            None => {},
        }
    }
}

} // verus!

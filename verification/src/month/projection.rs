//! Compact summary projection of a calculated month.
use vstd::prelude::*;

use crate::money::Money;
use crate::month::calculation::CalculatedMonth;
use crate::text::owned;

verus! {

/// Group of summary items shown in compact navigation surfaces.
#[derive(Clone, Debug, PartialEq, Eq)]
pub struct SummaryGroup {
    pub title: String,
    pub items: Vec<SummaryItem>,
}

/// Single line item within a [`SummaryGroup`].
#[derive(Clone, Debug, PartialEq, Eq)]
pub struct SummaryItem {
    pub label: String,
    pub value: Money,
}

/// The item has the given label and value.
pub open spec fn item_is(item: SummaryItem, label: Seq<char>, value: Money) -> bool {
    item.label@ == label && item.value == value
}

/// `groups` summarises `m`: accounts with the net position, the timing
/// effects, the earmarks, the pots' final balances, and the final check.
pub open spec fn summarises(m: CalculatedMonth, groups: Seq<SummaryGroup>) -> bool {
    let accounts = m.account_rows@;
    let earmarks = m.earmark_rows@;
    let pots = m.pot_rows@;
    &&& groups.len() == 5
    &&& groups[0].title@ == "Accounts"@
    &&& groups[0].items@.len() == accounts.len() + 1
    &&& forall|i: int| 0 <= i < accounts.len() ==> item_is(
        #[trigger] groups[0].items@[i],
        accounts[i].label@,
        accounts[i].normalised_balance,
    )
    &&& item_is(groups[0].items@[accounts.len() as int], "Net position"@, m.totals.accounts_subtotal)
    &&& groups[1].title@ == "Timing Adjustments"@
    &&& groups[1].items@.len() == 2
    &&& item_is(groups[1].items@[0], "Investment not yet sent"@, m.timing.investment_effect)
    &&& item_is(
        groups[1].items@[1],
        "General spending over/under"@,
        m.timing.previous_month_spending_correction_effect,
    )
    &&& groups[2].title@ == "Next Month Earmarks"@
    &&& groups[2].items@.len() == earmarks.len()
    &&& forall|i: int| 0 <= i < earmarks.len() ==> item_is(
        #[trigger] groups[2].items@[i],
        earmarks[i].label@,
        earmarks[i].amount,
    )
    &&& groups[3].title@ == "Savings Pots"@
    &&& groups[3].items@.len() == pots.len()
    &&& forall|i: int| 0 <= i < pots.len() ==> item_is(
        #[trigger] groups[3].items@[i],
        pots[i].label@,
        pots[i].final_balance,
    )
    &&& groups[4].title@ == "Final Check"@
    &&& groups[4].items@.len() == 2
    &&& item_is(groups[4].items@[0], "Total allocated"@, m.totals.total_allocated)
    &&& item_is(groups[4].items@[1], "Overall difference"@, m.validation.overall_difference)
}

fn item(label: &str, value: Money) -> (r: SummaryItem)
    ensures
        item_is(r, label@, value),
{
    SummaryItem { label: owned(label), value }
}

impl CalculatedMonth {
    /// Returns grouped summary data for compact UI surfaces.
    pub fn summary_groups(&self) -> (r: Vec<SummaryGroup>)
        ensures
            summarises(*self, r@),
    {
        let mut accounts: Vec<SummaryItem> = Vec::new();
        let mut i: usize = 0;
        while i < self.account_rows.len()
            invariant
                i <= self.account_rows@.len(),
                accounts@.len() == i,
                forall|k: int| 0 <= k < i ==> item_is(
                    #[trigger] accounts@[k],
                    self.account_rows@[k].label@,
                    self.account_rows@[k].normalised_balance,
                ),
            decreases self.account_rows.len() - i,
        {
            let row = &self.account_rows[i];
            accounts.push(SummaryItem { label: row.label.clone(), value: row.normalised_balance });
            i += 1;
        }
        accounts.push(item("Net position", self.totals.accounts_subtotal));
        let timing = vec![
            item("Investment not yet sent", self.timing.investment_effect),
            item("General spending over/under", self.timing.previous_month_spending_correction_effect),
        ];
        let mut earmarks: Vec<SummaryItem> = Vec::new();
        let mut j: usize = 0;
        while j < self.earmark_rows.len()
            invariant
                j <= self.earmark_rows@.len(),
                earmarks@.len() == j,
                forall|k: int| 0 <= k < j ==> item_is(
                    #[trigger] earmarks@[k],
                    self.earmark_rows@[k].label@,
                    self.earmark_rows@[k].amount,
                ),
            decreases self.earmark_rows.len() - j,
        {
            let row = &self.earmark_rows[j];
            earmarks.push(SummaryItem { label: row.label.clone(), value: row.amount });
            j += 1;
        }
        let mut pots: Vec<SummaryItem> = Vec::new();
        let mut k: usize = 0;
        while k < self.pot_rows.len()
            invariant
                k <= self.pot_rows@.len(),
                pots@.len() == k,
                forall|x: int| 0 <= x < k ==> item_is(
                    #[trigger] pots@[x],
                    self.pot_rows@[x].label@,
                    self.pot_rows@[x].final_balance,
                ),
            decreases self.pot_rows.len() - k,
        {
            let row = &self.pot_rows[k];
            pots.push(SummaryItem { label: row.label.clone(), value: row.final_balance });
            k += 1;
        }
        let check = vec![
            item("Total allocated", self.totals.total_allocated),
            item("Overall difference", self.validation.overall_difference),
        ];
        vec![
            SummaryGroup { title: owned("Accounts"), items: accounts },
            SummaryGroup { title: owned("Timing Adjustments"), items: timing },
            SummaryGroup { title: owned("Next Month Earmarks"), items: earmarks },
            SummaryGroup { title: owned("Savings Pots"), items: pots },
            SummaryGroup { title: owned("Final Check"), items: check },
        ]
    }
}

} // verus!

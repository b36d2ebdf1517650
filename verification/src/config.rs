//! The application configuration stored in the budget repository.
//!
//! List order is significant: drafts, calculations and the editor all keep it.
use vstd::prelude::*;

use crate::error::{BudgetError, BudgetErrorView};
use crate::money::Money;
use crate::text::{owned, str_eq, trim, trimmed_chars};

verus! {

/// Determines whether an account increases or reduces net position.
#[derive(Clone, Copy, Debug, PartialEq, Eq)]
pub enum AccountKind {
    /// A positive balance that increases net position.
    Asset,
    /// A positive entered balance that is treated as a negative contribution.
    Liability,
}

/// Stable account definition used in config files and month documents.
#[derive(Clone, Debug, PartialEq, Eq)]
pub struct AccountConfig {
    pub id: String,
    pub label: String,
    pub kind: AccountKind,
}

/// Static savings-pot definition used for draft defaults and validation.
#[derive(Clone, Debug, PartialEq, Eq)]
pub struct SavingsPotConfig {
    pub id: String,
    pub label: String,
    pub default_monthly_change_minor: i64,
}

/// Static next-month earmark definition used for draft defaults and validation.
#[derive(Clone, Debug, PartialEq, Eq)]
pub struct EarmarkConfig {
    pub id: String,
    pub label: String,
    pub default_amount_minor: i64,
}

/// The application configuration stored in the budget repository.
#[derive(Clone, Debug, PartialEq, Eq)]
pub struct AppConfig {
    pub validation_tolerance_minor: i64,
    pub accounts: Vec<AccountConfig>,
    pub savings_pots: Vec<SavingsPotConfig>,
    pub next_month_earmarks: Vec<EarmarkConfig>,
}

/// The identifiers of the configured accounts, in order.
pub open spec fn account_ids(c: AppConfig) -> Seq<Seq<char>> {
    c.accounts@.map_values(|a: AccountConfig| a.id@)
}

/// The identifiers of the configured savings pots, in order.
pub open spec fn pot_ids(c: AppConfig) -> Seq<Seq<char>> {
    c.savings_pots@.map_values(|p: SavingsPotConfig| p.id@)
}

/// The identifiers of the configured next-month earmarks, in order.
pub open spec fn earmark_ids(c: AppConfig) -> Seq<Seq<char>> {
    c.next_month_earmarks@.map_values(|e: EarmarkConfig| e.id@)
}

/// The first identifier that occurs a second time, scanning in order.
pub open spec fn first_duplicate(ids: Seq<Seq<char>>) -> Option<Seq<char>>
    decreases ids.len(),
{
    if ids.len() == 0 {
        None
    } else {
        match first_duplicate(ids.drop_last()) {
            Some(x) => Some(x),
            None => if ids.drop_last().contains(ids.last()) {
                Some(ids.last())
            } else {
                None
            },
        }
    }
}

/// No identifier occurs twice.
pub open spec fn distinct(ids: Seq<Seq<char>>) -> bool {
    forall|i: int, j: int| 0 <= i < j < ids.len() ==> ids[i] != ids[j]
}

/// Some account has a label that is empty after trimming.
pub open spec fn has_blank_label(c: AppConfig) -> bool {
    exists|i: int| 0 <= i < c.accounts@.len() && trim(c.accounts@[i].label@).len() == 0
}

/// The failure that validating `c` reports, if any, in the order the
/// checks are made.
pub open spec fn config_error(c: AppConfig) -> Option<BudgetErrorView> {
    if first_duplicate(account_ids(c)) is Some {
        Some(BudgetErrorView::DuplicateConfigId(first_duplicate(account_ids(c))->0))
    } else if first_duplicate(pot_ids(c)) is Some {
        Some(BudgetErrorView::DuplicateConfigId(first_duplicate(pot_ids(c))->0))
    } else if first_duplicate(earmark_ids(c)) is Some {
        Some(BudgetErrorView::DuplicateConfigId(first_duplicate(earmark_ids(c))->0))
    } else if c.validation_tolerance_minor < 0 {
        Some(BudgetErrorView::NegativeValue { field: "validation_tolerance_minor"@ })
    } else if has_blank_label(c) {
        Some(BudgetErrorView::InvalidMoney("account label cannot be empty"@))
    } else {
        None
    }
}

/// Index of the first account with identifier `id`, or the account count.
pub open spec fn account_index(c: AppConfig, id: Seq<char>) -> int {
    first_id_index(account_ids(c), id)
}

/// Index of the first pot with identifier `id`, or the pot count.
pub open spec fn pot_index(c: AppConfig, id: Seq<char>) -> int {
    first_id_index(pot_ids(c), id)
}

/// Index of the first earmark with identifier `id`, or the earmark count.
pub open spec fn earmark_index(c: AppConfig, id: Seq<char>) -> int {
    first_id_index(earmark_ids(c), id)
}

/// Index of the first occurrence of `id` in `ids`, or `ids.len()`.
pub open spec fn first_id_index(ids: Seq<Seq<char>>, id: Seq<char>) -> int
    decreases ids.len(),
{
    if ids.len() == 0 {
        0
    } else if ids[0] == id {
        0
    } else {
        1 + first_id_index(ids.drop_first(), id)
    }
}

/// The facts that make `first_id_index` the first match.
pub proof fn lemma_first_id_index(ids: Seq<Seq<char>>, id: Seq<char>)
    ensures
        0 <= first_id_index(ids, id) <= ids.len(),
        first_id_index(ids, id) < ids.len() ==> ids[first_id_index(ids, id)] == id,
        forall|k: int| 0 <= k < first_id_index(ids, id) ==> ids[k] != id,
        first_id_index(ids, id) == ids.len() <==> !ids.contains(id),
    decreases ids.len(),
{
    if ids.len() > 0 && ids[0] != id {
        lemma_first_id_index(ids.drop_first(), id);
        assert forall|k: int| 0 <= k < first_id_index(ids, id) implies ids[k] != id by {
            if k > 0 {
                assert(ids[k] == ids.drop_first()[k - 1]);
            }
        }
        if ids.contains(id) {
            let k = choose|k: int| 0 <= k < ids.len() && ids[k] == id;
            assert(ids.drop_first()[k - 1] == id);
        }
        if ids.drop_first().contains(id) {
            let k = choose|k: int| 0 <= k < ids.drop_first().len() && ids.drop_first()[k] == id;
            assert(ids[k + 1] == id);
        }
    }
}

/// A list without a first duplicate has distinct identifiers, and the other
/// way round.
pub proof fn lemma_first_duplicate_distinct(ids: Seq<Seq<char>>)
    ensures
        first_duplicate(ids) is None <==> distinct(ids),
        first_duplicate(ids) matches Some(x) ==> ids.contains(x),
    decreases ids.len(),
{
    if ids.len() > 0 {
        let p = ids.drop_last();
        lemma_first_duplicate_distinct(p);
        if first_duplicate(p) is None {
            if p.contains(ids.last()) {
                let k = choose|k: int| 0 <= k < p.len() && p[k] == ids.last();
                assert(ids[k] == ids[ids.len() - 1]);
                assert(ids.contains(ids.last()));
            } else {
                assert forall|i: int, j: int| 0 <= i < j < ids.len() implies ids[i] != ids[j] by {
                    if j == ids.len() - 1 {
                        assert(ids[i] == p[i]);
                    } else {
                        assert(ids[i] == p[i] && ids[j] == p[j]);
                    }
                }
            }
        } else {
            let x = first_duplicate(p)->0;
            let k = choose|k: int| 0 <= k < p.len() && p[k] == x;
            assert(ids[k] == x);
            assert(!distinct(p));
            let (i, j) = choose|i: int, j: int| 0 <= i < j < p.len() && p[i] == p[j];
            assert(ids[i] == ids[j]);
        }
    }
}

/// A duplicate found in a prefix is the first duplicate of the whole list.
pub proof fn lemma_first_duplicate_prefix(ids: Seq<Seq<char>>, k: int)
    requires
        0 <= k <= ids.len(),
        first_duplicate(ids.take(k)) is Some,
    ensures
        first_duplicate(ids) == first_duplicate(ids.take(k)),
    decreases ids.len() - k,
{
    if k < ids.len() {
        assert(ids.take(k + 1).drop_last() == ids.take(k));
        lemma_first_duplicate_prefix(ids, k + 1);
    } else {
        assert(ids.take(k) == ids);
    }
}

/// Returns the first identifier seen twice.
fn find_duplicate(ids: &Vec<&String>) -> (r: Option<String>)
    ensures
        match r {
            Some(x) => first_duplicate(ids@.map_values(|s: &String| s@)) == Some(x@),
            None => first_duplicate(ids@.map_values(|s: &String| s@)) is None,
        },
{
    let ghost all = ids@.map_values(|s: &String| s@);
    let mut j: usize = 0;
    while j < ids.len()
        invariant
            j <= ids@.len(),
            all == ids@.map_values(|s: &String| s@),
            first_duplicate(all.take(j as int)) is None,
        decreases ids.len() - j,
    {
        let mut i: usize = 0;
        let mut seen = false;
        while i < j
            invariant
                i <= j < ids@.len(),
                all == ids@.map_values(|s: &String| s@),
                !seen ==> forall|k: int| 0 <= k < i ==> all[k] != all[j as int],
                seen ==> all.take(j as int).contains(all[j as int]),
            decreases j - i,
        {
            if !seen && str_eq(ids[i].as_str(), ids[j].as_str()) {
                seen = true;
                proof {
                    assert(all.take(j as int)[i as int] == all[j as int]);
                }
            }
            i += 1;
        }
        proof {
            let t = all.take(j + 1);
            assert(t.drop_last() == all.take(j as int));
            assert(t.last() == all[j as int]);
            if !seen {
                assert(!all.take(j as int).contains(all[j as int]));
            }
        }
        if seen {
            proof {
                lemma_first_duplicate_prefix(all, j + 1);
            }
            return Some(owned(ids[j].as_str()));
        }
        j += 1;
    }
    proof {
        assert(all.take(ids@.len() as int) == all);
    }
    None
}

pub(crate) fn account_id_refs(accounts: &Vec<AccountConfig>) -> (r: Vec<&String>)
    ensures
        r@.map_values(|s: &String| s@) == accounts@.map_values(|a: AccountConfig| a.id@),
{
    let mut out: Vec<&String> = Vec::new();
    let mut i: usize = 0;
    while i < accounts.len()
        invariant
            i <= accounts@.len(),
            out@.len() == i,
            forall|k: int| 0 <= k < i ==> (#[trigger] out@[k])@ == accounts@[k].id@,
        decreases accounts.len() - i,
    {
        out.push(&accounts[i].id);
        i += 1;
    }
    proof {
        assert(out@.map_values(|s: &String| s@) =~= accounts@.map_values(
            |a: AccountConfig| a.id@,
        ));
    }
    out
}

pub(crate) fn pot_id_refs(pots: &Vec<SavingsPotConfig>) -> (r: Vec<&String>)
    ensures
        r@.map_values(|s: &String| s@) == pots@.map_values(|p: SavingsPotConfig| p.id@),
{
    let mut out: Vec<&String> = Vec::new();
    let mut i: usize = 0;
    while i < pots.len()
        invariant
            i <= pots@.len(),
            out@.len() == i,
            forall|k: int| 0 <= k < i ==> (#[trigger] out@[k])@ == pots@[k].id@,
        decreases pots.len() - i,
    {
        out.push(&pots[i].id);
        i += 1;
    }
    proof {
        assert(out@.map_values(|s: &String| s@) =~= pots@.map_values(
            |p: SavingsPotConfig| p.id@,
        ));
    }
    out
}

pub(crate) fn earmark_id_refs(items: &Vec<EarmarkConfig>) -> (r: Vec<&String>)
    ensures
        r@.map_values(|s: &String| s@) == items@.map_values(|e: EarmarkConfig| e.id@),
{
    let mut out: Vec<&String> = Vec::new();
    let mut i: usize = 0;
    while i < items.len()
        invariant
            i <= items@.len(),
            out@.len() == i,
            forall|k: int| 0 <= k < i ==> (#[trigger] out@[k])@ == items@[k].id@,
        decreases items.len() - i,
    {
        out.push(&items[i].id);
        i += 1;
    }
    proof {
        assert(out@.map_values(|s: &String| s@) =~= items@.map_values(
            |e: EarmarkConfig| e.id@,
        ));
    }
    out
}

impl AppConfig {
    /// Validates that the configuration meets its structural invariants:
    /// identifiers are unique within each list, the tolerance is not
    /// negative, and account labels are not blank.
    #[verifier::loop_isolation(false)]
    pub fn validate(&self) -> (r: Result<(), BudgetError>)
        ensures
            match r {
                Ok(()) => config_error(*self) is None,
                Err(e) => config_error(*self) == Some(e@),
            },
    {
        let ids = account_id_refs(&self.accounts);
        if let Some(x) = find_duplicate(&ids) {
            return Err(BudgetError::DuplicateConfigId(x));
        }
        let ids = pot_id_refs(&self.savings_pots);
        if let Some(x) = find_duplicate(&ids) {
            return Err(BudgetError::DuplicateConfigId(x));
        }
        let ids = earmark_id_refs(&self.next_month_earmarks);
        if let Some(x) = find_duplicate(&ids) {
            return Err(BudgetError::DuplicateConfigId(x));
        }
        if self.validation_tolerance_minor < 0 {
            return Err(BudgetError::NegativeValue { field: owned("validation_tolerance_minor") });
        }
        let mut i: usize = 0;
        while i < self.accounts.len()
            invariant
                i <= self.accounts@.len(),
                forall|k: int| 0 <= k < i ==> trim(#[trigger] self.accounts@[k].label@).len() != 0,
            decreases self.accounts.len() - i,
        {
            let t = trimmed_chars(self.accounts[i].label.as_str());
            if t.len() == 0 {
                proof {
                    assert(trim(self.accounts@[i as int].label@).len() == 0);
                    assert(has_blank_label(*self));
                }
                return Err(BudgetError::InvalidMoney(owned("account label cannot be empty")));
            }
            i += 1;
        }
        Ok(())
    }

    /// Returns the default configuration used for new repositories.
    pub fn default_mvp() -> (r: Self)
        ensures
            r.validation_tolerance_minor == 100,
            account_ids(r) == seq!["current"@, "cash_isa"@, "amex_credit"@, "nationwide_credit"@],
            r.accounts@.map_values(|a: AccountConfig| a.label@) == seq![
                "Current"@,
                "Cash ISA"@,
                "Amex credit"@,
                "Nationwide credit"@,
            ],
            r.accounts@.map_values(|a: AccountConfig| a.kind) == seq![
                AccountKind::Asset,
                AccountKind::Asset,
                AccountKind::Liability,
                AccountKind::Liability,
            ],
            pot_ids(r) == seq!["fun_expensive_stuff"@, "long_term_savings"@, "label"@],
            r.savings_pots@.map_values(|p: SavingsPotConfig| p.label@) == seq![
                "Fun expensive stuff"@,
                "Long-term savings"@,
                "Label"@,
            ],
            r.savings_pots@.map_values(|p: SavingsPotConfig| p.default_monthly_change_minor as int)
                == seq![15_500int, 6_000int, 2_500int],
            earmark_ids(r) == seq!["subscriptions"@, "general_spending"@],
            r.next_month_earmarks@.map_values(|e: EarmarkConfig| e.label@) == seq![
                "Subscriptions"@,
                "General spending"@,
            ],
            r.next_month_earmarks@.map_values(|e: EarmarkConfig| e.default_amount_minor as int)
                == seq![13_000int, 37_500int],
    {
        let accounts = vec![
            AccountConfig::asset("current", "Current"),
            AccountConfig::asset("cash_isa", "Cash ISA"),
            AccountConfig::liability("amex_credit", "Amex credit"),
            AccountConfig::liability("nationwide_credit", "Nationwide credit"),
        ];
        let savings_pots = vec![
            SavingsPotConfig::new("fun_expensive_stuff", "Fun expensive stuff", 15_500),
            SavingsPotConfig::new("long_term_savings", "Long-term savings", 6_000),
            SavingsPotConfig::new("label", "Label", 2_500),
        ];
        let next_month_earmarks = vec![
            EarmarkConfig::new("subscriptions", "Subscriptions", 13_000),
            EarmarkConfig::new("general_spending", "General spending", 37_500),
        ];
        let r = AppConfig {
            validation_tolerance_minor: 100,
            accounts,
            savings_pots,
            next_month_earmarks,
        };
        proof {
            assert(account_ids(r) =~= seq![
                "current"@,
                "cash_isa"@,
                "amex_credit"@,
                "nationwide_credit"@,
            ]);
            assert(r.accounts@.map_values(|a: AccountConfig| a.label@) =~= seq![
                "Current"@,
                "Cash ISA"@,
                "Amex credit"@,
                "Nationwide credit"@,
            ]);
            assert(r.accounts@.map_values(|a: AccountConfig| a.kind) =~= seq![
                AccountKind::Asset,
                AccountKind::Asset,
                AccountKind::Liability,
                AccountKind::Liability,
            ]);
            assert(pot_ids(r) =~= seq!["fun_expensive_stuff"@, "long_term_savings"@, "label"@]);
            assert(r.savings_pots@.map_values(|p: SavingsPotConfig| p.label@) =~= seq![
                "Fun expensive stuff"@,
                "Long-term savings"@,
                "Label"@,
            ]);
            assert(r.savings_pots@.map_values(
                |p: SavingsPotConfig| p.default_monthly_change_minor as int,
            ) =~= seq![15_500int, 6_000int, 2_500int]);
            assert(earmark_ids(r) =~= seq!["subscriptions"@, "general_spending"@]);
            assert(r.next_month_earmarks@.map_values(|e: EarmarkConfig| e.label@) =~= seq![
                "Subscriptions"@,
                "General spending"@,
            ]);
            assert(r.next_month_earmarks@.map_values(
                |e: EarmarkConfig| e.default_amount_minor as int,
            ) =~= seq![13_000int, 37_500int]);
        }
        r
    }

    /// Looks up an account definition by its stable identifier.
    #[verifier::loop_isolation(false)]
    pub fn account(&self, id: &str) -> (r: Option<&AccountConfig>)
        ensures
            match r {
                Some(a) => account_index(*self, id@) < self.accounts@.len() && *a
                    == self.accounts@[account_index(*self, id@)],
                None => account_index(*self, id@) == self.accounts@.len(),
            },
    {
        proof {
            lemma_first_id_index(account_ids(*self), id@);
        }
        let mut i: usize = 0;
        while i < self.accounts.len()
            invariant
                i <= self.accounts@.len(),
                forall|k: int| 0 <= k < i ==> (#[trigger] self.accounts@[k]).id@ != id@,
            decreases self.accounts.len() - i,
        {
            if str_eq(self.accounts[i].id.as_str(), id) {
                proof {
                    assert(account_ids(*self)[i as int] == id@);
                    if account_index(*self, id@) < i {
                        assert(account_ids(*self)[account_index(*self, id@)] == id@);
                    }
                }
                return Some(&self.accounts[i]);
            }
            i += 1;
        }
        proof {
            if account_index(*self, id@) < self.accounts@.len() {
                assert(account_ids(*self)[account_index(*self, id@)] == id@);
            }
        }
        None
    }

    /// Looks up a savings pot definition by its stable identifier.
    #[verifier::loop_isolation(false)]
    pub fn pot(&self, id: &str) -> (r: Option<&SavingsPotConfig>)
        ensures
            match r {
                Some(p) => pot_index(*self, id@) < self.savings_pots@.len() && *p
                    == self.savings_pots@[pot_index(*self, id@)],
                None => pot_index(*self, id@) == self.savings_pots@.len(),
            },
    {
        proof {
            lemma_first_id_index(pot_ids(*self), id@);
        }
        let mut i: usize = 0;
        while i < self.savings_pots.len()
            invariant
                i <= self.savings_pots@.len(),
                forall|k: int| 0 <= k < i ==> (#[trigger] self.savings_pots@[k]).id@ != id@,
            decreases self.savings_pots.len() - i,
        {
            if str_eq(self.savings_pots[i].id.as_str(), id) {
                proof {
                    assert(pot_ids(*self)[i as int] == id@);
                    if pot_index(*self, id@) < i {
                        assert(pot_ids(*self)[pot_index(*self, id@)] == id@);
                    }
                }
                return Some(&self.savings_pots[i]);
            }
            i += 1;
        }
        proof {
            if pot_index(*self, id@) < self.savings_pots@.len() {
                assert(pot_ids(*self)[pot_index(*self, id@)] == id@);
            }
        }
        None
    }

    /// Looks up a next-month earmark definition by its stable identifier.
    #[verifier::loop_isolation(false)]
    pub fn earmark(&self, id: &str) -> (r: Option<&EarmarkConfig>)
        ensures
            match r {
                Some(e) => earmark_index(*self, id@) < self.next_month_earmarks@.len() && *e
                    == self.next_month_earmarks@[earmark_index(*self, id@)],
                None => earmark_index(*self, id@) == self.next_month_earmarks@.len(),
            },
    {
        proof {
            lemma_first_id_index(earmark_ids(*self), id@);
        }
        let mut i: usize = 0;
        while i < self.next_month_earmarks.len()
            invariant
                i <= self.next_month_earmarks@.len(),
                forall|k: int|
                    0 <= k < i ==> (#[trigger] self.next_month_earmarks@[k]).id@ != id@,
            decreases self.next_month_earmarks.len() - i,
        {
            if str_eq(self.next_month_earmarks[i].id.as_str(), id) {
                proof {
                    assert(earmark_ids(*self)[i as int] == id@);
                    if earmark_index(*self, id@) < i {
                        assert(earmark_ids(*self)[earmark_index(*self, id@)] == id@);
                    }
                }
                return Some(&self.next_month_earmarks[i]);
            }
            i += 1;
        }
        proof {
            if earmark_index(*self, id@) < self.next_month_earmarks@.len() {
                assert(earmark_ids(*self)[earmark_index(*self, id@)] == id@);
            }
        }
        None
    }
}

/// The signed value an always-positive entry contributes for an account kind.
pub open spec fn signed_balance(kind: AccountKind, raw: int) -> int {
    match kind {
        AccountKind::Asset => raw,
        AccountKind::Liability => -raw,
    }
}

impl AccountConfig {
    fn asset(id: &str, label: &str) -> (r: Self)
        ensures
            r.id@ == id@,
            r.label@ == label@,
            r.kind == AccountKind::Asset,
    {
        AccountConfig { id: owned(id), label: owned(label), kind: AccountKind::Asset }
    }

    fn liability(id: &str, label: &str) -> (r: Self)
        ensures
            r.id@ == id@,
            r.label@ == label@,
            r.kind == AccountKind::Liability,
    {
        AccountConfig { id: owned(id), label: owned(label), kind: AccountKind::Liability }
    }

    /// Converts the user's always-positive entry into the signed value used
    /// by the calculation engine.
    pub fn apply_sign(&self, raw_balance_minor: i64) -> (r: Money)
        requires
            raw_balance_minor != i64::MIN,
        ensures
            r@ == signed_balance(self.kind, raw_balance_minor as int),
    {
        match self.kind {
            AccountKind::Asset => Money::from_minor(raw_balance_minor),
            AccountKind::Liability => Money::from_minor(-raw_balance_minor),
        }
    }

    /// Returns the sign hint shown in the UI next to this account.
    pub fn sign_cue(&self) -> (r: &'static str)
        ensures
            r@ == (match self.kind {
                AccountKind::Asset => "+"@,
                AccountKind::Liability => "-"@,
            }),
    {
        match self.kind {
            AccountKind::Asset => "+",
            AccountKind::Liability => "-",
        }
    }
}

impl SavingsPotConfig {
    fn new(id: &str, label: &str, default_monthly_change_minor: i64) -> (r: Self)
        ensures
            r.id@ == id@,
            r.label@ == label@,
            r.default_monthly_change_minor == default_monthly_change_minor,
    {
        SavingsPotConfig { id: owned(id), label: owned(label), default_monthly_change_minor }
    }
}

impl EarmarkConfig {
    fn new(id: &str, label: &str, default_amount_minor: i64) -> (r: Self)
        ensures
            r.id@ == id@,
            r.label@ == label@,
            r.default_amount_minor == default_amount_minor,
    {
        EarmarkConfig { id: owned(id), label: owned(label), default_amount_minor }
    }
}

} // verus!

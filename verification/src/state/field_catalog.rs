//! The editable fields of a month and the order in which each screen visits
//! them.
use vstd::prelude::*;

use crate::config::{
    account_ids, account_index, distinct, earmark_ids, earmark_index, pot_ids, pot_index, AppConfig,
};
use crate::money::{format_minor_units, money_text, Money};
use crate::month::document::MonthDocument;
use crate::text::{concat2, owned};

verus! {

/// Stable identifier for an editable field in guided creation or the editor.
#[derive(Clone, Debug, PartialEq, Eq, PartialOrd, Ord)]
pub enum FieldId {
    Account(String),
    PreviousMonthSpendingCorrection,
    InvestmentNotYetSent,
    Earmark(String),
    PotCarried(String),
    PotChange(String),
}

/// A field identifier with its configuration identifier taken as text.
pub enum FieldKey {
    Account(Seq<char>),
    PreviousMonthSpendingCorrection,
    InvestmentNotYetSent,
    Earmark(Seq<char>),
    PotCarried(Seq<char>),
    PotChange(Seq<char>),
}

impl View for FieldId {
    type V = FieldKey;

    open spec fn view(&self) -> FieldKey {
        match self {
            FieldId::Account(id) => FieldKey::Account(id@),
            FieldId::PreviousMonthSpendingCorrection => FieldKey::PreviousMonthSpendingCorrection,
            FieldId::InvestmentNotYetSent => FieldKey::InvestmentNotYetSent,
            FieldId::Earmark(id) => FieldKey::Earmark(id@),
            FieldId::PotCarried(id) => FieldKey::PotCarried(id@),
            FieldId::PotChange(id) => FieldKey::PotChange(id@),
        }
    }
}

/// Top-level sections visible in the monthly sheet.
#[derive(Clone, Copy, Debug, PartialEq, Eq, Structural)]
pub enum SectionId {
    Accounts,
    TimingAdjustments,
    NextMonthEarmarks,
    SavingsPots,
}

/// The views of a list of fields.
pub open spec fn keys_of(fields: Seq<FieldId>) -> Seq<FieldKey> {
    fields.map_values(|f: FieldId| f@)
}

/// The carried-over and monthly-change fields of each pot, pot by pot.
pub open spec fn pot_field_pairs(ids: Seq<Seq<char>>) -> Seq<FieldKey> {
    Seq::new(
        2 * ids.len(),
        |i: int|
            if i % 2 == 0 {
                FieldKey::PotCarried(ids[i / 2])
            } else {
                FieldKey::PotChange(ids[i / 2])
            },
    )
}

/// The account fields, in configuration order.
pub open spec fn account_fields(c: AppConfig) -> Seq<FieldKey> {
    account_ids(c).map_values(|id: Seq<char>| FieldKey::Account(id))
}

/// The two timing-adjustment fields.
pub open spec fn timing_fields() -> Seq<FieldKey> {
    seq![FieldKey::PreviousMonthSpendingCorrection, FieldKey::InvestmentNotYetSent]
}

/// The earmark fields, in configuration order.
pub open spec fn earmark_fields(c: AppConfig) -> Seq<FieldKey> {
    earmark_ids(c).map_values(|id: Seq<char>| FieldKey::Earmark(id))
}

/// The fields in the order the monthly sheet shows them: accounts, timing
/// adjustments, earmarks, then each pot's carried-over and monthly change.
pub open spec fn editor_layout(c: AppConfig) -> Seq<FieldKey> {
    account_fields(c) + timing_fields() + earmark_fields(c) + pot_field_pairs(pot_ids(c))
}

/// The fields in the order guided creation asks for them: accounts and
/// timing adjustments, every pot's carried-over balance, every pot's monthly
/// change, then the earmarks.
pub open spec fn guided_order(c: AppConfig) -> Seq<FieldKey> {
    account_fields(c) + timing_fields() + pot_ids(c).map_values(
        |id: Seq<char>| FieldKey::PotCarried(id),
    ) + pot_ids(c).map_values(|id: Seq<char>| FieldKey::PotChange(id)) + earmark_fields(c)
}

/// Fields whose values may be negative.
pub open spec fn negative_allowed(f: FieldKey) -> bool {
    f is PreviousMonthSpendingCorrection || f is PotChange
}

/// The label of the pot `id`, or the identifier when no pot has it.
pub open spec fn pot_name(c: AppConfig, id: Seq<char>) -> Seq<char> {
    if pot_index(c, id) < c.savings_pots@.len() {
        c.savings_pots@[pot_index(c, id)].label@
    } else {
        id
    }
}

/// The user-facing label of a field.
pub open spec fn field_label(c: AppConfig, f: FieldKey) -> Seq<char> {
    match f {
        FieldKey::Account(id) => if account_index(c, id) < c.accounts@.len() {
            c.accounts@[account_index(c, id)].label@
        } else {
            id
        },
        FieldKey::PreviousMonthSpendingCorrection => "General spending over/under"@,
        FieldKey::InvestmentNotYetSent => "Investment not yet sent"@,
        FieldKey::Earmark(id) => if earmark_index(c, id) < c.next_month_earmarks@.len() {
            c.next_month_earmarks@[earmark_index(c, id)].label@
        } else {
            id
        },
        FieldKey::PotCarried(id) => pot_name(c, id) + " carried-over balance"@,
        FieldKey::PotChange(id) => pot_name(c, id) + " monthly change"@,
    }
}

/// The short field name used in validation errors.
pub open spec fn short_name(f: FieldKey) -> Seq<char> {
    match f {
        FieldKey::Account(_) => "account balance"@,
        FieldKey::PreviousMonthSpendingCorrection => "general spending over/under"@,
        FieldKey::InvestmentNotYetSent => "investment not yet sent"@,
        FieldKey::Earmark(_) => "next-month earmark"@,
        FieldKey::PotCarried(_) => "pot carried-over balance"@,
        FieldKey::PotChange(_) => "pot monthly change"@,
    }
}

/// The value a field holds in a document; an absent entry holds zero.
pub open spec fn field_value(d: MonthDocument, f: FieldKey) -> int {
    match f {
        FieldKey::Account(id) => if d.accounts@.dom().contains(id) {
            d.accounts@[id] as int
        } else {
            0
        },
        FieldKey::PreviousMonthSpendingCorrection => d.timing_adjustments.previous_month_spending_correction_raw as int,
        FieldKey::InvestmentNotYetSent => d.timing_adjustments.investment_not_yet_sent_raw as int,
        FieldKey::Earmark(id) => if d.next_month_earmarks@.dom().contains(id) {
            d.next_month_earmarks@[id] as int
        } else {
            0
        },
        FieldKey::PotCarried(id) => if d.savings_pots@.dom().contains(id) {
            d.savings_pots@[id].carried_over as int
        } else {
            0
        },
        FieldKey::PotChange(id) => if d.savings_pots@.dom().contains(id) {
            d.savings_pots@[id].monthly_change as int
        } else {
            0
        },
    }
}

/// The sheet section a field belongs to.
pub open spec fn section_of(f: FieldKey) -> SectionId {
    match f {
        FieldKey::Account(_) => SectionId::Accounts,
        FieldKey::PreviousMonthSpendingCorrection => SectionId::TimingAdjustments,
        FieldKey::InvestmentNotYetSent => SectionId::TimingAdjustments,
        FieldKey::Earmark(_) => SectionId::NextMonthEarmarks,
        FieldKey::PotCarried(_) => SectionId::SavingsPots,
        FieldKey::PotChange(_) => SectionId::SavingsPots,
    }
}

/// The pot fields pair by pot hold the same fields as all the carried-over
/// fields followed by all the monthly-change fields.
proof fn lemma_pairs_multiset(ids: Seq<Seq<char>>)
    ensures
        pot_field_pairs(ids).to_multiset() =~= ids.map_values(
            |id: Seq<char>| FieldKey::PotCarried(id),
        ).to_multiset().add(ids.map_values(|id: Seq<char>| FieldKey::PotChange(id)).to_multiset()),
    decreases ids.len(),
{
    broadcast use {vstd::seq_lib::group_to_multiset_ensures, vstd::multiset::group_multiset_axioms};

    let carried = ids.map_values(|id: Seq<char>| FieldKey::PotCarried(id));
    let change = ids.map_values(|id: Seq<char>| FieldKey::PotChange(id));
    if ids.len() == 0 {
        assert(pot_field_pairs(ids) =~= Seq::<FieldKey>::empty());
        assert(carried =~= Seq::<FieldKey>::empty());
        assert(change =~= Seq::<FieldKey>::empty());
    } else {
        let rest = ids.drop_last();
        let x = ids.last();
        lemma_pairs_multiset(rest);
        assert(pot_field_pairs(ids) =~= pot_field_pairs(rest).push(FieldKey::PotCarried(x)).push(
            FieldKey::PotChange(x),
        ));
        assert(carried =~= rest.map_values(|id: Seq<char>| FieldKey::PotCarried(id)).push(
            FieldKey::PotCarried(x),
        ));
        assert(change =~= rest.map_values(|id: Seq<char>| FieldKey::PotChange(id)).push(
            FieldKey::PotChange(x),
        ));
    }
}

/// Guided creation asks for exactly the fields the monthly sheet shows,
/// each as often, only in another order.
pub proof fn lemma_guided_steps_cover_editor_fields(c: AppConfig)
    ensures
        guided_order(c).to_multiset() == editor_layout(c).to_multiset(),
{
    broadcast use {vstd::seq_lib::lemma_multiset_commutative, vstd::multiset::group_multiset_axioms};

    lemma_pairs_multiset(pot_ids(c));
    let head = account_fields(c) + timing_fields();
    let carried = pot_ids(c).map_values(|id: Seq<char>| FieldKey::PotCarried(id));
    let change = pot_ids(c).map_values(|id: Seq<char>| FieldKey::PotChange(id));
    let e = earmark_fields(c);
    let pairs = pot_field_pairs(pot_ids(c));
    assert(guided_order(c).to_multiset() =~= head.to_multiset().add(carried.to_multiset()).add(
        change.to_multiset(),
    ).add(e.to_multiset()));
    assert(editor_layout(c).to_multiset() =~= head.to_multiset().add(e.to_multiset()).add(
        pairs.to_multiset(),
    ));
}

/// Where each position of the sheet layout comes from.
proof fn lemma_layout_at(c: AppConfig, k: int)
    requires
        0 <= k < editor_layout(c).len(),
    ensures
        editor_layout(c).len() == c.accounts@.len() + 2 + c.next_month_earmarks@.len() + 2
            * c.savings_pots@.len(),
        k < c.accounts@.len() ==> editor_layout(c)[k] == FieldKey::Account(account_ids(c)[k]),
        k == c.accounts@.len() ==> editor_layout(c)[k] == FieldKey::PreviousMonthSpendingCorrection,
        k == c.accounts@.len() + 1 ==> editor_layout(c)[k] == FieldKey::InvestmentNotYetSent,
        c.accounts@.len() + 2 <= k < c.accounts@.len() + 2 + c.next_month_earmarks@.len()
            ==> editor_layout(c)[k] == FieldKey::Earmark(
            earmark_ids(c)[k - c.accounts@.len() - 2],
        ),
        c.accounts@.len() + 2 + c.next_month_earmarks@.len() <= k ==> editor_layout(c)[k]
            == pot_field_pairs(pot_ids(c))[k - c.accounts@.len() - 2
            - c.next_month_earmarks@.len()],
{
}

/// With no identifier repeated within a section, the monthly sheet lists
/// every field once.
pub proof fn lemma_editor_fields_distinct(c: AppConfig)
    requires
        distinct(account_ids(c)),
        distinct(pot_ids(c)),
        distinct(earmark_ids(c)),
    ensures
        editor_layout(c).no_duplicates(),
{
    let lay = editor_layout(c);
    let na = c.accounts@.len() as int;
    let ne = c.next_month_earmarks@.len() as int;
    assert forall|i: int, j: int|
        0 <= i < lay.len() && 0 <= j < lay.len() && i != j implies lay[i] != lay[j] by {
        lemma_layout_at(c, i);
        lemma_layout_at(c, j);
        if i >= na + 2 + ne && j >= na + 2 + ne {
            let p = i - na - 2 - ne;
            let q = j - na - 2 - ne;
            if p % 2 == q % 2 {
                assert(p / 2 != q / 2);
                if p / 2 < q / 2 {
                    assert(pot_ids(c)[p / 2] != pot_ids(c)[q / 2]);
                } else {
                    assert(pot_ids(c)[q / 2] != pot_ids(c)[p / 2]);
                }
            }
        } else if i < na && j < na {
            if i < j {
                assert(account_ids(c)[i] != account_ids(c)[j]);
            } else {
                assert(account_ids(c)[j] != account_ids(c)[i]);
            }
        } else if na + 2 <= i < na + 2 + ne && na + 2 <= j < na + 2 + ne {
            if i < j {
                assert(earmark_ids(c)[i - na - 2] != earmark_ids(c)[j - na - 2]);
            } else {
                assert(earmark_ids(c)[j - na - 2] != earmark_ids(c)[i - na - 2]);
            }
        }
    }
}

/// Pushing a field appends its view.
proof fn lemma_keys_push(s: Seq<FieldId>, f: FieldId)
    ensures
        keys_of(s.push(f)) == keys_of(s).push(f@),
{
    assert(keys_of(s.push(f)) =~= keys_of(s).push(f@));
}

/// Appends the account and timing fields.
fn push_account_and_timing(config: &AppConfig, out: &mut Vec<FieldId>)
    ensures
        keys_of(final(out)@) == keys_of(old(out)@) + account_fields(*config) + timing_fields(),
{
    let ghost start = keys_of(out@);
    let ghost want = account_fields(*config);
    let mut i: usize = 0;
    while i < config.accounts.len()
        invariant
            i <= config.accounts@.len(),
            want == account_fields(*config),
            keys_of(out@) == start + want.take(i as int),
        decreases config.accounts.len() - i,
    {
        let ghost prev = out@;
        let f = FieldId::Account(config.accounts[i].id.clone());
        assert(f@ == want[i as int]);
        out.push(f);
        proof {
            lemma_keys_push(prev, f);
            assert(want.take(i + 1) =~= want.take(i as int).push(f@));
            assert(start + want.take(i + 1) =~= (start + want.take(i as int)).push(f@));
        }
        i += 1;
    }
    proof {
        assert(want.take(i as int) =~= want);
    }
    let ghost prev = out@;
    let p = FieldId::PreviousMonthSpendingCorrection;
    let q = FieldId::InvestmentNotYetSent;
    out.push(p);
    out.push(q);
    proof {
        lemma_keys_push(prev, p);
        lemma_keys_push(prev.push(p), q);
        assert(keys_of(out@) =~= start + want + timing_fields());
    }
}

/// Appends the earmark fields.
fn push_earmarks(config: &AppConfig, out: &mut Vec<FieldId>)
    ensures
        keys_of(final(out)@) == keys_of(old(out)@) + earmark_fields(*config),
{
    let ghost start = keys_of(out@);
    let ghost want = earmark_fields(*config);
    let mut i: usize = 0;
    while i < config.next_month_earmarks.len()
        invariant
            i <= config.next_month_earmarks@.len(),
            want == earmark_fields(*config),
            keys_of(out@) == start + want.take(i as int),
        decreases config.next_month_earmarks.len() - i,
    {
        let ghost prev = out@;
        let f = FieldId::Earmark(config.next_month_earmarks[i].id.clone());
        assert(f@ == want[i as int]);
        out.push(f);
        proof {
            lemma_keys_push(prev, f);
            assert(want.take(i + 1) =~= want.take(i as int).push(f@));
            assert(start + want.take(i + 1) =~= (start + want.take(i as int)).push(f@));
        }
        i += 1;
    }
    proof {
        assert(want.take(i as int) =~= want);
    }
}

/// Appends one field per pot, carried-over balances or monthly changes.
fn push_pot_fields(config: &AppConfig, out: &mut Vec<FieldId>, carried: bool)
    ensures
        keys_of(final(out)@) == keys_of(old(out)@) + (if carried {
            pot_ids(*config).map_values(|id: Seq<char>| FieldKey::PotCarried(id))
        } else {
            pot_ids(*config).map_values(|id: Seq<char>| FieldKey::PotChange(id))
        }),
{
    let ghost start = keys_of(out@);
    let ghost want = if carried {
        pot_ids(*config).map_values(|id: Seq<char>| FieldKey::PotCarried(id))
    } else {
        pot_ids(*config).map_values(|id: Seq<char>| FieldKey::PotChange(id))
    };
    let mut i: usize = 0;
    while i < config.savings_pots.len()
        invariant
            i <= config.savings_pots@.len(),
            want.len() == config.savings_pots@.len(),
            want == (if carried {
                pot_ids(*config).map_values(|id: Seq<char>| FieldKey::PotCarried(id))
            } else {
                pot_ids(*config).map_values(|id: Seq<char>| FieldKey::PotChange(id))
            }),
            keys_of(out@) == start + want.take(i as int),
        decreases config.savings_pots.len() - i,
    {
        let id = config.savings_pots[i].id.clone();
        let ghost prev = out@;
        let f = if carried {
            FieldId::PotCarried(id)
        } else {
            FieldId::PotChange(id)
        };
        assert(f@ == want[i as int]);
        out.push(f);
        proof {
            lemma_keys_push(prev, f);
            assert(want.take(i + 1) =~= want.take(i as int).push(f@));
            assert(start + want.take(i + 1) =~= (start + want.take(i as int)).push(f@));
        }
        i += 1;
    }
    proof {
        assert(want.take(i as int) =~= want);
    }
}

impl FieldId {
    /// Returns the guided-creation field order defined by the workflow:
    /// accounts and timing adjustments, pot balances, pot changes, earmarks.
    pub fn guided_steps(config: &AppConfig) -> (r: Vec<Self>)
        ensures
            keys_of(r@) == guided_order(*config),
    {
        let mut out: Vec<FieldId> = Vec::new();
        push_account_and_timing(config, &mut out);
        push_pot_fields(config, &mut out, true);
        push_pot_fields(config, &mut out, false);
        push_earmarks(config, &mut out);
        proof {
            assert(keys_of(Seq::<FieldId>::empty()) == Seq::<FieldKey>::empty());
            assert(keys_of(out@) == guided_order(*config));
        }
        out
    }

    /// Returns the editor traversal order used by the monthly sheet.
    pub fn editor_fields(config: &AppConfig) -> (r: Vec<Self>)
        ensures
            keys_of(r@) == editor_layout(*config),
    {
        let mut out: Vec<FieldId> = Vec::new();
        push_account_and_timing(config, &mut out);
        push_earmarks(config, &mut out);
        let ghost start = keys_of(out@);
        let ghost pairs = pot_field_pairs(pot_ids(*config));
        let mut i: usize = 0;
        while i < config.savings_pots.len()
            invariant
                i <= config.savings_pots@.len(),
                pairs == pot_field_pairs(pot_ids(*config)),
                pairs.len() == 2 * config.savings_pots@.len(),
                keys_of(out@) == start + pairs.take(2 * i),
            decreases config.savings_pots.len() - i,
        {
            let ghost prev = out@;
            let a = FieldId::PotCarried(config.savings_pots[i].id.clone());
            let b = FieldId::PotChange(config.savings_pots[i].id.clone());
            assert(a@ == pairs[2 * i]);
            assert(b@ == pairs[2 * i + 1]);
            out.push(a);
            out.push(b);
            proof {
                lemma_keys_push(prev, a);
                lemma_keys_push(prev.push(a), b);
                assert(pairs.take(2 * i + 2) =~= pairs.take(2 * i as int).push(a@).push(b@));
                assert(start + pairs.take(2 * i + 2) =~= (start + pairs.take(2 * i as int)).push(
                    a@,
                ).push(b@));
            }
            i += 1;
        }
        proof {
            assert(pairs.take(2 * i as int) == pairs);
            assert(keys_of(Seq::<FieldId>::empty()) == Seq::<FieldKey>::empty());
            assert(keys_of(out@) == editor_layout(*config));
        }
        out
    }

    /// Reports whether the field accepts negative monetary values.
    pub fn allows_negative(&self) -> (r: bool)
        ensures
            r == negative_allowed(self@),
    {
        match self {
            FieldId::PreviousMonthSpendingCorrection => true,
            FieldId::PotChange(_) => true,
            _ => false,
        }
    }

    /// Returns the user-facing label for the field.
    pub fn label(&self, config: &AppConfig) -> (r: String)
        ensures
            r@ == field_label(*config, self@),
    {
        match self {
            FieldId::Account(id) => match config.account(id.as_str()) {
                Some(account) => account.label.clone(),
                None => id.clone(),
            },
            FieldId::PreviousMonthSpendingCorrection => owned("General spending over/under"),
            FieldId::InvestmentNotYetSent => owned("Investment not yet sent"),
            FieldId::Earmark(id) => match config.earmark(id.as_str()) {
                Some(item) => item.label.clone(),
                None => id.clone(),
            },
            FieldId::PotCarried(id) => match config.pot(id.as_str()) {
                Some(pot) => concat2(pot.label.as_str(), " carried-over balance"),
                None => concat2(id.as_str(), " carried-over balance"),
            },
            FieldId::PotChange(id) => match config.pot(id.as_str()) {
                Some(pot) => concat2(pot.label.as_str(), " monthly change"),
                None => concat2(id.as_str(), " monthly change"),
            },
        }
    }

    /// Returns the short field name used in validation errors.
    pub fn labelless_name(&self) -> (r: &'static str)
        ensures
            r@ == short_name(self@),
    {
        match self {
            FieldId::Account(_) => "account balance",
            FieldId::PreviousMonthSpendingCorrection => "general spending over/under",
            FieldId::InvestmentNotYetSent => "investment not yet sent",
            FieldId::Earmark(_) => "next-month earmark",
            FieldId::PotCarried(_) => "pot carried-over balance",
            FieldId::PotChange(_) => "pot monthly change",
        }
    }

    /// Reads the current field value from the editable month document.
    pub fn current_value(&self, document: &MonthDocument) -> (r: Money)
        ensures
            r@ == field_value(*document, self@),
    {
        match self {
            FieldId::Account(id) => match document.accounts.get(id.as_str()) {
                Some(v) => Money::from_minor(*v),
                None => Money::from_minor(0),
            },
            FieldId::PreviousMonthSpendingCorrection => Money::from_minor(
                document.timing_adjustments.previous_month_spending_correction_raw,
            ),
            FieldId::InvestmentNotYetSent => Money::from_minor(
                document.timing_adjustments.investment_not_yet_sent_raw,
            ),
            FieldId::Earmark(id) => match document.next_month_earmarks.get(id.as_str()) {
                Some(v) => Money::from_minor(*v),
                None => Money::from_minor(0),
            },
            FieldId::PotCarried(id) => match document.savings_pots.get(id.as_str()) {
                Some(pot) => Money::from_minor(pot.carried_over),
                None => Money::from_minor(0),
            },
            FieldId::PotChange(id) => match document.savings_pots.get(id.as_str()) {
                Some(pot) => Money::from_minor(pot.monthly_change),
                None => Money::from_minor(0),
            },
        }
    }

    /// Formats the current field value for UI display.
    pub fn current_value_text(&self, document: &MonthDocument) -> (r: String)
        requires
            field_value(*document, self@) != i64::MIN,
        ensures
            r@ == money_text(field_value(*document, self@)),
    {
        format_minor_units(self.current_value(document).minor())
    }

    /// Returns the editor section that owns this field.
    pub fn section(&self) -> (r: SectionId)
        ensures
            r == section_of(self@),
    {
        match self {
            FieldId::Account(_) => SectionId::Accounts,
            FieldId::PreviousMonthSpendingCorrection => SectionId::TimingAdjustments,
            FieldId::InvestmentNotYetSent => SectionId::TimingAdjustments,
            FieldId::Earmark(_) => SectionId::NextMonthEarmarks,
            FieldId::PotCarried(_) => SectionId::SavingsPots,
            FieldId::PotChange(_) => SectionId::SavingsPots,
        }
    }
}

impl SectionId {
    /// Every section, in sheet order.
    pub const ALL: [SectionId; 4] = [
        SectionId::Accounts,
        SectionId::TimingAdjustments,
        SectionId::NextMonthEarmarks,
        SectionId::SavingsPots,
    ];

    /// Full section title for boxed layouts.
    pub fn title(self) -> (r: &'static str)
        ensures
            r@ == (match self {
                SectionId::Accounts => "Accounts"@,
                SectionId::TimingAdjustments => "Timing Adjustments"@,
                SectionId::NextMonthEarmarks => "Next Month Earmarks"@,
                SectionId::SavingsPots => "Savings Pots"@,
            }),
    {
        match self {
            SectionId::Accounts => "Accounts",
            SectionId::TimingAdjustments => "Timing Adjustments",
            SectionId::NextMonthEarmarks => "Next Month Earmarks",
            SectionId::SavingsPots => "Savings Pots",
        }
    }

    /// Shortened section title for compact tab layouts.
    pub fn compact_title(self) -> (r: &'static str)
        ensures
            r@ == (match self {
                SectionId::Accounts => "Accounts"@,
                SectionId::TimingAdjustments => "Timing"@,
                SectionId::NextMonthEarmarks => "Earmarks"@,
                SectionId::SavingsPots => "Pots"@,
            }),
    {
        match self {
            SectionId::Accounts => "Accounts",
            SectionId::TimingAdjustments => "Timing",
            SectionId::NextMonthEarmarks => "Earmarks",
            SectionId::SavingsPots => "Pots",
        }
    }
}

} // verus!

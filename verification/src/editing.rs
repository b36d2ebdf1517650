//! Applying committed field edits to a month document, and the key and
//! rename checks shared by the guided flow, the editor and the month list.
use vstd::prelude::*;

use crate::error::{error_message, BudgetErrorView};
use crate::month::document::{MonthDocument, SavingsPotState};
use crate::month::id::{lemma_month_id_ext, month_key, parsed_month, MonthId};
use crate::state::field_catalog::{field_value, negative_allowed, short_name, FieldId, FieldKey};
use crate::state::money_input::{committed, typed_text, MoneyInput};
use crate::text::{is_digit, push_str, trim, trim_str};

verus! {

/// `new` is `old` with field `f` set to `v` and everything else unchanged;
/// a pot written for the first time starts from zero in its other field.
pub open spec fn document_updated(old: MonthDocument, new: MonthDocument, f: FieldKey, v: i64) -> bool {
    let pot = |id: Seq<char>|
        if old.savings_pots@.dom().contains(id) {
            old.savings_pots@[id]
        } else {
            SavingsPotState { carried_over: 0, monthly_change: 0 }
        };
    &&& new.month == old.month
    &&& new.meta == old.meta
    &&& new.derived == old.derived
    &&& new.accounts@ == (match f {
        FieldKey::Account(id) => old.accounts@.insert(id, v),
        _ => old.accounts@,
    })
    &&& new.next_month_earmarks@ == (match f {
        FieldKey::Earmark(id) => old.next_month_earmarks@.insert(id, v),
        _ => old.next_month_earmarks@,
    })
    &&& new.savings_pots@ == (match f {
        FieldKey::PotCarried(id) => old.savings_pots@.insert(
            id,
            SavingsPotState { carried_over: v, monthly_change: pot(id).monthly_change },
        ),
        FieldKey::PotChange(id) => old.savings_pots@.insert(
            id,
            SavingsPotState { carried_over: pot(id).carried_over, monthly_change: v },
        ),
        _ => old.savings_pots@,
    })
    &&& new.timing_adjustments.previous_month_spending_correction_raw == (match f {
        FieldKey::PreviousMonthSpendingCorrection => v,
        _ => old.timing_adjustments.previous_month_spending_correction_raw,
    })
    &&& new.timing_adjustments.investment_not_yet_sent_raw == (match f {
        FieldKey::InvestmentNotYetSent => v,
        _ => old.timing_adjustments.investment_not_yet_sent_raw,
    })
}

/// The message shown when an edit is refused, if it is: the buffer's text is
/// not an amount, or the amount is negative where the field forbids it.
pub open spec fn edit_refusal(f: FieldKey, input: crate::state::money_input::MoneyInputView) -> Option<
    Seq<char>,
> {
    match committed(input) {
        None => Some(error_message(BudgetErrorView::InvalidMoney(typed_text(input)))),
        Some(v) => if !negative_allowed(f) && v < 0 {
            Some(short_name(f) + " cannot be negative"@)
        } else {
            None
        },
    }
}

/// Applies a committed field edit to the persisted month document.
///
/// The document is left untouched when the edit is refused.
pub fn update_document_field(document: &mut MonthDocument, field: &FieldId, input: &MoneyInput) -> (r:
    Result<(), String>)
    ensures
        match r {
            Ok(()) => edit_refusal(field@, input@) is None && document_updated(
                *old(document),
                *final(document),
                field@,
                committed(input@)->0 as i64,
            ),
            Err(message) => edit_refusal(field@, input@) == Some(message@) && *final(document)
                == *old(document),
        },
{
    let value = match input.commit_value() {
        Ok(v) => v,
        Err(e) => {
            return Err(e.to_string());
        },
    };
    let minor = value.minor();
    if !field.allows_negative() && minor < 0 {
        let mut message = String::new();
        push_str(&mut message, field.labelless_name());
        push_str(&mut message, " cannot be negative");
        return Err(message);
    }
    match field {
        FieldId::Account(id) => {
            document.accounts.insert(id.clone(), minor);
        },
        FieldId::PreviousMonthSpendingCorrection => {
            document.timing_adjustments.previous_month_spending_correction_raw = minor;
        },
        FieldId::InvestmentNotYetSent => {
            document.timing_adjustments.investment_not_yet_sent_raw = minor;
        },
        FieldId::Earmark(id) => {
            document.next_month_earmarks.insert(id.clone(), minor);
        },
        FieldId::PotCarried(id) => {
            let current = match document.savings_pots.get(id.as_str()) {
                Some(pot) => *pot,
                None => SavingsPotState { carried_over: 0, monthly_change: 0 },
            };
            document.savings_pots.insert(
                id.clone(),
                SavingsPotState { carried_over: minor, monthly_change: current.monthly_change },
            );
        },
        FieldId::PotChange(id) => {
            let current = match document.savings_pots.get(id.as_str()) {
                Some(pot) => *pot,
                None => SavingsPotState { carried_over: 0, monthly_change: 0 },
            };
            document.savings_pots.insert(
                id.clone(),
                SavingsPotState { carried_over: current.carried_over, monthly_change: minor },
            );
        },
    }
    Ok(())
}

/// Reading a field right after writing it gives the written value, and
/// every other field reads as before.
pub proof fn lemma_read_after_update(
    old: MonthDocument,
    new: MonthDocument,
    f: FieldKey,
    v: i64,
    g: FieldKey,
)
    requires
        document_updated(old, new, f, v),
    ensures
        field_value(new, f) == v,
        g != f ==> field_value(new, g) == field_value(old, g),
{
}

/// The month has an entry for field `f` (the timing fields always have one).
pub open spec fn has_entry(d: MonthDocument, f: FieldKey) -> bool {
    match f {
        FieldKey::Account(id) => d.accounts@.dom().contains(id),
        FieldKey::Earmark(id) => d.next_month_earmarks@.dom().contains(id),
        FieldKey::PotCarried(id) => d.savings_pots@.dom().contains(id),
        FieldKey::PotChange(id) => d.savings_pots@.dom().contains(id),
        _ => true,
    }
}

/// Opening a field and committing it without typing leaves the month as it
/// was: an untouched buffer commits the field's own value, and writing a
/// field's own value back over its entry changes nothing.
pub proof fn lemma_untouched_commit_changes_nothing(
    old: MonthDocument,
    new: MonthDocument,
    f: FieldKey,
    input: crate::state::money_input::MoneyInputView,
)
    requires
        has_entry(old, f),
        input.text is None,
        input.base_minor == field_value(old, f),
        document_updated(old, new, f, committed(input)->0 as i64),
    ensures
        committed(input) == Some(field_value(old, f)),
        new.accounts@ == old.accounts@,
        new.next_month_earmarks@ == old.next_month_earmarks@,
        new.savings_pots@ == old.savings_pots@,
        new.timing_adjustments == old.timing_adjustments,
        new.month == old.month,
        new.meta == old.meta,
        new.derived == old.derived,
{
    match f {
        FieldKey::Account(id) => {
            assert(new.accounts@ =~= old.accounts@);
        },
        FieldKey::Earmark(id) => {
            assert(new.next_month_earmarks@ =~= old.next_month_earmarks@);
        },
        FieldKey::PotCarried(id) => {
            assert(new.savings_pots@ =~= old.savings_pots@);
        },
        FieldKey::PotChange(id) => {
            assert(new.savings_pots@ =~= old.savings_pots@);
        },
        _ => {},
    }
}

/// Characters accepted while typing a month identifier.
pub open spec fn month_id_char(c: char) -> bool {
    is_digit(c) || c == '-'
}

/// Characters accepted while typing into a money field.
pub open spec fn money_key_char(c: char) -> bool {
    is_digit(c) || c == '.' || c == '-'
}

/// Reports whether a keypress may be typed into a month identifier.
pub fn is_month_id_character(character: char) -> (r: bool)
    ensures
        r == month_id_char(character),
{
    ('0' <= character && character <= '9') || character == '-'
}

/// Returns whether a keypress is valid inside a money-editing field.
pub fn is_money_input_character(character: char) -> (r: bool)
    ensures
        r == money_key_char(character),
{
    ('0' <= character && character <= '9') || character == '.' || character == '-'
}

/// The outcome of renaming `source` to the typed `input`: the new month, or
/// the message shown in the dialogue.
pub open spec fn rename_outcome(source: MonthId, input: Seq<char>) -> Result<(int, int), Seq<char>> {
    match parsed_month(trim(input)) {
        None => Err(error_message(BudgetErrorView::InvalidMonthId(trim(input)))),
        Some((y, m)) => if y == source.spec_year() && m == source.spec_month() {
            Err("Month is already named "@ + month_key(source.spec_year(), source.spec_month()))
        } else {
            Ok((y, m))
        },
    }
}

/// Parses and validates a rename target entered in the navigation dialogue.
pub fn validate_rename_target(source: MonthId, input: &str) -> (r: Result<MonthId, String>)
    ensures
        match r {
            Ok(target) => rename_outcome(source, input@) == Ok::<(int, int), Seq<char>>(
                (target.spec_year(), target.spec_month()),
            ),
            Err(message) => rename_outcome(source, input@) == Err::<(int, int), Seq<char>>(
                message@,
            ),
        },
{
    let trimmed = trim_str(input);
    match MonthId::parse(trimmed.as_str()) {
        Err(e) => Err(e.to_string()),
        Ok(target) => {
            if target.same_as(source) {
                let mut message = String::new();
                push_str(&mut message, "Month is already named ");
                let key = source.key();
                push_str(&mut message, key.as_str());
                Err(message)
            } else {
                proof {
                    if target.spec_year() == source.spec_year() && target.spec_month()
                        == source.spec_month() {
                        lemma_month_id_ext(target, source);
                    }
                }
                Ok(target)
            }
        },
    }
}

} // verus!

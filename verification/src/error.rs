//! Domain failures of the budgeting model.
use vstd::prelude::*;

use crate::digits::push_padded;
use crate::text::{int_text, push_str};

verus! {

/// Domain failures for the budgeting model.
#[derive(Debug)]
pub enum BudgetError {
    /// The supplied month identifier was not in valid `YYYY-MM` form.
    InvalidMonthId(String),
    /// The supplied money text could not be parsed into minor units.
    InvalidMoney(String),
    /// Two config entries shared the same stable identifier.
    DuplicateConfigId(String),
    /// A required entry was missing from the persisted document.
    MissingEntry { section: &'static str, id: String },
    /// The persisted document contained an entry not present in config.
    UnexpectedEntry { section: &'static str, id: String },
    /// A field that must stay non-negative was set below zero.
    NegativeValue { field: String },
    /// A savings pot would end the month below zero.
    NegativePotFinal { id: String, carried_over: i64, monthly_change: i64 },
}

/// The mathematical content of a [`BudgetError`].
pub enum BudgetErrorView {
    InvalidMonthId(Seq<char>),
    InvalidMoney(Seq<char>),
    DuplicateConfigId(Seq<char>),
    MissingEntry { section: Seq<char>, id: Seq<char> },
    UnexpectedEntry { section: Seq<char>, id: Seq<char> },
    NegativeValue { field: Seq<char> },
    NegativePotFinal { id: Seq<char>, carried_over: int, monthly_change: int },
}

impl View for BudgetError {
    type V = BudgetErrorView;

    open spec fn view(&self) -> BudgetErrorView {
        match self {
            BudgetError::InvalidMonthId(s) => BudgetErrorView::InvalidMonthId(s@),
            BudgetError::InvalidMoney(s) => BudgetErrorView::InvalidMoney(s@),
            BudgetError::DuplicateConfigId(s) => BudgetErrorView::DuplicateConfigId(s@),
            BudgetError::MissingEntry { section, id } => BudgetErrorView::MissingEntry {
                section: section@,
                id: id@,
            },
            BudgetError::UnexpectedEntry { section, id } => BudgetErrorView::UnexpectedEntry {
                section: section@,
                id: id@,
            },
            BudgetError::NegativeValue { field } => BudgetErrorView::NegativeValue {
                field: field@,
            },
            BudgetError::NegativePotFinal { id, carried_over, monthly_change } =>
                BudgetErrorView::NegativePotFinal {
                id: id@,
                carried_over: *carried_over as int,
                monthly_change: *monthly_change as int,
            },
        }
    }
}

/// The human-readable message of an error.
pub open spec fn error_message(e: BudgetErrorView) -> Seq<char> {
    match e {
        BudgetErrorView::InvalidMonthId(s) => "invalid month id `"@ + s + "`, expected YYYY-MM"@,
        BudgetErrorView::InvalidMoney(s) => "invalid monetary value `"@ + s + "`"@,
        BudgetErrorView::DuplicateConfigId(s) => "duplicate config id `"@ + s + "`"@,
        BudgetErrorView::MissingEntry { section, id } => "missing `"@ + section + "` entry `"@ + id
            + "`"@,
        BudgetErrorView::UnexpectedEntry { section, id } => "unexpected `"@ + section
            + "` entry `"@ + id + "`"@,
        BudgetErrorView::NegativeValue { field } => "`"@ + field + "` must be non-negative"@,
        BudgetErrorView::NegativePotFinal { id, carried_over, monthly_change } => "savings pot `"@
            + id + "` would go negative: carried_over="@ + int_text(carried_over)
            + ", monthly_change="@ + int_text(monthly_change),
    }
}

impl BudgetError {
    /// Renders the error message shown to the user.
    pub fn to_string(&self) -> (r: String)
        ensures
            r@ == error_message(self@),
    {
        let mut s = String::new();
        match self {
            BudgetError::InvalidMonthId(v) => {
                push_str(&mut s, "invalid month id `");
                push_str(&mut s, v.as_str());
                push_str(&mut s, "`, expected YYYY-MM");
            },
            BudgetError::InvalidMoney(v) => {
                push_str(&mut s, "invalid monetary value `");
                push_str(&mut s, v.as_str());
                push_str(&mut s, "`");
            },
            BudgetError::DuplicateConfigId(v) => {
                push_str(&mut s, "duplicate config id `");
                push_str(&mut s, v.as_str());
                push_str(&mut s, "`");
            },
            BudgetError::MissingEntry { section, id } => {
                push_str(&mut s, "missing `");
                push_str(&mut s, section);
                push_str(&mut s, "` entry `");
                push_str(&mut s, id.as_str());
                push_str(&mut s, "`");
            },
            BudgetError::UnexpectedEntry { section, id } => {
                push_str(&mut s, "unexpected `");
                push_str(&mut s, section);
                push_str(&mut s, "` entry `");
                push_str(&mut s, id.as_str());
                push_str(&mut s, "`");
            },
            BudgetError::NegativeValue { field } => {
                push_str(&mut s, "`");
                push_str(&mut s, field.as_str());
                push_str(&mut s, "` must be non-negative");
            },
            BudgetError::NegativePotFinal { id, carried_over, monthly_change } => {
                push_str(&mut s, "savings pot `");
                push_str(&mut s, id.as_str());
                push_str(&mut s, "` would go negative: carried_over=");
                push_padded(&mut s, *carried_over, 0);
                push_str(&mut s, ", monthly_change=");
                push_padded(&mut s, *monthly_change, 0);
            },
        }
        proof {
            match self@ {
                BudgetErrorView::NegativePotFinal { id, carried_over, monthly_change } => {
                    assert(s@ =~= error_message(self@));
                },
                _ => {
                    assert(s@ =~= error_message(self@));
                },
            }
        }
        s
    }
}

} // verus!

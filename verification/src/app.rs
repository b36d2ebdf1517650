//! The decisions of the terminal application: how each route answers a
//! keypress, and what follows a repository operation. The runtime performs
//! the operations these decisions ask for and hands back their outcomes.

pub mod editor;
pub mod failure;
pub mod guided;
pub mod navigation;

use vstd::prelude::*;

use crate::config::AppConfig;
use crate::error::error_message;
use crate::month::calculation::{
    calc_error, calculated_as, calculation_fits, checked_calculate_month, CalculatedMonth,
};
use crate::month::document::MonthDocument;
use crate::month::id::{month_key, MonthId};
use crate::text::{owned, push_str};

verus! {

/// A keypress, as the routes see it.
#[derive(Clone, Copy, Debug, PartialEq, Eq, Structural)]
pub enum Key {
    Char(char),
    Enter,
    Esc,
    Backspace,
    Up,
    Down,
    Tab,
    BackTab,
    Other,
}

/// The `YYYY-MM` text of a month, as messages print it.
pub open spec fn month_text(m: MonthId) -> Seq<char> {
    month_key(m.spec_year(), m.spec_month())
}

/// The status message after a save: the local message, with ` and synced`
/// when the repository has a remote.
pub open spec fn autosave_text(local: Seq<char>, sync_enabled: bool) -> Seq<char> {
    if sync_enabled {
        local + " and synced"@
    } else {
        local
    }
}

/// Builds the status message shown after a save.
pub fn autosave_message(local_message: &str, sync_enabled: bool) -> (r: String)
    ensures
        r@ == autosave_text(local_message@, sync_enabled),
{
    let mut s = owned(local_message);
    if sync_enabled {
        push_str(&mut s, " and synced");
    }
    s
}

/// `prefix` followed by the month's `YYYY-MM` text.
pub fn with_month(prefix: &str, month: MonthId) -> (r: String)
    ensures
        r@ == prefix@ + month_text(month),
{
    let mut s = owned(prefix);
    let key = month.key();
    push_str(&mut s, key.as_str());
    s
}

/// The message shown when a month's totals do not fit in `i64` minor units.
pub open spec fn totals_too_large() -> Seq<char> {
    "month totals are too large to calculate"@
}

/// What recalculating `d` gives: its calculation, or the message of the
/// check it fails.
pub open spec fn recalculation(c: AppConfig, d: MonthDocument, r: Result<CalculatedMonth, String>) -> bool {
    match r {
        Ok(m) => calculation_fits(c, d) && calc_error(c, d) is None && calculated_as(c, d, m),
        Err(msg) => if !calculation_fits(c, d) {
            msg@ == totals_too_large()
        } else {
            calc_error(c, d) matches Some(e) && msg@ == error_message(e)
        },
    }
}

/// Recalculates a month, reporting a failed check as its message.
pub fn recalculate(config: &AppConfig, document: &MonthDocument) -> (r: Result<CalculatedMonth, String>)
    ensures
        recalculation(*config, *document, r),
{
    match checked_calculate_month(config, document) {
        None => Err(owned("month totals are too large to calculate")),
        Some(Ok(m)) => Ok(m),
        Some(Err(e)) => Err(e.to_string()),
    }
}

} // verus!

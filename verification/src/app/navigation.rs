//! The month list: moving the selection, opening months, and the create,
//! rename and delete dialogues.
use vstd::prelude::*;

use crate::app::{month_text, Key};
use crate::editing::{is_month_id_character, month_id_char, rename_outcome, validate_rename_target};
use crate::error::{error_message, BudgetErrorView};
use crate::month::id::{parsed_month, MonthId};
use crate::state::route_state::{
    CreateDialogue, DeleteDialogue, MonthEntry, NavigationDialogue, NavigationState, RenameDialogue,
};
use crate::text::{chars_of, owned, push_char, push_str, str_eq, string_from_chars, trim, trim_str};

verus! {

/// What a keypress on the month list asks for.
#[derive(Clone, Debug)]
pub enum NavigationStep {
    /// Show the month list in this state.
    Stay(NavigationState),
    Shutdown,
    OpenMonth(MonthId),
    EnterRepositoryGate,
    StartGuidedCreation(MonthId),
    RenameMonth { source: MonthId, target: MonthId },
    DeleteMonth(MonthId),
}

/// The selection after moving down a list of `len` months.
pub open spec fn moved_down(selected: usize, len: nat) -> usize {
    if len == 0 {
        selected
    } else if selected + 1 >= len {
        (len - 1) as usize
    } else {
        (selected + 1) as usize
    }
}

/// The selection after moving up a list of `len` months.
pub open spec fn moved_up(selected: usize, len: nat) -> usize {
    if len == 0 || selected == 0 {
        selected
    } else {
        (selected - 1) as usize
    }
}

/// The key edits a dialogue's text: it deletes, or types a character of a
/// month identifier.
pub open spec fn edits_text(k: Key) -> bool {
    k == Key::Backspace || (k matches Key::Char(c) && month_id_char(c))
}

/// A dialogue's text after an editing key.
pub open spec fn typed(text: Seq<char>, k: Key) -> Seq<char> {
    match k {
        Key::Backspace => if text.len() > 0 {
            text.drop_last()
        } else {
            text
        },
        Key::Char(c) => if month_id_char(c) {
            text.push(c)
        } else {
            text
        },
        _ => text,
    }
}

/// The list with another selection and dialogue.
pub open spec fn nav_with(s: NavigationState, selected: usize, dialogue: Option<NavigationDialogue>) -> NavigationState {
    NavigationState { months: s.months, selected, dialogue }
}

/// The month selected in `s`, when the selection points at one.
pub open spec fn selected_id(s: NavigationState) -> Option<MonthId> {
    if s.selected < s.months@.len() {
        Some(s.months@[s.selected as int].document.month)
    } else {
        None
    }
}

/// `r` keeps the list and selection of `s` and shows `d`.
pub open spec fn shows_dialogue(r: NavigationStep, s: NavigationState, d: spec_fn(NavigationDialogue) -> bool) -> bool {
    r matches NavigationStep::Stay(ns) && (ns.months == s.months && ns.selected == s.selected
        && (ns.dialogue matches Some(nd) && d(nd)))
}

/// How the month list answers a key with no dialogue open.
pub open spec fn list_answer(s: NavigationState, k: Key, r: NavigationStep) -> bool {
    let len = s.months@.len();
    if k == Key::Char('q') {
        r is Shutdown
    } else if k == Key::Char('n') {
        shows_dialogue(
            r,
            s,
            |d: NavigationDialogue|
                d matches NavigationDialogue::Create(c) && c.input@.len() == 0 && c.error is None,
        )
    } else if k == Key::Char('m') {
        match selected_id(s) {
            Some(m) => shows_dialogue(
                r,
                s,
                |d: NavigationDialogue|
                    d matches NavigationDialogue::Rename(x) && x.source == m && x.input@ == month_text(
                        m,
                    ) && x.error is None,
            ),
            None => r == NavigationStep::Stay(s),
        }
    } else if k == Key::Char('d') {
        match selected_id(s) {
            Some(m) => shows_dialogue(
                r,
                s,
                |d: NavigationDialogue|
                    d matches NavigationDialogue::Delete(x) && x.month == m && x.confirmation@.len()
                        == 0 && x.error is None,
            ),
            None => r == NavigationStep::Stay(s),
        }
    } else if k == Key::Down || k == Key::Char('j') {
        r == NavigationStep::Stay(nav_with(s, moved_down(s.selected, len), s.dialogue))
    } else if k == Key::Up || k == Key::Char('k') {
        r == NavigationStep::Stay(nav_with(s, moved_up(s.selected, len), s.dialogue))
    } else if k == Key::Enter {
        match selected_id(s) {
            Some(m) => r == NavigationStep::OpenMonth(m),
            None => r == NavigationStep::Stay(s),
        }
    } else if k == Key::Char('r') {
        r is EnterRepositoryGate
    } else {
        r == NavigationStep::Stay(s)
    }
}

/// How an open dialogue answers a key.
pub open spec fn dialogue_answer(s: NavigationState, d: NavigationDialogue, k: Key, r: NavigationStep) -> bool {
    if k == Key::Esc {
        r == NavigationStep::Stay(nav_with(s, s.selected, None))
    } else {
        match d {
            NavigationDialogue::Create(c) => if k == Key::Enter {
                match parsed_month(trim(c.input@)) {
                    Some((y, m)) => r matches NavigationStep::StartGuidedCreation(month)
                        && month.spec_year() == y && month.spec_month() == m,
                    None => shows_dialogue(
                        r,
                        s,
                        |nd: NavigationDialogue|
                            nd matches NavigationDialogue::Create(x) && (x.input == c.input
                                && (x.error matches Some(e) && e@ == error_message(
                                BudgetErrorView::InvalidMonthId(trim(c.input@)),
                            ))),
                    ),
                }
            } else if edits_text(k) {
                shows_dialogue(
                    r,
                    s,
                    |nd: NavigationDialogue|
                        nd matches NavigationDialogue::Create(x) && x.input@ == typed(c.input@, k)
                            && x.error is None,
                )
            } else {
                r == NavigationStep::Stay(s)
            },
            NavigationDialogue::Rename(n) => if k == Key::Enter {
                match rename_outcome(n.source, n.input@) {
                    Ok((y, m)) => r matches NavigationStep::RenameMonth { source, target } && source
                        == n.source && target.spec_year() == y && target.spec_month() == m,
                    Err(msg) => shows_dialogue(
                        r,
                        s,
                        |nd: NavigationDialogue|
                            nd matches NavigationDialogue::Rename(x) && (x.source == n.source
                                && x.input == n.input && (x.error matches Some(e) && e@ == msg)),
                    ),
                }
            } else if edits_text(k) {
                shows_dialogue(
                    r,
                    s,
                    |nd: NavigationDialogue|
                        nd matches NavigationDialogue::Rename(x) && x.source == n.source && x.input@
                            == typed(n.input@, k) && x.error is None,
                )
            } else {
                r == NavigationStep::Stay(s)
            },
            NavigationDialogue::Delete(x) => if k == Key::Enter {
                if trim(x.confirmation@) == month_text(x.month) {
                    r == NavigationStep::DeleteMonth(x.month)
                } else {
                    shows_dialogue(
                        r,
                        s,
                        |nd: NavigationDialogue|
                            nd matches NavigationDialogue::Delete(y) && (y.month == x.month
                                && y.confirmation == x.confirmation && (y.error matches Some(e)
                                && e@ == "Type "@ + month_text(x.month) + " to confirm deletion"@)),
                    )
                }
            } else if edits_text(k) {
                shows_dialogue(
                    r,
                    s,
                    |nd: NavigationDialogue|
                        nd matches NavigationDialogue::Delete(y) && y.month == x.month
                            && y.confirmation@ == typed(x.confirmation@, k) && y.error is None,
                )
            } else {
                r == NavigationStep::Stay(s)
            },
        }
    }
}

/// Whether a key edits dialogue text.
fn key_edits_text(key: Key) -> (r: bool)
    ensures
        r == edits_text(key),
{
    match key {
        Key::Backspace => true,
        Key::Char(c) => is_month_id_character(c),
        _ => false,
    }
}

/// A dialogue's text after an editing key.
fn edit_text(text: &String, key: Key) -> (r: String)
    ensures
        r@ == typed(text@, key),
{
    match key {
        Key::Backspace => {
            let mut v = chars_of(text.as_str());
            if v.len() > 0 {
                v.pop();
                proof {
                    assert(v@ =~= text@.drop_last());
                }
            }
            string_from_chars(&v)
        },
        Key::Char(c) => {
            let mut s = text.clone();
            if is_month_id_character(c) {
                push_char(&mut s, c);
            }
            s
        },
        _ => text.clone(),
    }
}

/// Answers a key while a dialogue is open.
fn dialogue_key(months: Vec<MonthEntry>, selected: usize, dialogue: NavigationDialogue, key: Key) -> (r:
    NavigationStep)
    ensures
        dialogue_answer(
            NavigationState { months, selected, dialogue: Some(dialogue) },
            dialogue,
            key,
            r,
        ),
{
    let ghost s = NavigationState { months, selected, dialogue: Some(dialogue) };
    if key == Key::Esc {
        return NavigationStep::Stay(NavigationState { months, selected, dialogue: None });
    }
    let edits = key_edits_text(key);
    match dialogue {
        NavigationDialogue::Create(c) => {
            if key == Key::Enter {
                let trimmed = trim_str(c.input.as_str());
                match MonthId::parse(trimmed.as_str()) {
                    Ok(month) => NavigationStep::StartGuidedCreation(month),
                    Err(e) => {
                        let error = e.to_string();
                        NavigationStep::Stay(
                            NavigationState {
                                months,
                                selected,
                                dialogue: Some(
                                    NavigationDialogue::Create(
                                        CreateDialogue { input: c.input, error: Some(error) },
                                    ),
                                ),
                            },
                        )
                    },
                }
            } else if edits {
                let input = edit_text(&c.input, key);
                NavigationStep::Stay(
                    NavigationState {
                        months,
                        selected,
                        dialogue: Some(NavigationDialogue::Create(CreateDialogue { input, error: None })),
                    },
                )
            } else {
                NavigationStep::Stay(
                    NavigationState { months, selected, dialogue: Some(NavigationDialogue::Create(c)) },
                )
            }
        },
        NavigationDialogue::Rename(n) => {
            if key == Key::Enter {
                match validate_rename_target(n.source, n.input.as_str()) {
                    Ok(target) => NavigationStep::RenameMonth { source: n.source, target },
                    Err(msg) => NavigationStep::Stay(
                        NavigationState {
                            months,
                            selected,
                            dialogue: Some(
                                NavigationDialogue::Rename(
                                    RenameDialogue { source: n.source, input: n.input, error: Some(msg) },
                                ),
                            ),
                        },
                    ),
                }
            } else if edits {
                let input = edit_text(&n.input, key);
                NavigationStep::Stay(
                    NavigationState {
                        months,
                        selected,
                        dialogue: Some(
                            NavigationDialogue::Rename(
                                RenameDialogue { source: n.source, input, error: None },
                            ),
                        ),
                    },
                )
            } else {
                NavigationStep::Stay(
                    NavigationState { months, selected, dialogue: Some(NavigationDialogue::Rename(n)) },
                )
            }
        },
        NavigationDialogue::Delete(x) => {
            if key == Key::Enter {
                let typed_text = trim_str(x.confirmation.as_str());
                let key_text = x.month.key();
                if str_eq(typed_text.as_str(), key_text.as_str()) {
                    NavigationStep::DeleteMonth(x.month)
                } else {
                    let mut error = owned("Type ");
                    push_str(&mut error, key_text.as_str());
                    push_str(&mut error, " to confirm deletion");
                    NavigationStep::Stay(
                        NavigationState {
                            months,
                            selected,
                            dialogue: Some(
                                NavigationDialogue::Delete(
                                    DeleteDialogue {
                                        month: x.month,
                                        confirmation: x.confirmation,
                                        error: Some(error),
                                    },
                                ),
                            ),
                        },
                    )
                }
            } else if edits {
                let confirmation = edit_text(&x.confirmation, key);
                NavigationStep::Stay(
                    NavigationState {
                        months,
                        selected,
                        dialogue: Some(
                            NavigationDialogue::Delete(
                                DeleteDialogue { month: x.month, confirmation, error: None },
                            ),
                        ),
                    },
                )
            } else {
                NavigationStep::Stay(
                    NavigationState { months, selected, dialogue: Some(NavigationDialogue::Delete(x)) },
                )
            }
        },
    }
}

/// Whatever key is pressed, a month list whose selection points at a month
/// is shown again, if at all, with the same months and a selection that
/// still points at one of them.
pub proof fn lemma_selection_stays_on_a_month(s: NavigationState, k: Key, r: NavigationStep)
    requires
        s.selected < s.months@.len(),
        match s.dialogue {
            Some(d) => dialogue_answer(s, d, k, r),
            None => list_answer(s, k, r),
        },
    ensures
        r matches NavigationStep::Stay(t) ==> t.months == s.months && t.selected < t.months@.len(),
{
}

/// On the month list, Up or `k` moves the selection to the month just above
/// (staying put on the first month or an empty list), so that Enter then
/// opens that month; Down or `j` brings the selection back.
pub proof fn lemma_up_selects_the_month_above(
    s: NavigationState,
    k: Key,
    r: NavigationStep,
    next: Key,
    r2: NavigationStep,
)
    requires
        s.dialogue is None,
        k == Key::Up || k == Key::Char('k'),
        list_answer(s, k, r),
    ensures
        r matches NavigationStep::Stay(t) && t.months == s.months && t.dialogue is None,
        r matches NavigationStep::Stay(t) ==> (0 < s.selected && s.months@.len() > 0
            ==> t.selected + 1 == s.selected),
        r matches NavigationStep::Stay(t) ==> (s.selected == 0 || s.months@.len() == 0
            ==> t.selected == s.selected),
        r matches NavigationStep::Stay(t) ==> (0 < s.selected <= s.months@.len() && next
            == Key::Enter && list_answer(t, next, r2) ==> r2 == NavigationStep::OpenMonth(
            s.months@[s.selected - 1].document.month,
        )),
        r matches NavigationStep::Stay(t) ==> (0 < s.selected < s.months@.len() && (next == Key::Down
            || next == Key::Char('j')) && list_answer(t, next, r2) ==> r2 == NavigationStep::Stay(s)),
{
}

/// Answers a keypress on the month list.
pub fn navigation_key(state: NavigationState, key: Key) -> (r: NavigationStep)
    ensures
        match state.dialogue {
            Some(d) => dialogue_answer(state, d, key, r),
            None => list_answer(state, key, r),
        },
{
    let ghost s = state;
    let NavigationState { months, selected, dialogue } = state;
    if let Some(d) = dialogue {
        return dialogue_key(months, selected, d, key);
    }
    let len = months.len();
    match key {
        Key::Char('q') => NavigationStep::Shutdown,
        Key::Char('n') => NavigationStep::Stay(
            NavigationState {
                months,
                selected,
                dialogue: Some(
                    NavigationDialogue::Create(CreateDialogue { input: String::new(), error: None }),
                ),
            },
        ),
        Key::Char('m') => {
            if selected < len {
                let month = months[selected].document.month;
                let input = month.key();
                NavigationStep::Stay(
                    NavigationState {
                        months,
                        selected,
                        dialogue: Some(
                            NavigationDialogue::Rename(
                                RenameDialogue { source: month, input, error: None },
                            ),
                        ),
                    },
                )
            } else {
                NavigationStep::Stay(NavigationState { months, selected, dialogue: None })
            }
        },
        Key::Char('d') => {
            if selected < len {
                let month = months[selected].document.month;
                NavigationStep::Stay(
                    NavigationState {
                        months,
                        selected,
                        dialogue: Some(
                            NavigationDialogue::Delete(
                                DeleteDialogue { month, confirmation: String::new(), error: None },
                            ),
                        ),
                    },
                )
            } else {
                NavigationStep::Stay(NavigationState { months, selected, dialogue: None })
            }
        },
        Key::Down | Key::Char('j') => {
            let next = if len == 0 {
                selected
            } else if selected >= len - 1 {
                len - 1
            } else {
                selected + 1
            };
            NavigationStep::Stay(NavigationState { months, selected: next, dialogue: None })
        },
        Key::Up | Key::Char('k') => {
            let next = if len == 0 || selected == 0 {
                selected
            } else {
                selected - 1
            };
            NavigationStep::Stay(NavigationState { months, selected: next, dialogue: None })
        },
        Key::Enter => {
            if selected < len {
                NavigationStep::OpenMonth(months[selected].document.month)
            } else {
                NavigationStep::Stay(NavigationState { months, selected, dialogue: None })
            }
        },
        Key::Char('r') => NavigationStep::EnterRepositoryGate,
        _ => NavigationStep::Stay(NavigationState { months, selected, dialogue: None }),
    }
}

/// The month list after a reload, with `selected` chosen when it is listed
/// (the first entry otherwise).
pub fn select_month(months: Vec<MonthEntry>, selected: Option<MonthId>) -> (r: NavigationState)
    ensures
        r.months == months,
        r.dialogue is None,
        match selected {
            Some(m) => if exists|i: int| 0 <= i < months@.len() && months@[i].document.month == m {
                r.selected < months@.len() && months@[r.selected as int].document.month == m
                    && forall|j: int| 0 <= j < r.selected ==> months@[j].document.month != m
            } else {
                r.selected == 0
            },
            None => r.selected == 0,
        },
{
    let mut index: usize = 0;
    if let Some(month) = selected {
        let mut i: usize = 0;
        while i < months.len() && !months[i].document.month.same_as(month)
            invariant
                i <= months@.len(),
                forall|j: int| 0 <= j < i ==> months@[j].document.month != month,
            decreases months.len() - i,
        {
            i += 1;
        }
        if i < months.len() {
            index = i;
        }
    }
    NavigationState { months, selected: index, dialogue: None }
}

} // verus!

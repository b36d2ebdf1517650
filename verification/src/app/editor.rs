//! The monthly sheet: moving between fields, editing one, and committing
//! the edit.
use vstd::prelude::*;

use crate::app::{autosave_message, autosave_text, month_text, recalculate, recalculation, with_month, Key};
use crate::config::AppConfig;
use crate::editing::{document_updated, edit_refusal, is_money_input_character, money_key_char, update_document_field};
use crate::month::calculation::CalculatedMonth;
use crate::month::document::MonthDocument;
use crate::month::id::MonthId;
use crate::state::field_catalog::{editor_layout, field_value, keys_of, negative_allowed, FieldId};
use crate::state::money_input::{after_backspace, after_key, committed, MoneyInput, MoneyInputView};
use crate::state::route_state::{EditorState, FailureState, InteractionState, PersistenceState, RetryTarget, SyncState};
use crate::text::owned;

verus! {

/// What a keypress on the monthly sheet asks for.
#[derive(Clone, Debug)]
pub enum EditorStep {
    /// Show the sheet in this state.
    Stay(EditorState),
    Shutdown,
    /// Return to the month list with this month selected.
    BackToNavigation(MonthId),
    /// Save this state, whose edit was committed.
    Save(EditorState),
}

/// The view of an optional edit buffer.
pub open spec fn buffer_view(b: Option<MoneyInput>) -> Option<MoneyInputView> {
    match b {
        Some(x) => Some(x@),
        None => None,
    }
}

/// The focus after moving down `len` fields.
pub open spec fn focus_down(focus: usize, len: nat) -> usize {
    if len == 0 {
        0
    } else if focus + 1 >= len {
        (len - 1) as usize
    } else {
        (focus + 1) as usize
    }
}

/// The focus after moving up.
pub open spec fn focus_up(focus: usize) -> usize {
    if focus == 0 {
        0
    } else {
        (focus - 1) as usize
    }
}

/// `r` is `s` with another focus, buffer and interaction.
pub open spec fn sheet_is(
    r: EditorState,
    s: EditorState,
    focus: usize,
    buffer: Option<MoneyInputView>,
    interaction: InteractionState,
) -> bool {
    &&& r.document == s.document
    &&& r.calculated == s.calculated
    &&& r.fields == s.fields
    &&& r.focus_index == focus
    &&& buffer_view(r.edit_buffer) == buffer
    &&& r.message == s.message
    &&& r.interaction == interaction
    &&& r.persistence == s.persistence
    &&& r.sync == s.sync
}

/// The buffer that starts editing field `f` of `d`.
pub open spec fn fresh_buffer(f: FieldId, d: MonthDocument) -> MoneyInputView {
    MoneyInputView {
        base_minor: field_value(d, f@) as i64,
        text: None,
        allow_negative: negative_allowed(f@),
    }
}

/// The key needs the focused field to exist.
pub open spec fn needs_focused_field(s: EditorState, k: Key) -> bool {
    match s.interaction {
        InteractionState::SheetIdle => k == Key::Enter || k == Key::Char('e'),
        InteractionState::FieldEditing => k == Key::Enter,
    }
}

/// Deleting from the buffer needs a stored amount other than `i64::MIN`
/// while nothing has been typed.
pub open spec fn backspace_ok(b: Option<MoneyInput>) -> bool {
    b matches Some(x) ==> (x@.text is None ==> x@.base_minor != i64::MIN)
}

/// `r` keeps the fields, focus, interaction and save state of `s`.
pub open spec fn same_place(r: EditorState, s: EditorState) -> bool {
    &&& r.fields == s.fields
    &&& r.focus_index == s.focus_index
    &&& r.interaction == s.interaction
    &&& r.persistence == s.persistence
    &&& r.sync == s.sync
}

/// How committing the focused field's buffer turns out: nothing without a
/// buffer; a refused edit shows its message; an accepted edit whose month
/// fails a check shows that check's message on the edited document; an
/// accepted edit that checks out closes the buffer and is saved.
pub open spec fn commit_answer(c: AppConfig, s: EditorState, r: EditorStep) -> bool {
    let f = s.fields@[s.focus_index as int];
    match s.edit_buffer {
        None => r == EditorStep::Stay(s),
        Some(b) => match edit_refusal(f@, b@) {
            Some(msg) => r matches EditorStep::Stay(ns) && (same_place(ns, s) && ns.document
                == s.document && ns.calculated == s.calculated && buffer_view(ns.edit_buffer)
                == Some(b@) && (ns.message matches Some(m) && m@ == msg)),
            None => {
                let v = committed(b@)->0 as i64;
                match r {
                    EditorStep::Save(ns) => {
                        &&& document_updated(s.document, ns.document, f@, v)
                        &&& recalculation(c, ns.document, Ok(ns.calculated))
                        &&& ns.fields == s.fields
                        &&& ns.focus_index == s.focus_index
                        &&& ns.edit_buffer is None
                        &&& ns.interaction == InteractionState::SheetIdle
                        &&& ns.persistence == PersistenceState::Dirty
                        &&& ns.sync == SyncState::SyncPending
                        &&& ns.message matches Some(m) && m@ == "Autosaving changes"@
                    },
                    EditorStep::Stay(ns) => {
                        &&& document_updated(s.document, ns.document, f@, v)
                        &&& same_place(ns, s)
                        &&& ns.calculated == s.calculated
                        &&& buffer_view(ns.edit_buffer) == Some(b@)
                        &&& ns.message matches Some(m) && recalculation(
                            c,
                            ns.document,
                            Err::<CalculatedMonth, String>(m),
                        )
                    },
                    _ => false,
                }
            },
        },
    }
}

/// How the sheet answers a key.
pub open spec fn editor_answer(c: AppConfig, s: EditorState, k: Key, r: EditorStep) -> bool {
    let len = s.fields@.len();
    match s.interaction {
        InteractionState::SheetIdle => if k == Key::Char('q') {
            r is Shutdown
        } else if k == Key::Esc {
            r == EditorStep::BackToNavigation(s.document.month)
        } else if k == Key::Down || k == Key::Char('j') || k == Key::Tab {
            r matches EditorStep::Stay(ns) && sheet_is(
                ns,
                s,
                focus_down(s.focus_index, len),
                buffer_view(s.edit_buffer),
                s.interaction,
            )
        } else if k == Key::Up || k == Key::Char('k') || k == Key::BackTab {
            r matches EditorStep::Stay(ns) && sheet_is(
                ns,
                s,
                focus_up(s.focus_index),
                buffer_view(s.edit_buffer),
                s.interaction,
            )
        } else if k == Key::Enter || k == Key::Char('e') {
            r matches EditorStep::Stay(ns) && sheet_is(
                ns,
                s,
                s.focus_index,
                Some(fresh_buffer(s.fields@[s.focus_index as int], s.document)),
                InteractionState::FieldEditing,
            )
        } else {
            r == EditorStep::Stay(s)
        },
        InteractionState::FieldEditing => if k == Key::Esc {
            r matches EditorStep::Stay(ns) && sheet_is(
                ns,
                s,
                s.focus_index,
                None,
                InteractionState::SheetIdle,
            )
        } else if k == Key::Backspace {
            r matches EditorStep::Stay(ns) && sheet_is(
                ns,
                s,
                s.focus_index,
                match buffer_view(s.edit_buffer) {
                    Some(b) => Some(after_backspace(b)),
                    None => None,
                },
                s.interaction,
            )
        } else if k == Key::Enter {
            commit_answer(c, s, r)
        } else if k matches Key::Char(ch) && money_key_char(ch) {
            r matches EditorStep::Stay(ns) && sheet_is(
                ns,
                s,
                s.focus_index,
                match buffer_view(s.edit_buffer) {
                    Some(b) => Some(after_key(b, k->0)),
                    None => None,
                },
                s.interaction,
            )
        } else {
            r == EditorStep::Stay(s)
        },
    }
}

/// Commits the focused field's buffer (see [`commit_answer`]).
pub fn commit_editor_field(state: EditorState, config: &AppConfig) -> (r: EditorStep)
    requires
        state.focus_index < state.fields@.len(),
    ensures
        commit_answer(*config, state, r),
{
    let EditorState {
        document,
        calculated,
        fields,
        focus_index,
        edit_buffer,
        message,
        interaction,
        persistence,
        sync,
    } = state;
    let mut document = document;
    let buffer = match edit_buffer {
        None => {
            return EditorStep::Stay(
                EditorState {
                    document,
                    calculated,
                    fields,
                    focus_index,
                    edit_buffer: None,
                    message,
                    interaction,
                    persistence,
                    sync,
                },
            );
        },
        Some(b) => b,
    };
    match update_document_field(&mut document, &fields[focus_index], &buffer) {
        Err(msg) => EditorStep::Stay(
            EditorState {
                document,
                calculated,
                fields,
                focus_index,
                edit_buffer: Some(buffer),
                message: Some(msg),
                interaction,
                persistence,
                sync,
            },
        ),
        Ok(()) => match recalculate(config, &document) {
            Ok(m) => EditorStep::Save(
                EditorState {
                    document,
                    calculated: m,
                    fields,
                    focus_index,
                    edit_buffer: None,
                    message: Some(owned("Autosaving changes")),
                    interaction: InteractionState::SheetIdle,
                    persistence: PersistenceState::Dirty,
                    sync: SyncState::SyncPending,
                },
            ),
            Err(msg) => EditorStep::Stay(
                EditorState {
                    document,
                    calculated,
                    fields,
                    focus_index,
                    edit_buffer: Some(buffer),
                    message: Some(msg),
                    interaction,
                    persistence,
                    sync,
                },
            ),
        },
    }
}

/// Whatever key is pressed, a sheet whose focus is on a field keeps its
/// fields and keeps the focus on one of them, whether it is shown again or
/// saved.
pub proof fn lemma_focus_stays_on_a_field(c: AppConfig, s: EditorState, k: Key, r: EditorStep)
    requires
        s.focus_index < s.fields@.len(),
        editor_answer(c, s, k, r),
    ensures
        r matches EditorStep::Stay(t) ==> t.fields == s.fields && t.focus_index < t.fields@.len(),
        r matches EditorStep::Save(t) ==> t.fields == s.fields && t.focus_index == s.focus_index,
{
}

/// On the idle sheet, Up, `k` and BackTab move the focus to the previous
/// field (staying on the first one) and change nothing else; Down, `j` or
/// Tab then brings the focus back to where it was.
pub proof fn lemma_up_focuses_the_previous_field(
    c: AppConfig,
    s: EditorState,
    k: Key,
    r: EditorStep,
    down: Key,
    r2: EditorStep,
)
    requires
        s.interaction == InteractionState::SheetIdle,
        k == Key::Up || k == Key::Char('k') || k == Key::BackTab,
        editor_answer(c, s, k, r),
        down == Key::Down || down == Key::Char('j') || down == Key::Tab,
    ensures
        r matches EditorStep::Stay(t) && t.document == s.document && t.fields == s.fields
            && t.interaction == InteractionState::SheetIdle && buffer_view(t.edit_buffer)
            == buffer_view(s.edit_buffer),
        r matches EditorStep::Stay(t) ==> (s.focus_index > 0 ==> t.focus_index + 1 == s.focus_index),
        r matches EditorStep::Stay(t) ==> (s.focus_index == 0 ==> t.focus_index == 0),
        r matches EditorStep::Stay(t) ==> (0 < s.focus_index < s.fields@.len() && editor_answer(
            c,
            t,
            down,
            r2,
        ) ==> (r2 matches EditorStep::Stay(u) && u.focus_index == s.focus_index)),
{
}

/// Answers a keypress on the monthly sheet (see [`editor_answer`]).
pub fn editor_key(state: EditorState, key: Key, config: &AppConfig) -> (r: EditorStep)
    requires
        needs_focused_field(state, key) ==> state.focus_index < state.fields@.len(),
        state.interaction == InteractionState::FieldEditing && key == Key::Backspace ==> backspace_ok(
            state.edit_buffer,
        ),
    ensures
        editor_answer(*config, state, key, r),
{
    match state.interaction {
        InteractionState::SheetIdle => match key {
            Key::Char('q') => EditorStep::Shutdown,
            Key::Esc => EditorStep::BackToNavigation(state.document.month),
            Key::Down | Key::Char('j') | Key::Tab => {
                let len = state.fields.len();
                let focus = state.focus_index;
                let next = if len == 0 {
                    0
                } else if focus >= len - 1 {
                    len - 1
                } else {
                    focus + 1
                };
                let mut s = state;
                s.focus_index = next;
                EditorStep::Stay(s)
            },
            Key::Up | Key::Char('k') | Key::BackTab => {
                let focus = state.focus_index;
                let mut s = state;
                s.focus_index = if focus == 0 {
                    0
                } else {
                    focus - 1
                };
                EditorStep::Stay(s)
            },
            Key::Enter | Key::Char('e') => {
                let b = MoneyInput::from_field(&state.fields[state.focus_index], &state.document);
                let mut s = state;
                s.edit_buffer = Some(b);
                s.interaction = InteractionState::FieldEditing;
                EditorStep::Stay(s)
            },
            _ => EditorStep::Stay(state),
        },
        InteractionState::FieldEditing => match key {
            Key::Esc => {
                let mut s = state;
                s.edit_buffer = None;
                s.interaction = InteractionState::SheetIdle;
                EditorStep::Stay(s)
            },
            Key::Backspace => {
                let mut s = state;
                let buffer = match s.edit_buffer {
                    Some(b) => {
                        let mut b = b;
                        b.backspace();
                        Some(b)
                    },
                    None => None,
                };
                s.edit_buffer = buffer;
                EditorStep::Stay(s)
            },
            Key::Enter => commit_editor_field(state, config),
            Key::Char(c) => {
                if is_money_input_character(c) {
                    let mut s = state;
                    let buffer = match s.edit_buffer {
                        Some(b) => {
                            let mut b = b;
                            b.push(c);
                            Some(b)
                        },
                        None => None,
                    };
                    s.edit_buffer = buffer;
                    EditorStep::Stay(s)
                } else {
                    EditorStep::Stay(state)
                }
            },
            _ => EditorStep::Stay(state),
        },
    }
}

/// The sheet for a month just opened: every field in sheet order, the first
/// focused, nothing being edited, everything saved.
pub fn editor_state_from_calculated(
    document: MonthDocument,
    calculated: CalculatedMonth,
    message: Option<String>,
    config: &AppConfig,
) -> (r: EditorState)
    ensures
        r.document == document,
        r.calculated == calculated,
        keys_of(r.fields@) == editor_layout(*config),
        r.focus_index == 0,
        r.edit_buffer is None,
        r.message == message,
        r.interaction == InteractionState::SheetIdle,
        r.persistence == PersistenceState::Clean,
        r.sync == SyncState::Synced,
{
    EditorState {
        document,
        calculated,
        fields: FieldId::editor_fields(config),
        focus_index: 0,
        edit_buffer: None,
        message,
        interaction: InteractionState::SheetIdle,
        persistence: PersistenceState::Clean,
        sync: SyncState::Synced,
    }
}

/// The sheet for a document, recalculated first.
pub fn editor_state_from_document(document: MonthDocument, message: Option<String>, config: &AppConfig) -> (r:
    Result<EditorState, String>)
    ensures
        match r {
            Ok(s) => recalculation(*config, document, Ok(s.calculated)) && s.document == document
                && keys_of(s.fields@) == editor_layout(*config) && s.focus_index == 0
                && s.edit_buffer is None && s.message == message && s.interaction
                == InteractionState::SheetIdle && s.persistence == PersistenceState::Clean && s.sync
                == SyncState::Synced,
            Err(m) => recalculation(*config, document, Err::<CalculatedMonth, String>(m)),
        },
{
    match recalculate(config, &document) {
        Ok(calculated) => Ok(editor_state_from_calculated(document, calculated, message, config)),
        Err(m) => Err(m),
    }
}

/// The sheet while its save is under way.
pub fn begin_editor_save(state: EditorState) -> (r: EditorState)
    ensures
        r == (EditorState {
            persistence: PersistenceState::Autosaving,
            sync: SyncState::Syncing,
            ..state
        }),
{
    let mut s = state;
    s.persistence = PersistenceState::Autosaving;
    s.sync = SyncState::Syncing;
    s
}

/// The sheet once its save succeeded: recalculated, clean and synced, with
/// the autosave message.
pub fn editor_after_save(state: EditorState, config: &AppConfig, sync_enabled: bool) -> (r: Result<
    EditorState,
    String,
>)
    ensures
        match r {
            Ok(s) => recalculation(*config, state.document, Ok(s.calculated)) && s.document
                == state.document && s.fields == state.fields && s.focus_index == state.focus_index
                && buffer_view(s.edit_buffer) == buffer_view(state.edit_buffer) && s.interaction
                == state.interaction && s.persistence == PersistenceState::Clean && s.sync
                == SyncState::Synced && (s.message matches Some(m) && m@ == autosave_text(
                "Month autosaved"@,
                sync_enabled,
            )),
            Err(m) => recalculation(*config, state.document, Err::<CalculatedMonth, String>(m)),
        },
{
    match recalculate(config, &state.document) {
        Err(m) => Err(m),
        Ok(calculated) => {
            let mut s = state;
            s.calculated = calculated;
            s.persistence = PersistenceState::Clean;
            s.sync = SyncState::Synced;
            s.message = Some(autosave_message("Month autosaved", sync_enabled));
            Ok(s)
        },
    }
}

/// The blocking failure when saving the sheet fails; retrying saves again.
pub fn editor_save_failed(state: EditorState, message: String) -> (r: FailureState)
    ensures
        r.title@ == "Could not save "@ + month_text(state.document.month),
        r.message == message,
        r.retry == RetryTarget::EditorSave(
            EditorState {
                persistence: PersistenceState::SaveFailed,
                sync: SyncState::SyncFailed,
                ..state
            },
        ),
{
    let title = with_month("Could not save ", state.document.month);
    let mut s = state;
    s.persistence = PersistenceState::SaveFailed;
    s.sync = SyncState::SyncFailed;
    FailureState { title, message, retry: RetryTarget::EditorSave(s) }
}

} // verus!

//! Guided month creation: one field at a time, each saved as it is
//! committed, ending in the monthly sheet.
use vstd::prelude::*;

use crate::app::editor::{editor_state_from_document, buffer_view};
use crate::app::{autosave_message, autosave_text, month_text, recalculate, recalculation, with_month, Key};
use crate::config::AppConfig;
use crate::editing::{document_updated, edit_refusal, is_money_input_character, money_key_char, update_document_field};
use crate::month::calculation::CalculatedMonth;
use crate::month::document::MonthDocument;
use crate::month::id::MonthId;
use crate::state::field_catalog::{editor_layout, field_value, guided_order, keys_of, negative_allowed, FieldId};
use crate::state::money_input::{after_backspace, after_key, committed, MoneyInput, MoneyInputView};
use crate::state::route_state::{
    EditorState, FailureState, GuidedCreationState, InteractionState, PersistenceState, RetryTarget,
    SyncState,
};
use crate::text::owned;

verus! {

/// What a keypress during guided creation asks for.
#[derive(Clone, Debug)]
pub enum GuidedStep {
    /// Show the guided flow in this state.
    Stay(GuidedCreationState),
    Shutdown,
    /// Return to the month list with this month selected.
    BackToNavigation(MonthId),
    /// Save this state, whose step was committed.
    Save(GuidedCreationState),
}

/// The buffer that starts a step for field `f` of `d`.
pub open spec fn step_buffer(f: FieldId, d: MonthDocument) -> MoneyInputView {
    MoneyInputView {
        base_minor: field_value(d, f@) as i64,
        text: None,
        allow_negative: negative_allowed(f@),
    }
}

/// `r` is `s` with another buffer.
pub open spec fn flow_with_input(r: GuidedCreationState, s: GuidedCreationState, input: MoneyInputView) -> bool {
    &&& r.document == s.document
    &&& r.calculated == s.calculated
    &&& r.steps == s.steps
    &&& r.step_index == s.step_index
    &&& r.input@ == input
    &&& r.message == s.message
    &&& r.persistence == s.persistence
    &&& r.sync == s.sync
}

/// How committing the current step turns out: a refused value shows its
/// message; an accepted value whose month fails a check shows that check's
/// message on the edited document; an accepted value that checks out is
/// saved.
pub open spec fn step_commit_answer(c: AppConfig, s: GuidedCreationState, r: GuidedStep) -> bool {
    let f = s.steps@[s.step_index as int];
    match edit_refusal(f@, s.input@) {
        Some(msg) => r matches GuidedStep::Stay(ns) && (ns.document == s.document && ns.calculated
            == s.calculated && ns.steps == s.steps && ns.step_index == s.step_index && ns.input@
            == s.input@ && ns.persistence == s.persistence && ns.sync == s.sync && (
        ns.message matches Some(m) && m@ == msg)),
        None => {
            let v = committed(s.input@)->0 as i64;
            match r {
                GuidedStep::Save(ns) => {
                    &&& document_updated(s.document, ns.document, f@, v)
                    &&& recalculation(c, ns.document, Ok(ns.calculated))
                    &&& ns.steps == s.steps
                    &&& ns.step_index == s.step_index
                    &&& ns.input@ == s.input@
                    &&& ns.persistence == PersistenceState::Dirty
                    &&& ns.sync == SyncState::SyncPending
                    &&& ns.message matches Some(m) && m@ == "Autosaving draft"@
                },
                GuidedStep::Stay(ns) => {
                    &&& document_updated(s.document, ns.document, f@, v)
                    &&& ns.calculated == s.calculated
                    &&& ns.steps == s.steps
                    &&& ns.step_index == s.step_index
                    &&& ns.input@ == s.input@
                    &&& ns.persistence == s.persistence
                    &&& ns.sync == s.sync
                    &&& ns.message matches Some(m) && recalculation(
                        c,
                        ns.document,
                        Err::<CalculatedMonth, String>(m),
                    )
                },
                _ => false,
            }
        },
    }
}

/// How the guided flow answers a key.
pub open spec fn guided_answer(c: AppConfig, s: GuidedCreationState, k: Key, r: GuidedStep) -> bool {
    if k == Key::Char('q') {
        r is Shutdown
    } else if k == Key::Esc {
        r == GuidedStep::BackToNavigation(s.document.month)
    } else if k == Key::Backspace {
        r matches GuidedStep::Stay(ns) && flow_with_input(ns, s, after_backspace(s.input@))
    } else if k == Key::Enter {
        step_commit_answer(c, s, r)
    } else if k matches Key::Char(ch) && money_key_char(ch) {
        r matches GuidedStep::Stay(ns) && flow_with_input(ns, s, after_key(s.input@, k->0))
    } else {
        r == GuidedStep::Stay(s)
    }
}

/// Commits the current step (see [`step_commit_answer`]).
pub fn commit_guided_step(state: GuidedCreationState, config: &AppConfig) -> (r: GuidedStep)
    requires
        state.step_index < state.steps@.len(),
    ensures
        step_commit_answer(*config, state, r),
{
    let GuidedCreationState { document, calculated, steps, step_index, input, message, persistence, sync } =
        state;
    let mut document = document;
    match update_document_field(&mut document, &steps[step_index], &input) {
        Err(msg) => GuidedStep::Stay(
            GuidedCreationState {
                document,
                calculated,
                steps,
                step_index,
                input,
                message: Some(msg),
                persistence,
                sync,
            },
        ),
        Ok(()) => match recalculate(config, &document) {
            Ok(m) => GuidedStep::Save(
                GuidedCreationState {
                    document,
                    calculated: m,
                    steps,
                    step_index,
                    input,
                    message: Some(owned("Autosaving draft")),
                    persistence: PersistenceState::Dirty,
                    sync: SyncState::SyncPending,
                },
            ),
            Err(msg) => GuidedStep::Stay(
                GuidedCreationState {
                    document,
                    calculated,
                    steps,
                    step_index,
                    input,
                    message: Some(msg),
                    persistence,
                    sync,
                },
            ),
        },
    }
}

/// Keys never move the guided flow off its step: whatever key is pressed,
/// the flow is shown again or saved with the same steps and the same
/// current step; only a successful save moves it on.
pub proof fn lemma_keys_keep_the_step(c: AppConfig, s: GuidedCreationState, k: Key, r: GuidedStep)
    requires
        s.step_index < s.steps@.len(),
        guided_answer(c, s, k, r),
    ensures
        r matches GuidedStep::Stay(t) ==> t.steps == s.steps && t.step_index == s.step_index,
        r matches GuidedStep::Save(t) ==> t.steps == s.steps && t.step_index == s.step_index,
{
}

/// Answers a keypress during guided creation (see [`guided_answer`]).
pub fn guided_key(state: GuidedCreationState, key: Key, config: &AppConfig) -> (r: GuidedStep)
    requires
        key == Key::Enter ==> state.step_index < state.steps@.len(),
        key == Key::Backspace ==> (state.input@.text is None ==> state.input@.base_minor != i64::MIN),
    ensures
        guided_answer(*config, state, key, r),
{
    match key {
        Key::Char('q') => GuidedStep::Shutdown,
        Key::Esc => GuidedStep::BackToNavigation(state.document.month),
        Key::Backspace => {
            let mut s = state;
            s.input.backspace();
            GuidedStep::Stay(s)
        },
        Key::Enter => commit_guided_step(state, config),
        Key::Char(c) => {
            if is_money_input_character(c) {
                let mut s = state;
                s.input.push(c);
                GuidedStep::Stay(s)
            } else {
                GuidedStep::Stay(state)
            }
        },
        _ => GuidedStep::Stay(state),
    }
}

/// The guided flow for a new draft: recalculated, asking for the first
/// field of the guided order, everything saved.
pub fn guided_state_from_document(document: MonthDocument, message: Option<String>, config: &AppConfig) -> (r:
    Result<GuidedCreationState, String>)
    ensures
        match r {
            Ok(s) => recalculation(*config, document, Ok(s.calculated)) && s.document == document
                && keys_of(s.steps@) == guided_order(*config) && s.steps@.len() > 0
                && s.step_index == 0 && s.input@ == step_buffer(s.steps@[0], document) && s.message
                == message && s.persistence == PersistenceState::Clean && s.sync
                == SyncState::Synced,
            Err(m) => recalculation(*config, document, Err::<CalculatedMonth, String>(m)),
        },
{
    let calculated = match recalculate(config, &document) {
        Ok(c) => c,
        Err(m) => {
            return Err(m);
        },
    };
    let steps = FieldId::guided_steps(config);
    proof {
        assert(keys_of(steps@).len() == steps@.len());
    }
    let input = MoneyInput::from_field(&steps[0], &document);
    Ok(
        GuidedCreationState {
            document,
            calculated,
            steps,
            step_index: 0,
            input,
            message,
            persistence: PersistenceState::Clean,
            sync: SyncState::Synced,
        },
    )
}

/// The guided flow while its save is under way.
pub fn begin_guided_save(state: GuidedCreationState) -> (r: GuidedCreationState)
    ensures
        r == (GuidedCreationState {
            persistence: PersistenceState::Autosaving,
            sync: SyncState::Syncing,
            ..state
        }),
{
    let mut s = state;
    s.persistence = PersistenceState::Autosaving;
    s.sync = SyncState::Syncing;
    s
}

/// Where the guided flow goes once a step is saved.
#[derive(Clone, Debug)]
pub enum GuidedProgress {
    /// On to the next field.
    Next(GuidedCreationState),
    /// Every field is done: the monthly sheet opens.
    Done(EditorState),
}

/// The guided flow once a step's save succeeded: recalculated, clean and
/// synced, then on to the next field, or to the monthly sheet after the last.
pub fn guided_after_save(state: GuidedCreationState, config: &AppConfig, sync_enabled: bool) -> (r: Result<
    GuidedProgress,
    String,
>)
    ensures
        match r {
            Ok(GuidedProgress::Next(s)) => state.step_index + 1 < state.steps@.len() && recalculation(
                *config,
                state.document,
                Ok(s.calculated),
            ) && s.document == state.document && s.steps == state.steps && s.step_index
                == state.step_index + 1 && s.input@ == step_buffer(
                state.steps@[state.step_index + 1],
                state.document,
            ) && s.persistence == PersistenceState::Clean && s.sync == SyncState::Synced && (
            s.message matches Some(m) && m@ == autosave_text("Draft autosaved"@, sync_enabled)),
            Ok(GuidedProgress::Done(e)) => state.step_index + 1 >= state.steps@.len() && recalculation(
                *config,
                state.document,
                Ok(e.calculated),
            ) && e.document == state.document && keys_of(e.fields@) == editor_layout(*config)
                && e.focus_index == 0 && e.edit_buffer is None && e.interaction
                == InteractionState::SheetIdle && e.persistence == PersistenceState::Clean && e.sync
                == SyncState::Synced && (e.message matches Some(m) && m@ == autosave_text(
                "Draft autosaved"@,
                sync_enabled,
            )),
            Err(m) => recalculation(*config, state.document, Err::<CalculatedMonth, String>(m)),
        },
{
    let calculated = match recalculate(config, &state.document) {
        Ok(c) => c,
        Err(m) => {
            return Err(m);
        },
    };
    let message = autosave_message("Draft autosaved", sync_enabled);
    if state.step_index >= state.steps.len() || state.steps.len() - state.step_index <= 1 {
        return match editor_state_from_document(state.document, Some(message), config) {
            Ok(e) => Ok(GuidedProgress::Done(e)),
            Err(m) => Err(m),
        };
    }
    let next = state.step_index + 1;
    let input = MoneyInput::from_field(&state.steps[next], &state.document);
    let mut s = state;
    s.calculated = calculated;
    s.persistence = PersistenceState::Clean;
    s.sync = SyncState::Synced;
    s.message = Some(message);
    s.step_index = next;
    s.input = input;
    Ok(GuidedProgress::Next(s))
}

/// The guided flow once its first save succeeded: recalculated, clean and
/// synced, with the draft-created message.
pub fn guided_after_first_save(state: GuidedCreationState, config: &AppConfig, sync_enabled: bool) -> (r:
    Result<GuidedCreationState, String>)
    ensures
        match r {
            Ok(s) => recalculation(*config, state.document, Ok(s.calculated)) && s.document
                == state.document && s.steps == state.steps && s.step_index == state.step_index
                && s.input@ == state.input@ && s.persistence == PersistenceState::Clean && s.sync
                == SyncState::Synced && (s.message matches Some(m) && m@ == autosave_text(
                "Draft created"@,
                sync_enabled,
            )),
            Err(m) => recalculation(*config, state.document, Err::<CalculatedMonth, String>(m)),
        },
{
    match recalculate(config, &state.document) {
        Err(m) => Err(m),
        Ok(calculated) => {
            let mut s = state;
            s.calculated = calculated;
            s.persistence = PersistenceState::Clean;
            s.sync = SyncState::Synced;
            s.message = Some(autosave_message("Draft created", sync_enabled));
            Ok(s)
        },
    }
}

/// The blocking failure when saving a step fails; retrying saves again.
pub fn guided_save_failed(state: GuidedCreationState, message: String) -> (r: FailureState)
    ensures
        r.title@ == "Could not save "@ + month_text(state.document.month),
        r.message == message,
        r.retry == RetryTarget::GuidedSave(
            GuidedCreationState {
                persistence: PersistenceState::SaveFailed,
                sync: SyncState::SyncFailed,
                ..state
            },
        ),
{
    let title = with_month("Could not save ", state.document.month);
    let mut s = state;
    s.persistence = PersistenceState::SaveFailed;
    s.sync = SyncState::SyncFailed;
    FailureState { title, message, retry: RetryTarget::GuidedSave(s) }
}

/// The blocking failure when the first save of a new draft fails; retrying
/// saves the draft again.
pub fn draft_save_failed(state: GuidedCreationState, message: String) -> (r: FailureState)
    ensures
        r.title@ == "Could not create "@ + month_text(state.document.month),
        r.message == message,
        r.retry == RetryTarget::CreateDraft(
            GuidedCreationState {
                persistence: PersistenceState::SaveFailed,
                sync: SyncState::SyncFailed,
                ..state
            },
        ),
{
    let title = with_month("Could not create ", state.document.month);
    let mut s = state;
    s.persistence = PersistenceState::SaveFailed;
    s.sync = SyncState::SyncFailed;
    FailureState { title, message, retry: RetryTarget::CreateDraft(s) }
}

} // verus!

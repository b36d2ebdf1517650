//! The routes of the terminal application and the state each one carries.
use vstd::prelude::*;

use crate::month::calculation::CalculatedMonth;
use crate::month::document::MonthDocument;
use crate::month::id::MonthId;
use crate::state::field_catalog::FieldId;
use crate::state::money_input::MoneyInput;

verus! {

/// Top-level application route.
#[derive(Clone, Debug)]
pub enum Route {
    Navigation(NavigationState),
    GuidedCreation(GuidedCreationState),
    MonthEditing(EditorState),
    BlockingFailure(FailureState),
    Shutdown,
}

/// State for the month list and its modal dialogues.
#[derive(Clone, Debug)]
pub struct NavigationState {
    pub months: Vec<MonthEntry>,
    pub selected: usize,
    pub dialogue: Option<NavigationDialogue>,
}

impl NavigationState {
    /// A month list with the first month selected and no dialogue open.
    pub fn new(months: Vec<MonthEntry>) -> (r: Self)
        ensures
            r.months@ == months@,
            r.selected == 0,
            r.dialogue is None,
    {
        NavigationState { months, selected: 0, dialogue: None }
    }

    /// The selected month, if the selection points at one.
    pub fn selected_month(&self) -> (r: Option<&MonthEntry>)
        ensures
            match r {
                Some(m) => self.selected < self.months@.len() && *m == self.months@[self.selected as int],
                None => self.selected >= self.months@.len(),
            },
    {
        if self.selected < self.months.len() {
            Some(&self.months[self.selected])
        } else {
            None
        }
    }
}

/// Navigation entry containing both editable and derived month data.
#[derive(Clone, Debug)]
pub struct MonthEntry {
    pub document: MonthDocument,
    pub calculated: CalculatedMonth,
}

/// Dialogue state for creating a new month.
#[derive(Clone, Debug)]
pub struct CreateDialogue {
    pub input: String,
    pub error: Option<String>,
}

/// Dialogue state for renaming an existing month.
#[derive(Clone, Debug)]
pub struct RenameDialogue {
    pub source: MonthId,
    pub input: String,
    pub error: Option<String>,
}

/// Dialogue state for deleting a month after explicit confirmation.
#[derive(Clone, Debug)]
pub struct DeleteDialogue {
    pub month: MonthId,
    pub confirmation: String,
    pub error: Option<String>,
}

/// Any modal dialogue that can appear from the navigation route.
#[derive(Clone, Debug)]
pub enum NavigationDialogue {
    Create(CreateDialogue),
    Rename(RenameDialogue),
    Delete(DeleteDialogue),
}

/// State for the guided month-creation workflow.
#[derive(Clone, Debug)]
pub struct GuidedCreationState {
    pub document: MonthDocument,
    pub calculated: CalculatedMonth,
    pub steps: Vec<FieldId>,
    pub step_index: usize,
    pub input: MoneyInput,
    pub message: Option<String>,
    pub persistence: PersistenceState,
    pub sync: SyncState,
}

/// State for the full monthly editor.
#[derive(Clone, Debug)]
pub struct EditorState {
    pub document: MonthDocument,
    pub calculated: CalculatedMonth,
    pub fields: Vec<FieldId>,
    pub focus_index: usize,
    pub edit_buffer: Option<MoneyInput>,
    pub message: Option<String>,
    pub interaction: InteractionState,
    pub persistence: PersistenceState,
    pub sync: SyncState,
}

/// Route state for failures that must block user progress until retried or quit.
#[derive(Clone, Debug)]
pub struct FailureState {
    pub title: String,
    pub message: String,
    pub retry: RetryTarget,
}

/// Operation that should be retried from the blocking failure screen.
#[derive(Clone, Debug)]
pub enum RetryTarget {
    RepositoryGate,
    CreateMonth(MonthId),
    CreateDraft(GuidedCreationState),
    GuidedSave(GuidedCreationState),
    EditorSave(EditorState),
    OpenMonth(MonthId),
    RenameMonth { source: MonthId, target: MonthId },
    DeleteMonth(MonthId),
    PushNavigation(Option<MonthId>),
}

/// Whether the monthly sheet is navigating fields or editing one.
#[derive(Clone, Copy, Debug, PartialEq, Eq, Structural)]
pub enum InteractionState {
    SheetIdle,
    FieldEditing,
}

/// Local persistence state for the current editor or guided draft.
#[derive(Clone, Copy, Debug, PartialEq, Eq, Structural)]
pub enum PersistenceState {
    Clean,
    Dirty,
    Autosaving,
    SaveFailed,
}

/// Remote synchronisation state for the current editor or guided draft.
#[derive(Clone, Copy, Debug, PartialEq, Eq, Structural)]
pub enum SyncState {
    SyncPending,
    Syncing,
    Synced,
    SyncFailed,
}

} // verus!

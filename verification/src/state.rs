//! Plain editing state exchanged between the terminal runtime and the
//! renderer: field identifiers, the money input buffer and route state.
pub mod field_catalog;

pub use field_catalog::{FieldId, SectionId};
pub mod money_input;

pub use money_input::MoneyInput;
pub mod route_state;

pub use route_state::{
    CreateDialogue, DeleteDialogue, EditorState, FailureState, GuidedCreationState,
    InteractionState, MonthEntry, NavigationDialogue, NavigationState, PersistenceState,
    RenameDialogue, RetryTarget, Route, SyncState,
};

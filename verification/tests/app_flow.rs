use jt_budget::app::editor::{
    begin_editor_save, editor_after_save, editor_key, editor_save_failed,
    editor_state_from_document, EditorStep,
};
use jt_budget::app::failure::{
    after_delete, after_push, after_rename, create_failed, failure_key, AfterChange, FailureStep,
};
use jt_budget::app::guided::{
    guided_after_first_save, guided_after_save, guided_key, guided_state_from_document,
    GuidedProgress, GuidedStep,
};
use jt_budget::app::navigation::{navigation_key, select_month, NavigationStep};
use jt_budget::app::{autosave_message, recalculate, Key};
use jt_budget::config::AppConfig;
use jt_budget::editing::{
    is_money_input_character, is_month_id_character, update_document_field, validate_rename_target,
};
use jt_budget::month::document::{MonthDocument, SavingsPotState};
use jt_budget::month::id::MonthId;
use jt_budget::repository::{check_new_month, check_rename, SyncOutcome};
use jt_budget::state::{
    CreateDialogue, EditorState, FieldId, InteractionState, MoneyInput, MonthEntry,
    NavigationDialogue, NavigationState, PersistenceState, RenameDialogue, RetryTarget, SyncState,
};

fn month(key: &str) -> MonthId {
    MonthId::parse(key).unwrap()
}

fn filled_document(key: &str) -> MonthDocument {
    let config = AppConfig::default_mvp();
    MonthDocument::new_draft(month(key), &config, None)
}

fn entry(key: &str) -> MonthEntry {
    let config = AppConfig::default_mvp();
    let document = filled_document(key);
    let calculated = recalculate(&config, &document).unwrap();
    MonthEntry { document, calculated }
}

fn editor() -> EditorState {
    let config = AppConfig::default_mvp();
    editor_state_from_document(filled_document("2026-03"), None, &config).unwrap()
}

#[test]
fn editor_navigation_visits_each_field_once_in_visible_order() {
    let config = AppConfig::default_mvp();
    let mut state = editor();
    let mut visited = vec![state.fields[state.focus_index].clone()];
    for _ in 1..state.fields.len() {
        state = match editor_key(state, Key::Down, &config) {
            EditorStep::Stay(next) => next,
            other => panic!("unexpected step {other:?}"),
        };
        visited.push(state.fields[state.focus_index].clone());
    }
    assert_eq!(visited, FieldId::editor_fields(&config));
    let last = state.focus_index;
    state = match editor_key(state, Key::Tab, &config) {
        EditorStep::Stay(next) => next,
        other => panic!("unexpected step {other:?}"),
    };
    assert_eq!(state.focus_index, last);
}

#[test]
fn editor_commits_an_edit_and_asks_to_save() {
    let config = AppConfig::default_mvp();
    let mut state = editor();
    state = match editor_key(state, Key::Enter, &config) {
        EditorStep::Stay(next) => next,
        other => panic!("unexpected step {other:?}"),
    };
    assert_eq!(state.interaction, InteractionState::FieldEditing);
    for c in ['1', '2', 'x', '3'] {
        state = match editor_key(state, Key::Char(c), &config) {
            EditorStep::Stay(next) => next,
            other => panic!("unexpected step {other:?}"),
        };
    }
    let staged = match editor_key(state, Key::Enter, &config) {
        EditorStep::Save(next) => next,
        other => panic!("unexpected step {other:?}"),
    };
    assert_eq!(*staged.document.accounts.get("current").unwrap(), 12_300);
    assert_eq!(staged.message.as_deref(), Some("Autosaving changes"));
    assert_eq!(staged.persistence, PersistenceState::Dirty);
    assert_eq!(staged.sync, SyncState::SyncPending);
    assert!(staged.edit_buffer.is_none());
    assert_eq!(staged.calculated.totals.accounts_subtotal.minor(), 12_300);

    let saving = begin_editor_save(staged);
    assert_eq!(saving.persistence, PersistenceState::Autosaving);
    let saved = editor_after_save(saving.clone(), &config, true).unwrap();
    assert_eq!(saved.message.as_deref(), Some("Month autosaved and synced"));
    assert_eq!(saved.persistence, PersistenceState::Clean);

    let failure = editor_save_failed(saving, "disk full".to_owned());
    assert_eq!(failure.title, "Could not save 2026-03");
    assert!(matches!(
        failure.retry,
        RetryTarget::EditorSave(EditorState { persistence: PersistenceState::SaveFailed, .. })
    ));
}

#[test]
fn editor_refuses_negative_balances() {
    let config = AppConfig::default_mvp();
    let mut state = editor();
    state = match editor_key(state, Key::Enter, &config) {
        EditorStep::Stay(next) => next,
        other => panic!("unexpected step {other:?}"),
    };
    state.edit_buffer = Some(MoneyInput::from_value(jt_budget::money::Money::from_minor(-5), false));
    let refused = match editor_key(state, Key::Enter, &config) {
        EditorStep::Stay(next) => next,
        other => panic!("unexpected step {other:?}"),
    };
    assert_eq!(refused.message.as_deref(), Some("account balance cannot be negative"));
    assert_eq!(*refused.document.accounts.get("current").unwrap(), 0);
    assert!(matches!(editor_key(refused, Key::Esc, &config), EditorStep::Stay(_)));
}

#[test]
fn editor_reports_pots_that_would_go_negative() {
    let config = AppConfig::default_mvp();
    let mut state = editor();
    let index = state
        .fields
        .iter()
        .position(|f| *f == FieldId::PotChange("label".to_owned()))
        .unwrap();
    state.focus_index = index;
    state.interaction = InteractionState::FieldEditing;
    let mut input = MoneyInput::from_value(jt_budget::money::Money::from_minor(0), true);
    for c in ['-', '9', '9'] {
        input.push(c);
    }
    state.edit_buffer = Some(input);
    let stayed = match editor_key(state, Key::Enter, &config) {
        EditorStep::Stay(next) => next,
        other => panic!("unexpected step {other:?}"),
    };
    assert_eq!(
        stayed.message.as_deref(),
        Some("savings pot `label` would go negative: carried_over=0, monthly_change=-9900")
    );
    assert_eq!(stayed.document.savings_pots.get("label").unwrap().monthly_change, -9_900);
}

#[test]
fn editor_escape_and_quit() {
    let config = AppConfig::default_mvp();
    assert!(matches!(editor_key(editor(), Key::Esc, &config), EditorStep::BackToNavigation(m) if m == month("2026-03")));
    assert!(matches!(editor_key(editor(), Key::Char('q'), &config), EditorStep::Shutdown));
}

#[test]
fn guided_flow_walks_every_step_into_the_editor() {
    let config = AppConfig::default_mvp();
    let mut state =
        guided_state_from_document(filled_document("2026-03"), Some("Draft created".to_owned()), &config)
            .unwrap();
    state = guided_after_first_save(state, &config, false).unwrap();
    assert_eq!(state.message.as_deref(), Some("Draft created"));
    assert_eq!(state.steps, FieldId::guided_steps(&config));
    let total = state.steps.len();
    for step in 0..total {
        assert_eq!(state.step_index, step);
        state = match guided_key(state, Key::Char('1'), &config) {
            GuidedStep::Stay(next) => next,
            other => panic!("unexpected step {other:?}"),
        };
        let staged = match guided_key(state, Key::Enter, &config) {
            GuidedStep::Save(next) => next,
            other => panic!("unexpected step {other:?}"),
        };
        assert_eq!(staged.message.as_deref(), Some("Autosaving draft"));
        match guided_after_save(staged, &config, false).unwrap() {
            GuidedProgress::Next(next) => {
                assert!(step + 1 < total);
                assert_eq!(next.message.as_deref(), Some("Draft autosaved"));
                state = next;
            }
            GuidedProgress::Done(done) => {
                assert_eq!(step + 1, total);
                assert_eq!(done.fields, FieldId::editor_fields(&config));
                assert_eq!(*done.document.accounts.get("current").unwrap(), 100);
                assert_eq!(done.document.savings_pots.get("label").unwrap().monthly_change, 100);
                return;
            }
        }
    }
    panic!("guided flow never finished");
}

#[test]
fn guided_keys_edit_the_input() {
    let config = AppConfig::default_mvp();
    let state = guided_state_from_document(filled_document("2026-03"), None, &config).unwrap();
    let state = match guided_key(state, Key::Backspace, &config) {
        GuidedStep::Stay(next) => next,
        other => panic!("unexpected step {other:?}"),
    };
    assert_eq!(state.input.display_text(), "£0.00");
    assert!(matches!(guided_key(state.clone(), Key::Char('q'), &config), GuidedStep::Shutdown));
    assert!(matches!(guided_key(state, Key::Esc, &config), GuidedStep::BackToNavigation(_)));
}

#[test]
fn navigation_moves_and_opens_dialogues() {
    let state = NavigationState::new(vec![entry("2026-04"), entry("2026-03")]);
    let state = match navigation_key(state, Key::Down) {
        NavigationStep::Stay(next) => next,
        other => panic!("unexpected step {other:?}"),
    };
    assert_eq!(state.selected, 1);
    let state = match navigation_key(state, Key::Char('j')) {
        NavigationStep::Stay(next) => next,
        other => panic!("unexpected step {other:?}"),
    };
    assert_eq!(state.selected, 1);
    assert!(matches!(navigation_key(state.clone(), Key::Enter), NavigationStep::OpenMonth(m) if m == month("2026-03")));
    let renaming = match navigation_key(state, Key::Char('m')) {
        NavigationStep::Stay(next) => next,
        other => panic!("unexpected step {other:?}"),
    };
    match &renaming.dialogue {
        Some(NavigationDialogue::Rename(d)) => {
            assert_eq!(d.input, "2026-03");
            assert_eq!(d.source, month("2026-03"));
        }
        other => panic!("unexpected dialogue {other:?}"),
    }
    let unchanged = match navigation_key(renaming, Key::Enter) {
        NavigationStep::Stay(next) => next,
        other => panic!("unexpected step {other:?}"),
    };
    match &unchanged.dialogue {
        Some(NavigationDialogue::Rename(d)) => {
            assert_eq!(d.error.as_deref(), Some("Month is already named 2026-03"));
        }
        other => panic!("unexpected dialogue {other:?}"),
    }
    let mut state = unchanged;
    for key in [Key::Backspace, Key::Char('5'), Key::Char('x')] {
        state = match navigation_key(state, key) {
            NavigationStep::Stay(next) => next,
            other => panic!("unexpected step {other:?}"),
        };
    }
    assert!(matches!(
        navigation_key(state, Key::Enter),
        NavigationStep::RenameMonth { source, target } if source == month("2026-03") && target == month("2026-05")
    ));
}

#[test]
fn navigation_create_and_delete_dialogues() {
    let state = NavigationState::new(vec![entry("2026-04")]);
    let mut state = match navigation_key(state, Key::Char('n')) {
        NavigationStep::Stay(next) => next,
        other => panic!("unexpected step {other:?}"),
    };
    for key in "2026-13".chars().map(Key::Char) {
        state = match navigation_key(state, key) {
            NavigationStep::Stay(next) => next,
            other => panic!("unexpected step {other:?}"),
        };
    }
    let state = match navigation_key(state, Key::Enter) {
        NavigationStep::Stay(next) => next,
        other => panic!("unexpected step {other:?}"),
    };
    match &state.dialogue {
        Some(NavigationDialogue::Create(d)) => {
            assert_eq!(d.input, "2026-13");
            assert_eq!(d.error.as_deref(), Some("invalid month id `2026-13`, expected YYYY-MM"));
        }
        other => panic!("unexpected dialogue {other:?}"),
    }
    let state = match navigation_key(state, Key::Esc) {
        NavigationStep::Stay(next) => next,
        other => panic!("unexpected step {other:?}"),
    };
    assert!(state.dialogue.is_none());
    let state = match navigation_key(state, Key::Char('d')) {
        NavigationStep::Stay(next) => next,
        other => panic!("unexpected step {other:?}"),
    };
    let state = match navigation_key(state, Key::Enter) {
        NavigationStep::Stay(next) => next,
        other => panic!("unexpected step {other:?}"),
    };
    match &state.dialogue {
        Some(NavigationDialogue::Delete(d)) => {
            assert_eq!(d.error.as_deref(), Some("Type 2026-04 to confirm deletion"));
        }
        other => panic!("unexpected dialogue {other:?}"),
    }
    let mut state = state;
    for key in "2026-04".chars().map(Key::Char) {
        state = match navigation_key(state, key) {
            NavigationStep::Stay(next) => next,
            other => panic!("unexpected step {other:?}"),
        };
    }
    assert!(matches!(navigation_key(state, Key::Enter), NavigationStep::DeleteMonth(m) if m == month("2026-04")));
    let empty = NavigationState::new(vec![]);
    assert!(matches!(navigation_key(empty.clone(), Key::Char('r')), NavigationStep::EnterRepositoryGate));
    assert!(matches!(navigation_key(empty, Key::Char('q')), NavigationStep::Shutdown));
}

#[test]
fn navigation_create_enter_starts_guided_creation() {
    let state = NavigationState::new(vec![]);
    let mut state = match navigation_key(state, Key::Char('n')) {
        NavigationStep::Stay(next) => next,
        other => panic!("unexpected step {other:?}"),
    };
    for key in "2026-07".chars().map(Key::Char) {
        state = match navigation_key(state, key) {
            NavigationStep::Stay(next) => next,
            other => panic!("unexpected step {other:?}"),
        };
    }
    assert!(matches!(navigation_key(state, Key::Enter), NavigationStep::StartGuidedCreation(m) if m == month("2026-07")));
}

#[test]
fn reloads_select_the_named_month() {
    let state = select_month(vec![entry("2026-05"), entry("2026-04"), entry("2026-03")], Some(month("2026-03")));
    assert_eq!(state.selected, 2);
    let state = select_month(vec![entry("2026-05")], Some(month("2020-01")));
    assert_eq!(state.selected, 0);
}

#[test]
fn failures_retry_or_quit() {
    let failure = jt_budget::app::failure::repository_blocked("locked".to_owned());
    assert_eq!(failure.title, "Repository blocked");
    assert!(matches!(failure_key(failure.clone(), Key::Char('r')), FailureStep::Retry(RetryTarget::RepositoryGate)));
    assert!(matches!(failure_key(failure.clone(), Key::Esc), FailureStep::Shutdown));
    assert!(matches!(failure_key(failure, Key::Char('x')), FailureStep::Stay(_)));
}

#[test]
fn rename_and_delete_outcomes() {
    let (a, b) = (month("2026-03"), month("2026-05"));
    assert!(matches!(after_rename(a, b, Ok(SyncOutcome::Synced)), AfterChange::Reload(Some(m)) if m == b));
    match after_rename(a, b, Ok(SyncOutcome::PushFailed("offline".to_owned()))) {
        AfterChange::Blocked(f) => {
            assert_eq!(f.title, "Could not sync rename 2026-03 -> 2026-05");
            assert_eq!(
                f.message,
                "Renamed 2026-03 to 2026-05 locally and committed it, but push failed: offline"
            );
        }
        other => panic!("unexpected outcome {other:?}"),
    }
    match after_delete(a, Err("gone".to_owned())) {
        AfterChange::Blocked(f) => {
            assert_eq!(f.title, "Could not delete 2026-03");
            assert!(matches!(f.retry, RetryTarget::DeleteMonth(m) if m == a));
        }
        other => panic!("unexpected outcome {other:?}"),
    }
    match after_delete(a, Ok(SyncOutcome::PushFailed("x".to_owned()))) {
        AfterChange::Blocked(f) => assert_eq!(f.title, "Could not sync deletion of 2026-03"),
        other => panic!("unexpected outcome {other:?}"),
    }
    assert!(matches!(after_push(None, Ok(())), AfterChange::Reload(None)));
    assert!(matches!(after_push(None, Err("e".to_owned())), AfterChange::Blocked(_)));
}

#[test]
fn document_edits_write_one_field() {
    let config = AppConfig::default_mvp();
    let mut document = filled_document("2026-03");
    let mut input = MoneyInput::from_value(jt_budget::money::Money::from_minor(0), true);
    input.push('4');
    update_document_field(&mut document, &FieldId::PotCarried("label".to_owned()), &input).unwrap();
    assert_eq!(
        *document.savings_pots.get("label").unwrap(),
        SavingsPotState { carried_over: 400, monthly_change: 2_500 }
    );
    update_document_field(&mut document, &FieldId::PotChange("new_pot".to_owned()), &input).unwrap();
    assert_eq!(
        *document.savings_pots.get("new_pot").unwrap(),
        SavingsPotState { carried_over: 0, monthly_change: 400 }
    );
    update_document_field(&mut document, &FieldId::InvestmentNotYetSent, &input).unwrap();
    assert_eq!(document.timing_adjustments.investment_not_yet_sent_raw, 400);
    let mut bad = MoneyInput::from_value(jt_budget::money::Money::from_minor(0), false);
    bad.push('.');
    bad.push('.');
    assert!(update_document_field(&mut document, &FieldId::Earmark("subscriptions".to_owned()), &bad).is_ok());
    assert_eq!(*document.next_month_earmarks.get("subscriptions").unwrap(), 0);
    let _ = config;
}

#[test]
fn key_filters_and_rename_validation() {
    assert!(is_month_id_character('7'));
    assert!(is_month_id_character('-'));
    assert!(!is_month_id_character('.'));
    assert!(is_money_input_character('.'));
    assert!(!is_money_input_character('£'));
    assert_eq!(validate_rename_target(month("2026-03"), " 2026-04 ").unwrap(), month("2026-04"));
    assert_eq!(
        validate_rename_target(month("2026-03"), "nope").unwrap_err(),
        "invalid month id `nope`, expected YYYY-MM"
    );
    assert_eq!(autosave_message("Saved", false), "Saved");
}

fn stay(step: NavigationStep) -> NavigationState {
    match step {
        NavigationStep::Stay(next) => next,
        other => panic!("expected navigation route, got {other:?}"),
    }
}

fn with_dialogue(dialogue: NavigationDialogue) -> NavigationState {
    let mut state = NavigationState::new(vec![entry("2026-03")]);
    state.dialogue = Some(dialogue);
    state
}

#[test]
fn rename_dialog_keeps_unchanged_month_error_inline() {
    let source = month("2026-03");
    let state = with_dialogue(NavigationDialogue::Rename(RenameDialogue {
        source,
        input: source.key(),
        error: None,
    }));
    let state = stay(navigation_key(state, Key::Enter));
    assert_eq!(state.selected, 0);
    match state.dialogue {
        Some(NavigationDialogue::Rename(dialog)) => {
            assert_eq!(dialog.source, source);
            assert_eq!(dialog.input, "2026-03");
            assert_eq!(dialog.error.as_deref(), Some("Month is already named 2026-03"));
        }
        other => panic!("expected rename dialog, got {other:?}"),
    }
}

#[test]
fn rename_dialog_preserves_input_after_validation_error_and_allows_retry() {
    let source = month("2026-03");
    let state = with_dialogue(NavigationDialogue::Rename(RenameDialogue {
        source,
        input: "2026-13".to_owned(),
        error: None,
    }));
    let state = stay(navigation_key(state, Key::Enter));
    match &state.dialogue {
        Some(NavigationDialogue::Rename(dialog)) => {
            assert_eq!(dialog.input, "2026-13");
            assert_eq!(
                dialog.error.as_deref(),
                Some("invalid month id `2026-13`, expected YYYY-MM")
            );
        }
        other => panic!("expected rename dialog, got {other:?}"),
    }
    let state = stay(navigation_key(state, Key::Backspace));
    let state = stay(navigation_key(state, Key::Char('2')));
    match &state.dialogue {
        Some(NavigationDialogue::Rename(dialog)) => {
            assert_eq!(dialog.input, "2026-12");
            assert_eq!(dialog.error, None);
        }
        other => panic!("expected rename dialog, got {other:?}"),
    }
    let target = match navigation_key(state, Key::Enter) {
        NavigationStep::RenameMonth { source: s, target } => {
            assert_eq!(s, source);
            target
        }
        other => panic!("expected a rename, got {other:?}"),
    };
    assert_eq!(target, month("2026-12"));
    assert_eq!(check_rename(source, target, true, false), Ok(()));
    let selected = match after_rename(source, target, Ok(SyncOutcome::Synced)) {
        AfterChange::Reload(selected) => selected,
        other => panic!("expected a reload, got {other:?}"),
    };
    let state = select_month(vec![entry("2026-12")], selected);
    assert!(state.dialogue.is_none());
    assert_eq!(state.selected, 0);
    assert_eq!(state.months[0].document.month, month("2026-12"));
}

#[test]
fn create_dialog_routes_duplicate_month_to_blocking_failure() {
    let existing = month("2026-03");
    let state = with_dialogue(NavigationDialogue::Create(CreateDialogue {
        input: existing.key(),
        error: None,
    }));
    let requested = match navigation_key(state, Key::Enter) {
        NavigationStep::StartGuidedCreation(m) => m,
        other => panic!("expected guided creation, got {other:?}"),
    };
    let message = check_new_month(requested, true).unwrap_err();
    let failure = create_failed(requested, message);
    assert_eq!(failure.title, "Could not create 2026-03");
    assert!(failure.message.contains("month `2026-03` already exists"));
    assert!(matches!(failure.retry, RetryTarget::CreateMonth(value) if value == existing));
}

#[test]
fn moves_stop_at_the_ends_of_lists() {
    let state = NavigationState::new(vec![entry("2026-04"), entry("2026-03")]);
    let state = stay(navigation_key(state, Key::Up));
    assert_eq!(state.selected, 0);
    let state = stay(navigation_key(state, Key::Char('j')));
    let state = stay(navigation_key(state, Key::Char('j')));
    assert_eq!(state.selected, 1);
    assert_eq!(state.months.len(), 2);

    let config = AppConfig::default_mvp();
    let sheet = match editor_key(editor(), Key::BackTab, &config) {
        EditorStep::Stay(next) => next,
        other => panic!("unexpected step {other:?}"),
    };
    assert_eq!(sheet.focus_index, 0);

    let flow = guided_state_from_document(filled_document("2026-03"), None, &config).unwrap();
    let flow = match guided_key(flow, Key::Char('x'), &config) {
        GuidedStep::Stay(next) => next,
        other => panic!("unexpected step {other:?}"),
    };
    assert_eq!(flow.step_index, 0);
}

#[test]
fn committing_an_untouched_field_changes_nothing() {
    let config = AppConfig::default_mvp();
    let sheet = editor();
    let before = sheet.document.clone();
    let editing = match editor_key(sheet, Key::Enter, &config) {
        EditorStep::Stay(next) => next,
        other => panic!("unexpected step {other:?}"),
    };
    match editor_key(editing, Key::Enter, &config) {
        EditorStep::Save(saved) => assert_eq!(saved.document, before),
        other => panic!("unexpected step {other:?}"),
    }
}

use jt_budget::app::editor::editor_state_from_document;
use jt_budget::app::guided::guided_state_from_document;
use jt_budget::app::recalculate;
use jt_budget::config::AppConfig;
use jt_budget::locator::{check_locator_file, expand_home, RepoLocator};
use jt_budget::money::Money;
use jt_budget::month::document::MonthDocument;
use jt_budget::month::id::MonthId;
use jt_budget::repository::{
    check_delete, check_new_month, check_rename, delete_message, is_toml_file_name,
    month_id_from_file_name, previous_month_index, push_outcome, rename_message,
    sort_newest_first, update_message, LoadedMonth, SyncOutcome,
};
use jt_budget::setup::answers::{
    expand_home_path, github_repo_answer, remote_answer, setup_mode_answer, yes_no_answer,
};
use jt_budget::setup::github::GithubRepoRef;
use jt_budget::setup::plan::SetupMode;
use jt_budget::state::{CreateDialogue, DeleteDialogue, NavigationDialogue, RenameDialogue, FieldId, InteractionState, MoneyInput, PersistenceState, SectionId, SyncState};
use jt_budget::shorten::{abbreviate_path, format_updated_timestamp};
use jt_budget::theme::{key_hint_parts, month_state_emphasis, operational_status_emphasis, status_value_emphasis, Emphasis, parse_hex_triplet, section_tone, validate_hex_colour, validate_palette, validation_tone, Tone};
use jt_budget::view::{guided_next_step_line, guided_next_step_parts, guided_upcoming_labels, dialogue_lines, 
    combined_focus_state, field_focus_state, guided_input_text, guided_notice,
    is_guided_status_message, layout_for_area, marked_label, navigation_hints,
    navigation_is_compact, persistence_label, section_focus_state, section_height,
    subtotal_text, summary_metrics, sync_label, value_for_field, wrap_items, EditorFocusState,
    LayoutProfile,
};

fn month(key: &str) -> MonthId {
    MonthId::parse(key).unwrap()
}

fn loaded(key: &str) -> LoadedMonth {
    let config = AppConfig::default_mvp();
    let document = MonthDocument::new_draft(month(key), &config, None);
    let calculated = recalculate(&config, &document).unwrap();
    LoadedMonth { path: format!("months/{key}.toml"), document, calculated }
}

#[test]
fn setup_answers_are_read() {
    assert_eq!(setup_mode_answer("  "), Some(SetupMode::GithubCreate));
    assert_eq!(setup_mode_answer(" 3 "), Some(SetupMode::LocalOnly));
    assert_eq!(setup_mode_answer("5"), None);
    assert_eq!(yes_no_answer("", true), Some(true));
    assert_eq!(yes_no_answer(" YES ", false), Some(true));
    assert_eq!(yes_no_answer("No", true), Some(false));
    assert_eq!(yes_no_answer("maybe", true), None);
    assert_eq!(remote_answer("  "), None);
    assert_eq!(remote_answer(" git@x "), Some("git@x".to_owned()));
    let default = GithubRepoRef { owner: "me".to_owned(), name: "budget".to_owned() };
    assert_eq!(github_repo_answer(" ", &default, "me").unwrap(), default);
    assert_eq!(github_repo_answer("you/x", &default, "me").unwrap().owner, "you");
    assert_eq!(expand_home_path("~/b", Some("/home/u".to_owned())).unwrap(), "/home/u/b");
    assert_eq!(expand_home_path("~", Some("/home/u".to_owned())).unwrap(), "/home/u");
    assert_eq!(expand_home_path("/abs", None).unwrap(), "/abs");
    assert_eq!(expand_home_path("~/b", None).unwrap_err(), "could not resolve home directory");
    assert_eq!(expand_home("/abs/path").unwrap(), "/abs/path");
}

#[test]
fn locator_files_are_checked() {
    let locator = RepoLocator::new("/cfg/jt-budget/config.toml".to_owned());
    assert_eq!(locator.config_path(), "/cfg/jt-budget/config.toml");
    assert_eq!(check_locator_file("/c", 1, "/repo".to_owned()).unwrap(), "/repo");
    assert_eq!(
        check_locator_file("/c", 2, "/repo".to_owned()).unwrap_err(),
        "locator `/c` uses unsupported schema version 2"
    );
    assert_eq!(
        check_locator_file("/c", 1, String::new()).unwrap_err(),
        "locator `/c` is missing a repository path"
    );
}

#[test]
fn month_files_are_recognised() {
    assert!(is_toml_file_name("2026-03.toml"));
    assert!(!is_toml_file_name(".toml"));
    assert!(!is_toml_file_name(".gitkeep"));
    assert_eq!(month_id_from_file_name("2026-03.toml"), Some(month("2026-03")));
    assert_eq!(month_id_from_file_name("notes.toml"), None);
    assert_eq!(month_id_from_file_name("2026-03.txt"), None);
}

#[test]
fn months_are_listed_newest_first_and_drafts_carry_the_latest_earlier_month() {
    let months = vec![loaded("2026-01"), loaded("2026-05"), loaded("2025-12"), loaded("2026-03")];
    let sorted = sort_newest_first(months.clone());
    let keys: Vec<String> = sorted.iter().map(|m| m.document.month.key()).collect();
    assert_eq!(keys, vec!["2026-05", "2026-03", "2026-01", "2025-12"]);
    assert_eq!(previous_month_index(month("2026-04"), &months), Some(3));
    assert_eq!(previous_month_index(month("2026-01"), &months), Some(2));
    assert_eq!(previous_month_index(month("2025-01"), &months), None);
}

#[test]
fn repository_checks_and_messages() {
    let (a, b) = (month("2026-03"), month("2026-04"));
    assert_eq!(check_new_month(a, true).unwrap_err(), "month `2026-03` already exists");
    assert!(check_new_month(a, false).is_ok());
    assert_eq!(check_rename(a, a, true, false).unwrap_err(), "month `2026-03` is already named `2026-03`");
    assert_eq!(check_rename(a, b, false, false).unwrap_err(), "month `2026-03` does not exist");
    assert_eq!(check_rename(a, b, true, true).unwrap_err(), "month `2026-04` already exists");
    assert!(check_rename(a, b, true, false).is_ok());
    assert_eq!(check_delete(a, false).unwrap_err(), "month `2026-03` does not exist");
    assert_eq!(update_message(a), "Update budget month 2026-03");
    assert_eq!(rename_message(a, b), "Rename budget month 2026-03 to 2026-04");
    assert_eq!(delete_message(b), "Delete budget month 2026-04");
    assert_eq!(push_outcome(Err("x".to_owned())), SyncOutcome::PushFailed("x".to_owned()));
    assert_eq!(push_outcome(Ok(())), SyncOutcome::Synced);
}

#[test]
fn sheet_focus_and_cells() {
    let config = AppConfig::default_mvp();
    let document = MonthDocument::new_draft(month("2026-03"), &config, None);
    let mut state = editor_state_from_document(document, None, &config).unwrap();
    let current = FieldId::Account("current".to_owned());
    let cash = FieldId::Account("cash_isa".to_owned());
    assert_eq!(field_focus_state(&state, &current), EditorFocusState::Selected);
    assert_eq!(field_focus_state(&state, &cash), EditorFocusState::Unfocused);
    assert_eq!(section_focus_state(&state, SectionId::Accounts), EditorFocusState::Selected);
    assert_eq!(section_focus_state(&state, SectionId::SavingsPots), EditorFocusState::Unfocused);
    let document = state.document.clone();
    assert_eq!(value_for_field(&state, &current, &document), "£0.00");
    state.interaction = InteractionState::FieldEditing;
    let mut buffer = MoneyInput::from_value(Money::from_minor(0), false);
    buffer.push('7');
    state.edit_buffer = Some(buffer);
    assert_eq!(field_focus_state(&state, &current), EditorFocusState::Editing);
    assert_eq!(value_for_field(&state, &current, &document), "£7.00_");
    assert_eq!(value_for_field(&state, &cash, &document), "£0.00");
    assert_eq!(
        combined_focus_state(EditorFocusState::Selected, EditorFocusState::Editing),
        EditorFocusState::Editing
    );
    assert_eq!(marked_label("Current", EditorFocusState::Selected), "› Current");
    assert_eq!(persistence_label(PersistenceState::SaveFailed), "failed");
    assert_eq!(sync_label(SyncState::SyncPending), "pending");
}

#[test]
fn guided_texts() {
    assert!(is_guided_status_message("Draft autosaved and synced"));
    assert!(!is_guided_status_message("invalid monetary value `-`"));
    assert_eq!(guided_notice(&Some("Draft created".to_owned())), None);
    assert_eq!(guided_notice(&Some("oops".to_owned())), Some("oops".to_owned()));
    let mut input = MoneyInput::from_value(Money::from_minor(1_250), false);
    assert_eq!(guided_input_text(&input), "£12.50");
    input.push('3');
    assert_eq!(guided_input_text(&input), "£3.00_");
}

#[test]
fn hints_wrap_on_whole_items() {
    let hints = navigation_hints(false);
    assert_eq!(hints.len(), 6);
    assert_eq!(navigation_hints(true)[4], "q quit");
    let lens: Vec<usize> = hints.iter().map(|h| h.len()).collect();
    assert_eq!(wrap_items(200, &lens), vec![6]);
    assert_eq!(wrap_items(20, &lens), vec![2, 2, 2]);
    assert_eq!(wrap_items(5, &vec![10, 10]), vec![1, 1]);
    assert_eq!(wrap_items(5, &vec![]), Vec::<usize>::new());
}

#[test]
fn layouts_and_heights() {
    assert_eq!(layout_for_area(80, 24), LayoutProfile::Compact);
    assert_eq!(layout_for_area(105, 48), LayoutProfile::Standard);
    assert_eq!(layout_for_area(210, 48), LayoutProfile::Wide);
    assert!(navigation_is_compact(80, 24));
    assert!(!navigation_is_compact(210, 48));
    assert_eq!(section_height(1, true), 6);
    assert_eq!(section_height(4, false), 8);
}

#[test]
fn summaries_list_the_totals() {
    let config = AppConfig::default_mvp();
    let document = MonthDocument::new_draft(month("2026-03"), &config, None);
    let calculated = recalculate(&config, &document).unwrap();
    let metrics = summary_metrics(&calculated);
    assert_eq!(metrics.len(), 7);
    assert_eq!(metrics[1].label, "Timing Adjustments");
    assert_eq!(metrics[2].value, "£505.00");
    assert_eq!(metrics[6].value, "invalid");
    assert_eq!(subtotal_text(Money::from_minor(-5)), "Subtotal -£0.05");
}

#[test]
fn hex_colours_must_be_six_hex_digits_after_a_hash() {
    assert_eq!(validate_hex_colour("base00", "#101112"), Ok(()));
    assert_eq!(validate_hex_colour("base0A", "#8ab7D9"), Ok(()));
    assert_eq!(
        validate_hex_colour("base01", "343434"),
        Err("base01 must use #RRGGBB".to_string())
    );
    assert_eq!(
        validate_hex_colour("base02", "#53535"),
        Err("base02 must use #RRGGBB".to_string())
    );
    assert_eq!(
        validate_hex_colour("base03", "#79797g"),
        Err("base03 must use #RRGGBB".to_string())
    );
}

#[test]
fn hex_triplets_parse_into_channel_values() {
    assert_eq!(parse_hex_triplet("#101112"), (16, 17, 18));
    assert_eq!(parse_hex_triplet("#ffc66d"), (255, 198, 109));
    assert_eq!(parse_hex_triplet("#8AB7D9"), (138, 183, 217));
}

#[test]
fn palette_validation_reports_the_first_bad_entry() {
    let good = vec![
        ("base00".to_string(), "#101112".to_string()),
        ("base08".to_string(), "#d25151".to_string()),
    ];
    assert_eq!(validate_palette(&good), Ok(()));
    let bad = vec![
        ("base00".to_string(), "#101112".to_string()),
        ("base01".to_string(), "red".to_string()),
        ("base02".to_string(), "blue".to_string()),
    ];
    assert_eq!(validate_palette(&bad), Err("base01 must use #RRGGBB".to_string()));
}

#[test]
fn each_section_has_its_own_tone() {
    assert_eq!(section_tone(SectionId::Accounts), Tone::Accounts);
    assert_eq!(section_tone(SectionId::TimingAdjustments), Tone::Timing);
    assert_eq!(section_tone(SectionId::NextMonthEarmarks), Tone::Earmarks);
    assert_eq!(section_tone(SectionId::SavingsPots), Tone::Pots);
    assert_eq!(validation_tone(true), Tone::Success);
    assert_eq!(validation_tone(false), Tone::Danger);
}

#[test]
fn updated_stamps_show_date_and_minute() {
    assert_eq!(
        format_updated_timestamp(Some("2026-03-31T14:30:06.464168849Z")),
        "2026-03-31 | 14:30"
    );
    assert_eq!(format_updated_timestamp(Some("2026-03-31T14:30")), "2026-03-31 | 14:30");
    assert_eq!(format_updated_timestamp(Some("2026-03-31 14:30:06")), "2026-03-31 14:30:06");
    assert_eq!(format_updated_timestamp(Some("yesterday")), "yesterday");
    assert_eq!(format_updated_timestamp(None), "-");
}

#[test]
fn long_paths_keep_their_tail() {
    assert_eq!(abbreviate_path("/home/me/budget", 10), ".../budget");
    assert_eq!(abbreviate_path("/home/me/budget", 15), "/home/me/budget");
    assert_eq!(abbreviate_path("/home/me/budget", 3), "/home/me/budget");
    assert_eq!(abbreviate_path("/home/me/budget", 4), "...t");
    assert_eq!(abbreviate_path("/home/mé/budget", 12), "...é/budget");
}

#[test]
fn status_words_take_their_tones() {
    assert_eq!(status_value_emphasis("valid"), Emphasis::Strong(Tone::Success));
    assert_eq!(status_value_emphasis("within tolerance"), Emphasis::Strong(Tone::Success));
    assert_eq!(status_value_emphasis("pending"), Emphasis::Strong(Tone::Warning));
    assert_eq!(status_value_emphasis("syncing"), Emphasis::Strong(Tone::Status));
    assert_eq!(status_value_emphasis("outside tolerance"), Emphasis::Strong(Tone::Danger));
    assert_eq!(status_value_emphasis("other"), Emphasis::Bright);
    assert_eq!(operational_status_emphasis("clean"), Emphasis::Plain(Tone::Status));
    assert_eq!(operational_status_emphasis("dirty"), Emphasis::Plain(Tone::Warning));
    assert_eq!(operational_status_emphasis("autosaving"), Emphasis::Strong(Tone::Status));
    assert_eq!(operational_status_emphasis("failed"), Emphasis::Strong(Tone::Danger));
    assert_eq!(operational_status_emphasis("invalid"), Emphasis::Muted);
    assert_eq!(month_state_emphasis(true), Emphasis::Plain(Tone::Success));
    assert_eq!(month_state_emphasis(false), Emphasis::Plain(Tone::Warning));
}

#[test]
fn key_hints_split_at_the_first_space() {
    assert_eq!(key_hint_parts("Enter save step"), ("Enter".to_string(), Some("save step".to_string())));
    assert_eq!(key_hint_parts("q quit"), ("q".to_string(), Some("quit".to_string())));
    assert_eq!(key_hint_parts("Esc"), ("Esc".to_string(), None));
}

#[test]
fn dialogues_show_their_prompts() {
    let create = NavigationDialogue::Create(CreateDialogue { input: "2026-0".to_owned(), error: None });
    assert_eq!(
        dialogue_lines(&create),
        vec!["Create month", "", "Enter YYYY-MM", "2026-0", "", "Enter confirms. Esc cancels."]
    );
    let rename = NavigationDialogue::Rename(RenameDialogue {
        source: month("2026-03"),
        input: "2026-03".to_owned(),
        error: Some("Month is already named 2026-03".to_owned()),
    });
    assert_eq!(
        dialogue_lines(&rename),
        vec![
            "Rename March 2026",
            "",
            "Enter the new month id (YYYY-MM)",
            "2026-03",
            "",
            "Month is already named 2026-03"
        ]
    );
    let delete = NavigationDialogue::Delete(DeleteDialogue {
        month: month("2026-03"),
        confirmation: String::new(),
        error: None,
    });
    assert_eq!(
        dialogue_lines(&delete),
        vec![
            "Delete March 2026?",
            "",
            "Type 2026-03 to confirm deletion.",
            "",
            "",
            "Enter confirms. Esc cancels."
        ]
    );
}

#[test]
fn guided_steps_name_what_comes_next() {
    let config = AppConfig::default_mvp();
    let document = MonthDocument::new_draft(month("2026-03"), &config, None);
    let mut state = guided_state_from_document(document, None, &config).unwrap();
    assert_eq!(guided_next_step_line(&state, &config), "Next: Cash ISA");
    assert_eq!(
        guided_next_step_parts(&state, &config),
        ("Next: ".to_owned(), "Cash ISA".to_owned())
    );
    assert_eq!(
        guided_upcoming_labels(&state, &config, 2),
        vec!["Cash ISA".to_owned(), "Amex credit".to_owned()]
    );
    state.step_index = state.steps.len() - 1;
    assert_eq!(guided_next_step_line(&state, &config), "Final step.");
    assert_eq!(guided_next_step_parts(&state, &config), (String::new(), "Final step.".to_owned()));
    assert!(guided_upcoming_labels(&state, &config, 6).is_empty());
}

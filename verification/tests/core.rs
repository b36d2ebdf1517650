use jt_budget::config::{AccountKind, AppConfig};
use jt_budget::error::BudgetError;
use jt_budget::money::{format_minor_units, parse_money_input, Money};
use jt_budget::month::calculation::{calculate_month, checked_calculate_month, CalculatedMonth};
use jt_budget::month::document::{DerivedCache, MonthDocument, SavingsPotState};
use jt_budget::month::entries::EntryMap;
use jt_budget::month::id::MonthId;

#[test]
fn default_config_is_valid() {
    AppConfig::default_mvp().validate().unwrap();
}

#[test]
fn liability_accounts_apply_negative_signs() {
    let config = AppConfig::default_mvp();
    let liability = config.account("amex_credit").unwrap();
    assert_eq!(liability.kind, AccountKind::Liability);
    assert_eq!(liability.apply_sign(12_345).minor(), -12_345);
}

#[test]
fn subscriptions_default_matches_mvp_budget() {
    let config = AppConfig::default_mvp();
    assert_eq!(config.earmark("subscriptions").unwrap().default_amount_minor, 13_000);
}

#[test]
fn parses_unsigned_money() {
    let parsed = parse_money_input("£245.00", false).unwrap();
    assert_eq!(parsed, Money::from_minor(24_500));
}

#[test]
fn parses_signed_money() {
    let parsed = parse_money_input("-1.25", true).unwrap();
    assert_eq!(parsed, Money::from_minor(-125));
}

#[test]
fn rejects_negative_input_when_not_allowed() {
    assert!(parse_money_input("-1.00", false).is_err());
}

fn sample_month() -> MonthDocument {
    let mut document =
        MonthDocument::new_draft(MonthId::parse("2026-03").unwrap(), &AppConfig::default_mvp(), None);
    document.accounts.insert("current".to_owned(), 200_000);
    document.accounts.insert("cash_isa".to_owned(), 50_000);
    document.accounts.insert("amex_credit".to_owned(), 20_000);
    document.accounts.insert("nationwide_credit".to_owned(), 10_000);
    document.timing_adjustments.previous_month_spending_correction_raw = -2_500;
    document.timing_adjustments.investment_not_yet_sent_raw = 24_500;
    document.next_month_earmarks.insert("subscriptions".to_owned(), 15_000);
    document.next_month_earmarks.insert("general_spending".to_owned(), 37_500);
    document.savings_pots.insert(
        "fun_expensive_stuff".to_owned(),
        SavingsPotState { carried_over: 10_000, monthly_change: 15_500 },
    );
    document.savings_pots.insert(
        "long_term_savings".to_owned(),
        SavingsPotState { carried_over: 5_000, monthly_change: 6_000 },
    );
    document
        .savings_pots
        .insert("label".to_owned(), SavingsPotState { carried_over: 1_000, monthly_change: 2_500 });
    document
}

fn calculate(config: &AppConfig, document: &MonthDocument) -> CalculatedMonth {
    match checked_calculate_month(config, document) {
        Some(result) => result.unwrap(),
        None => panic!("totals out of range"),
    }
}

#[test]
fn month_calculates_expected_totals() {
    let calculated = calculate(&AppConfig::default_mvp(), &sample_month());
    assert_eq!(calculated.totals.accounts_subtotal, Money::from_minor(220_000));
    assert_eq!(calculated.totals.timing_adjustments_subtotal, Money::from_minor(-27_000));
    assert_eq!(calculated.totals.net_available, Money::from_minor(193_000));
    assert_eq!(calculated.totals.total_allocated, Money::from_minor(92_500));
    assert_eq!(calculated.validation.overall_difference, Money::from_minor(100_500));
    assert!(!calculated.validation.is_valid);
}

#[test]
fn month_carries_forward_previous_final_balances() {
    let config = AppConfig::default_mvp();
    let previous = calculate(&config, &sample_month());
    let current =
        MonthDocument::new_draft(MonthId::parse("2026-04").unwrap(), &config, Some(&previous));
    let final_balance = previous
        .pot_rows
        .iter()
        .find(|row| row.id == "fun_expensive_stuff")
        .unwrap()
        .final_balance
        .minor();
    assert_eq!(
        current.savings_pots.get("fun_expensive_stuff").unwrap().carried_over,
        final_balance
    );
}

#[test]
fn month_new_draft_prefills_earmarks_from_config_defaults() {
    let config = AppConfig::default_mvp();
    let draft = MonthDocument::new_draft(MonthId::parse("2026-04").unwrap(), &config, None);
    assert_eq!(*draft.next_month_earmarks.get("subscriptions").unwrap(), 13_000);
    assert_eq!(*draft.next_month_earmarks.get("general_spending").unwrap(), 37_500);
}

#[test]
fn month_validation_is_inclusive_at_tolerance_edges() {
    let config = AppConfig::default_mvp();
    let mut document = MonthDocument::new_draft(MonthId::parse("2026-03").unwrap(), &config, None);
    document.accounts.insert("current".to_owned(), 100);
    document.accounts.insert("cash_isa".to_owned(), 0);
    document.accounts.insert("amex_credit".to_owned(), 0);
    document.accounts.insert("nationwide_credit".to_owned(), 0);
    document.next_month_earmarks.insert("subscriptions".to_owned(), 0);
    document.next_month_earmarks.insert("general_spending".to_owned(), 0);
    document
        .savings_pots
        .insert("fun_expensive_stuff".to_owned(), SavingsPotState { carried_over: 0, monthly_change: 0 });
    document
        .savings_pots
        .insert("long_term_savings".to_owned(), SavingsPotState { carried_over: 0, monthly_change: 0 });
    document
        .savings_pots
        .insert("label".to_owned(), SavingsPotState { carried_over: 0, monthly_change: 0 });
    let calculated = calculate(&config, &document);
    assert!(calculated.validation.is_valid);
}

#[test]
fn month_ignores_stored_derived_values_when_recomputing() {
    let config = AppConfig::default_mvp();
    let mut document = sample_month();
    document.derived = Some(DerivedCache {
        accounts_subtotal_minor: 0,
        timing_adjustments_subtotal_minor: 0,
        net_available_minor: 0,
        pots_carried_total_minor: 0,
        pots_monthly_change_total_minor: 0,
        pots_final_total_minor: 0,
        next_month_earmarks_subtotal_minor: 0,
        total_allocated_minor: 0,
        overall_difference_minor: 0,
        is_valid: true,
    });
    let calculated = calculate(&config, &document);
    assert_eq!(calculated.totals.accounts_subtotal, Money::from_minor(220_000));
}

#[test]
fn calculation_totals_add_up() {
    let calculated = calculate(&AppConfig::default_mvp(), &sample_month());
    let totals = calculated.totals;
    assert_eq!(
        totals.pots_final_total.minor(),
        totals.pots_carried_total.minor() + totals.pots_monthly_change_total.minor()
    );
    assert_eq!(
        calculated.validation.overall_difference.minor(),
        totals.accounts_subtotal.minor() + totals.timing_adjustments_subtotal.minor()
            - totals.total_allocated.minor()
    );
    assert_eq!(totals.pots_final_total.minor(), 40_000);
    assert_eq!(totals.next_month_earmarks_subtotal.minor(), 52_500);
}

#[test]
fn calculation_reports_missing_entry() {
    let config = AppConfig::default_mvp();
    let document = MonthDocument::new_draft(MonthId::parse("2026-03").unwrap(), &config, None);
    let mut empty = document.clone();
    empty.accounts = jt_budget::month::entries::EntryMap::new();
    let error = calculate_month(&config, &empty).unwrap_err();
    assert!(matches!(error, BudgetError::MissingEntry { section: "accounts", .. }));
    assert_eq!(error.to_string(), "missing `accounts` entry `amex_credit`");
}

#[test]
fn calculation_reports_negative_pot_final() {
    let mut document = sample_month();
    document
        .savings_pots
        .insert("label".to_owned(), SavingsPotState { carried_over: 1_000, monthly_change: -2_000 });
    let error = calculate_month(&AppConfig::default_mvp(), &document).unwrap_err();
    assert_eq!(
        error.to_string(),
        "savings pot `label` would go negative: carried_over=1000, monthly_change=-2000"
    );
}

#[test]
fn calculation_reports_negative_account() {
    let mut document = sample_month();
    document.accounts.insert("cash_isa".to_owned(), -1);
    let error = calculate_month(&AppConfig::default_mvp(), &document).unwrap_err();
    assert_eq!(error.to_string(), "`accounts.cash_isa` must be non-negative");
}

#[test]
fn calculation_reports_unexpected_entry() {
    let mut document = sample_month();
    document.next_month_earmarks.insert("holiday".to_owned(), 1);
    let error = calculate_month(&AppConfig::default_mvp(), &document).unwrap_err();
    assert_eq!(error.to_string(), "unexpected `next_month_earmarks` entry `holiday`");
}

#[test]
fn checked_calculation_refuses_totals_out_of_range() {
    let mut document = sample_month();
    document.accounts.insert("current".to_owned(), i64::MAX);
    assert!(checked_calculate_month(&AppConfig::default_mvp(), &document).is_none());
}

#[test]
fn money_formats_and_parses_back() {
    for minor in [0_i64, 5, 99, 100, 123_456, -1, -125, i64::MAX] {
        let text = format_minor_units(minor);
        let parsed = parse_money_input(&text, true).unwrap();
        assert_eq!(parsed.minor(), minor);
    }
    assert_eq!(format_minor_units(-125), "-£1.25");
    assert_eq!(format_minor_units(5), "£0.05");
    assert_eq!(parse_money_input("£1,234.5", false).unwrap().minor(), 123_450);
    assert_eq!(parse_money_input(" +7 ", false).unwrap().minor(), 700);
}

#[test]
fn money_rejects_malformed_text() {
    for text in ["", "£", "1.234", "1.2.3", "abc", "-", "1..0"] {
        let error = parse_money_input(text, true).unwrap_err();
        assert_eq!(error.to_string(), format!("invalid monetary value `{text}`"));
    }
}

#[test]
fn month_id_round_trips_and_labels() {
    let id = MonthId::parse("2026-03").unwrap();
    assert_eq!(id.key(), "2026-03");
    assert_eq!(id.file_name(), "2026-03.toml");
    assert_eq!(id.display_label(), "March 2026");
    assert_eq!(MonthId::parse(&id.key()).unwrap(), id);
    assert!(MonthId::new(2026, 13).is_none());
    assert_eq!(
        MonthId::parse("2026-13").unwrap_err().to_string(),
        "invalid month id `2026-13`, expected YYYY-MM"
    );
    assert!(MonthId::parse("2026").is_err());
    assert!(MonthId::parse("2026-02").unwrap().is_before(id));
}

#[test]
fn config_rejects_duplicate_ids() {
    let mut config = AppConfig::default_mvp();
    let copy = config.accounts[0].clone();
    config.accounts.push(copy);
    let error = config.validate().unwrap_err();
    assert_eq!(error.to_string(), "duplicate config id `current`");
}

#[test]
fn config_rejects_negative_tolerance() {
    let mut config = AppConfig::default_mvp();
    config.validation_tolerance_minor = -1;
    let error = config.validate().unwrap_err();
    assert_eq!(error.to_string(), "`validation_tolerance_minor` must be non-negative");
}

#[test]
fn money_helpers_keep_signs() {
    assert!(Money::from_minor(0).is_non_negative());
    assert!(!Money::from_minor(-1).is_non_negative());
    assert_eq!(Money::from_minor(1_250).negated(), Money::from_minor(-1_250));
    assert_eq!(Money::from_minor(-1_250).abs(), Money::from_minor(1_250));
    assert_eq!(Money::from_minor(700).plus(Money::from_minor(-200)), Money::from_minor(500));
    assert_eq!(Money::from_minor(700).minus(Money::from_minor(900)), Money::from_minor(-200));
}

#[test]
fn accounts_show_their_sign_cue() {
    let config = AppConfig::default_mvp();
    assert_eq!(config.account("current").unwrap().sign_cue(), "+");
    assert_eq!(config.account("amex_credit").unwrap().sign_cue(), "-");
}

#[test]
fn summary_groups_follow_the_sheet() {
    let config = AppConfig::default_mvp();
    let mut document = MonthDocument::new_draft(MonthId::parse("2026-03").unwrap(), &config, None);
    document.accounts.insert("current".to_owned(), 250_000);
    document.accounts.insert("amex_credit".to_owned(), 10_000);
    let calculated = calculate_month(&config, &document).unwrap();
    let groups = calculated.summary_groups();
    let titles: Vec<&str> = groups.iter().map(|group| group.title.as_str()).collect();
    assert_eq!(
        titles,
        vec!["Accounts", "Timing Adjustments", "Next Month Earmarks", "Savings Pots", "Final Check"]
    );
    let accounts = &groups[0].items;
    assert_eq!(accounts.len(), 5);
    assert_eq!(accounts[0].label, "Current");
    assert_eq!(accounts[0].value, Money::from_minor(250_000));
    assert_eq!(accounts[2].label, "Amex credit");
    assert_eq!(accounts[2].value, Money::from_minor(-10_000));
    assert_eq!(accounts[4].label, "Net position");
    assert_eq!(accounts[4].value, Money::from_minor(240_000));
    assert_eq!(groups[1].items[0].label, "Investment not yet sent");
    assert_eq!(groups[2].items.len(), 2);
    assert_eq!(groups[3].items.len(), 3);
    assert_eq!(groups[4].items[0].label, "Total allocated");
    assert_eq!(groups[4].items[1].label, "Overall difference");
    assert_eq!(groups[4].items[1].value, calculated.validation.overall_difference);
}

#[test]
fn month_ids_must_have_the_yyyy_mm_shape() {
    for input in ["2026-3", "26-03", "+2026-03", "2026-003", " 2026-03", "2026-03 ", "2026/03", "2026-00", "20a6-03"] {
        match MonthId::parse(input) {
            Err(BudgetError::InvalidMonthId(value)) => assert_eq!(value, input),
            other => panic!("`{input}` gave {other:?}"),
        }
    }
    let id = MonthId::parse("0001-12").unwrap();
    assert_eq!((id.year(), id.month()), (1, 12));
    assert_eq!(MonthId::parse("9999-01").unwrap().key(), "9999-01");
}

#[test]
fn a_stored_cache_never_changes_the_calculation() {
    let config = AppConfig::default_mvp();
    let plain = sample_month();
    let mut cached = sample_month();
    cached.derived = Some(DerivedCache {
        accounts_subtotal_minor: 0,
        timing_adjustments_subtotal_minor: 0,
        net_available_minor: 0,
        pots_carried_total_minor: 0,
        pots_monthly_change_total_minor: 0,
        pots_final_total_minor: 0,
        next_month_earmarks_subtotal_minor: 0,
        total_allocated_minor: 0,
        overall_difference_minor: 0,
        is_valid: true,
    });
    assert_eq!(calculate_month(&config, &plain).unwrap(), calculate_month(&config, &cached).unwrap());
}

#[test]
fn entry_maps_with_the_same_contents_are_equal_whatever_the_insertion_order() {
    let mut first: EntryMap<i64> = EntryMap::new();
    first.insert("b".to_owned(), 2);
    first.insert("a".to_owned(), 1);
    first.insert("c".to_owned(), 3);
    let mut second: EntryMap<i64> = EntryMap::new();
    second.insert("c".to_owned(), 3);
    second.insert("b".to_owned(), 5);
    second.insert("a".to_owned(), 1);
    second.insert("b".to_owned(), 2);
    assert_eq!(first, second);
    assert_eq!(first.len(), 3);
    assert_eq!(first.key_at(0), "a");
    assert_eq!(first.key_at(1), "b");
    assert_eq!(first.key_at(2), "c");
    assert_eq!(*first.value_at(1), 2);
    second.insert("b".to_owned(), 7);
    assert_ne!(first, second);
}

#[test]
fn a_draft_equals_the_same_month_rebuilt_in_another_key_order() {
    let config = AppConfig::default_mvp();
    let draft = MonthDocument::new_draft(MonthId::parse("2026-03").unwrap(), &config, None);
    let mut rebuilt = draft.clone();
    rebuilt.accounts = EntryMap::new();
    for account in config.accounts.iter().rev() {
        rebuilt.accounts.insert(account.id.clone(), 0);
    }
    assert_eq!(rebuilt, draft);
    for i in 1..draft.accounts.len() {
        assert!(draft.accounts.key_at(i - 1) < draft.accounts.key_at(i));
    }
}

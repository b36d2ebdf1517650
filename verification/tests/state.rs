use std::collections::BTreeSet;

use jt_budget::config::AppConfig;
use jt_budget::month::document::MonthDocument;
use jt_budget::month::id::MonthId;
use jt_budget::state::{FieldId, MoneyInput, SectionId};

#[test]
fn state_editor_fields_follow_visible_layout_without_duplicates() {
    let config = AppConfig::default_mvp();
    let fields = FieldId::editor_fields(&config);
    assert_eq!(
        fields,
        vec![
            FieldId::Account("current".to_owned()),
            FieldId::Account("cash_isa".to_owned()),
            FieldId::Account("amex_credit".to_owned()),
            FieldId::Account("nationwide_credit".to_owned()),
            FieldId::PreviousMonthSpendingCorrection,
            FieldId::InvestmentNotYetSent,
            FieldId::Earmark("subscriptions".to_owned()),
            FieldId::Earmark("general_spending".to_owned()),
            FieldId::PotCarried("fun_expensive_stuff".to_owned()),
            FieldId::PotChange("fun_expensive_stuff".to_owned()),
            FieldId::PotCarried("long_term_savings".to_owned()),
            FieldId::PotChange("long_term_savings".to_owned()),
            FieldId::PotCarried("label".to_owned()),
            FieldId::PotChange("label".to_owned()),
        ]
    );
    let unique = fields.iter().collect::<BTreeSet<_>>();
    assert_eq!(unique.len(), fields.len());
}

#[test]
fn state_money_input_uses_currency_as_non_editable_prefix() {
    let config = AppConfig::default_mvp();
    let document = MonthDocument::new_draft(MonthId::parse("2026-03").unwrap(), &config, None);
    let field = FieldId::Account("current".to_owned());
    let mut input = MoneyInput::from_field(&field, &document);

    for character in ['2', '4', '5'] {
        input.push(character);
    }
    assert_eq!(input.display_text(), "£245.00");

    input.push('£');
    assert_eq!(input.display_text(), "£245.00");

    input.backspace();
    assert_eq!(input.display_text(), "£24.00");
    input.push('.');
    input.push('5');
    assert_eq!(input.display_text(), "£24.50");
    assert_eq!(input.commit_value().unwrap().minor(), 2_450);
}

#[test]
fn state_field_sections_follow_rendered_groups() {
    assert_eq!(
        FieldId::PotChange("fun_expensive_stuff".to_owned()).section(),
        SectionId::SavingsPots
    );
}

#[test]
fn money_input_money_input_uses_currency_as_non_editable_prefix() {
    let config = AppConfig::default_mvp();
    let document = MonthDocument::new_draft(MonthId::parse("2026-03").unwrap(), &config, None);
    let field = FieldId::Account("current_account".to_owned());
    let mut input = MoneyInput::from_field(&field, &document);

    for character in ['1', '8', '0'] {
        input.push(character);
    }
    assert_eq!(input.display_text(), "£180.00");

    input.push('£');
    assert_eq!(input.display_text(), "£180.00");

    input.backspace();
    assert_eq!(input.display_text(), "£18.00");
    input.push('.');
    input.push('5');
    assert_eq!(input.display_text(), "£18.50");
    assert_eq!(input.commit_value().unwrap().minor(), 1_850);
}

#[test]
fn money_input_field_sections_follow_rendered_groups() {
    assert_eq!(FieldId::PotChange("travel_fund".to_owned()).section(), SectionId::SavingsPots);
}

#[test]
fn guided_steps_ask_for_pots_before_earmarks() {
    let config = AppConfig::default_mvp();
    let steps = FieldId::guided_steps(&config);
    assert_eq!(
        steps,
        vec![
            FieldId::Account("current".to_owned()),
            FieldId::Account("cash_isa".to_owned()),
            FieldId::Account("amex_credit".to_owned()),
            FieldId::Account("nationwide_credit".to_owned()),
            FieldId::PreviousMonthSpendingCorrection,
            FieldId::InvestmentNotYetSent,
            FieldId::PotCarried("fun_expensive_stuff".to_owned()),
            FieldId::PotCarried("long_term_savings".to_owned()),
            FieldId::PotCarried("label".to_owned()),
            FieldId::PotChange("fun_expensive_stuff".to_owned()),
            FieldId::PotChange("long_term_savings".to_owned()),
            FieldId::PotChange("label".to_owned()),
            FieldId::Earmark("subscriptions".to_owned()),
            FieldId::Earmark("general_spending".to_owned()),
        ]
    );
    let mut a = steps.clone();
    let mut b = FieldId::editor_fields(&config);
    a.sort();
    b.sort();
    assert_eq!(a, b);
}

#[test]
fn field_labels_and_names() {
    let config = AppConfig::default_mvp();
    assert_eq!(FieldId::Account("amex_credit".to_owned()).label(&config), "Amex credit");
    assert_eq!(FieldId::Account("unknown".to_owned()).label(&config), "unknown");
    assert_eq!(
        FieldId::PotCarried("label".to_owned()).label(&config),
        "Label carried-over balance"
    );
    assert_eq!(FieldId::PotChange("other".to_owned()).label(&config), "other monthly change");
    assert_eq!(
        FieldId::PreviousMonthSpendingCorrection.label(&config),
        "General spending over/under"
    );
    assert_eq!(FieldId::Earmark("x".to_owned()).labelless_name(), "next-month earmark");
    assert!(FieldId::PotChange("label".to_owned()).allows_negative());
    assert!(!FieldId::Account("current".to_owned()).allows_negative());
    assert_eq!(SectionId::TimingAdjustments.title(), "Timing Adjustments");
    assert_eq!(SectionId::NextMonthEarmarks.compact_title(), "Earmarks");
    assert_eq!(SectionId::ALL.len(), 4);
}

#[test]
fn field_values_read_from_the_document() {
    let config = AppConfig::default_mvp();
    let mut document = MonthDocument::new_draft(MonthId::parse("2026-03").unwrap(), &config, None);
    document.accounts.insert("current".to_owned(), 12_345);
    let field = FieldId::Account("current".to_owned());
    assert_eq!(field.current_value(&document).minor(), 12_345);
    assert_eq!(field.current_value_text(&document), "£123.45");
    assert_eq!(FieldId::Earmark("subscriptions".to_owned()).current_value(&document).minor(), 13_000);
}

#[test]
fn money_input_keys_follow_the_editing_rules() {
    let mut input = MoneyInput::from_value(jt_budget::money::Money::from_minor(500), true);
    assert_eq!(input.display_text(), "£5.00");
    assert!(!input.is_edited());
    input.push('-');
    input.push('0');
    input.push('7');
    assert_eq!(input.display_text(), "-£7.00");
    input.push('.');
    input.push('.');
    input.push('1');
    input.push('2');
    input.push('3');
    assert_eq!(input.display_text(), "-£7.12");
    assert_eq!(input.commit_value().unwrap().minor(), -712);
    input.push('-');
    assert_eq!(input.commit_value().unwrap().minor(), 712);

    let mut unsigned = MoneyInput::from_value(jt_budget::money::Money::from_minor(0), false);
    unsigned.push('-');
    assert!(!unsigned.is_edited());
    unsigned.push('x');
    assert!(!unsigned.is_edited());
    unsigned.push('.');
    assert_eq!(unsigned.display_text(), "£0.00");
    unsigned.push('5');
    assert_eq!(unsigned.display_text(), "£0.50");

    let mut sign_only = MoneyInput::from_value(jt_budget::money::Money::from_minor(0), true);
    sign_only.push('-');
    let error = sign_only.commit_value().unwrap_err();
    assert_eq!(error.to_string(), "invalid monetary value `-`");

    let mut cleared = MoneyInput::from_value(jt_budget::money::Money::from_minor(123), false);
    cleared.backspace();
    assert_eq!(cleared.display_text(), "£1.20");
    for _ in 0..5 {
        cleared.backspace();
    }
    assert_eq!(cleared.display_text(), "£0.00");
    assert_eq!(cleared.commit_value().unwrap().minor(), 0);
}

#[test]
fn money_input_display_follows_the_typed_text() {
    let mut input = MoneyInput::from_value(jt_budget::money::Money::from_minor(500), true);
    assert_eq!(input.display_text(), jt_budget::money::format_minor_units(500));
    for _ in 0..4 {
        input.backspace();
    }
    assert!(input.is_edited());
    assert_eq!(input.display_text(), "£0.00");
    input.push('-');
    assert_eq!(input.display_text(), "-£0.00");
    input.push('-');
    for character in ['1', '2', '.', '5'] {
        input.push(character);
    }
    assert_eq!(input.display_text(), "£12.50");
}

use csv2beancount::amount::parse_amount;
use csv2beancount::config::{
    resolve_config, same_text, ConfigError, Field, RawConfig, RawSettings, Rule, RuleTable,
    Settings,
};
use csv2beancount::date::{parse_date, Date};
use csv2beancount::ledger::{convert, convert_rows, map_row, map_row_with_date, RowError};

fn raw_settings() -> RawSettings {
    RawSettings {
        currency: Some("USD".to_string()),
        processing_account: Some("Assets:Checking".to_string()),
        default_account: Some("Expenses:Unknown".to_string()),
        date: Some(0),
        description: Some(1),
        amount_in: Some(2),
        amount_out: Some(3),
        delimiter: None,
        skip: None,
        date_format: None,
        toggle_sign: None,
    }
}

fn settings(toggle: bool) -> Settings {
    let mut raw = raw_settings();
    raw.toggle_sign = Some(toggle);
    Settings::resolve(raw).unwrap()
}

fn row(fields: &[&str]) -> Vec<String> {
    fields.iter().map(|f| f.to_string()).collect()
}

fn some_date() -> Option<Date> {
    Some(Date { year: 2023, month: 1, day: 2 })
}

fn magnitude_text(s: &Settings, fields: &[&str]) -> String {
    let t = map_row_with_date(s, &RuleTable::new(), &row(fields), some_date()).unwrap();
    t.magnitude.to_text()
}

#[test]
fn amount_in_is_taken_as_it_stands() {
    assert_eq!(magnitude_text(&settings(false), &["d", "Shop", "12.50", ""]), "12.5");
}

#[test]
fn amount_out_is_negated() {
    assert_eq!(magnitude_text(&settings(false), &["d", "Shop", "", "12.50"]), "-12.5");
}

#[test]
fn toggle_inverts_both_signs() {
    assert_eq!(magnitude_text(&settings(true), &["d", "Shop", "12.50", ""]), "-12.5");
    assert_eq!(magnitude_text(&settings(true), &["d", "Shop", "", "12.50"]), "12.5");
}

#[test]
fn amount_in_wins_over_amount_out() {
    assert_eq!(magnitude_text(&settings(false), &["d", "Shop", "3", "7"]), "3");
}

#[test]
fn no_amount_names_the_description() {
    let s = settings(false);
    let empty = map_row_with_date(&s, &RuleTable::new(), &row(&["d", "Shop", "", ""]), some_date());
    assert_eq!(empty.err(), Some(RowError::UnparsableAmount { description: "Shop".to_string() }));
    let words =
        map_row_with_date(&s, &RuleTable::new(), &row(&["d", "Bar", "abc", "x1"]), some_date());
    assert_eq!(words.err(), Some(RowError::UnparsableAmount { description: "Bar".to_string() }));
}

#[test]
fn amounts_are_written_in_shortest_form() {
    let cases = [
        ("4.50", "4.5"),
        ("007.100", "7.1"),
        ("+.5", "0.5"),
        ("7.", "7"),
        ("-3", "-3"),
        ("-0.00", "0"),
        ("1234567890123456789012.25", "1234567890123456789012.25"),
    ];
    for (input, text) in cases.iter() {
        assert_eq!(parse_amount(input).unwrap().to_text(), *text);
    }
}

#[test]
fn non_numbers_are_not_amounts() {
    for input in ["", "-", ".", "+.", "1.2.3", "12a", " 1", "1e5", "--1"].iter() {
        assert!(parse_amount(input).is_none(), "{}", input);
    }
}

#[test]
fn negation_keeps_digits() {
    let a = parse_amount("2.50").unwrap().negate();
    assert!(a.negative);
    assert_eq!(a.whole, "2");
    assert_eq!(a.fraction, "50");
    assert_eq!(a.to_text(), "-2.5");
}

fn rules() -> RuleTable {
    let mut t = RuleTable::new();
    t.insert("Coffee".to_string(), Rule { account: None, info: Some("morning".to_string()) });
    t.insert(
        "Rent".to_string(),
        Rule { account: Some("Expenses:Housing".to_string()), info: None },
    );
    t
}

#[test]
fn rule_with_only_info_keeps_default_account() {
    let t = map_row_with_date(&settings(false), &rules(), &row(&["d", "Coffee", "1", ""]), some_date())
        .unwrap();
    assert_eq!(t.other_account, "Expenses:Unknown");
    assert_eq!(t.info, Some("morning".to_string()));
}

#[test]
fn rule_with_only_account_has_no_memo() {
    let t = map_row_with_date(&settings(false), &rules(), &row(&["d", "Rent", "1", ""]), some_date())
        .unwrap();
    assert_eq!(t.other_account, "Expenses:Housing");
    assert_eq!(t.info, None);
}

#[test]
fn description_without_rule_uses_defaults() {
    let t = map_row_with_date(&settings(false), &rules(), &row(&["d", "coffee", "1", ""]), some_date())
        .unwrap();
    assert_eq!(t.other_account, "Expenses:Unknown");
    assert_eq!(t.info, None);
}

#[test]
fn later_rule_replaces_earlier() {
    let mut t = rules();
    t.insert("Rent".to_string(), Rule { account: Some("Expenses:Flat".to_string()), info: None });
    let rule = t.get("Rent").unwrap();
    assert_eq!(rule.account, Some("Expenses:Flat".to_string()));
    assert!(t.get("Gym").is_none());
}

#[test]
fn text_comparison_is_exact() {
    assert!(same_text("Coffee", "Coffee"));
    assert!(!same_text("Coffee", "coffee"));
    assert!(!same_text("Coffee", "Coffee "));
}

#[test]
fn us_date_is_written_in_iso_form() {
    let d = parse_date("03/15/2023", "%m/%d/%Y").unwrap();
    assert_eq!(d, Date { year: 2023, month: 3, day: 15 });
    assert_eq!(d.to_iso(), "2023-03-15");
    let t = map_row(&settings(false), &RuleTable::new(), &row(&["03/15/2023", "Shop", "1", ""]))
        .unwrap();
    assert_eq!(t.date.to_iso(), "2023-03-15");
}

#[test]
fn date_in_other_layout_is_bad() {
    let r = map_row(&settings(false), &RuleTable::new(), &row(&["15-03-2023", "Shop", "1", ""]));
    assert_eq!(r.err(), Some(RowError::BadDate { text: "15-03-2023".to_string() }));
}

#[test]
fn iso_years_outside_four_digits_carry_a_sign() {
    assert_eq!(Date { year: 12345, month: 6, day: 7 }.to_iso(), "+12345-06-07");
    assert_eq!(Date { year: -44, month: 3, day: 15 }.to_iso(), "-0044-03-15");
    assert_eq!(Date { year: 9, month: 12, day: 1 }.to_iso(), "0009-12-01");
}

#[test]
fn short_row_is_out_of_range() {
    let r = map_row(&settings(false), &RuleTable::new(), &row(&["01/02/2023", "Shop", "1"]));
    assert_eq!(r.err(), Some(RowError::IndexOutOfRange { column: 3, width: 3 }));
}

fn end_to_end_settings() -> Settings {
    let mut raw = raw_settings();
    raw.delimiter = Some(";".to_string());
    raw.skip = Some(1);
    Settings::resolve(raw).unwrap()
}

const END_TO_END_INPUT: &[u8] = b"header;ignored;ignored;ignored\n01/02/2023;Coffee Shop;4.50;\n";

#[test]
fn end_to_end_single_row() {
    let (out, failure) = convert(&end_to_end_settings(), &RuleTable::new(), END_TO_END_INPUT).unwrap();
    assert!(failure.is_none());
    assert_eq!(
        out,
        "2023-01-02 * \"Coffee Shop\"\n  Assets:Checking 4.5 USD\n  Expenses:Unknown -4.5 USD\n"
    );
}

#[test]
fn rerun_gives_identical_output() {
    let s = end_to_end_settings();
    let first = convert(&s, &rules(), END_TO_END_INPUT).unwrap();
    let second = convert(&s, &rules(), END_TO_END_INPUT).unwrap();
    assert_eq!(first.0, second.0);
    assert_eq!(first.1.is_none(), second.1.is_none());
}

#[test]
fn memo_is_quoted_and_blocks_are_separated() {
    let rows = vec![
        row(&["01/02/2023", "Coffee", "", "3.20"]),
        row(&["01/03/2023", "Rent", "", "900"]),
    ];
    let (out, failure) = convert_rows(&settings(false), &rules(), &rows);
    assert!(failure.is_none());
    assert_eq!(
        out,
        "2023-01-02 * \"Coffee\" \"morning\"\n  Assets:Checking -3.2 USD\n  Expenses:Unknown 3.2 USD\n\n\
         2023-01-03 * \"Rent\"\n  Assets:Checking -900 USD\n  Expenses:Housing 900 USD\n"
    );
}

#[test]
fn run_stops_at_first_bad_row_and_keeps_earlier_text() {
    let rows = vec![
        row(&["01/02/2023", "Coffee", "1", ""]),
        row(&["2023-01-03", "Rent", "2", ""]),
        row(&["01/04/2023", "Rent", "3", ""]),
    ];
    let (out, failure) = convert_rows(&settings(false), &rules(), &rows);
    let f = failure.unwrap();
    assert_eq!(f.index, 1);
    assert_eq!(f.error, RowError::BadDate { text: "2023-01-03".to_string() });
    assert!(out.starts_with("2023-01-02 * \"Coffee\""));
    assert!(!out.contains("Rent"));
}

#[test]
fn skip_beyond_rows_gives_empty_output() {
    let mut raw = raw_settings();
    raw.skip = Some(5);
    let s = Settings::resolve(raw).unwrap();
    let (out, failure) = convert_rows(&s, &rules(), &vec![row(&["x", "y", "z", "w"])]);
    assert_eq!(out, "");
    assert!(failure.is_none());
}

#[test]
fn malformed_csv_is_reported() {
    let r = convert(&settings(false), &RuleTable::new(), b"a,b,c,d\n1,2\n");
    assert!(r.is_err());
}

#[test]
fn defaults_are_applied() {
    let s = Settings::resolve(raw_settings()).unwrap();
    assert_eq!(s.delimiter, b',');
    assert_eq!(s.skip, 0);
    assert_eq!(s.date_format, "%m/%d/%Y");
    assert!(!s.toggle_sign);
}

#[test]
fn missing_and_invalid_fields_are_named() {
    let mut raw = raw_settings();
    raw.currency = None;
    assert_eq!(Settings::resolve(raw).err(), Some(ConfigError::Missing(Field::Currency)));
    let mut raw = raw_settings();
    raw.description = None;
    assert_eq!(Settings::resolve(raw).err(), Some(ConfigError::Missing(Field::Description)));
    let mut raw = raw_settings();
    raw.amount_in = Some(-1);
    assert_eq!(Settings::resolve(raw).err(), Some(ConfigError::Invalid(Field::AmountIn)));
    let mut raw = raw_settings();
    raw.delimiter = Some(";;".to_string());
    assert_eq!(Settings::resolve(raw).err(), Some(ConfigError::Invalid(Field::Delimiter)));
    let mut raw = raw_settings();
    raw.skip = Some(-2);
    assert_eq!(Settings::resolve(raw).err(), Some(ConfigError::Invalid(Field::Skip)));
    let mut raw = raw_settings();
    raw.amount_out = Some(2);
    assert_eq!(Settings::resolve(raw).err(), Some(ConfigError::SharedColumn));
}

#[test]
fn document_without_settings_is_malformed() {
    let r = resolve_config(RawConfig { settings: None, rules: None });
    assert_eq!(r.err(), Some(ConfigError::Malformed));
}

#[test]
fn document_without_rules_has_an_empty_table() {
    let (s, table) = resolve_config(RawConfig { settings: Some(raw_settings()), rules: None })
        .ok()
        .unwrap();
    assert_eq!(s.currency, "USD");
    assert!(table.get("Coffee").is_none());
    let (_, table) = resolve_config(RawConfig {
        settings: Some(raw_settings()),
        rules: Some(vec![(
            "Coffee".to_string(),
            Rule { account: Some("Expenses:Food".to_string()), info: None },
        )]),
    })
    .ok()
    .unwrap();
    assert_eq!(table.get("Coffee").unwrap().account, Some("Expenses:Food".to_string()));
}

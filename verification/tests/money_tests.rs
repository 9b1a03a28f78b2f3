use family_banking::money::{amount_to_text, format_amount, parse_money, MoneyParse};
use family_banking::AMOUNT_LIMIT;

#[test]
fn parses_whole_numbers() {
    assert_eq!(parse_money("0"), MoneyParse::Value(0));
    assert_eq!(parse_money("100"), MoneyParse::Value(10000));
    assert_eq!(parse_money("55"), MoneyParse::Value(5500));
    assert_eq!(parse_money("007"), MoneyParse::Value(700));
}

#[test]
fn parses_fractions() {
    assert_eq!(parse_money("100.5"), MoneyParse::Value(10050));
    assert_eq!(parse_money("100.55"), MoneyParse::Value(10055));
    assert_eq!(parse_money("0.25"), MoneyParse::Value(25));
    assert_eq!(parse_money("0.05"), MoneyParse::Value(5));
    assert_eq!(parse_money("0.5"), MoneyParse::Value(50));
}

#[test]
fn rejects_malformed_numerals() {
    assert_eq!(parse_money(""), MoneyParse::Invalid);
    assert_eq!(parse_money("abc"), MoneyParse::Invalid);
    assert_eq!(parse_money("1.234"), MoneyParse::Invalid);
    assert_eq!(parse_money(".5"), MoneyParse::Invalid);
    assert_eq!(parse_money("5."), MoneyParse::Invalid);
    assert_eq!(parse_money("1..2"), MoneyParse::Invalid);
    assert_eq!(parse_money("1 2"), MoneyParse::Invalid);
    assert_eq!(parse_money("1e5"), MoneyParse::Invalid);
    assert_eq!(parse_money("+5"), MoneyParse::Invalid);
}

#[test]
fn recognises_negative_numerals() {
    assert_eq!(parse_money("-5"), MoneyParse::Negative);
    assert_eq!(parse_money("-5.25"), MoneyParse::Negative);
    assert_eq!(parse_money("-0"), MoneyParse::Negative);
    assert_eq!(parse_money("-abc"), MoneyParse::Invalid);
    assert_eq!(parse_money("-"), MoneyParse::Invalid);
}

#[test]
fn respects_the_amount_limit() {
    assert_eq!(parse_money("9999999999999999.99"), MoneyParse::Value(AMOUNT_LIMIT));
    assert_eq!(parse_money("10000000000000000"), MoneyParse::Invalid);
    assert_eq!(parse_money("999999999999999999999999"), MoneyParse::Invalid);
}

#[test]
fn renders_plain_numerals() {
    assert_eq!(amount_to_text(0), "0");
    assert_eq!(amount_to_text(10000), "100");
    assert_eq!(amount_to_text(10050), "100.5");
    assert_eq!(amount_to_text(10055), "100.55");
    assert_eq!(amount_to_text(25), "0.25");
    assert_eq!(amount_to_text(5), "0.05");
}

#[test]
fn numerals_read_back_as_the_same_amount() {
    for cents in [0u64, 1, 9, 10, 99, 100, 12345, 10000, 999_999, AMOUNT_LIMIT] {
        assert_eq!(parse_money(&amount_to_text(cents)), MoneyParse::Value(cents));
    }
}

#[test]
fn groups_thousands_for_display() {
    assert_eq!(format_amount(123456789), "1,234,567.89");
    assert_eq!(format_amount(100000000), "1,000,000");
    assert_eq!(format_amount(123456700), "1,234,567");
    assert_eq!(format_amount(1234567890), "12,345,678.9");
    assert_eq!(format_amount(0), "0");
    assert_eq!(format_amount(5), "0.05");
    assert_eq!(format_amount(50), "0.5");
    assert_eq!(format_amount(99999), "999.99");
    assert_eq!(format_amount(100000), "1,000");
}

//! Money, dates, signed amounts and balanced line sets on concrete
//! values.

use accounts::date::Date;
use accounts::entry::journal::{
    BalanceError, JournalAmount, JournalLine, JournalLines,
};
use accounts::money::Money;

fn money(units: i64) -> Money {
    Money::from_units(units)
}

#[test]
fn money_parse_accepts_marks_and_sign() {
    assert_eq!(Money::parse("60.50"), Some(money(60_50_00)));
    assert_eq!(Money::parse("$1,000"), Some(money(1_000_00_00)));
    assert_eq!(Money::parse("-2.5"), Some(money(-2_50_00)));
    assert_eq!(Money::parse("+0.0001"), Some(money(1)));
    assert_eq!(Money::parse(".5"), Some(money(5_000)));
    assert_eq!(Money::parse(""), None);
    assert_eq!(Money::parse("abc"), None);
    assert_eq!(Money::parse("1.23456"), None);
    assert_eq!(Money::parse("1.2.3"), None);
}

#[test]
fn money_strings() {
    assert_eq!(money(60_50_00).display_string(), "$60.50");
    assert_eq!(money(-3_07_50).display_string(), "($3.075)");
    assert_eq!(money(1_000_00_00).display_string(), "$1000.00");
    assert_eq!(money(310_00_00).plain_string(), "310");
    assert_eq!(money(60_50_00).plain_string(), "60.5");
    assert_eq!(money(-2_50_00).plain_string(), "-2.5");
}

#[test]
fn money_arithmetic() {
    let a = money(100_00_00);
    let b = money(100_00_00);
    assert_eq!(a.plus(&b), money(200_00_00));
    assert_eq!(a.minus(&b), Money::zero());
    assert_eq!(a.negated(), money(-100_00_00));
    assert_eq!(money(-5_00_00).magnitude(), money(5_00_00));
}

#[test]
fn date_parse_and_render() {
    let d = Date::parse("2025-03-06").unwrap();
    assert_eq!((d.year(), d.month(), d.day()), (2025, 3, 6));
    assert_eq!(d.to_chars(), "2025-03-06");
    // chrono-style tolerance of surrounding whitespace
    assert_eq!(Date::parse(" 2025-03-06 "), Some(d));
    assert_eq!(Date::parse("2025-02-29"), None);
    assert_eq!(Date::parse("2024-02-29").is_some(), true);
    assert_eq!(Date::parse("2025-13-01"), None);
    assert_eq!(Date::parse("2025-00-01"), None);
    assert_eq!(Date::parse("not a date"), None);
}

#[test]
fn invert_is_involutive() {
    let a = JournalAmount::Debit(money(10_00_00));
    assert_eq!(a.invert(), JournalAmount::Credit(money(10_00_00)));
    assert_eq!(a.invert().invert(), a);
    let c = JournalAmount::Credit(money(3_25_00));
    assert_eq!(c.invert().invert(), c);
}

#[test]
fn accumulate_matches_signed_arithmetic() {
    let d10 = JournalAmount::Debit(money(10_00_00));
    let c3 = JournalAmount::Credit(money(3_00_00));
    assert_eq!(d10.accumulate(&c3), JournalAmount::Debit(money(7_00_00)));
    let c5 = JournalAmount::Credit(money(5_00_00));
    let d5 = JournalAmount::Debit(money(5_00_00));
    assert_eq!(c5.accumulate(&d5), JournalAmount::Debit(money(0)));
    // commutativity on a concrete pair
    assert_eq!(d10.accumulate(&c3), c3.accumulate(&d10));
}

#[test]
fn balanced_lines_totals_agree() {
    let lines = vec![
        JournalLine("Bank".to_string(), JournalAmount::Credit(money(60_50_00))),
        JournalLine("Expenses".to_string(), JournalAmount::Debit(money(60_50_00))),
    ];
    let ls = JournalLines::new(lines, None).unwrap();
    assert_eq!(ls.len(), 2);
    // debits sorted before credits
    assert!(ls.line(0).1.is_debit());
    assert!(ls.line(1).1.is_credit());
}

#[test]
fn balancing_line_is_appended() {
    let lines = vec![
        JournalLine("Expenses".to_string(), JournalAmount::Debit(money(60_50_00))),
    ];
    let ls = JournalLines::new(lines, Some("Bank".to_string())).unwrap();
    assert_eq!(ls.len(), 2);
    assert_eq!(ls.line(0).0, "Expenses");
    assert_eq!(
        ls.line(1).1,
        JournalAmount::Credit(money(60_50_00))
    );
    assert_eq!(ls.line(1).0, "Bank");
}

#[test]
fn empty_and_unbalanced_lines_are_refused() {
    assert_eq!(
        JournalLines::new(Vec::new(), None).unwrap_err(),
        BalanceError::EmptyEntry
    );
    let lines = vec![
        JournalLine("Bank".to_string(), JournalAmount::Credit(money(1_00_00))),
    ];
    assert_eq!(
        JournalLines::new(lines, None).unwrap_err(),
        BalanceError::Unbalanced
    );
}

#[test]
fn test_row_string() {
    let dr = JournalAmount::Debit(Money::parse("100.00").unwrap());
    let cr = JournalAmount::Credit(Money::parse("50.00").unwrap());
    let dr_row = dr.to_row_string(10);
    let cr_row = cr.to_row_string(10);
    assert_eq!(dr_row, "   $100.00 |           ");
    assert_eq!(cr_row, "           |     $50.00");
}

#[test]
fn glob_and_contains() {
    assert!(accounts::expr::glob_matches("ACME Elec*", "ACME ElecSvc"));
    assert!(accounts::expr::glob_matches("*", ""));
    assert!(accounts::expr::glob_matches("a*c", "abbbc"));
    assert!(!accounts::expr::glob_matches("a*c", "abbb"));
    assert!(!accounts::expr::glob_matches("acme*", "ACME Elec"));
    assert!(accounts::expr::contains_str("Transfer from 003", "from"));
    assert!(!accounts::expr::contains_str("Transfer", "from"));
    assert!(accounts::expr::contains_str("anything", ""));
}

#[test]
fn replace_all_rewrites_each_occurrence() {
    assert_eq!(
        accounts::text::replace_all("{a} and {a}", "{a}", "x"),
        "x and x"
    );
    assert_eq!(accounts::text::replace_all("abc", "z", "y"), "abc");
    assert_eq!(accounts::text::replace_all("abc", "", "y"), "abc");
}

#[test]
fn oversized_balancing_difference_is_refused() {
    let big = Money::from_units(1_000_000_000_000_000_000);
    let lines = vec![
        JournalLine("A".to_string(), JournalAmount::Debit(big)),
        JournalLine("B".to_string(), JournalAmount::Debit(big)),
    ];
    assert_eq!(
        JournalLines::new(lines, Some("C".to_string())).unwrap_err(),
        BalanceError::Overflow
    );
}

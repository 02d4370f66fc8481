//! Accounts, their kinds, and chart lookup.

use accounts::account::kinds::{Account, Class, GenericAccount, Tag};
use accounts::account::{self, Type};
use accounts::chart_of_accounts::ChartOfAccounts;

#[test]
fn generic_expense_account() {
    let acc = GenericAccount::new(Class::Expense, "Shop Rent", vec![Tag::new("indirect").unwrap()]);
    assert_eq!(acc.name(), String::from("Shop Rent"));
    assert_eq!(acc.class(), Class::Expense);
    assert_eq!(acc.is_debit(), true);
    assert_eq!(acc.is_credit(), false);
    assert_eq!(acc.has_tag("Indirect"), true); // case insensitive
}

#[test]
fn account_signs_follow_type() {
    let a = account::Account::new(Type::Asset, "Bank", Vec::new());
    assert!(a.is_debit());
    let l = account::Account::new(Type::Liability, "Card", Vec::new());
    assert!(l.is_credit());
    let e = account::Account::new(Type::Expense, "Rent", Vec::new());
    assert!(e.is_debit());
    let r = account::Account::new(Type::Revenue, "Sales", Vec::new());
    assert!(r.is_credit());
}

#[test]
fn account_tags_compare_without_case() {
    let tag = account::Tag::new("Current").unwrap();
    let bank = account::Tag::new("Bank").unwrap();
    let a = account::Account::new(Type::Asset, "Checking", vec![tag]);
    assert!(a.has_tag(&account::Tag::new("CURRENT").unwrap()));
    assert!(!a.has_tag(&bank));
}

#[test]
fn overlong_tag_is_refused() {
    assert!(account::Tag::new("abcdefghijklmnopqrstuvwxyz").is_some());
    assert!(account::Tag::new("abcdefghijklmnopqrstuvwxyz0123456789").is_none());
}

#[test]
fn type_names_parse() {
    assert_eq!(Type::parse("Expense"), Some(Type::Expense));
    assert_eq!(Type::parse("Revenue"), Some(Type::Revenue));
    assert_eq!(Type::parse("Asset"), Some(Type::Asset));
    assert_eq!(Type::parse("Liability"), Some(Type::Liability));
    assert_eq!(Type::parse("Equity"), Some(Type::Equity));
    assert_eq!(Type::parse("Nonsense"), None);
}

#[test]
fn chart_lookup_finds_by_name() {
    let chart = ChartOfAccounts::new(vec![
        account::Account::new(Type::Asset, "Business Checking", Vec::new()),
        account::Account::new(Type::Expense, "Operating Expenses", Vec::new()),
    ]);
    assert!(chart.get("Operating Expenses").is_some());
    assert_eq!(
        chart.get("Business Checking").unwrap().acc_type,
        Type::Asset
    );
    assert!(chart.get("Missing").is_none());
}

#[test]
fn ledger_keeps_its_path() {
    let ledger = accounts::Ledger::new(Some("./entries"));
    assert_eq!(ledger.path().map(|p| p.as_str()), Some("./entries"));
    let stdin_ledger = accounts::Ledger::new(None);
    assert!(stdin_ledger.path().is_none());
}

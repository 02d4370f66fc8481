//! Parsing entry documents into typed entries, and their journal lines.

use serde::Deserialize;
use accounts::date::Date;
use accounts::entry::raw;
use accounts::entry::Entry;
use accounts::entry::journal::JournalAmount;
use accounts::money::Money;
use accounts::value::Value;

fn money(units: i64) -> Money {
    Money::from_units(units)
}

fn yaml_to_value(y: &serde_yaml::Value) -> Value {
    match y {
        serde_yaml::Value::Null => Value::Null,
        serde_yaml::Value::Bool(b) => Value::Bool(*b),
        serde_yaml::Value::Number(n) => {
            let units = if let Some(i) = n.as_i64() {
                i * 10_000
            } else {
                (n.as_f64().unwrap() * 10_000.0).round() as i64
            };
            Value::Number(money(units))
        }
        serde_yaml::Value::String(s) => Value::Text(s.clone()),
        serde_yaml::Value::Sequence(items) => {
            Value::Array(items.iter().map(yaml_to_value).collect())
        }
        serde_yaml::Value::Mapping(m) => Value::Object(
            m.iter()
                .map(|(k, v)| (k.as_str().expect("string key").to_string(), yaml_to_value(v)))
                .collect(),
        ),
        _ => panic!("unsupported yaml value"),
    }
}

fn parse_entry(doc: &str) -> Entry {
    let y: serde_yaml::Value = serde_yaml::from_str(doc).expect("yaml entry document");
    let v = yaml_to_value(&y);
    let mut rawe = raw::Entry::from_value(&v).expect("raw entry");
    accounts::entry::default_id(&mut rawe);
    Entry::from_raw(&rawe).expect("entry")
}

#[test]
fn parse_journal_entry() {
    let entry = parse_entry("date: 2020-01-01\nmemo: Initial Contribution\ndebits:\n  Bank: 500\ncredits:\n  Owner Contributions: 500\n");

    assert_eq!(entry.date(), Date::parse("2020-01-01").unwrap());
    assert_eq!(entry.memo(), Some("Initial Contribution".to_string()));
    assert_eq!(
        entry.amount_of_account("Bank").unwrap(),
        JournalAmount::Debit(money(500_00_00))
    );
    assert_eq!(
        entry.amount_of_account("Owner Contributions").unwrap(),
        JournalAmount::Credit(money(500_00_00))
    );
}

#[test]
fn parse_journal_entry_expanded_accounts() {
    // the expanded journal line format allows two deposits on one
    // account that later match separate bank transactions
    let entry = parse_entry("date: 2020-01-02\nmemo: Initial Contribution\ncredits:\n  Owner Contributions: $15,000.00\ndebits:\n  - account: Bank\n    amount: $10000.00\n  - account: Bank\n    amount: $50,00.00\n");

    assert_eq!(entry.date(), Date::parse("2020-01-02").unwrap());
    assert_eq!(entry.memo(), Some("Initial Contribution".to_string()));
    assert_eq!(
        entry.amount_of_account("Bank").unwrap(),
        JournalAmount::Debit(money(15_000_00_00))
    );
    assert_eq!(
        entry.amount_of_account("Owner Contributions").unwrap(),
        JournalAmount::Credit(money(15_000_00_00))
    );

    // the entry holds two separate lines on the bank account
    let lines = entry.lines().unwrap();
    let mut bank_lines = 0;
    let mut i = 0;
    while i < lines.len() {
        if lines.line(i).0 == "Bank" {
            bank_lines += 1;
        }
        i += 1;
    }
    assert_eq!(bank_lines, 2);
}

#[test]
fn parse_payment_entry() {
    let entry = parse_entry("type: Payment Sent\ndate: 2025-03-06\nparty: ACME Electrical\nmemo: Operating Expenses\naccount: Bank Checking\namount: 60.50\n");

    assert_eq!(entry.date(), Date::parse("2025-03-06").unwrap());
    assert_eq!(entry.memo(), Some("Operating Expenses".to_string()));
    assert_eq!(
        entry.amount_of_account("Bank Checking").unwrap(),
        JournalAmount::Credit(money(60_50_00))
    );
    assert_eq!(
        entry.amount_of_account("Accounts Payable").unwrap(),
        JournalAmount::Debit(money(60_50_00))
    );
}

#[test]
fn parse_invoice_entry() {
    let entry = parse_entry("type: Purchase Invoice\ndate: 2020-01-01\nparty: ACME Business Services\naccount: Operating Expenses\nitems:\n  - description: Business Services\n    amount: 100\n");

    assert_eq!(entry.date(), Date::parse("2020-01-01").unwrap());
    assert_eq!(entry.memo(), None);
    assert_eq!(entry.party(), Some("ACME Business Services".to_string()));
    assert_eq!(
        entry.amount_of_account("Accounts Payable").unwrap(),
        JournalAmount::Credit(money(100_00_00))
    );
    assert_eq!(
        entry.amount_of_account("Operating Expenses").unwrap(),
        JournalAmount::Debit(money(100_00_00))
    );
}

#[test]
fn parse_invoice_simple_items() {
    // items as a mapping read as description to amount
    let entry = parse_entry("type: Purchase Invoice\ndate: 2021-01-01\nparty: ACME Business Services\naccount: Operating Expenses\nitems:\n  Paperclips: 0.05\n");

    assert_eq!(entry.date(), Date::parse("2021-01-01").unwrap());
    assert_eq!(entry.memo(), None);
    assert_eq!(
        entry.amount_of_account("Accounts Payable").unwrap(),
        JournalAmount::Credit(money(500))
    );
    assert_eq!(
        entry.amount_of_account("Operating Expenses").unwrap(),
        JournalAmount::Debit(money(500))
    );
}

#[test]
fn parse_invoice_no_items() {
    // with no items the invoice's own amount is billed
    let entry = parse_entry("type: Purchase Invoice\ndate: 2021-01-01\nparty: ACME Business Services\naccount: Operating Expenses\namount: 0.05\n");

    assert_eq!(entry.date(), Date::parse("2021-01-01").unwrap());
    assert_eq!(entry.memo(), None);
    assert_eq!(
        entry.amount_of_account("Accounts Payable").unwrap(),
        JournalAmount::Credit(money(500))
    );
    assert_eq!(
        entry.amount_of_account("Operating Expenses").unwrap(),
        JournalAmount::Debit(money(500))
    );
}

#[test]
fn unbalanced_journal_entry_is_refused() {
    let y: serde_yaml::Value = serde_yaml::from_str("date: 2020-01-01\ndebits:\n  Bank: 500\ncredits:\n  Owner Contributions: 400\n")
    .unwrap();
    let v = yaml_to_value(&y);
    let mut rawe = raw::Entry::from_value(&v).unwrap();
    accounts::entry::default_id(&mut rawe);
    assert!(Entry::from_raw(&rawe).is_err());
}

#[test]
fn payment_without_party_is_refused() {
    let y: serde_yaml::Value = serde_yaml::from_str("type: Payment Sent\ndate: 2025-03-06\naccount: Bank Checking\namount: 60.50\n")
    .unwrap();
    let v = yaml_to_value(&y);
    let mut rawe = raw::Entry::from_value(&v).unwrap();
    accounts::entry::default_id(&mut rawe);
    assert!(Entry::from_raw(&rawe).is_err());
}

#[test]
fn unknown_entry_type_is_refused() {
    let y: serde_yaml::Value = serde_yaml::from_str("type: Mystery\ndate: 2025-03-06\namount: 60.50\n")
    .unwrap();
    let v = yaml_to_value(&y);
    let mut rawe = raw::Entry::from_value(&v).unwrap();
    accounts::entry::default_id(&mut rawe);
    assert!(Entry::from_raw(&rawe).is_err());
}

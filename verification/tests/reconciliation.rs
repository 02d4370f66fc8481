//! Bank transaction parsing, matching and generation, driven by rule
//! documents written in YAML.

use serde::Deserialize;
use accounts::bank_txs::rec_rules::{template_deep, RawRecRule, RecRule, RecRules};
use accounts::bank_txs::{BankTx, BankTxErrorKind, BankTxs};
use accounts::date::Date;
use accounts::entry::raw;
use accounts::entry::Entry;
use accounts::entry::journal::JournalAmount;
use accounts::money::Money;
use accounts::value::{obj_get_in, Value};

fn money(units: i64) -> Money {
    Money::from_units(units)
}

fn yaml_to_value(y: &serde_yaml::Value) -> Value {
    match y {
        serde_yaml::Value::Null => Value::Null,
        serde_yaml::Value::Bool(b) => Value::Bool(*b),
        serde_yaml::Value::Number(n) => {
            let units = if let Some(i) = n.as_i64() {
                i * 10_000
            } else {
                (n.as_f64().unwrap() * 10_000.0).round() as i64
            };
            Value::Number(money(units))
        }
        serde_yaml::Value::String(s) => Value::Text(s.clone()),
        serde_yaml::Value::Sequence(items) => {
            Value::Array(items.iter().map(yaml_to_value).collect())
        }
        serde_yaml::Value::Mapping(m) => Value::Object(
            m.iter()
                .map(|(k, v)| (k.as_str().expect("string key").to_string(), yaml_to_value(v)))
                .collect(),
        ),
        _ => panic!("unsupported yaml value"),
    }
}

fn parse_rules(doc: &str) -> RecRules {
    let mut rules = Vec::new();
    for document in serde_yaml::Deserializer::from_str(doc) {
        let y = serde_yaml::Value::deserialize(document).expect("yaml rule document");
        let v = yaml_to_value(&y);
        let rawr = RawRecRule::from_value(&v).expect("raw rule");
        rules.push(RecRule::from_raw(&rawr).expect("rule"));
    }
    RecRules::new(rules)
}

fn parse_entry(doc: &str) -> Entry {
    let y: serde_yaml::Value = serde_yaml::from_str(doc).expect("yaml entry document");
    let v = yaml_to_value(&y);
    let mut rawe = raw::Entry::from_value(&v).expect("raw entry");
    accounts::entry::default_id(&mut rawe);
    Entry::from_raw(&rawe).expect("entry")
}

#[test]
fn mod_bank_tx_parse() {
    let tx = BankTx::from_str("2025-03-06 | XXXX0000 |      60.50 |            | Electrical")
        .unwrap();
    assert_eq!(
        tx,
        BankTx {
            date: Date::parse("2025-03-06").unwrap(),
            account: "XXXX0000".to_string(),
            amount: JournalAmount::Debit(money(60_50_00)),
            memo: "Electrical".to_string(),
        }
    );
    let tx = BankTx::from_str("2025-03-07 | XXXX0000 |            |     500.00 | Transfer")
        .unwrap();
    assert_eq!(
        tx,
        BankTx {
            date: Date::parse("2025-03-07").unwrap(),
            account: "XXXX0000".to_string(),
            amount: JournalAmount::Credit(money(500_00_00)),
            memo: "Transfer".to_string(),
        }
    );
}

#[test]
fn mod_bank_tx_parse_errs() {
    let tx = BankTx::from_str("2025-03-06 | XXXX0000 |            |            | Electrical");
    match tx {
        Err(e) => assert!(e.message().contains("Error parsing bank tx amount")),
        Ok(_) => panic!("parse should fail"),
    }
    let tx = BankTx::from_str("2025-03-06 ");
    match tx {
        Err(e) => assert!(e.message().contains("Error getting account from bank tx")),
        Ok(_) => panic!("parse should fail"),
    }
}

#[test]
fn match_journal_entry_multiple_lines() {
    // two same-day deposits fund one contribution entry recorded as two
    // equal lines on the bank account; both transactions are consumed,
    // and no more than the entry's line count ever is
    let mut txs = BankTxs {
        txs: vec![
            BankTx::from_str("2020-01-03 | XX00 |        |   1000 | Transfer from 003").unwrap(),
            BankTx::from_str("2020-01-02 | XX00 |        |   7500 | Transfer from 001").unwrap(),
            BankTx::from_str("2020-01-02 | XX00 |        |   7500 | Transfer from 002").unwrap(),
        ],
        rules: parse_rules(
            "rule: [eq, account, \"XX00\"]\nvalues:\n  bank_account: Bank\n",
        ),
    };
    let entry = parse_entry("date: 2020-01-02\nmemo: Initial Contribution\ndebits:\n  - account: Bank\n    amount: $7,500\n  - account: Bank\n    amount: $7,500\ncredits:\n  Owner Contributions: $15,000\n");
    let matched = txs.match_and_rm(entry);
    assert_eq!(matched.len(), 2);
    assert_eq!(txs.txs.len(), 1);
}

#[test]
fn one_tx_per_match() {
    let mut txs = BankTxs {
        txs: vec![
            BankTx::from_str("2020-01-03 | XX00 |        |   1000 | Transfer from 003").unwrap(),
            BankTx::from_str("2020-01-03 | XX00 |        |   1000 | Transfer from 001").unwrap(),
        ],
        rules: parse_rules("rule: [eq, account, \"XX00\"]\nvalues:\n  bank_account: Bank\n---\nrule: [eq, memo, \"Transfer From 001\"]\nvalues:\n  offset_account: Owner Contributions\n---\nrule: [eq, memo, \"Transfer From 003\"]\nvalues:\n  offset_account: Owner Contributions\n"),
    };
    let entry = parse_entry("date: 2020-01-03\ndebits:\n  Bank: $1,000\ncredits:\n  Owner Contributions: $1,000\n");
    let matched = txs.match_and_rm(entry);
    assert_eq!(matched.len(), 1);
    assert_eq!(txs.txs.len(), 1);
}

#[test]
fn mod_match_payment_sent() {
    let mut txs = BankTxs {
        txs: vec![
            BankTx::from_str("2025-03-06 | XX00 |  60.50 |        | Electrical").unwrap(),
            BankTx::from_str("2025-03-06 | XX00 |   5.00 |        | Misc").unwrap(),
            BankTx::from_str("2025-03-07 | XX00 |        | 310.00 | POS deposit").unwrap(),
            BankTx::from_str("2025-03-07 | XX00 |        |   5.00 | Misc").unwrap(),
        ],
        rules: parse_rules(
            "rule: [eq, account, \"XX00\"]\nvalues:\n  bank_account: \"Bank Checking\"\n",
        ),
    };
    let entry = parse_entry("type: Payment Sent\ndate: 2025-03-06\nparty: ACME Electrical\nmemo: Operating Expenses\naccount: Bank Checking\namount: 60.50\n");
    let matched = txs.match_and_rm(entry);
    assert_eq!(matched.len(), 1);
    assert_eq!(txs.txs.len(), 3);
}

#[test]
fn mod_match_payment_received() {
    let mut txs = BankTxs {
        txs: vec![
            BankTx::from_str("2025-03-06 | XX00 |  60.50 |        | Electrical").unwrap(),
            BankTx::from_str("2025-03-06 | XX00 |   5.00 |        | Misc").unwrap(),
            BankTx::from_str("2025-03-07 | XX00 |        | 310.00 | POS deposit").unwrap(),
            BankTx::from_str("2025-03-07 | XX00 |        |   5.00 | Misc").unwrap(),
        ],
        rules: parse_rules(
            "rule: [eq, account, \"XX00\"]\nvalues:\n  bank_account: Bank Checking\n",
        ),
    };
    let entry = parse_entry("type: Payment Received\ndate: 2025-03-07\nparty: ACME POS\naccount: Bank Checking\namount: 310.00\n");
    let matched = txs.match_and_rm(entry);
    assert_eq!(matched.len(), 1);
    assert_eq!(txs.txs.len(), 3);
}

#[test]
fn generate_payment_entries() {
    let txs = BankTxs {
        txs: vec![
            BankTx::from_str("2025-03-07 | XX00 |        | 310.00 | POS deposit").unwrap(),
            BankTx::from_str("2025-03-08 | XX00 | 60.50  |        | ACME ElecSvc").unwrap(),
        ],
        rules: parse_rules("rule: [eq, account, \"XX00\"]\nvalues:\n  bank_account: Bank Checking\n---\nrule: [eq, memo, \"POS deposit\"]\nentry:\n  party: ACME POS\n---\nrule: [match, memo, \"ACME Elec*\"]\nentry:\n  memo: Electric payment\n  party: ACME Electrical Services\n"),
    };
    let entries = txs.generate_entries().unwrap();
    assert_eq!(entries.len(), 2);

    assert_eq!(entries[0].date(), Date::parse("2025-03-07").unwrap());
    assert_eq!(entries[0].memo(), Some("POS deposit".to_string()));
    assert_eq!(entries[0].party(), Some("ACME POS".to_string()));
    assert_eq!(
        entries[0].amount_of_account("Bank Checking").unwrap(),
        JournalAmount::Debit(money(310_00_00))
    );
    assert_eq!(
        entries[0].amount_of_account("Accounts Receivable").unwrap(),
        JournalAmount::Credit(money(310_00_00))
    );

    assert_eq!(entries[1].date(), Date::parse("2025-03-08").unwrap());
    assert_eq!(entries[1].memo(), Some("Electric payment".to_string()));
    assert_eq!(
        entries[1].party(),
        Some("ACME Electrical Services".to_string())
    );
    assert_eq!(
        entries[1].amount_of_account("Bank Checking").unwrap(),
        JournalAmount::Credit(money(60_50_00))
    );
    assert_eq!(
        entries[1].amount_of_account("Accounts Payable").unwrap(),
        JournalAmount::Debit(money(60_50_00))
    );
}

#[test]
fn template_deep_test() {
    let mut obj = Value::Object(vec![
        ("string".to_string(), Value::Text("test string".to_string())),
        ("template".to_string(), Value::Text("test {value}".to_string())),
        (
            "nested".to_string(),
            Value::Object(vec![
                ("template".to_string(), Value::Text("test {value}".to_string())),
                (
                    "templates".to_string(),
                    Value::Array(vec![Value::Text("test {value}".to_string())]),
                ),
            ]),
        ),
        ("number".to_string(), Value::Number(money(12_00_00))),
        ("null".to_string(), Value::Null),
    ]);

    template_deep(
        &mut obj,
        &vec![("value".to_string(), "result".to_string())],
    );

    let expected = Value::Object(vec![
        ("string".to_string(), Value::Text("test string".to_string())),
        ("template".to_string(), Value::Text("test result".to_string())),
        (
            "nested".to_string(),
            Value::Object(vec![
                ("template".to_string(), Value::Text("test result".to_string())),
                (
                    "templates".to_string(),
                    Value::Array(vec![Value::Text("test result".to_string())]),
                ),
            ]),
        ),
        ("number".to_string(), Value::Number(money(12_00_00))),
        ("null".to_string(), Value::Null),
    ]);
    assert_eq!(obj, expected);
}

#[test]
fn evaluate_test() {
    let tx = BankTx::from_str("2025-03-06 | XX00 | 60.50 | | ACME Elec. Svc").unwrap();
    let rules = parse_rules("rule: [=, account, \"XX00\"]\nvalues:\n  bank_account: Bank Checking\n---\nrule: [match, memo, \"ACME Elec*\"]\nvalues:\n  month_year: [join, \"/\", [var, month], [var, year]]\nentry:\n  memo: \"{month_year} electric bill\"\n  party: ACME Electrical Services\n");

    let gen_entry = rules.apply(&tx).unwrap();
    let (evaled, templated) = gen_entry.evaluate().unwrap();

    assert_eq!(evaled.len(), 2);
    let get = |k: &str| -> String {
        evaled
            .iter()
            .find(|(key, _)| key == k)
            .map(|(_, v)| v.clone())
            .unwrap()
    };
    assert_eq!(get("bank_account"), "Bank Checking".to_string());
    assert_eq!(get("month_year"), "3/2025".to_string());

    match &templated {
        Value::Object(fields) => {
            assert_eq!(fields.len(), 2);
            assert_eq!(
                obj_get_in(fields, "party"),
                Some(&Value::Text("ACME Electrical Services".to_string()))
            );
            assert_eq!(
                obj_get_in(fields, "memo"),
                Some(&Value::Text("3/2025 electric bill".to_string()))
            );
        }
        _ => panic!("template should be an object"),
    }
}

#[test]
fn generation_keeps_transaction_amount() {
    // a rule template trying to override `amount` loses: the generated
    // payment carries the transaction's real magnitude
    let txs = BankTxs {
        txs: vec![BankTx::from_str("2025-03-07 | XX00 |       | 310.00 | POS deposit").unwrap()],
        rules: parse_rules("rule: [eq, account, \"XX00\"]\nvalues:\n  bank_account: Bank Checking\n---\nrule: [eq, memo, \"POS deposit\"]\nentry:\n  party: ACME POS\n  amount: 1.00\n"),
    };
    let entries = txs.generate_entries().unwrap();
    assert_eq!(entries.len(), 1);
    assert_eq!(
        entries[0].amount_of_account("Bank Checking").unwrap(),
        JournalAmount::Debit(money(310_00_00))
    );
    assert_eq!(entries[0].abs_amount().unwrap(), money(310_00_00));
}

#[test]
fn rule_short_circuit_scenario() {
    // a rule with values only, then a terminal rule with a template:
    // the terminal rule stops application, and a later rule that would
    // change the party is never consulted
    let tx = BankTx::from_str("2025-03-08 | XX00 | 60.50 | | ACME ElecSvc").unwrap();
    let rules = parse_rules("rule: [eq, account, \"XX00\"]\nvalues:\n  bank_account: Bank\n---\nrule: [match, memo, \"ACME Elec*\"]\nentry:\n  memo: Electric payment\n  party: ACME Electrical Services\n---\nrule: [eq, account, \"XX00\"]\nentry:\n  party: SOMEONE ELSE\n");
    let ge = rules.apply(&tx).unwrap();
    let e = ge.generate().unwrap();
    assert_eq!(e.party(), Some("ACME Electrical Services".to_string()));
    assert_eq!(e.memo(), Some("Electric payment".to_string()));
    assert_eq!(
        e.amount_of_account("Bank").unwrap(),
        JournalAmount::Credit(money(60_50_00))
    );
    assert_eq!(
        e.amount_of_account("Accounts Payable").unwrap(),
        JournalAmount::Debit(money(60_50_00))
    );
}

#[test]
fn unknown_field_aborts_rules() {
    let tx = BankTx::from_str("2025-03-08 | XX00 | 60.50 | | ACME ElecSvc").unwrap();
    let rules = parse_rules("rule: [eq, [var, missing], \"XX00\"]\n");
    assert!(rules.apply(&tx).is_err());
}

#[test]
fn bank_txs_bank_tx_parse() {
    let tx = BankTx::from_str("2025-03-06 | XXXX0000 |      60.50 |            | Electrical")
        .unwrap();
    assert_eq!(
        tx,
        BankTx {
            date: Date::parse("2025-03-06").unwrap(),
            account: "XXXX0000".to_string(),
            amount: JournalAmount::Debit(money(60_50_00)),
            memo: "Electrical".to_string(),
        }
    );
    let tx = BankTx::from_str("2025-03-07 | XXXX0000 |            |     500.00 | Transfer")
        .unwrap();
    assert_eq!(
        tx,
        BankTx {
            date: Date::parse("2025-03-07").unwrap(),
            account: "XXXX0000".to_string(),
            amount: JournalAmount::Credit(money(500_00_00)),
            memo: "Transfer".to_string(),
        }
    );
}

#[test]
fn bank_txs_bank_tx_parse_errs() {
    let tx = BankTx::from_str("2025-03-06 | XXXX0000 |            |            | Electrical");
    match tx {
        Err(e) => assert!(e.message().contains("Error parsing bank tx amount")),
        Ok(_) => panic!("parse should fail"),
    }
    let tx = BankTx::from_str("2025-03-06 ");
    match tx {
        Err(e) => assert!(e.message().contains("Error getting account from bank tx")),
        Ok(_) => panic!("parse should fail"),
    }
}

#[test]
fn partial_generation_keeps_failures_in_place() {
    // the first transaction lacks any party so its payment cannot be
    // built; the second generates; the strict batch fails while the
    // partial mode reports both outcomes in order
    let txs = BankTxs {
        txs: vec![
            BankTx::from_str("2025-03-07 | XX00 |        | 310.00 | POS deposit").unwrap(),
            BankTx::from_str("2025-03-08 | XX00 | 60.50  |        | ACME ElecSvc").unwrap(),
        ],
        rules: parse_rules("rule: [match, memo, \"ACME Elec*\"]\nvalues:\n  bank_account: Bank Checking\nentry:\n  party: ACME Electrical Services\n"),
    };
    assert!(txs.generate_entries().is_err());
    let results = txs.generate_entries_partial();
    assert_eq!(results.len(), 2);
    assert!(results[0].is_err());
    assert!(results[1].is_ok());
}

#[test]
fn each_missing_field_is_named() {
    let k = |s: &str| BankTx::from_str(s).unwrap_err().kind;
    assert_eq!(k("2025-03-06"), BankTxErrorKind::MissingAccount);
    assert_eq!(k("2025-03-06 | X"), BankTxErrorKind::MissingDebit);
    assert_eq!(k("2025-03-06 | X | 1.00"), BankTxErrorKind::MissingCredit);
    assert_eq!(k("2025-03-06 | X | 1.00 |"), BankTxErrorKind::MissingMemo);
    assert_eq!(k("not-a-date | X | 1.00 | | m"), BankTxErrorKind::BadDate);
    assert_eq!(k("2025-03-06 | X | 1.00 | 2.00 | m"), BankTxErrorKind::BothAmounts);
    assert_eq!(k("2025-03-06 | X |  |  | m"), BankTxErrorKind::NoAmount);
}

#[test]
fn string_test_on_a_number_is_a_type_mismatch() {
    let tx = BankTx::from_str("2025-03-08 | XX00 | 60.50 | | ACME ElecSvc").unwrap();
    let rules = parse_rules("rule: [contains, [var, year], \"20\"]\n");
    assert!(rules.apply(&tx).is_err());
}

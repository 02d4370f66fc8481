//! Bank-statement transactions: parsing normalized pipe-delimited
//! lines, projecting a transaction into the field record the rule
//! evaluator reads, and reconciling a pool of transactions against
//! recorded entries.

use vstd::prelude::*;

pub mod rec_rules;

use crate::date::{ymd_of_chars, Date};
use crate::entry::journal::{jline_views, JournalAccount, JournalAmount};
use crate::expr::FieldRecord;
use crate::money::{units_of_chars, Money};
use crate::text::{find_char, trimmed};
use crate::value::{ValView, Value};

verus! {

/// One bank-statement transaction.
#[derive(Debug, PartialEq)]
pub struct BankTx {
    pub date: Date,
    pub account: JournalAccount,
    pub amount: JournalAmount,
    pub memo: String,
}

impl Clone for BankTx {
    /// An exact copy of the transaction.
    fn clone(&self) -> (r: BankTx)
        ensures
            r == *self,
    {
        BankTx {
            date: self.date,
            account: self.account.clone(),
            amount: self.amount,
            memo: self.memo.clone(),
        }
    }
}

/// What went wrong while parsing a bank-statement line.
#[derive(Debug, Clone, Copy, PartialEq, Eq, Structural)]
pub enum BankTxErrorKind {
    /// The line has no `|` at all: no account field.
    MissingAccount,
    /// The line has no debit field.
    MissingDebit,
    /// The line has no credit field.
    MissingCredit,
    /// The line has no memo field.
    MissingMemo,
    /// The date field is not a valid date.
    BadDate,
    /// Both the debit and the credit field hold an amount.
    BothAmounts,
    /// Neither the debit nor the credit field holds an amount.
    NoAmount,
}

/// A failed parse of a bank-statement line.
#[derive(Debug, PartialEq)]
pub struct BankTxError {
    pub kind: BankTxErrorKind,
    pub line: String,
}

impl BankTxError {
    /// The offending line.
    pub open spec fn line_spec(self) -> Seq<char> {
        self.line@
    }

    /// A diagnostic naming the failing field and quoting the line.
    pub fn message(&self) -> (r: String)
        ensures
            r@ == match self.kind {
                BankTxErrorKind::MissingAccount =>
                    "Error getting account from bank tx: '"@ + self.line_spec() + "'"@,
                BankTxErrorKind::MissingDebit =>
                    "Error getting debit from bank tx: '"@ + self.line_spec() + "'"@,
                BankTxErrorKind::MissingCredit =>
                    "Error getting credit from bank tx: '"@ + self.line_spec() + "'"@,
                BankTxErrorKind::MissingMemo =>
                    "Error getting memo from bank tx: '"@ + self.line_spec() + "'"@,
                BankTxErrorKind::BadDate =>
                    "Error parsing bank tx date: '"@ + self.line_spec() + "'"@,
                BankTxErrorKind::BothAmounts =>
                    "Both credit and debit given in bank tx: '"@ + self.line_spec() + "'"@,
                BankTxErrorKind::NoAmount =>
                    "Error parsing bank tx amount: '"@ + self.line_spec() + "'"@,
            },
    {
        let mut out: String = match self.kind {
            BankTxErrorKind::MissingAccount =>
                "Error getting account from bank tx: '".to_owned(),
            BankTxErrorKind::MissingDebit =>
                "Error getting debit from bank tx: '".to_owned(),
            BankTxErrorKind::MissingCredit =>
                "Error getting credit from bank tx: '".to_owned(),
            BankTxErrorKind::MissingMemo =>
                "Error getting memo from bank tx: '".to_owned(),
            BankTxErrorKind::BadDate =>
                "Error parsing bank tx date: '".to_owned(),
            BankTxErrorKind::BothAmounts =>
                "Both credit and debit given in bank tx: '".to_owned(),
            BankTxErrorKind::NoAmount =>
                "Error parsing bank tx amount: '".to_owned(),
        };
        out.append(self.line.as_str());
        out.append("'");
        out
    }
}

/// The text before the first `|` of `s`.
pub open spec fn first_seg(s: Seq<char>) -> Seq<char> {
    s.subrange(0, find_char(s, '|'))
}

/// The text after the first `|` of `s`; meaningful only when one occurs.
pub open spec fn rest_after(s: Seq<char>) -> Seq<char> {
    s.subrange(find_char(s, '|') + 1, s.len() as int)
}

/// Whether `s` holds a `|`.
pub open spec fn has_sep(s: Seq<char>) -> bool {
    find_char(s, '|') < s.len()
}

/// What a parsed bank-statement line denotes, field by field, or the
/// kind of failure it produces. Fields are `date | account | debit |
/// credit | memo`; every field but the date is trimmed, text past a
/// fifth `|` is ignored, and exactly one of debit and credit must
/// parse as an amount.
pub open spec fn bank_tx_of_chars(line: Seq<char>)
    -> Result<((int, int, int), Seq<char>, JournalAmount, Seq<char>), BankTxErrorKind> {
    let date_s = first_seg(line);
    if !has_sep(line) {
        Err(BankTxErrorKind::MissingAccount)
    } else {
        let r1 = rest_after(line);
        if !has_sep(r1) {
            Err(BankTxErrorKind::MissingDebit)
        } else {
            let r2 = rest_after(r1);
            if !has_sep(r2) {
                Err(BankTxErrorKind::MissingCredit)
            } else {
                let r3 = rest_after(r2);
                if !has_sep(r3) {
                    Err(BankTxErrorKind::MissingMemo)
                } else {
                    let r4 = rest_after(r3);
                    match ymd_of_chars(date_s) {
                        None => Err(BankTxErrorKind::BadDate),
                        Some(ymd) => {
                            let account = trimmed(first_seg(r1));
                            let debit = units_of_chars(trimmed(first_seg(r2)));
                            let credit = units_of_chars(trimmed(first_seg(r3)));
                            let memo = trimmed(first_seg(r4));
                            match (debit, credit) {
                                (Some(d), None) => Ok((
                                    ymd,
                                    account,
                                    JournalAmount::Debit(Money::spec_from_units(d)),
                                    memo,
                                )),
                                (None, Some(c)) => Ok((
                                    ymd,
                                    account,
                                    JournalAmount::Credit(Money::spec_from_units(c)),
                                    memo,
                                )),
                                (Some(_), Some(_)) => Err(BankTxErrorKind::BothAmounts),
                                (None, None) => Err(BankTxErrorKind::NoAmount),
                            }
                        },
                    }
                }
            }
        }
    }
}

impl BankTx {
    /// Parses a pipe-delimited bank-statement line.
    #[verifier::rlimit(100)]
    pub fn from_str(s: &str) -> (r: Result<BankTx, BankTxError>)
        ensures
            match r {
                Ok(tx) => bank_tx_of_chars(s@) matches Ok(f)
                    && f.0 == tx.date.ymd_spec()
                    && f.1 == tx.account@
                    && f.2 == tx.amount
                    && f.3 == tx.memo@,
                Err(e) => bank_tx_of_chars(s@) matches Err(k) && k == e.kind
                    && e.line_spec() == s@,
            },
    {
        let ghost line = s@;
        let len = s.unicode_len();
        proof {
            assert(line.subrange(0, len as int) =~= line);
        }
        let i1 = crate::text::find_from(s, 0, '|');
        proof {
            assert(first_seg(line) =~= line.subrange(0, i1 as int));
        }
        if i1 == len {
            return Err(BankTxError {
                kind: BankTxErrorKind::MissingAccount,
                line: s.to_owned(),
            });
        }
        let ghost r1 = rest_after(line);
        proof {
            assert(r1 =~= line.subrange(i1 as int + 1, len as int));
        }
        let i2 = crate::text::find_from(s, i1 + 1, '|');
        proof {
            assert(find_char(r1, '|') == i2 - (i1 + 1));
            assert(has_sep(r1) <==> i2 < len);
            assert(first_seg(r1) =~= line.subrange(i1 as int + 1, i2 as int));
        }
        if i2 == len {
            return Err(BankTxError {
                kind: BankTxErrorKind::MissingDebit,
                line: s.to_owned(),
            });
        }
        let ghost r2 = rest_after(r1);
        proof {
            assert(r2 =~= line.subrange(i2 as int + 1, len as int));
        }
        let i3 = crate::text::find_from(s, i2 + 1, '|');
        proof {
            assert(find_char(r2, '|') == i3 - (i2 + 1));
            assert(has_sep(r2) <==> i3 < len);
            assert(first_seg(r2) =~= line.subrange(i2 as int + 1, i3 as int));
        }
        if i3 == len {
            return Err(BankTxError {
                kind: BankTxErrorKind::MissingCredit,
                line: s.to_owned(),
            });
        }
        let ghost r3 = rest_after(r2);
        proof {
            assert(r3 =~= line.subrange(i3 as int + 1, len as int));
        }
        let i4 = crate::text::find_from(s, i3 + 1, '|');
        proof {
            assert(find_char(r3, '|') == i4 - (i3 + 1));
            assert(has_sep(r3) <==> i4 < len);
            assert(first_seg(r3) =~= line.subrange(i3 as int + 1, i4 as int));
        }
        if i4 == len {
            return Err(BankTxError {
                kind: BankTxErrorKind::MissingMemo,
                line: s.to_owned(),
            });
        }
        let ghost r4 = rest_after(r3);
        proof {
            assert(r4 =~= line.subrange(i4 as int + 1, len as int));
        }
        let i5 = crate::text::find_from(s, i4 + 1, '|');
        proof {
            assert(find_char(r4, '|') == i5 - (i4 + 1));
            assert(first_seg(r4) =~= line.subrange(i4 as int + 1, i5 as int));
        }
        let date_part = s.substring_char(0, i1);
        let date = match Date::parse(date_part) {
            Some(d) => d,
            None => {
                return Err(BankTxError {
                    kind: BankTxErrorKind::BadDate,
                    line: s.to_owned(),
                });
            },
        };
        let account = crate::text::trim(s.substring_char(i1 + 1, i2)).to_owned();
        let debit = Money::parse(crate::text::trim(s.substring_char(i2 + 1, i3)));
        let credit = Money::parse(crate::text::trim(s.substring_char(i3 + 1, i4)));
        let memo = crate::text::trim(s.substring_char(i4 + 1, i5)).to_owned();
        proof {
            if let Some(m) = debit {
                use_type_invariant(m);
                Money::lemma_spec_from_units(m.val());
                Money::lemma_val_injective(m, Money::spec_from_units(m.val()));
            }
            if let Some(m) = credit {
                use_type_invariant(m);
                Money::lemma_spec_from_units(m.val());
                Money::lemma_val_injective(m, Money::spec_from_units(m.val()));
            }
        }
        let amount = match (debit, credit) {
            (Some(d), None) => JournalAmount::Debit(d),
            (None, Some(c)) => JournalAmount::Credit(c),
            (Some(_), Some(_)) => {
                return Err(BankTxError {
                    kind: BankTxErrorKind::BothAmounts,
                    line: s.to_owned(),
                });
            },
            (None, None) => {
                return Err(BankTxError {
                    kind: BankTxErrorKind::NoAmount,
                    line: s.to_owned(),
                });
            },
        };
        Ok(BankTx { date, account, amount, memo })
    }
}

/// The field map of a transaction, as the rule evaluator sees it:
/// the date as text and as numeric components, the memo and account,
/// the magnitude under `debit` or `credit` matching the direction, and
/// the magnitude again under `amount`.
pub open spec fn bank_record_v(tx: BankTx) -> Seq<(Seq<char>, ValView)> {
    seq![
        ("date"@, ValView::Text(crate::date::date_chars(tx.date))),
        ("year"@, ValView::Num(tx.date.year_spec() * 10000)),
        ("month"@, ValView::Num(tx.date.month_spec() * 10000)),
        ("day"@, ValView::Num(tx.date.day_spec() * 10000)),
        ("memo"@, ValView::Text(tx.memo@)),
        ("account"@, ValView::Text(tx.account@)),
        (
            if tx.amount is Debit { "debit"@ } else { "credit"@ },
            ValView::Num(tx.amount.magnitude_val()),
        ),
        ("amount"@, ValView::Num(tx.amount.magnitude_val())),
    ]
}

impl BankTx {
    /// Projects the transaction into the typed field map consumed by
    /// the rule evaluator.
    pub fn field_record(&self) -> (r: FieldRecord)
        ensures
            r@ == bank_record_v(*self),
    {
        self.date.check_valid();
        let mut fields: Vec<(String, Value)> = Vec::new();
        fields.push(("date".to_owned(), Value::Text(self.date.to_chars())));
        fields.push((
            "year".to_owned(),
            Value::Number(Money::from_units(self.date.year() as i64 * 10_000)),
        ));
        fields.push((
            "month".to_owned(),
            Value::Number(Money::from_units(self.date.month() as i64 * 10_000)),
        ));
        fields.push((
            "day".to_owned(),
            Value::Number(Money::from_units(self.date.day() as i64 * 10_000)),
        ));
        fields.push(("memo".to_owned(), Value::Text(self.memo.clone())));
        fields.push(("account".to_owned(), Value::Text(self.account.clone())));
        let mag = self.amount.abs_amount();
        let side: &str = match &self.amount {
            JournalAmount::Debit(_) => "debit",
            JournalAmount::Credit(_) => "credit",
        };
        fields.push((side.to_owned(), Value::Number(mag)));
        fields.push(("amount".to_owned(), Value::Number(mag)));
        let ghost fv = fields@;
        let r = FieldRecord::from_pairs(fields);
        proof {
            crate::value::lemma_obj_view(fv);
            assert(r@ =~= bank_record_v(*self));
        }
        r
    }
}

/// Whether the rules let `tx` match a recorded entry with the given
/// date and lines: rule application must succeed, the bindings must
/// resolve, and the resolved bindings must match the entry.
pub open spec fn tx_matches(
    rules: Seq<rec_rules::RecRuleV>,
    tx: BankTx,
    jdate: Date,
    jlines: Seq<(Seq<char>, JournalAmount)>,
) -> bool {
    match rec_rules::apply_rules_v(
        rules, bank_record_v(tx), Seq::empty(), Seq::empty(), 0) {
        Err(_) => false,
        Ok(r) => match rec_rules::resolve_values_v(r.0, bank_record_v(tx)) {
            Err(_) => false,
            Ok(bs) => rec_rules::matches_entry_v(tx, bs, jdate, jlines),
        },
    }
}

/// The resolved `bank_account` binding the rules give `tx`, when rule
/// application and resolution succeed.
pub open spec fn tx_bank_account(
    rules: Seq<rec_rules::RecRuleV>,
    tx: BankTx,
) -> Option<Seq<char>> {
    match rec_rules::apply_rules_v(
        rules, bank_record_v(tx), Seq::empty(), Seq::empty(), 0) {
        Err(_) => None,
        Ok(r) => match rec_rules::resolve_values_v(r.0, bank_record_v(tx)) {
            Err(_) => None,
            Ok(bs) => rec_rules::binds_get(bs, "bank_account"@),
        },
    }
}

/// How many of the lines sit on `account`.
pub open spec fn count_on_account(
    lines: Seq<(Seq<char>, JournalAmount)>,
    account: Seq<char>,
) -> int
    decreases lines.len(),
{
    if lines.len() == 0 {
        0
    } else {
        count_on_account(lines.drop_last(), account)
            + if lines.last().0 == account { 1int } else { 0int }
    }
}

/// A pool of unmatched bank transactions together with the
/// reconciliation rules that classify them.
#[derive(Debug)]
pub struct BankTxs {
    pub txs: Vec<BankTx>,
    pub rules: rec_rules::RecRules,
}

impl BankTxs {
    /// Removes from the pool the transactions matched by the given
    /// recorded entry, up to the entry's line count on the matched
    /// bank account, and returns them.
    ///
    /// The pool keeps its other transactions (as a multiset); every
    /// removed transaction matches the entry; the number removed stays
    /// below each removed transaction's required line count; and when
    /// nothing is removed, no transaction of the pool matches.
    pub fn match_and_rm(&mut self, entry: crate::entry::Entry) -> (r: Vec<BankTx>)
        ensures
            final(self).rules.rules_spec() == old(self).rules.rules_spec(),
            old(self).txs@.to_multiset()
                == final(self).txs@.to_multiset().add(r@.to_multiset()),
            match crate::entry::entry_line_views(entry.body_spec()) {
                None => r@.len() == 0 && final(self).txs@ == old(self).txs@,
                Some(views) => {
                    &&& (forall|j: int| 0 <= j < r@.len()
                        ==> tx_matches(old(self).rules.rules_spec(), #[trigger] r@[j],
                            entry.date_spec(), views))
                    &&& (forall|j: int| 0 <= j < r@.len()
                        ==> j < count_on_account(views,
                            tx_bank_account(old(self).rules.rules_spec(),
                                #[trigger] r@[j]).unwrap()))
                    &&& (r@.len() == 0 ==> final(self).txs@ == old(self).txs@
                        && ((forall|k: int| 0 <= k < old(self).txs@.len()
                                ==> !tx_matches(old(self).rules.rules_spec(),
                                    #[trigger] old(self).txs@[k], entry.date_spec(), views))
                            || (exists|k: int| 0 <= k < old(self).txs@.len()
                                && tx_matches(old(self).rules.rules_spec(),
                                    #[trigger] old(self).txs@[k], entry.date_spec(), views)
                                && count_on_account(views,
                                    tx_bank_account(old(self).rules.rules_spec(),
                                        old(self).txs@[k]).unwrap()) == 0)))
                },
            },
    {
        broadcast use vstd::seq_lib::group_to_multiset_ensures;
        let ghost rulesv = self.rules.rules_spec();
        let mut removed: Vec<BankTx> = Vec::new();
        let je = match entry.to_journal_entry() {
            Ok(je) => je,
            Err(_) => {
                proof {
                    assert(old(self).txs@.to_multiset()
                        =~= self.txs@.to_multiset().add(removed@.to_multiset()));
                }
                return removed;
            },
        };
        let lines = je.lines();
        let ghost views = jline_views(lines@);
        loop
            invariant_except_break
                self.rules.rules_spec() == rulesv,
                rulesv == old(self).rules.rules_spec(),
                lines@ == je.lines_spec(),
                views == jline_views(lines@),
                Some(views) == crate::entry::entry_line_views(entry.body_spec()),
                je.date_spec() == entry.date_spec(),
                old(self).txs@.to_multiset()
                    == self.txs@.to_multiset().add(removed@.to_multiset()),
                forall|j: int| 0 <= j < removed@.len()
                    ==> tx_matches(rulesv, #[trigger] removed@[j],
                        entry.date_spec(), views),
                forall|j: int| 0 <= j < removed@.len()
                    ==> j < count_on_account(views,
                        tx_bank_account(rulesv, #[trigger] removed@[j]).unwrap()),
                removed@.len() == 0 ==> self.txs@ == old(self).txs@,
            ensures
                self.rules.rules_spec() == rulesv,
                old(self).txs@.to_multiset()
                    == self.txs@.to_multiset().add(removed@.to_multiset()),
                forall|j: int| 0 <= j < removed@.len()
                    ==> tx_matches(rulesv, #[trigger] removed@[j],
                        entry.date_spec(), views),
                forall|j: int| 0 <= j < removed@.len()
                    ==> j < count_on_account(views,
                        tx_bank_account(rulesv, #[trigger] removed@[j]).unwrap()),
                removed@.len() == 0 ==> self.txs@ == old(self).txs@
                    && ((forall|k: int| 0 <= k < old(self).txs@.len()
                            ==> !tx_matches(rulesv, #[trigger] old(self).txs@[k],
                                entry.date_spec(), views))
                        || (exists|k: int| 0 <= k < old(self).txs@.len()
                            && tx_matches(rulesv, #[trigger] old(self).txs@[k],
                                entry.date_spec(), views)
                            && count_on_account(views,
                                tx_bank_account(rulesv, old(self).txs@[k]).unwrap())
                                == 0)),
            decreases self.txs@.len(),
        {
            let mut found: Option<usize> = None;
            let mut i: usize = 0;
            while i < self.txs.len()
                invariant_except_break
                    0 <= i <= self.txs@.len(),
                    self.rules.rules_spec() == rulesv,
                    lines@ == je.lines_spec(),
                    views == jline_views(lines@),
                    je.date_spec() == entry.date_spec(),
                    found is None,
                    forall|k: int| 0 <= k < i
                        ==> !tx_matches(rulesv, #[trigger] self.txs@[k],
                            entry.date_spec(), views),
                ensures
                    match found {
                        None => forall|k: int| 0 <= k < self.txs@.len()
                            ==> !tx_matches(rulesv, #[trigger] self.txs@[k],
                                entry.date_spec(), views),
                        Some(p) => p < self.txs@.len()
                            && tx_matches(rulesv, self.txs@[p as int],
                                entry.date_spec(), views),
                    },
                decreases self.txs@.len() - i,
            {
                let tx = &self.txs[i];
                let hit = match self.rules.apply(tx) {
                    Ok(ge) => match ge.match_entry(&je) {
                        Ok(b) => b,
                        Err(_) => false,
                    },
                    Err(_) => false,
                };
                if hit {
                    found = Some(i);
                    break;
                }
                i = i + 1;
            }
            let pos = match found {
                Some(pos) => pos,
                None => {
                    break;
                },
            };
            // recompute the matched transaction's bank account to find
            // how many of the entry's lines it must consolidate
            let ge = match self.rules.apply(&self.txs[pos]) {
                Ok(ge) => ge,
                Err(_) => {
                    proof {
                        assert(false);
                    }
                    break;
                },
            };
            let evaled = match ge.evaluate() {
                Ok(p) => p.0,
                Err(_) => {
                    proof {
                        assert(false);
                    }
                    break;
                },
            };
            let acct = match rec_rules::binds_lookup(&evaled, "bank_account") {
                Some(a) => a.clone(),
                None => {
                    proof {
                        assert(false);
                    }
                    break;
                },
            };
            proof {
                assert(tx_bank_account(rulesv, self.txs@[pos as int]) == Some(acct@));
            }
            let mut required: usize = 0;
            let mut k: usize = 0;
            proof {
                assert(views.subrange(0, 0)
                    =~= Seq::<(Seq<char>, JournalAmount)>::empty());
            }
            while k < lines.len()
                invariant
                    0 <= k <= lines@.len(),
                    views == jline_views(lines@),
                    views.len() == lines@.len(),
                    lines@ == je.lines_spec(),
                    required == count_on_account(views.subrange(0, k as int), acct@),
                    required <= k,
                decreases lines@.len() - k,
            {
                proof {
                    let t = views.subrange(0, k as int + 1);
                    assert(t.drop_last() =~= views.subrange(0, k as int));
                    assert(t.last() == views[k as int]);
                    assert(views[k as int] == (lines@[k as int].0@, lines@[k as int].1));
                }
                if crate::text::str_eq(lines.line(k).0.as_str(), acct.as_str()) {
                    required = required + 1;
                }
                k = k + 1;
            }
            proof {
                assert(views.subrange(0, k as int) =~= views);
            }
            if removed.len() >= required {
                proof {
                    if removed@.len() == 0 {
                        assert(tx_matches(rulesv, self.txs@[pos as int],
                            entry.date_spec(), views)
                            && count_on_account(views,
                                tx_bank_account(rulesv, self.txs@[pos as int]).unwrap())
                                == 0);
                    }
                }
                break;
            }
            let ghost prev_txs = self.txs@;
            let ghost prev_removed = removed@;
            let tx = self.txs.remove(pos);
            removed.push(tx);
            proof {
                assert(self.txs@ == prev_txs.remove(pos as int));
                let elem = prev_txs[pos as int];
                prev_txs.to_multiset_ensures();
                prev_removed.to_multiset_ensures();
                assert(prev_txs.remove(pos as int).to_multiset()
                    =~= prev_txs.to_multiset().remove(elem));
                assert(prev_removed.push(elem).to_multiset()
                    =~= prev_removed.to_multiset().insert(elem));
                assert(removed@ == prev_removed.push(elem));
                assert(prev_txs.to_multiset().contains(elem));
                assert(old(self).txs@.to_multiset()
                    =~= self.txs@.to_multiset().add(removed@.to_multiset()));
                assert(removed@[prev_removed.len() as int] == prev_txs[pos as int]);
                assert(forall|j: int| 0 <= j < prev_removed.len()
                    ==> #[trigger] removed@[j] == prev_removed[j]);
            }
        }
        removed
    }

    /// Generates an entry for every transaction left in the pool, in
    /// order; the first failure aborts the whole batch.
    pub fn generate_entries(&self) -> (r: Result<Vec<crate::entry::Entry>, rec_rules::GenError>)
        ensures
            r matches Ok(es) ==> es@.len() == self.txs@.len()
                && forall|i: int| 0 <= i < self.txs@.len()
                    ==> rec_rules::generates_to(
                        self.rules.rules_spec(), #[trigger] self.txs@[i], es@[i]),
            r is Err ==> exists|i: int| 0 <= i < self.txs@.len()
                && !rec_rules::generation_ok(
                    self.rules.rules_spec(), #[trigger] self.txs@[i]),
    {
        let mut out: Vec<crate::entry::Entry> = Vec::new();
        let mut i: usize = 0;
        while i < self.txs.len()
            invariant
                0 <= i <= self.txs@.len(),
                out@.len() == i,
                forall|j: int| 0 <= j < i
                    ==> rec_rules::generates_to(
                        self.rules.rules_spec(), #[trigger] self.txs@[j], out@[j]),
            decreases self.txs@.len() - i,
        {
            let ge = match self.rules.apply(&self.txs[i]) {
                Ok(ge) => ge,
                Err(e) => {
                    let mut msg = "Error applying rules: ".to_owned();
                    msg.append(e.message().as_str());
                    return Err(rec_rules::GenError::from_message(msg));
                },
            };
            match ge.generate() {
                Ok(e) => {
                    out.push(e);
                },
                Err(e) => {
                    return Err(e);
                },
            }
            i = i + 1;
        }
        Ok(out)
    }

    /// Generates an entry for every transaction left in the pool, in
    /// order, keeping each transaction's own failure in its place
    /// instead of aborting the batch.
    pub fn generate_entries_partial(&self) -> (r: Vec<
        Result<crate::entry::Entry, rec_rules::GenError>,
    >)
        ensures
            r@.len() == self.txs@.len(),
            forall|i: int| 0 <= i < self.txs@.len()
                ==> ((#[trigger] r@[i]) is Ok <==> rec_rules::generation_ok(
                    self.rules.rules_spec(), self.txs@[i])),
            forall|i: int| 0 <= i < self.txs@.len()
                ==> ((#[trigger] r@[i]) matches Ok(e) ==> rec_rules::generates_to(
                    self.rules.rules_spec(), self.txs@[i], e)),
    {
        let mut out: Vec<Result<crate::entry::Entry, rec_rules::GenError>> = Vec::new();
        let mut i: usize = 0;
        while i < self.txs.len()
            invariant
                0 <= i <= self.txs@.len(),
                out@.len() == i,
                forall|j: int| 0 <= j < i
                    ==> ((#[trigger] out@[j]) is Ok <==> rec_rules::generation_ok(
                        self.rules.rules_spec(), self.txs@[j])),
                forall|j: int| 0 <= j < i
                    ==> ((#[trigger] out@[j]) matches Ok(e) ==> rec_rules::generates_to(
                        self.rules.rules_spec(), self.txs@[j], e)),
            decreases self.txs@.len() - i,
        {
            match self.rules.apply(&self.txs[i]) {
                Ok(ge) => {
                    out.push(ge.generate());
                },
                Err(e) => {
                    let mut msg = "Error applying rules: ".to_owned();
                    msg.append(e.message().as_str());
                    out.push(Err(rec_rules::GenError::from_message(msg)));
                },
            }
            i = i + 1;
        }
        out
    }
}

} // verus!

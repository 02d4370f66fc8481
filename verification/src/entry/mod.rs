//! Ledger entries: journal lines, payments and invoices, and their
//! conversion into balanced journal entries.

use vstd::prelude::*;

pub mod invoice;
pub mod journal;
pub mod payment;
pub mod raw;

use crate::date::{ymd_of_chars, Date};
use crate::money::{Money, MONEY_MAX_UNITS};
use invoice::{invoice_matches, invoice_raw_ok, item_total_spec, Invoice};
use journal::{
    build_views, jline_views, lemma_jline_views, views_credit_total, views_debit_total,
    JournalAmount, JournalEntry, JournalLine, JournalLines,
};
use payment::Payment;

verus! {

/// Why a raw entry could not be validated into a typed entry.
#[derive(Debug, PartialEq)]
pub struct EntryError {
    message: String,
}

impl EntryError {
    /// The description of the failure.
    pub closed spec fn message_spec(self) -> Seq<char> {
        self.message@
    }

    /// A short description of the failure.
    pub fn message(&self) -> (r: String)
        ensures
            r@ == self.message_spec(),
    {
        self.message.clone()
    }

    pub(crate) fn new(msg: &str) -> (r: EntryError) {
        EntryError { message: msg.to_owned() }
    }
}

/// The body of an entry: plain journal lines, a payment in either
/// direction, or an invoice in either direction.
#[derive(Debug)]
pub enum Body {
    Journal(JournalLines),
    PaymentSent(Payment),
    PaymentReceived(Payment),
    PurchaseInvoice(Invoice),
    SaleInvoice(Invoice),
}

/// A validated entry: an identifier, a date, an optional memo, an
/// uninterpreted recurrence rule, and a typed body.
#[derive(Debug)]
pub struct Entry {
    id: String,
    date: Date,
    memo: Option<String>,
    repeat: Option<String>,
    end: Option<String>,
    body: Body,
}

/// The account/amount pairs of one side of a raw journal entry.
pub open spec fn side_pairs(l: Option<raw::LinesV>) -> Seq<(Seq<char>, int)> {
    match l {
        None => Seq::empty(),
        Some(raw::LinesV::Simple(ps)) => ps,
        Some(raw::LinesV::Expanded(ps)) => ps,
    }
}

/// One side of a raw journal entry as ghost journal line pairs.
pub open spec fn side_views(
    l: Option<raw::LinesV>,
    credit: bool,
) -> Seq<(Seq<char>, JournalAmount)> {
    Seq::new(side_pairs(l).len(), |i: int| (
        side_pairs(l)[i].0,
        if credit {
            JournalAmount::Credit(Money::spec_from_units(side_pairs(l)[i].1))
        } else {
            JournalAmount::Debit(Money::spec_from_units(side_pairs(l)[i].1))
        },
    ))
}

/// The journal lines a raw entry asks for: its credits, then its debits.
pub open spec fn journal_input_views(raw: raw::Entry) -> Seq<(Seq<char>, JournalAmount)> {
    side_views(raw::opt_lines_view(raw.credits), true)
        + side_views(raw::opt_lines_view(raw.debits), false)
}

/// The billed pairs of an invoice, as debits when `debit` holds:
/// the items' totals, or the single invoice amount; `None` when an
/// item total is unrepresentable or both items and amount are absent.
pub open spec fn invoice_bill_views(
    inv: Invoice,
    debit: bool,
) -> Option<Seq<(Seq<char>, JournalAmount)>> {
    if inv.items@.len() > 0 {
        if forall|i: int| 0 <= i < inv.items@.len()
            ==> item_total_spec((#[trigger] inv.items@[i]).amount) is Some
        {
            Some(Seq::new(inv.items@.len(), |i: int| (
                inv.items@[i].account@,
                if debit {
                    JournalAmount::Debit(Money::spec_from_units(
                        item_total_spec(inv.items@[i].amount).unwrap()))
                } else {
                    JournalAmount::Credit(Money::spec_from_units(
                        item_total_spec(inv.items@[i].amount).unwrap()))
                },
            )))
        } else {
            None
        }
    } else {
        match inv.amount {
            Some(m) => Some(seq![(
                inv.account@,
                if debit { JournalAmount::Debit(m) } else { JournalAmount::Credit(m) },
            )]),
            None => None,
        }
    }
}

/// The payment pairs of an invoice, as credits when `credit` holds.
pub open spec fn invoice_payment_views(
    inv: Invoice,
    credit: bool,
) -> Seq<(Seq<char>, JournalAmount)> {
    match inv.payment {
        Some(p) => seq![(
            p.account@,
            if credit { JournalAmount::Credit(p.amount) } else { JournalAmount::Debit(p.amount) },
        )],
        None => Seq::empty(),
    }
}

/// The journal lines a body asks for, before balancing, together with
/// the account to balance against, if any.
pub open spec fn entry_plan(body: Body)
    -> Option<(Seq<(Seq<char>, JournalAmount)>, Option<Seq<char>>)> {
    match body {
        Body::Journal(ls) => Some((jline_views(ls@), None)),
        Body::PaymentSent(p) => Some((
            seq![
                (p.account@, JournalAmount::Credit(p.amount)),
                ("Accounts Payable"@, JournalAmount::Debit(p.amount)),
            ],
            None,
        )),
        Body::PaymentReceived(p) => Some((
            seq![
                (p.account@, JournalAmount::Debit(p.amount)),
                ("Accounts Receivable"@, JournalAmount::Credit(p.amount)),
            ],
            None,
        )),
        Body::PurchaseInvoice(inv) => match invoice_bill_views(inv, true) {
            Some(bill) => Some((
                bill + invoice_payment_views(inv, true),
                Some("Accounts Payable"@),
            )),
            None => None,
        },
        Body::SaleInvoice(inv) => match invoice_bill_views(inv, false) {
            Some(bill) => Some((
                bill + invoice_payment_views(inv, false),
                Some("Accounts Receivable"@),
            )),
            None => None,
        },
    }
}

/// The journal lines of a body once balanced and sorted, or `None`
/// exactly when the body cannot form a balanced entry.
pub open spec fn entry_line_views(body: Body) -> Option<Seq<(Seq<char>, JournalAmount)>> {
    match entry_plan(body) {
        None => None,
        Some((plan, bal)) => build_views(plan, bal),
    }
}

/// The signed net amount of the lines on `account`, in units, reading
/// debits as positive; `None` when no line names the account.
pub open spec fn net_of_account_v(
    s: Seq<(Seq<char>, JournalAmount)>,
    account: Seq<char>,
) -> Option<int>
    decreases s.len(),
{
    if s.len() == 0 {
        None
    } else {
        let rest = net_of_account_v(s.drop_last(), account);
        if s.last().0 == account {
            Some(match rest {
                Some(n) => n,
                None => 0,
            } + s.last().1.signed_val())
        } else {
            rest
        }
    }
}

/// The kind of entry a raw `type` field names.
pub open spec fn type_case(t: Option<Seq<char>>) -> int {
    if t == Some("Payment Sent"@) { 1int }
    else if t == Some("Payment Received"@) { 2int }
    else if t == Some("Purchase Invoice"@) { 3int }
    else if t == Some("Sales Invoice"@) { 4int }
    else if t is None || t == Some("Journal Entry"@) { 0int }
    else { -1int }
}

/// Whether a raw entry validates into a typed entry.
pub open spec fn entry_raw_ok(raw: raw::Entry) -> bool {
    &&& raw.id is Some
    &&& ymd_of_chars(raw.date@) is Some
    &&& ({
        let c = type_case(raw::opt_chars(raw.entry_type));
        if c == 1 || c == 2 {
            raw.party is Some && raw.account is Some && raw.amount is Some
        } else if c == 3 || c == 4 {
            invoice_raw_ok(raw)
        } else if c == 0 {
            journal_input_views(raw).len() > 0
                && views_debit_total(journal_input_views(raw))
                    == views_credit_total(journal_input_views(raw))
        } else {
            false
        }
    })
}

/// Appends one side of a raw journal entry to `lines`.
fn push_side(lines: &mut Vec<JournalLine>, side: &Option<raw::Lines>, credit: bool)
    ensures
        jline_views(final(lines)@)
            == jline_views(old(lines)@) + side_views(raw::opt_lines_view(*side), credit),
{
    let ghost base = lines@;
    let ghost want = side_views(raw::opt_lines_view(*side), credit);
    match side {
        None => {
            proof {
                assert(jline_views(lines@) =~= jline_views(base) + want);
            }
        },
        Some(raw::Lines::Simple(pairs)) => {
            let mut i: usize = 0;
            while i < pairs.len()
                invariant
                    0 <= i <= pairs@.len(),
                    *side == Some(raw::Lines::Simple(*pairs)),
                    want == side_views(raw::opt_lines_view(*side), credit),
                    want.len() == pairs@.len(),
                    lines@.len() == base.len() + i,
                    forall|j: int| 0 <= j < base.len()
                        ==> #[trigger] lines@[j] == base[j],
                    forall|j: int| base.len() <= j < base.len() + i
                        ==> ((#[trigger] lines@[j]).0@, lines@[j].1)
                            == want[j - base.len()],
                decreases pairs@.len() - i,
            {
                let m = pairs[i].1;
                proof {
                    use_type_invariant(m);
                    Money::lemma_spec_from_units(m.val());
                    Money::lemma_val_injective(m, Money::spec_from_units(m.val()));
                }
                let amount = if credit {
                    JournalAmount::Credit(m)
                } else {
                    JournalAmount::Debit(m)
                };
                lines.push(JournalLine(pairs[i].0.clone(), amount));
                i = i + 1;
            }
            proof {
                assert(jline_views(lines@) =~= jline_views(base) + want);
            }
        },
        Some(raw::Lines::Expanded(ls)) => {
            let mut i: usize = 0;
            while i < ls.len()
                invariant
                    0 <= i <= ls@.len(),
                    *side == Some(raw::Lines::Expanded(*ls)),
                    want == side_views(raw::opt_lines_view(*side), credit),
                    want.len() == ls@.len(),
                    lines@.len() == base.len() + i,
                    forall|j: int| 0 <= j < base.len()
                        ==> #[trigger] lines@[j] == base[j],
                    forall|j: int| base.len() <= j < base.len() + i
                        ==> ((#[trigger] lines@[j]).0@, lines@[j].1)
                            == want[j - base.len()],
                decreases ls@.len() - i,
            {
                let m = ls[i].amount;
                proof {
                    use_type_invariant(m);
                    Money::lemma_spec_from_units(m.val());
                    Money::lemma_val_injective(m, Money::spec_from_units(m.val()));
                }
                let amount = if credit {
                    JournalAmount::Credit(m)
                } else {
                    JournalAmount::Debit(m)
                };
                lines.push(JournalLine(ls[i].account.clone(), amount));
                i = i + 1;
            }
            proof {
                assert(jline_views(lines@) =~= jline_views(base) + want);
            }
        },
    }
}

impl Entry {
    #[verifier::type_invariant]
    spec fn type_inv(self) -> bool {
        match self.body {
            Body::Journal(ls) => ls.wf(),
            _ => true,
        }
    }

    /// The identifier.
    pub closed spec fn id_spec(self) -> Seq<char> {
        self.id@
    }

    /// The (start) date.
    pub closed spec fn date_spec(self) -> Date {
        self.date
    }

    /// The memo, if any.
    pub closed spec fn memo_spec(self) -> Option<Seq<char>> {
        raw::opt_chars(self.memo)
    }

    /// The uninterpreted recurrence rule, if any.
    pub closed spec fn repeat_spec(self) -> Option<Seq<char>> {
        raw::opt_chars(self.repeat)
    }

    /// The recurrence end date text, if any.
    pub closed spec fn end_spec(self) -> Option<Seq<char>> {
        raw::opt_chars(self.end)
    }

    /// The body.
    pub closed spec fn body_spec(self) -> Body {
        self.body
    }

    /// Validates a raw entry: the identifier and a parseable date are
    /// required, and the body builds according to the `type` field.
    pub fn from_raw(raw: &raw::Entry) -> (r: Result<Entry, EntryError>)
        ensures
            r is Ok <==> entry_raw_ok(*raw),
            r matches Ok(e) ==> {
                &&& e.id_spec() == raw.id.unwrap()@
                &&& Some(e.date_spec().ymd_spec()) == ymd_of_chars(raw.date@)
                &&& e.memo_spec() == raw::opt_chars(raw.memo)
                &&& e.repeat_spec() == raw::opt_chars(raw.repeat)
                &&& e.end_spec() == raw::opt_chars(raw.end)
                &&& ({
                    let c = type_case(raw::opt_chars(raw.entry_type));
                    if c == 1 {
                        e.body_spec() matches Body::PaymentSent(p)
                            && p.party@ == raw.party.unwrap()@
                            && p.account@ == raw.account.unwrap()@
                            && Some(p.amount) == raw.amount
                    } else if c == 2 {
                        e.body_spec() matches Body::PaymentReceived(p)
                            && p.party@ == raw.party.unwrap()@
                            && p.account@ == raw.account.unwrap()@
                            && Some(p.amount) == raw.amount
                    } else if c == 3 {
                        e.body_spec() matches Body::PurchaseInvoice(inv)
                            && invoice_matches(inv, *raw)
                    } else if c == 4 {
                        e.body_spec() matches Body::SaleInvoice(inv)
                            && invoice_matches(inv, *raw)
                    } else {
                        e.body_spec() matches Body::Journal(ls)
                            && ls.wf()
                            && jline_views(ls@)
                                == journal::debits_first_v(journal_input_views(*raw))
                    }
                })
            },
    {
        let id = match &raw.id {
            Some(s) => s.clone(),
            None => {
                return Err(EntryError::new("Id missing!"));
            },
        };
        let date = match Date::parse(raw.date.as_str()) {
            Some(d) => d,
            None => {
                return Err(EntryError::new("Entry date is not a valid YYYY-MM-DD date"));
            },
        };
        let case: i32 = match &raw.entry_type {
            Some(t) => {
                if crate::text::str_eq(t.as_str(), "Payment Sent") { 1 }
                else if crate::text::str_eq(t.as_str(), "Payment Received") { 2 }
                else if crate::text::str_eq(t.as_str(), "Purchase Invoice") { 3 }
                else if crate::text::str_eq(t.as_str(), "Sales Invoice") { 4 }
                else if crate::text::str_eq(t.as_str(), "Journal Entry") { 0 }
                else { -1 }
            },
            None => 0,
        };
        proof {
            assert(case as int == type_case(raw::opt_chars(raw.entry_type)));
        }
        let body = if case == 1 || case == 2 {
            let p = match Payment::from_raw(raw) {
                Ok(p) => p,
                Err(e) => {
                    return Err(e);
                },
            };
            if case == 1 { Body::PaymentSent(p) } else { Body::PaymentReceived(p) }
        } else if case == 3 || case == 4 {
            let inv = match Invoice::from_raw(raw) {
                Ok(inv) => inv,
                Err(e) => {
                    return Err(e);
                },
            };
            if case == 3 { Body::PurchaseInvoice(inv) } else { Body::SaleInvoice(inv) }
        } else if case == 0 {
            let mut lv: Vec<JournalLine> = Vec::new();
            proof {
                assert(jline_views(lv@) =~= Seq::<(Seq<char>, JournalAmount)>::empty());
            }
            push_side(&mut lv, &raw.credits, true);
            push_side(&mut lv, &raw.debits, false);
            proof {
                assert(Seq::<(Seq<char>, JournalAmount)>::empty()
                    + side_views(raw::opt_lines_view(raw.credits), true)
                    =~= side_views(raw::opt_lines_view(raw.credits), true));
                assert(jline_views(lv@) == journal_input_views(*raw));
                lemma_jline_views(lv@);
            }
            match JournalLines::new(lv, None) {
                Ok(ls) => Body::Journal(ls),
                Err(e) => {
                    return Err(EntryError::new(e.message().as_str()));
                },
            }
        } else {
            return Err(EntryError::new("not a valid Entry type"));
        };
        Ok(Entry {
            id,
            date,
            memo: raw::clone_opt_string(&raw.memo),
            repeat: raw::clone_opt_string(&raw.repeat),
            end: raw::clone_opt_string(&raw.end),
            body,
        })
    }

    /// The identifier.
    pub fn id(&self) -> (r: String)
        ensures
            r@ == self.id_spec(),
    {
        self.id.clone()
    }

    /// The (start) date.
    pub fn date(&self) -> (r: Date)
        ensures
            r == self.date_spec(),
    {
        self.date
    }

    /// The memo, if any.
    pub fn memo(&self) -> (r: Option<String>)
        ensures
            raw::opt_chars(r) == self.memo_spec(),
    {
        raw::clone_opt_string(&self.memo)
    }

    /// The uninterpreted recurrence rule, if any.
    pub fn repeat(&self) -> (r: Option<String>)
        ensures
            raw::opt_chars(r) == self.repeat_spec(),
    {
        raw::clone_opt_string(&self.repeat)
    }

    /// The recurrence end date text, if any.
    pub fn end_text(&self) -> (r: Option<String>)
        ensures
            raw::opt_chars(r) == self.end_spec(),
    {
        raw::clone_opt_string(&self.end)
    }

    /// The party of a payment or invoice body, if any.
    pub fn party(&self) -> (r: Option<String>)
        ensures
            match self.body_spec() {
                Body::PaymentSent(p) => r matches Some(s) && s@ == p.party@,
                Body::PaymentReceived(p) => r matches Some(s) && s@ == p.party@,
                Body::PurchaseInvoice(inv) => r matches Some(s) && s@ == inv.party@,
                Body::SaleInvoice(inv) => r matches Some(s) && s@ == inv.party@,
                Body::Journal(_) => r is None,
            },
    {
        match &self.body {
            Body::PaymentSent(p) => Some(p.party.clone()),
            Body::PaymentReceived(p) => Some(p.party.clone()),
            Body::PurchaseInvoice(inv) => Some(inv.party()),
            Body::SaleInvoice(inv) => Some(inv.party()),
            Body::Journal(_) => None,
        }
    }

    /// Builds the journal entry this entry denotes for the given date.
    pub fn to_journal_entry_for_date(&self, date: &Date) -> (r: Result<
        JournalEntry,
        EntryError,
    >)
        ensures
            r is Ok <==> entry_line_views(self.body_spec()) is Some,
            r matches Ok(je) ==> je.wf()
                && je.id_spec() == self.id_spec()
                && je.date_spec() == *date
                && je.memo_spec() == self.memo_spec()
                && Some(jline_views(je.lines_spec())) == entry_line_views(self.body_spec()),
    {
        proof {
            use_type_invariant(self);
        }
        let memo: Option<&str> = match &self.memo {
            Some(m) => Some(m.as_str()),
            None => None,
        };
        match &self.body {
            Body::Journal(ls) => {
                let lv = ls.to_vec();
                let ghost input = lv@;
                proof {
                    journal::lemma_jline_views(input);
                }
                match JournalEntry::new(self.id.as_str(), date, memo, lv, None) {
                    Ok(je) => {
                        proof {
                            journal::lemma_new_views(
                                input, None::<Seq<char>>, je.lines_spec());
                        }
                        Ok(je)
                    },
                    Err(_) => {
                        proof {
                            assert(false);
                        }
                        Err(EntryError::new("unbalanced journal entry"))
                    },
                }
            },
            Body::PaymentSent(p) => {
                let mut lv: Vec<JournalLine> = Vec::new();
                lv.push(JournalLine(p.account.clone(), JournalAmount::Credit(p.amount)));
                lv.push(JournalLine("Accounts Payable".to_owned(),
                    JournalAmount::Debit(p.amount)));
                let ghost input = lv@;
                proof {
                    assert(jline_views(input) =~= entry_plan(self.body_spec()).unwrap().0);
                    lemma_totals_two(input);
                }
                match JournalEntry::new(self.id.as_str(), date, memo, lv, None) {
                    Ok(je) => {
                        proof {
                            journal::lemma_new_views(
                                input, None::<Seq<char>>, je.lines_spec());
                        }
                        Ok(je)
                    },
                    Err(_) => {
                        proof {
                            assert(false);
                        }
                        Err(EntryError::new("unbalanced payment entry"))
                    },
                }
            },
            Body::PaymentReceived(p) => {
                let mut lv: Vec<JournalLine> = Vec::new();
                lv.push(JournalLine(p.account.clone(), JournalAmount::Debit(p.amount)));
                lv.push(JournalLine("Accounts Receivable".to_owned(),
                    JournalAmount::Credit(p.amount)));
                let ghost input = lv@;
                proof {
                    assert(jline_views(input) =~= entry_plan(self.body_spec()).unwrap().0);
                    lemma_totals_two(input);
                }
                match JournalEntry::new(self.id.as_str(), date, memo, lv, None) {
                    Ok(je) => {
                        proof {
                            journal::lemma_new_views(
                                input, None::<Seq<char>>, je.lines_spec());
                        }
                        Ok(je)
                    },
                    Err(_) => {
                        proof {
                            assert(false);
                        }
                        Err(EntryError::new("unbalanced payment entry"))
                    },
                }
            },
            Body::PurchaseInvoice(inv) => {
                self.invoice_journal_entry(inv, true, date, memo)
            },
            Body::SaleInvoice(inv) => {
                self.invoice_journal_entry(inv, false, date, memo)
            },
        }
    }

    /// Builds the journal entry of an invoice body: billed lines in the
    /// invoice's direction, payment lines against them, balanced on the
    /// payable or receivable contra account.
    fn invoice_journal_entry(
        &self,
        inv: &Invoice,
        purchase: bool,
        date: &Date,
        memo: Option<&str>,
    ) -> (r: Result<JournalEntry, EntryError>)
        requires
            purchase ==> (self.body_spec() matches Body::PurchaseInvoice(i) && i == *inv),
            !purchase ==> (self.body_spec() matches Body::SaleInvoice(i) && i == *inv),
        ensures
            r is Ok <==> entry_line_views(self.body_spec()) is Some,
            r matches Ok(je) ==> je.wf()
                && je.id_spec() == self.id_spec()
                && je.date_spec() == *date
                && je.memo_spec() == (match memo {
                    Some(m) => Some(m@),
                    None => None::<Seq<char>>,
                })
                && Some(jline_views(je.lines_spec())) == entry_line_views(self.body_spec()),
    {
        let bill = match inv.bill_lines() {
            Ok(b) => b,
            Err(e) => {
                return Err(e);
            },
        };
        let ghost billv = invoice_bill_views(*inv, purchase);
        let ghost bv = billv.unwrap();
        let mut lv: Vec<JournalLine> = Vec::new();
        let mut i: usize = 0;
        while i < bill.len()
            invariant
                0 <= i <= bill@.len(),
                lv@.len() == i,
                billv == invoice_bill_views(*inv, purchase),
                billv is Some,
                bv == billv.unwrap(),
                bv.len() == bill@.len(),
                forall|j: int| 0 <= j < i
                    ==> ((#[trigger] lv@[j]).0@, lv@[j].1) == bv[j],
                ({
                    if inv.items@.len() > 0 {
                        bill@.len() == inv.items@.len()
                        && forall|j: int| 0 <= j < bill@.len()
                            ==> ((#[trigger] bill@[j]).0@ == inv.items@[j].account@
                                && item_total_spec(inv.items@[j].amount)
                                    == Some(bill@[j].1.val()))
                    } else {
                        bill@.len() == 1 && bill@[0].0@ == inv.account@
                            && Some(bill@[0].1) == inv.amount
                    }
                }),
            decreases bill@.len() - i,
        {
            let m = bill[i].1;
            proof {
                use_type_invariant(m);
                Money::lemma_spec_from_units(m.val());
                Money::lemma_val_injective(m, Money::spec_from_units(m.val()));
            }
            let amount = if purchase {
                JournalAmount::Debit(m)
            } else {
                JournalAmount::Credit(m)
            };
            lv.push(JournalLine(bill[i].0.clone(), amount));
            i = i + 1;
        }
        let pay = inv.payment_lines();
        if pay.len() > 0 {
            let m = pay[0].1;
            let amount = if purchase {
                JournalAmount::Credit(m)
            } else {
                JournalAmount::Debit(m)
            };
            lv.push(JournalLine(pay[0].0.clone(), amount));
        }
        let ghost input = lv@;
        proof {
            assert(jline_views(input)
                =~= billv.unwrap() + invoice_payment_views(*inv, purchase));
            journal::lemma_jline_views(input);
        }
        let contra = if purchase {
            "Accounts Payable".to_owned()
        } else {
            "Accounts Receivable".to_owned()
        };
        match JournalEntry::new(self.id.as_str(), date, memo, lv, Some(contra)) {
            Ok(je) => {
                proof {
                    journal::lemma_new_views(
                        input,
                        Some(if purchase {
                            "Accounts Payable"@
                        } else {
                            "Accounts Receivable"@
                        }),
                        je.lines_spec(),
                    );
                }
                Ok(je)
            },
            Err(e) => {
                proof {
                    assert(entry_line_views(self.body_spec()) is None);
                }
                Err(EntryError::new(e.message().as_str()))
            },
        }
    }
}

impl Entry {
    /// Builds the journal entry this entry denotes at its own date.
    pub fn to_journal_entry(&self) -> (r: Result<JournalEntry, EntryError>)
        ensures
            r is Ok <==> entry_line_views(self.body_spec()) is Some,
            r matches Ok(je) ==> je.wf()
                && je.id_spec() == self.id_spec()
                && je.date_spec() == self.date_spec()
                && je.memo_spec() == self.memo_spec()
                && Some(jline_views(je.lines_spec())) == entry_line_views(self.body_spec()),
    {
        let d = self.date;
        self.to_journal_entry_for_date(&d)
    }

    /// The balanced journal lines this entry denotes.
    pub fn lines(&self) -> (r: Result<JournalLines, EntryError>)
        ensures
            r is Ok <==> entry_line_views(self.body_spec()) is Some,
            r matches Ok(ls) ==> ls.wf()
                && Some(jline_views(ls@)) == entry_line_views(self.body_spec()),
    {
        match self.to_journal_entry() {
            Ok(je) => Ok(je.lines()),
            Err(e) => Err(e),
        }
    }

    /// The net amount this entry moves on the given account: the signed
    /// sum of its lines there, as a canonical debit or credit. `None`
    /// when the entry has no lines, no line names the account, or the
    /// net leaves the representable range.
    pub fn amount_of_account(&self, account: &str) -> (r: Option<JournalAmount>)
        ensures
            match entry_line_views(self.body_spec()) {
                None => r is None,
                Some(views) => match net_of_account_v(views, account@) {
                    None => r is None,
                    Some(n) => if -MONEY_MAX_UNITS <= n <= MONEY_MAX_UNITS {
                        r == Some(JournalAmount::spec_of_signed(n))
                    } else {
                        r is None
                    },
                },
            },
    {
        let je = match self.to_journal_entry() {
            Ok(je) => je,
            Err(_) => {
                return None;
            },
        };
        let ls = je.lines();
        let ghost views = jline_views(ls@);
        let n = ls.len();
        let mut acc: i128 = 0;
        let mut found = false;
        let mut i: usize = 0;
        proof {
            assert(views.subrange(0, 0) =~= Seq::<(Seq<char>, JournalAmount)>::empty());
        }
        while i < n
            invariant
                0 <= i <= n,
                n == ls@.len(),
                views == jline_views(ls@),
                views.len() == n,
                Some(views) == entry_line_views(self.body_spec()),
                net_of_account_v(views.subrange(0, i as int), account@)
                    == if found { Some(acc as int) } else { None::<int> },
                !found ==> acc == 0,
                -(i as int) * MONEY_MAX_UNITS <= acc <= (i as int) * MONEY_MAX_UNITS,
            decreases n - i,
        {
            proof {
                let t = views.subrange(0, i as int + 1);
                assert(t.drop_last() =~= views.subrange(0, i as int));
                assert(t.last() == views[i as int]);
                assert(views[i as int] == (ls@[i as int].0@, ls@[i as int].1));
                assert((i as int) * MONEY_MAX_UNITS
                    <= (n as int) * MONEY_MAX_UNITS) by (nonlinear_arith)
                    requires 0 <= i as int <= n as int && MONEY_MAX_UNITS > 0;
                assert((n as int) * MONEY_MAX_UNITS
                    <= 18446744073709551615 * 1_000_000_000_000_000_000) by (nonlinear_arith)
                    requires n as int <= 18446744073709551615
                        && MONEY_MAX_UNITS == 1_000_000_000_000_000_000;
            }
            let l = ls.line(i);
            if crate::text::str_eq(l.0.as_str(), account) {
                let sv: i128 = match &l.1 {
                    JournalAmount::Debit(m) => {
                        proof { use_type_invariant(m); }
                        m.units() as i128
                    },
                    JournalAmount::Credit(m) => {
                        proof { use_type_invariant(m); }
                        -(m.units() as i128)
                    },
                };
                acc = acc + sv;
                found = true;
            }
            i = i + 1;
        }
        proof {
            assert(views.subrange(0, i as int) =~= views);
        }
        if !found {
            return None;
        }
        if acc < -(MONEY_MAX_UNITS as i128) || acc > MONEY_MAX_UNITS as i128 {
            return None;
        }
        proof {
            Money::lemma_spec_from_units(acc as int);
            Money::lemma_spec_from_units(-(acc as int));
        }
        if acc >= 0 {
            let m = Money::from_units(acc as i64);
            proof {
                Money::lemma_val_injective(m, Money::spec_from_units(acc as int));
            }
            Some(JournalAmount::Debit(m))
        } else {
            let m = Money::from_units((-acc) as i64);
            proof {
                Money::lemma_val_injective(m, Money::spec_from_units(-(acc as int)));
            }
            Some(JournalAmount::Credit(m))
        }
    }

    /// The magnitude of the entry: its total debits, which its total
    /// credits equal. Fails when the entry has no balanced lines or
    /// the total leaves the representable range.
    pub fn abs_amount(&self) -> (r: Result<Money, EntryError>)
        ensures
            match entry_line_views(self.body_spec()) {
                None => r is Err,
                Some(views) => {
                    let t = views_debit_total(views);
                    if -MONEY_MAX_UNITS <= t <= MONEY_MAX_UNITS {
                        r matches Ok(m) && m.val() == t
                            && t == views_credit_total(views)
                    } else {
                        r is Err
                    }
                },
            },
    {
        let je = match self.to_journal_entry() {
            Ok(je) => je,
            Err(e) => {
                return Err(e);
            },
        };
        let ls = je.lines();
        let ghost views = jline_views(ls@);
        let n = ls.len();
        let mut acc: i128 = 0;
        let mut i: usize = 0;
        proof {
            assert(views.subrange(0, 0) =~= Seq::<(Seq<char>, JournalAmount)>::empty());
            journal::lemma_jline_views(ls@);
            journal::lemma_balance_invariant(ls);
        }
        while i < n
            invariant
                0 <= i <= n,
                n == ls@.len(),
                views == jline_views(ls@),
                views.len() == n,
                acc == views_debit_total(views.subrange(0, i as int)),
                -(i as int) * MONEY_MAX_UNITS <= acc <= (i as int) * MONEY_MAX_UNITS,
            decreases n - i,
        {
            proof {
                let t = views.subrange(0, i as int + 1);
                assert(t.drop_last() =~= views.subrange(0, i as int));
                assert(t.last() == views[i as int]);
                assert(views[i as int] == (ls@[i as int].0@, ls@[i as int].1));
                assert((i as int) * MONEY_MAX_UNITS
                    <= (n as int) * MONEY_MAX_UNITS) by (nonlinear_arith)
                    requires 0 <= i as int <= n as int && MONEY_MAX_UNITS > 0;
                assert((n as int) * MONEY_MAX_UNITS
                    <= 18446744073709551615 * 1_000_000_000_000_000_000) by (nonlinear_arith)
                    requires n as int <= 18446744073709551615
                        && MONEY_MAX_UNITS == 1_000_000_000_000_000_000;
            }
            let l = ls.line(i);
            match &l.1 {
                JournalAmount::Debit(m) => {
                    proof { use_type_invariant(m); }
                    acc = acc + m.units() as i128;
                },
                JournalAmount::Credit(_) => {},
            }
            i = i + 1;
        }
        proof {
            assert(views.subrange(0, i as int) =~= views);
        }
        if acc < -(MONEY_MAX_UNITS as i128) || acc > MONEY_MAX_UNITS as i128 {
            return Err(EntryError::new("entry total is out of range"));
        }
        Ok(Money::from_units(acc as i64))
    }
}

/// The journal lines a document's `credits` and `debits` fields ask
/// for, meaningful when the document reads as a raw entry.
pub open spec fn doc_journal_input(
    o: Seq<(Seq<char>, crate::value::ValView)>,
) -> Seq<(Seq<char>, JournalAmount)> {
    side_views(raw::lines_field(o, "credits"@).unwrap(), true)
        + side_views(raw::lines_field(o, "debits"@).unwrap(), false)
}

/// Whether a document holds a valid invoice entry.
pub open spec fn doc_invoice_ok(o: Seq<(Seq<char>, crate::value::ValView)>) -> bool {
    &&& (raw::text_field(o, "account"@) matches Ok(Some(_)))
    &&& ((raw::items_field(o, "items"@).unwrap() is Some)
        != (raw::money_field(o, "amount"@).unwrap() is Some))
    &&& (raw::text_field(o, "party"@) matches Ok(Some(_)))
    &&& match raw::items_field(o, "items"@).unwrap() {
            Some(its) => ({
                let exp = raw::expanded_items_v(its);
                forall|i: int| 0 <= i < exp.len()
                    ==> invoice::item_shape_ok(#[trigger] exp[i])
            }),
            None => true,
        }
    &&& match raw::extras_field(o, "extras"@).unwrap() {
            Some(es) => forall|i: int| 0 <= i < es.len()
                ==> (((#[trigger] es[i]).amount is Some) != (es[i].rate is Some)),
            None => true,
        }
}

/// Whether a document validates into a typed entry: every field reads
/// at its type, `id` and a parseable `date` are present, and the body
/// named by `type` is well-formed.
pub open spec fn doc_entry_ok(o: Seq<(Seq<char>, crate::value::ValView)>) -> bool {
    &&& raw::entry_doc_ok(o)
    &&& (raw::text_field(o, "id"@) matches Ok(Some(_)))
    &&& ymd_of_chars(raw::text_field(o, "date"@).unwrap().unwrap()) is Some
    &&& ({
        let c = type_case(raw::text_field(o, "type"@).unwrap());
        if c == 1 || c == 2 {
            (raw::text_field(o, "party"@) matches Ok(Some(_)))
            && (raw::text_field(o, "account"@) matches Ok(Some(_)))
            && (raw::money_field(o, "amount"@) matches Ok(Some(_)))
        } else if c == 3 || c == 4 {
            doc_invoice_ok(o)
        } else if c == 0 {
            doc_journal_input(o).len() > 0
                && views_debit_total(doc_journal_input(o))
                    == views_credit_total(doc_journal_input(o))
        } else {
            false
        }
    })
}

/// A raw entry read from a document validates exactly when the
/// document does.
pub proof fn lemma_doc_raw_bridge(o: Seq<(Seq<char>, crate::value::ValView)>, e: raw::Entry)
    requires
        raw::entry_doc_ok(o),
        raw::text_field(o, "id"@) == Ok::<Option<Seq<char>>, ()>(raw::opt_chars(e.id)),
        raw::text_field(o, "type"@)
            == Ok::<Option<Seq<char>>, ()>(raw::opt_chars(e.entry_type)),
        raw::text_field(o, "date"@) == Ok::<Option<Seq<char>>, ()>(Some(e.date@)),
        raw::text_field(o, "memo"@) == Ok::<Option<Seq<char>>, ()>(raw::opt_chars(e.memo)),
        raw::lines_field(o, "credits"@)
            == Ok::<Option<raw::LinesV>, ()>(raw::opt_lines_view(e.credits)),
        raw::lines_field(o, "debits"@)
            == Ok::<Option<raw::LinesV>, ()>(raw::opt_lines_view(e.debits)),
        raw::text_field(o, "party"@) == Ok::<Option<Seq<char>>, ()>(raw::opt_chars(e.party)),
        raw::text_field(o, "account"@)
            == Ok::<Option<Seq<char>>, ()>(raw::opt_chars(e.account)),
        raw::money_field(o, "amount"@) == Ok::<Option<int>, ()>(raw::opt_units(e.amount)),
        raw::items_field(o, "items"@)
            == Ok::<Option<raw::ItemsV>, ()>(raw::opt_items_view(e.items)),
        raw::extras_field(o, "extras"@)
            == Ok::<Option<Seq<raw::ExtraV>>, ()>(raw::opt_extras_view(e.extras)),
        raw::payment_field(o, "payment"@)
            == Ok::<Option<raw::PaymentV>, ()>(raw::opt_payment_view(e.payment)),
    ensures
        entry_raw_ok(e) <==> doc_entry_ok(o),
{
    let c = type_case(raw::opt_chars(e.entry_type));
    assert(raw::text_field(o, "type"@).unwrap() == raw::opt_chars(e.entry_type));
    if c == 3 || c == 4 {
        assert((e.account is Some)
            == (raw::text_field(o, "account"@) matches Ok(Some(_))));
        assert((e.party is Some)
            == (raw::text_field(o, "party"@) matches Ok(Some(_))));
        assert((e.items is Some) == (raw::items_field(o, "items"@).unwrap() is Some));
        assert((e.amount is Some) == (raw::money_field(o, "amount"@).unwrap() is Some));
        match e.items {
            Some(its) => {
                assert(raw::items_field(o, "items"@).unwrap()
                    == Some(raw::items_view(its)));
            },
            None => {},
        }
        match e.extras {
            Some(es) => {
                let esv = raw::opt_extras_view(e.extras).unwrap();
                assert(raw::extras_field(o, "extras"@).unwrap() == Some(esv));
                assert(esv.len() == es@.len());
                assert forall|i: int| 0 <= i < es@.len()
                    implies ((((#[trigger] esv[i]).amount) is Some)
                        == ((es@[i].amount) is Some)
                        && ((esv[i].rate) is Some) == ((es@[i].rate) is Some)) by {
                    assert(esv[i] == raw::extra_view(es@[i]));
                }
                if forall|i: int| 0 <= i < esv.len()
                    ==> (((#[trigger] esv[i]).amount is Some) != (esv[i].rate is Some))
                {
                    assert forall|i: int| 0 <= i < es@.len()
                        implies ((((#[trigger] es@[i]).amount) is Some)
                            != ((es@[i].rate) is Some)) by {
                        assert((esv[i].amount is Some) != (esv[i].rate is Some));
                        assert(esv[i] == raw::extra_view(es@[i]));
                    }
                }
                if forall|i: int| 0 <= i < es@.len()
                    ==> ((((#[trigger] es@[i]).amount) is Some) != ((es@[i].rate) is Some))
                {
                    assert forall|i: int| 0 <= i < esv.len()
                        implies (((#[trigger] esv[i]).amount is Some)
                            != (esv[i].rate is Some)) by {
                        assert(((es@[i]).amount is Some) != ((es@[i]).rate is Some));
                        assert(esv[i] == raw::extra_view(es@[i]));
                    }
                }
            },
            None => {
                assert(raw::extras_field(o, "extras"@).unwrap() is None);
            },
        }
        assert(invoice_raw_ok(e) <==> doc_invoice_ok(o));
    } else if c == 0 {
        assert(journal_input_views(e) == doc_journal_input(o));
    }
}

/// Every entry that forms journal lines is balanced: the debit and
/// credit totals of its lines agree, whatever its body.
pub proof fn lemma_entry_views_balanced(body: Body)
    ensures
        entry_line_views(body) matches Some(v)
            ==> views_debit_total(v) == views_credit_total(v),
{
    match entry_plan(body) {
        None => {},
        Some((plan, bal)) => {
            journal::lemma_build_views_balanced(plan, bal);
        },
    }
}

/// The identifier a raw entry defaults to when none is given: its date
/// text, a `|`, and its type or `Journal Entry`.
pub open spec fn default_id_chars(raw: raw::Entry) -> Seq<char> {
    raw.date@ + "|"@ + match raw.entry_type {
        Some(t) => t@,
        None => "Journal Entry"@,
    }
}

/// Fills the identifier of a raw entry, when absent, with the default
/// derived from its date and type; all other fields stay as they are.
pub fn default_id(raw: &mut raw::Entry)
    ensures
        final(raw).id matches Some(s) && s@ == match old(raw).id {
            Some(t) => t@,
            None => default_id_chars(*old(raw)),
        },
        final(raw).entry_type == old(raw).entry_type,
        final(raw).date == old(raw).date,
        final(raw).memo == old(raw).memo,
        final(raw).credits == old(raw).credits,
        final(raw).debits == old(raw).debits,
        final(raw).party == old(raw).party,
        final(raw).account == old(raw).account,
        final(raw).amount == old(raw).amount,
        final(raw).items == old(raw).items,
        final(raw).extras == old(raw).extras,
        final(raw).payment == old(raw).payment,
        final(raw).repeat == old(raw).repeat,
        final(raw).end == old(raw).end,
{
    if raw.id.is_none() {
        let mut s = raw.date.clone();
        s.append("|");
        match &raw.entry_type {
            Some(t) => s.append(t.as_str()),
            None => s.append("Journal Entry"),
        }
        raw.id = Some(s);
    }
}

/// Totals of a two-line set holding one debit and one credit of the
/// same amount.
proof fn lemma_totals_two(s: Seq<JournalLine>)
    requires
        s.len() == 2,
        s[1].1.signed_val() == -s[0].1.signed_val(),
    ensures
        journal::debit_total(s) == journal::credit_total(s),
{
    let t = s.drop_last();
    assert(t.drop_last() =~= Seq::<JournalLine>::empty());
    assert(t.last() == s[0]);
    assert(s.last() == s[1]);
    assert(journal::debit_total(Seq::<JournalLine>::empty()) == 0);
    assert(journal::credit_total(Seq::<JournalLine>::empty()) == 0);
    assert(journal::debit_total(t) == match s[0].1 {
        JournalAmount::Debit(m) => m.val(),
        JournalAmount::Credit(_) => 0,
    });
    assert(journal::credit_total(t) == match s[0].1 {
        JournalAmount::Credit(m) => m.val(),
        JournalAmount::Debit(_) => 0,
    });
    assert(journal::debit_total(s) == journal::debit_total(t) + match s[1].1 {
        JournalAmount::Debit(m) => m.val(),
        JournalAmount::Credit(_) => 0,
    });
    assert(journal::credit_total(s) == journal::credit_total(t) + match s[1].1 {
        JournalAmount::Credit(m) => m.val(),
        JournalAmount::Debit(_) => 0,
    });
}

} // verus!

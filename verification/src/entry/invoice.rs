//! An invoice entry body: billed items and any payment already made.

use vstd::prelude::*;
use crate::money::{Money, MONEY_MAX_UNITS};
use super::raw;
use super::EntryError;

verus! {

/// The amount of one invoice item: given directly, or as a rate times
/// a quantity.
#[derive(Debug, PartialEq, Clone, Copy)]
pub enum InvoiceItemAmount {
    Total(Money),
    ByRate { rate: Money, quantity: Money },
}

/// One billed line of an invoice.
#[derive(Debug, PartialEq)]
pub struct InvoiceItem {
    pub description: Option<String>,
    pub code: Option<String>,
    pub account: String,
    pub amount: InvoiceItemAmount,
}

/// The amount of an extra charge: given directly, or as a rate.
#[derive(Debug, PartialEq, Clone, Copy)]
pub enum InvoiceExtraAmount {
    Total(Money),
    Rate(Money),
}

/// An extra charge carried on an invoice; not yet billed.
#[derive(Debug, PartialEq)]
pub struct InvoiceExtra {
    pub description: Option<String>,
    pub account: String,
    pub amount: InvoiceExtraAmount,
}

/// An invoice: a party, a default account, and either a total amount
/// or a list of items; optionally extra charges and a payment.
#[derive(Debug, PartialEq)]
pub struct Invoice {
    pub party: String,
    pub account: String,
    pub amount: Option<Money>,
    pub items: Vec<InvoiceItem>,
    pub extras: Option<Vec<InvoiceExtra>>,
    pub payment: Option<raw::Payment>,
}

/// The unit count an item amount denotes: a direct total, or the rate
/// times the quantity truncated towards zero to four decimal places;
/// `None` when the product leaves the representable range.
pub open spec fn item_total_spec(a: InvoiceItemAmount) -> Option<int> {
    match a {
        InvoiceItemAmount::Total(m) => Some(m.val()),
        InvoiceItemAmount::ByRate { rate, quantity } => {
            let p = rate.val() * quantity.val();
            let t = if p >= 0 { p / 10000 } else { -((-p) / 10000) };
            if -MONEY_MAX_UNITS <= t <= MONEY_MAX_UNITS {
                Some(t)
            } else {
                None
            }
        },
    }
}

/// Whether a raw item in expanded form can become an invoice item:
/// either a rate and a quantity, or an amount alone.
pub open spec fn item_shape_ok(it: raw::ItemV) -> bool {
    (it.quantity is Some && it.rate is Some && it.amount is None)
        || (it.quantity is None && it.rate is None && it.amount is Some)
}

impl InvoiceItem {
    /// Builds an invoice item from a raw item, falling back to the
    /// given account when the item names none.
    pub fn from_raw(item: raw::Item, default_account: &str) -> (r: Result<
        InvoiceItem,
        EntryError,
    >)
        ensures
            r is Ok <==> item_shape_ok(raw::item_view(item)),
            r matches Ok(it) ==> {
                let v = raw::item_view(item);
                &&& raw::opt_chars(it.description) == v.description
                &&& raw::opt_chars(it.code) == v.code
                &&& it.account@ == match v.account {
                        Some(a) => a,
                        None => default_account@,
                    }
                &&& match it.amount {
                        InvoiceItemAmount::Total(m) => v.amount == Some(m.val()),
                        InvoiceItemAmount::ByRate { rate, quantity } =>
                            v.rate == Some(rate.val()) && v.quantity == Some(quantity.val()),
                    }
            },
    {
        let account = match item.account {
            Some(a) => a,
            None => default_account.to_owned(),
        };
        let amount = match (item.quantity, item.rate, item.amount) {
            (Some(quantity), Some(rate), None) => InvoiceItemAmount::ByRate { rate, quantity },
            (None, None, Some(amount)) => InvoiceItemAmount::Total(amount),
            _ => {
                return Err(EntryError::new(
                    "Invoice Item must specify either amount exclusively or rate and quantity",
                ));
            },
        };
        Ok(InvoiceItem {
            description: item.description,
            code: item.code,
            account,
            amount,
        })
    }

    /// The unit total of the item, refusing products outside the
    /// representable range.
    pub fn total(&self) -> (r: Result<Money, EntryError>)
        ensures
            r is Ok <==> item_total_spec(self.amount) is Some,
            r matches Ok(m) ==> item_total_spec(self.amount) == Some(m.val()),
    {
        match &self.amount {
            InvoiceItemAmount::Total(m) => Ok(*m),
            InvoiceItemAmount::ByRate { rate, quantity } => {
                proof {
                    use_type_invariant(rate);
                    use_type_invariant(quantity);
                }
                let ru = rate.units() as i128;
                let qu = quantity.units() as i128;
                proof {
                    assert(-1000000000000000000000000000000000000
                        <= ru * qu <= 1000000000000000000000000000000000000)
                        by (nonlinear_arith)
                        requires -1000000000000000000 <= ru <= 1000000000000000000
                            && -1000000000000000000 <= qu <= 1000000000000000000;
                }
                let p = ru * qu;
                let t: i128 = if p >= 0 { p / 10_000 } else { -((-p) / 10_000) };
                proof {
                    if p >= 0 {
                        vstd::arithmetic::div_mod::lemma_div_is_ordered_by_denominator(
                            p as int, 1, 10000);
                    } else {
                        vstd::arithmetic::div_mod::lemma_div_is_ordered_by_denominator(
                            -(p as int), 1, 10000);
                    }
                }
                if t < -MONEY_MAX_UNITS as i128 || t > MONEY_MAX_UNITS as i128 {
                    return Err(EntryError::new("Invoice item amount is out of range"));
                }
                Ok(Money::from_units(t as i64))
            },
        }
    }
}

impl InvoiceExtra {
    /// Builds an extra charge from a raw extra: an amount or a rate,
    /// not both and not neither.
    pub fn from_raw(extra: raw::Extra) -> (r: Result<InvoiceExtra, EntryError>)
        ensures
            r is Ok <==> ((extra.amount is Some) != (extra.rate is Some)),
            r matches Ok(e) ==> raw::opt_chars(e.description)
                    == raw::opt_chars(extra.description)
                && e.account@ == extra.account@
                && match e.amount {
                    InvoiceExtraAmount::Total(m) => extra.amount == Some(m),
                    InvoiceExtraAmount::Rate(m) => extra.rate == Some(m),
                },
    {
        let amount = match (extra.amount, extra.rate) {
            (Some(amount), None) => InvoiceExtraAmount::Total(amount),
            (None, Some(rate)) => InvoiceExtraAmount::Rate(rate),
            _ => {
                return Err(EntryError::new(
                    "Invoice Extra must specify either amount or rate",
                ));
            },
        };
        Ok(InvoiceExtra {
            description: extra.description,
            account: extra.account,
            amount,
        })
    }
}

impl Invoice {
    /// The party billed or billing.
    pub fn party(&self) -> (r: String)
        ensures
            r@ == self.party@,
    {
        self.party.clone()
    }

    /// The billed account/amount pairs: the items' totals, or the
    /// invoice amount against its account when there are no items.
    pub fn bill_lines(&self) -> (r: Result<Vec<(String, Money)>, EntryError>)
        ensures
            ({
                if self.items@.len() > 0 {
                    &&& r is Ok <==> (forall|i: int| 0 <= i < self.items@.len()
                            ==> item_total_spec((#[trigger] self.items@[i]).amount) is Some)
                    &&& (r matches Ok(ls) ==> ls@.len() == self.items@.len()
                            && forall|i: int| 0 <= i < self.items@.len()
                                ==> ((#[trigger] ls@[i]).0@ == self.items@[i].account@
                                    && item_total_spec(self.items@[i].amount)
                                        == Some(ls@[i].1.val())))
                } else {
                    &&& r is Ok <==> self.amount is Some
                    &&& (r matches Ok(ls) ==> ls@.len() == 1
                            && ls@[0].0@ == self.account@
                            && Some(ls@[0].1) == self.amount)
                }
            }),
    {
        if self.items.len() > 0 {
            let mut out: Vec<(String, Money)> = Vec::new();
            let mut i: usize = 0;
            while i < self.items.len()
                invariant
                    0 <= i <= self.items@.len(),
                    out@.len() == i,
                    forall|j: int| 0 <= j < i
                        ==> ((#[trigger] out@[j]).0@ == self.items@[j].account@
                            && item_total_spec(self.items@[j].amount)
                                == Some(out@[j].1.val())),
                decreases self.items@.len() - i,
            {
                let item = &self.items[i];
                match item.total() {
                    Ok(m) => {
                        out.push((item.account.clone(), m));
                    },
                    Err(e) => {
                        return Err(e);
                    },
                }
                i = i + 1;
            }
            proof {
                assert forall|i2: int| 0 <= i2 < self.items@.len()
                    implies item_total_spec(
                        (#[trigger] self.items@[i2]).amount) is Some by {
                    assert(item_total_spec(self.items@[i2].amount)
                        == Some(out@[i2].1.val()));
                }
            }
            Ok(out)
        } else {
            match &self.amount {
                Some(m) => {
                    let mut out: Vec<(String, Money)> = Vec::new();
                    out.push((self.account.clone(), *m));
                    Ok(out)
                },
                None => Err(EntryError::new("Items empty and no amount in invoice")),
            }
        }
    }

    /// The payment account/amount pairs: the recorded payment, if any.
    pub fn payment_lines(&self) -> (r: Vec<(String, Money)>)
        ensures
            match self.payment {
                Some(p) => r@.len() == 1 && r@[0].0@ == p.account@ && r@[0].1 == p.amount,
                None => r@.len() == 0,
            },
    {
        let mut out: Vec<(String, Money)> = Vec::new();
        if let Some(p) = &self.payment {
            out.push((p.account.clone(), p.amount));
        }
        out
    }

    /// Builds an invoice from a raw entry: `party` and `account` are
    /// required, exactly one of `items` and `amount` must be given,
    /// and every item and extra must be well-shaped.
    pub fn from_raw(raw: &raw::Entry) -> (r: Result<Invoice, EntryError>)
        ensures
            r is Ok <==> invoice_raw_ok(*raw),
            r matches Ok(inv) ==> invoice_matches(inv, *raw),
    {
        let account = match &raw.account {
            Some(a) => a.clone(),
            None => {
                return Err(EntryError::new("Account required for Invoice"));
            },
        };
        if (raw.items.is_some()) == (raw.amount.is_some()) {
            return Err(EntryError::new("Either items or amount required for Invoice"));
        }
        let party = match &raw.party {
            Some(p) => p.clone(),
            None => {
                return Err(EntryError::new("Party required for Invoice"));
            },
        };
        let amount = if raw.items.is_none() { raw.amount } else { None };
        let ghost rawg = *raw;
        let mut items: Vec<InvoiceItem> = Vec::new();
        if let Some(raw_items) = &raw.items {
            let ghost exp = raw::expanded_items_v(raw::items_view(*raw_items));
            let expanded = raw_items.as_expanded();
            let mut i: usize = 0;
            while i < expanded.len()
                invariant
                    rawg == *raw,
                    raw.items == Some(*raw_items),
                    exp == raw::expanded_items_v(raw::items_view(*raw_items)),
                    0 <= i <= expanded@.len(),
                    exp.len() == expanded@.len(),
                    forall|j: int| 0 <= j < expanded@.len()
                        ==> raw::item_view(#[trigger] expanded@[j]) == exp[j],
                    raw.account is Some,
                    account@ == raw.account.unwrap()@,
                    items@.len() == i,
                    forall|j: int| 0 <= j < i ==> item_shape_ok(#[trigger] exp[j]),
                    forall|j: int| 0 <= j < i
                        ==> item_matches(#[trigger] items@[j], exp[j], account@),
                decreases expanded@.len() - i,
            {
                match InvoiceItem::from_raw(expanded[i].clone(), account.as_str()) {
                    Ok(it) => {
                        items.push(it);
                    },
                    Err(e) => {
                        proof {
                            assert(!item_shape_ok(exp[i as int]));
                        }
                        return Err(e);
                    },
                }
                i = i + 1;
            }
        }
        let mut extras: Option<Vec<InvoiceExtra>> = None;
        if let Some(raw_extras) = &raw.extras {
            let mut built: Vec<InvoiceExtra> = Vec::new();
            let mut i: usize = 0;
            while i < raw_extras.len()
                invariant
                    rawg == *raw,
                    raw.extras == Some(*raw_extras),
                    0 <= i <= raw_extras@.len(),
                    forall|j: int| 0 <= j < i
                        ==> ((#[trigger] raw_extras@[j].amount) is Some)
                            != (raw_extras@[j].rate is Some),
                decreases raw_extras@.len() - i,
            {
                let e = &raw_extras[i];
                match InvoiceExtra::from_raw(raw::Extra {
                    description: raw::clone_opt_string(&e.description),
                    account: e.account.clone(),
                    amount: e.amount,
                    rate: e.rate,
                }) {
                    Ok(built_extra) => {
                        built.push(built_extra);
                    },
                    Err(err) => {
                        proof {
                            assert(((raw_extras@[i as int].amount) is Some)
                                == (raw_extras@[i as int].rate is Some));
                        }
                        return Err(err);
                    },
                }
                i = i + 1;
            }
            extras = Some(built);
        }
        let payment = match &raw.payment {
            Some(p) => Some(raw::Payment { account: p.account.clone(), amount: p.amount }),
            None => None,
        };
        Ok(Invoice {
            party,
            account,
            amount,
            items,
            extras,
            payment,
        })
    }
}

/// How a built invoice item reflects its raw form: descriptions and
/// codes carried over, the account defaulted, and the amount shape
/// preserved.
pub open spec fn item_matches(it: InvoiceItem, v: raw::ItemV, def: Seq<char>) -> bool {
    &&& raw::opt_chars(it.description) == v.description
    &&& raw::opt_chars(it.code) == v.code
    &&& it.account@ == match v.account {
            Some(a) => a,
            None => def,
        }
    &&& match it.amount {
            InvoiceItemAmount::Total(m) => v.amount == Some(m.val()),
            InvoiceItemAmount::ByRate { rate, quantity } =>
                v.rate == Some(rate.val()) && v.quantity == Some(quantity.val()),
        }
}

/// How a built invoice reflects its raw entry.
pub open spec fn invoice_matches(inv: Invoice, raw: raw::Entry) -> bool {
    &&& (raw.party matches Some(party) && inv.party@ == party@)
    &&& (raw.account matches Some(account) && inv.account@ == account@)
    &&& inv.amount == if raw.items is None { raw.amount } else { None::<Money> }
    &&& (raw.payment matches Some(p)
            ==> inv.payment matches Some(q)
                && q.account@ == p.account@ && q.amount == p.amount)
    &&& (raw.payment is None ==> inv.payment is None)
    &&& match raw.items {
            Some(its) => ({
                let exp = raw::expanded_items_v(raw::items_view(its));
                inv.items@.len() == exp.len()
                && forall|i: int| 0 <= i < exp.len()
                    ==> item_matches(#[trigger] inv.items@[i], exp[i], raw.account.unwrap()@)
            }),
            None => inv.items@.len() == 0,
        }
}

/// Whether a raw entry can become an invoice.
pub open spec fn invoice_raw_ok(raw: raw::Entry) -> bool {
    &&& raw.account is Some
    &&& (raw.items is Some) != (raw.amount is Some)
    &&& raw.party is Some
    &&& match raw.items {
            Some(its) => ({
                let exp = raw::expanded_items_v(raw::items_view(its));
                forall|i: int| 0 <= i < exp.len() ==> item_shape_ok(#[trigger] exp[i])
            }),
            None => true,
        }
    &&& match raw.extras {
            Some(es) => forall|i: int| 0 <= i < es@.len()
                ==> (((#[trigger] es@[i].amount) is Some) != (es@[i].rate is Some)),
            None => true,
        }
}

} // verus!

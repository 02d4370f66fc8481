//! The raw shape of an entry document, as read from a key/value
//! document, before validation into a typed entry.

use vstd::prelude::*;
use crate::money::{units_of_chars, Money};
use crate::value::{obj_get_v, obj_view, view_of, ValView, Value};

verus! {

/// A journal line in expanded form: an account and an amount.
#[derive(Debug, PartialEq)]
pub struct ExpandedLine {
    pub account: String,
    pub amount: Money,
}

/// Journal lines: either a mapping from account to amount, or a list
/// of expanded lines (which may repeat an account).
#[derive(Debug, PartialEq)]
pub enum Lines {
    Simple(Vec<(String, Money)>),
    Expanded(Vec<ExpandedLine>),
}

/// An invoice item.
#[derive(Debug, PartialEq)]
pub struct Item {
    pub description: Option<String>,
    pub code: Option<String>,
    pub account: Option<String>,
    pub amount: Option<Money>,
    pub quantity: Option<Money>,
    pub rate: Option<Money>,
}

/// Invoice items: either a mapping from description to amount, or a
/// list of items.
#[derive(Debug, PartialEq)]
pub enum Items {
    Simple(Vec<(String, Money)>),
    Expanded(Vec<Item>),
}

/// An invoice extra charge.
#[derive(Debug, PartialEq)]
pub struct Extra {
    pub description: Option<String>,
    pub account: String,
    pub amount: Option<Money>,
    pub rate: Option<Money>,
}

/// A payment recorded on an invoice.
#[derive(Debug, PartialEq)]
pub struct Payment {
    pub account: String,
    pub amount: Money,
}

/// The raw fields of an entry document.
#[derive(Debug, PartialEq)]
pub struct Entry {
    pub id: Option<String>,
    pub entry_type: Option<String>,
    pub date: String,
    pub memo: Option<String>,
    pub credits: Option<Lines>,
    pub debits: Option<Lines>,
    pub party: Option<String>,
    pub account: Option<String>,
    pub amount: Option<Money>,
    pub items: Option<Items>,
    pub extras: Option<Vec<Extra>>,
    pub payment: Option<Payment>,
    pub repeat: Option<String>,
    pub end: Option<String>,
}

impl Items {
    /// Every item in expanded form; a mapping becomes items holding
    /// only a description and an amount.
    pub fn as_expanded(&self) -> (r: Vec<Item>)
        ensures
            Seq::new(r@.len(), |i: int| item_view(r@[i]))
                =~= expanded_items_v(items_view(*self)),
    {
        match self {
            Items::Simple(pairs) => {
                let mut out: Vec<Item> = Vec::new();
                let mut i: usize = 0;
                while i < pairs.len()
                    invariant
                        0 <= i <= pairs@.len(),
                        out@.len() == i,
                        forall|j: int| 0 <= j < i
                            ==> ((#[trigger] out@[j]).description
                                    matches Some(d) && d@ == pairs@[j].0@)
                                && out@[j].amount == Some(pairs@[j].1)
                                && out@[j].code is None
                                && out@[j].account is None
                                && out@[j].quantity is None
                                && out@[j].rate is None,
                    decreases pairs@.len() - i,
                {
                    out.push(Item {
                        description: Some(pairs[i].0.clone()),
                        code: None,
                        account: None,
                        amount: Some(pairs[i].1),
                        quantity: None,
                        rate: None,
                    });
                    i = i + 1;
                }
                out
            },
            Items::Expanded(items) => {
                let mut out: Vec<Item> = Vec::new();
                let mut i: usize = 0;
                while i < items.len()
                    invariant
                        0 <= i <= items@.len(),
                        out@ =~= items@.subrange(0, i as int),
                    decreases items@.len() - i,
                {
                    out.push(items[i].clone());
                    proof {
                        assert(out@ =~= items@.subrange(0, i as int + 1));
                    }
                    i = i + 1;
                }
                proof {
                    assert(items@.subrange(0, i as int) =~= items@);
                }
                out
            },
        }
    }
}

/// A copy of an optional text.
pub fn clone_opt_string(o: &Option<String>) -> (r: Option<String>)
    ensures
        r == *o,
{
    match o {
        Some(s) => Some(s.clone()),
        None => None,
    }
}

impl Clone for Item {
    /// An exact copy of the item.
    fn clone(&self) -> (r: Item)
        ensures
            r == *self,
    {
        Item {
            description: clone_opt_string(&self.description),
            code: clone_opt_string(&self.code),
            account: clone_opt_string(&self.account),
            amount: self.amount,
            quantity: self.quantity,
            rate: self.rate,
        }
    }
}

/// Why a document could not be read as a raw entry.
#[derive(Debug, PartialEq)]
pub struct DocError {
    message: String,
}

impl DocError {
    /// The description of the failure.
    pub closed spec fn message_spec(self) -> Seq<char> {
        self.message@
    }

    /// A short description of the failure.
    pub fn message(&self) -> (r: String)
        ensures
            r@ == self.message_spec(),
    {
        self.message.clone()
    }

    fn new(msg: &str) -> (r: DocError) {
        DocError { message: msg.to_owned() }
    }
}

/// The unit count denoted by a document value: a number itself, or
/// text parsed as a money amount.
pub open spec fn money_of_v(v: ValView) -> Option<int> {
    match v {
        ValView::Num(n) => Some(n),
        ValView::Text(s) => units_of_chars(s),
        _ => None,
    }
}

/// An optional text field: absent, present as text, or ill-typed.
pub open spec fn text_field(o: Seq<(Seq<char>, ValView)>, k: Seq<char>)
    -> Result<Option<Seq<char>>, ()> {
    match obj_get_v(o, k) {
        None => Ok(None),
        Some(ValView::Text(s)) => Ok(Some(s)),
        Some(_) => Err(()),
    }
}

/// An optional money field: absent, present as a number or money text,
/// or ill-typed.
pub open spec fn money_field(o: Seq<(Seq<char>, ValView)>, k: Seq<char>)
    -> Result<Option<int>, ()> {
    match obj_get_v(o, k) {
        None => Ok(None),
        Some(v) => match money_of_v(v) {
            Some(n) => Ok(Some(n)),
            None => Err(()),
        },
    }
}

/// Reads an optional text field of a document.
fn read_text(fields: &Vec<(String, Value)>, k: &str) -> (r: Result<Option<String>, ()>)
    ensures
        match r {
            Ok(None) => text_field(obj_view(fields@), k@) == Ok::<Option<Seq<char>>, ()>(
                None::<Seq<char>>),
            Ok(Some(s)) => text_field(obj_view(fields@), k@)
                == Ok::<Option<Seq<char>>, ()>(Some(s@)),
            Err(_) => text_field(obj_view(fields@), k@) is Err,
        },
{
    match crate::value::obj_get_in(fields, k) {
        None => Ok(None),
        Some(v) => match v {
            Value::Text(s) => Ok(Some(s.clone())),
            _ => Err(()),
        },
    }
}

/// Reads an optional money field of a document.
fn read_money(fields: &Vec<(String, Value)>, k: &str) -> (r: Result<Option<Money>, ()>)
    ensures
        match r {
            Ok(None) => money_field(obj_view(fields@), k@)
                == Ok::<Option<int>, ()>(None::<int>),
            Ok(Some(m)) => money_field(obj_view(fields@), k@)
                == Ok::<Option<int>, ()>(Some(m.val())),
            Err(_) => money_field(obj_view(fields@), k@) is Err,
        },
{
    match crate::value::obj_get_in(fields, k) {
        None => Ok(None),
        Some(v) => match v {
            Value::Number(m) => Ok(Some(*m)),
            Value::Text(s) => match Money::parse(s.as_str()) {
                Some(m) => Ok(Some(m)),
                None => Err(()),
            },
            _ => Err(()),
        },
    }
}

/// Ghost shape of journal lines.
#[verifier::ext_equal]
pub enum LinesV {
    Simple(Seq<(Seq<char>, int)>),
    Expanded(Seq<(Seq<char>, int)>),
}

/// Ghost shape of an invoice item.
#[verifier::ext_equal]
pub struct ItemV {
    pub description: Option<Seq<char>>,
    pub code: Option<Seq<char>>,
    pub account: Option<Seq<char>>,
    pub amount: Option<int>,
    pub quantity: Option<int>,
    pub rate: Option<int>,
}

/// Ghost shape of invoice items.
#[verifier::ext_equal]
pub enum ItemsV {
    Simple(Seq<(Seq<char>, int)>),
    Expanded(Seq<ItemV>),
}

/// Ghost shape of an extra charge.
#[verifier::ext_equal]
pub struct ExtraV {
    pub description: Option<Seq<char>>,
    pub account: Seq<char>,
    pub amount: Option<int>,
    pub rate: Option<int>,
}

/// Ghost shape of an invoice payment.
#[verifier::ext_equal]
pub struct PaymentV {
    pub account: Seq<char>,
    pub amount: int,
}

/// View of an optional text.
pub open spec fn opt_chars(o: Option<String>) -> Option<Seq<char>> {
    match o {
        Some(s) => Some(s@),
        None => None,
    }
}

/// View of an optional amount.
pub open spec fn opt_units(o: Option<Money>) -> Option<int> {
    match o {
        Some(m) => Some(m.val()),
        None => None,
    }
}

/// View of journal lines.
pub open spec fn lines_view(l: Lines) -> LinesV {
    match l {
        Lines::Simple(pairs) => LinesV::Simple(
            Seq::new(pairs@.len(), |i: int| (pairs@[i].0@, pairs@[i].1.val()))),
        Lines::Expanded(ls) => LinesV::Expanded(
            Seq::new(ls@.len(), |i: int| (ls@[i].account@, ls@[i].amount.val()))),
    }
}

/// View of an item.
pub open spec fn item_view(it: Item) -> ItemV {
    ItemV {
        description: opt_chars(it.description),
        code: opt_chars(it.code),
        account: opt_chars(it.account),
        amount: opt_units(it.amount),
        quantity: opt_units(it.quantity),
        rate: opt_units(it.rate),
    }
}

/// View of items.
pub open spec fn items_view(its: Items) -> ItemsV {
    match its {
        Items::Simple(pairs) => ItemsV::Simple(
            Seq::new(pairs@.len(), |i: int| (pairs@[i].0@, pairs@[i].1.val()))),
        Items::Expanded(list) => ItemsV::Expanded(
            Seq::new(list@.len(), |i: int| item_view(list@[i]))),
    }
}

/// View of an extra charge.
pub open spec fn extra_view(e: Extra) -> ExtraV {
    ExtraV {
        description: opt_chars(e.description),
        account: e.account@,
        amount: opt_units(e.amount),
        rate: opt_units(e.rate),
    }
}

/// View of a payment.
pub open spec fn payment_view(p: Payment) -> PaymentV {
    PaymentV { account: p.account@, amount: p.amount.val() }
}

/// Items in expanded form: a mapping becomes items holding only a
/// description and an amount.
pub open spec fn expanded_items_v(its: ItemsV) -> Seq<ItemV> {
    match its {
        ItemsV::Simple(ps) => Seq::new(ps.len(), |i: int| ItemV {
            description: Some(ps[i].0),
            code: None,
            account: None,
            amount: Some(ps[i].1),
            quantity: None,
            rate: None,
        }),
        ItemsV::Expanded(l) => l,
    }
}

/// Account/amount pairs read from an object whose values are all
/// amounts; `None` when some value is not an amount.
pub open spec fn money_pairs_of(
    fields: Seq<(Seq<char>, ValView)>,
) -> Option<Seq<(Seq<char>, int)>>
    decreases fields.len(),
{
    if fields.len() == 0 {
        Some(Seq::empty())
    } else {
        match money_pairs_of(fields.subrange(0, fields.len() - 1)) {
            None => None,
            Some(ps) => match money_of_v(fields[fields.len() - 1].1) {
                Some(n) => Some(ps + seq![(fields[fields.len() - 1].0, n)]),
                None => None,
            },
        }
    }
}

/// One expanded line read from a value: an object with a text
/// `account` and an amount `amount`.
pub open spec fn expanded_line_of(v: ValView) -> Option<(Seq<char>, int)> {
    match v {
        ValView::Obj(o) => match text_field(o, "account"@) {
            Ok(Some(a)) => match money_field(o, "amount"@) {
                Ok(Some(n)) => Some((a, n)),
                _ => None,
            },
            _ => None,
        },
        _ => None,
    }
}

/// Expanded lines read from a list of values.
pub open spec fn expanded_pairs_of(items: Seq<ValView>) -> Option<Seq<(Seq<char>, int)>>
    decreases items.len(),
{
    if items.len() == 0 {
        Some(Seq::empty())
    } else {
        match expanded_pairs_of(items.subrange(0, items.len() - 1)) {
            None => None,
            Some(ps) => match expanded_line_of(items[items.len() - 1]) {
                Some(p) => Some(ps + seq![p]),
                None => None,
            },
        }
    }
}

/// Journal lines read from a value: a mapping of amounts, or a list
/// of expanded lines.
pub open spec fn lines_of_v(v: ValView) -> Option<LinesV> {
    match v {
        ValView::Obj(o) => match money_pairs_of(o) {
            Some(ps) => Some(LinesV::Simple(ps)),
            None => None,
        },
        ValView::Arr(items) => match expanded_pairs_of(items) {
            Some(ps) => Some(LinesV::Expanded(ps)),
            None => None,
        },
        _ => None,
    }
}

/// An optional lines field.
pub open spec fn lines_field(o: Seq<(Seq<char>, ValView)>, k: Seq<char>)
    -> Result<Option<LinesV>, ()> {
    match obj_get_v(o, k) {
        None => Ok(None),
        Some(v) => match lines_of_v(v) {
            Some(l) => Ok(Some(l)),
            None => Err(()),
        },
    }
}

/// One item read from a value: an object of optional typed fields.
pub open spec fn item_of_v(v: ValView) -> Option<ItemV> {
    match v {
        ValView::Obj(o) => {
            if text_field(o, "description"@) is Ok && text_field(o, "code"@) is Ok
                && text_field(o, "account"@) is Ok && money_field(o, "amount"@) is Ok
                && money_field(o, "quantity"@) is Ok && money_field(o, "rate"@) is Ok
            {
                Some(ItemV {
                    description: text_field(o, "description"@).unwrap(),
                    code: text_field(o, "code"@).unwrap(),
                    account: text_field(o, "account"@).unwrap(),
                    amount: money_field(o, "amount"@).unwrap(),
                    quantity: money_field(o, "quantity"@).unwrap(),
                    rate: money_field(o, "rate"@).unwrap(),
                })
            } else {
                None
            }
        },
        _ => None,
    }
}

/// Items read from a list of values.
pub open spec fn item_list_of(items: Seq<ValView>) -> Option<Seq<ItemV>>
    decreases items.len(),
{
    if items.len() == 0 {
        Some(Seq::empty())
    } else {
        match item_list_of(items.subrange(0, items.len() - 1)) {
            None => None,
            Some(ps) => match item_of_v(items[items.len() - 1]) {
                Some(p) => Some(ps + seq![p]),
                None => None,
            },
        }
    }
}

/// Items read from a value: a mapping of amounts, or a list of items.
pub open spec fn items_of_v(v: ValView) -> Option<ItemsV> {
    match v {
        ValView::Obj(o) => match money_pairs_of(o) {
            Some(ps) => Some(ItemsV::Simple(ps)),
            None => None,
        },
        ValView::Arr(items) => match item_list_of(items) {
            Some(ps) => Some(ItemsV::Expanded(ps)),
            None => None,
        },
        _ => None,
    }
}

/// An optional items field.
pub open spec fn items_field(o: Seq<(Seq<char>, ValView)>, k: Seq<char>)
    -> Result<Option<ItemsV>, ()> {
    match obj_get_v(o, k) {
        None => Ok(None),
        Some(v) => match items_of_v(v) {
            Some(l) => Ok(Some(l)),
            None => Err(()),
        },
    }
}

/// One extra charge read from a value: an object with a required text
/// `account` and optional typed fields.
pub open spec fn extra_of_v(v: ValView) -> Option<ExtraV> {
    match v {
        ValView::Obj(o) => {
            if text_field(o, "description"@) is Ok
                && (text_field(o, "account"@) matches Ok(Some(_)))
                && money_field(o, "amount"@) is Ok && money_field(o, "rate"@) is Ok
            {
                Some(ExtraV {
                    description: text_field(o, "description"@).unwrap(),
                    account: text_field(o, "account"@).unwrap().unwrap(),
                    amount: money_field(o, "amount"@).unwrap(),
                    rate: money_field(o, "rate"@).unwrap(),
                })
            } else {
                None
            }
        },
        _ => None,
    }
}

/// Extra charges read from a list of values.
pub open spec fn extra_list_of(items: Seq<ValView>) -> Option<Seq<ExtraV>>
    decreases items.len(),
{
    if items.len() == 0 {
        Some(Seq::empty())
    } else {
        match extra_list_of(items.subrange(0, items.len() - 1)) {
            None => None,
            Some(ps) => match extra_of_v(items[items.len() - 1]) {
                Some(p) => Some(ps + seq![p]),
                None => None,
            },
        }
    }
}

/// An optional extras field.
pub open spec fn extras_field(o: Seq<(Seq<char>, ValView)>, k: Seq<char>)
    -> Result<Option<Seq<ExtraV>>, ()> {
    match obj_get_v(o, k) {
        None => Ok(None),
        Some(ValView::Arr(items)) => match extra_list_of(items) {
            Some(l) => Ok(Some(l)),
            None => Err(()),
        },
        Some(_) => Err(()),
    }
}

/// A payment read from a value: an object with a required text
/// `account` and a required amount `amount`.
pub open spec fn payment_of_v(v: ValView) -> Option<PaymentV> {
    match v {
        ValView::Obj(o) => match text_field(o, "account"@) {
            Ok(Some(a)) => match money_field(o, "amount"@) {
                Ok(Some(n)) => Some(PaymentV { account: a, amount: n }),
                _ => None,
            },
            _ => None,
        },
        _ => None,
    }
}

/// An optional payment field.
pub open spec fn payment_field(o: Seq<(Seq<char>, ValView)>, k: Seq<char>)
    -> Result<Option<PaymentV>, ()> {
    match obj_get_v(o, k) {
        None => Ok(None),
        Some(v) => match payment_of_v(v) {
            Some(p) => Ok(Some(p)),
            None => Err(()),
        },
    }
}

/// Whether a document object holds a well-typed raw entry: every
/// recognized field reads at its type and `date` is present.
pub open spec fn entry_doc_ok(o: Seq<(Seq<char>, ValView)>) -> bool {
    &&& text_field(o, "id"@) is Ok
    &&& text_field(o, "type"@) is Ok
    &&& (text_field(o, "date"@) matches Ok(Some(_)))
    &&& text_field(o, "memo"@) is Ok
    &&& lines_field(o, "credits"@) is Ok
    &&& lines_field(o, "debits"@) is Ok
    &&& text_field(o, "party"@) is Ok
    &&& text_field(o, "account"@) is Ok
    &&& money_field(o, "amount"@) is Ok
    &&& items_field(o, "items"@) is Ok
    &&& extras_field(o, "extras"@) is Ok
    &&& payment_field(o, "payment"@) is Ok
    &&& text_field(o, "repeat"@) is Ok
    &&& text_field(o, "end"@) is Ok
}

/// View of optional journal lines.
pub open spec fn opt_lines_view(o: Option<Lines>) -> Option<LinesV> {
    match o {
        Some(l) => Some(lines_view(l)),
        None => None,
    }
}

/// View of optional items.
pub open spec fn opt_items_view(o: Option<Items>) -> Option<ItemsV> {
    match o {
        Some(l) => Some(items_view(l)),
        None => None,
    }
}

/// View of an optional list of extra charges.
pub open spec fn opt_extras_view(o: Option<Vec<Extra>>) -> Option<Seq<ExtraV>> {
    match o {
        Some(es) => Some(Seq::new(es@.len(), |i: int| extra_view(es@[i]))),
        None => None,
    }
}

/// View of an optional payment.
pub open spec fn opt_payment_view(o: Option<Payment>) -> Option<PaymentV> {
    match o {
        Some(p) => Some(payment_view(p)),
        None => None,
    }
}

/// Reads an object whose values are all amounts.
fn read_money_object(fields: &Vec<(String, Value)>) -> (r: Option<Vec<(String, Money)>>)
    ensures
        match r {
            Some(ps) => money_pairs_of(obj_view(fields@)) == Some(
                Seq::new(ps@.len(), |i: int| (ps@[i].0@, ps@[i].1.val()))),
            None => money_pairs_of(obj_view(fields@)) is None,
        },
{
    let ghost o = obj_view(fields@);
    let mut out: Vec<(String, Money)> = Vec::new();
    let ghost mut ps: Seq<(Seq<char>, int)> = Seq::empty();
    let mut i: usize = 0;
    proof {
        crate::value::lemma_obj_view(fields@);
        assert(o.subrange(0, 0) =~= Seq::<(Seq<char>, ValView)>::empty());
    }
    while i < fields.len()
        invariant
            0 <= i <= fields@.len(),
            o == obj_view(fields@),
            o.len() == fields@.len(),
            forall|j: int| 0 <= j < fields@.len()
                ==> #[trigger] o[j] == (fields@[j].0@, view_of(fields@[j].1)),
            out@.len() == i,
            ps.len() == i,
            money_pairs_of(o.subrange(0, i as int)) == Some(ps),
            forall|j: int| 0 <= j < i
                ==> ps[j] == ((#[trigger] out@[j]).0@, out@[j].1.val()),
        decreases fields@.len() - i,
    {
        proof {
            let t = o.subrange(0, i as int + 1);
            assert(t.subrange(0, t.len() - 1) =~= o.subrange(0, i as int));
            assert(t[t.len() - 1] == o[i as int]);
        }
        let m: Money = match &fields[i].1 {
            Value::Number(m) => *m,
            Value::Text(s) => match Money::parse(s.as_str()) {
                Some(m) => m,
                None => {
                    proof {
                        money_pairs_none_extends(o, i as int + 1);
                    }
                    return None;
                },
            },
            _ => {
                proof {
                    money_pairs_none_extends(o, i as int + 1);
                }
                return None;
            },
        };
        out.push((fields[i].0.clone(), m));
        proof {
            ps = ps + seq![(fields@[i as int].0@, m.val())];
        }
        i = i + 1;
    }
    proof {
        assert(o.subrange(0, i as int) =~= o);
        assert(Seq::new(out@.len(), |j: int| (out@[j].0@, out@[j].1.val())) =~= ps);
    }
    Some(out)
}

/// A failed prefix decides the whole money-pair read.
proof fn money_pairs_none_extends(o: Seq<(Seq<char>, ValView)>, k: int)
    requires
        0 <= k <= o.len(),
        money_pairs_of(o.subrange(0, k)) is None,
    ensures
        money_pairs_of(o) is None,
    decreases o.len() - k,
{
    if k == o.len() {
        assert(o.subrange(0, k) =~= o);
    } else {
        let next = o.subrange(0, k + 1);
        assert(next.subrange(0, next.len() - 1) =~= o.subrange(0, k));
        money_pairs_none_extends(o, k + 1);
    }
}

/// A failed prefix decides the whole expanded-line read.
proof fn expanded_pairs_none_extends(items: Seq<ValView>, k: int)
    requires
        0 <= k <= items.len(),
        expanded_pairs_of(items.subrange(0, k)) is None,
    ensures
        expanded_pairs_of(items) is None,
    decreases items.len() - k,
{
    if k == items.len() {
        assert(items.subrange(0, k) =~= items);
    } else {
        let next = items.subrange(0, k + 1);
        assert(next.subrange(0, next.len() - 1) =~= items.subrange(0, k));
        expanded_pairs_none_extends(items, k + 1);
    }
}

/// A failed prefix decides the whole item-list read.
proof fn item_list_none_extends(items: Seq<ValView>, k: int)
    requires
        0 <= k <= items.len(),
        item_list_of(items.subrange(0, k)) is None,
    ensures
        item_list_of(items) is None,
    decreases items.len() - k,
{
    if k == items.len() {
        assert(items.subrange(0, k) =~= items);
    } else {
        let next = items.subrange(0, k + 1);
        assert(next.subrange(0, next.len() - 1) =~= items.subrange(0, k));
        item_list_none_extends(items, k + 1);
    }
}

/// A failed prefix decides the whole extra-list read.
proof fn extra_list_none_extends(items: Seq<ValView>, k: int)
    requires
        0 <= k <= items.len(),
        extra_list_of(items.subrange(0, k)) is None,
    ensures
        extra_list_of(items) is None,
    decreases items.len() - k,
{
    if k == items.len() {
        assert(items.subrange(0, k) =~= items);
    } else {
        let next = items.subrange(0, k + 1);
        assert(next.subrange(0, next.len() - 1) =~= items.subrange(0, k));
        extra_list_none_extends(items, k + 1);
    }
}

/// Reads one expanded line from a value.
fn read_expanded_line(v: &Value) -> (r: Option<ExpandedLine>)
    ensures
        match r {
            Some(l) => expanded_line_of(v@) == Some((l.account@, l.amount.val())),
            None => expanded_line_of(v@) is None,
        },
{
    match v {
        Value::Object(fields) => {
            let account = match read_text(fields, "account") {
                Ok(Some(a)) => a,
                _ => { return None; },
            };
            let amount = match read_money(fields, "amount") {
                Ok(Some(m)) => m,
                _ => { return None; },
            };
            Some(ExpandedLine { account, amount })
        },
        _ => None,
    }
}

/// Reads journal lines from a value.
fn read_lines_value(v: &Value) -> (r: Option<Lines>)
    ensures
        match r {
            Some(l) => lines_of_v(v@) == Some(lines_view(l)),
            None => lines_of_v(v@) is None,
        },
{
    match v {
        Value::Object(fields) => match read_money_object(fields) {
            Some(ps) => Some(Lines::Simple(ps)),
            None => None,
        },
        Value::Array(items) => {
            let ghost w = crate::value::views_of(items@);
            let mut out: Vec<ExpandedLine> = Vec::new();
            let ghost mut ps: Seq<(Seq<char>, int)> = Seq::empty();
            let mut i: usize = 0;
            proof {
                crate::value::lemma_views_of(items@);
                assert(w.subrange(0, 0) =~= Seq::<ValView>::empty());
            }
            while i < items.len()
                invariant
                    0 <= i <= items@.len(),
                    *v == Value::Array(*items),
                    w == crate::value::views_of(items@),
                    w.len() == items@.len(),
                    forall|j: int| 0 <= j < items@.len()
                        ==> #[trigger] w[j] == view_of(items@[j]),
                    out@.len() == i,
                    ps.len() == i,
                    expanded_pairs_of(w.subrange(0, i as int)) == Some(ps),
                    forall|j: int| 0 <= j < i
                        ==> ps[j] == ((#[trigger] out@[j]).account@, out@[j].amount.val()),
                decreases items@.len() - i,
            {
                proof {
                    let t = w.subrange(0, i as int + 1);
                    assert(t.subrange(0, t.len() - 1) =~= w.subrange(0, i as int));
                    assert(t[t.len() - 1] == w[i as int]);
                }
                match read_expanded_line(&items[i]) {
                    Some(l) => {
                        proof {
                            ps = ps + seq![(l.account@, l.amount.val())];
                        }
                        out.push(l);
                    },
                    None => {
                        proof {
                            expanded_pairs_none_extends(w, i as int + 1);
                        }
                        return None;
                    },
                }
                i = i + 1;
            }
            proof {
                assert(w.subrange(0, i as int) =~= w);
                assert(Seq::new(out@.len(),
                    |j: int| (out@[j].account@, out@[j].amount.val())) =~= ps);
            }
            Some(Lines::Expanded(out))
        },
        _ => None,
    }
}

/// Reads an optional lines field of a document.
fn read_lines_field(fields: &Vec<(String, Value)>, k: &str)
    -> (r: Result<Option<Lines>, ()>)
    ensures
        match r {
            Ok(l) => lines_field(obj_view(fields@), k@)
                == Ok::<Option<LinesV>, ()>(opt_lines_view(l)),
            Err(_) => lines_field(obj_view(fields@), k@) is Err,
        },
{
    match crate::value::obj_get_in(fields, k) {
        None => Ok(None),
        Some(v) => match read_lines_value(v) {
            Some(l) => Ok(Some(l)),
            None => Err(()),
        },
    }
}

/// Reads one invoice item from a value.
fn read_item(v: &Value) -> (r: Option<Item>)
    ensures
        match r {
            Some(it) => item_of_v(v@) == Some(item_view(it)),
            None => item_of_v(v@) is None,
        },
{
    match v {
        Value::Object(fields) => {
            let description = match read_text(fields, "description") {
                Ok(d) => d,
                Err(_) => { return None; },
            };
            let code = match read_text(fields, "code") {
                Ok(d) => d,
                Err(_) => { return None; },
            };
            let account = match read_text(fields, "account") {
                Ok(d) => d,
                Err(_) => { return None; },
            };
            let amount = match read_money(fields, "amount") {
                Ok(d) => d,
                Err(_) => { return None; },
            };
            let quantity = match read_money(fields, "quantity") {
                Ok(d) => d,
                Err(_) => { return None; },
            };
            let rate = match read_money(fields, "rate") {
                Ok(d) => d,
                Err(_) => { return None; },
            };
            Some(Item { description, code, account, amount, quantity, rate })
        },
        _ => None,
    }
}

/// Reads invoice items from a value.
fn read_items_value(v: &Value) -> (r: Option<Items>)
    ensures
        match r {
            Some(its) => items_of_v(v@) == Some(items_view(its)),
            None => items_of_v(v@) is None,
        },
{
    match v {
        Value::Object(fields) => match read_money_object(fields) {
            Some(ps) => Some(Items::Simple(ps)),
            None => None,
        },
        Value::Array(items) => {
            let ghost w = crate::value::views_of(items@);
            let mut out: Vec<Item> = Vec::new();
            let ghost mut ps: Seq<ItemV> = Seq::empty();
            let mut i: usize = 0;
            proof {
                crate::value::lemma_views_of(items@);
                assert(w.subrange(0, 0) =~= Seq::<ValView>::empty());
            }
            while i < items.len()
                invariant
                    0 <= i <= items@.len(),
                    *v == Value::Array(*items),
                    w == crate::value::views_of(items@),
                    w.len() == items@.len(),
                    forall|j: int| 0 <= j < items@.len()
                        ==> #[trigger] w[j] == view_of(items@[j]),
                    out@.len() == i,
                    ps.len() == i,
                    item_list_of(w.subrange(0, i as int)) == Some(ps),
                    forall|j: int| 0 <= j < i
                        ==> ps[j] == item_view(#[trigger] out@[j]),
                decreases items@.len() - i,
            {
                proof {
                    let t = w.subrange(0, i as int + 1);
                    assert(t.subrange(0, t.len() - 1) =~= w.subrange(0, i as int));
                    assert(t[t.len() - 1] == w[i as int]);
                }
                match read_item(&items[i]) {
                    Some(it) => {
                        proof {
                            ps = ps + seq![item_view(it)];
                        }
                        out.push(it);
                    },
                    None => {
                        proof {
                            item_list_none_extends(w, i as int + 1);
                        }
                        return None;
                    },
                }
                i = i + 1;
            }
            proof {
                assert(w.subrange(0, i as int) =~= w);
                assert(Seq::new(out@.len(), |j: int| item_view(out@[j])) =~= ps);
            }
            Some(Items::Expanded(out))
        },
        _ => None,
    }
}

/// Reads an optional items field of a document.
fn read_items_field(fields: &Vec<(String, Value)>, k: &str)
    -> (r: Result<Option<Items>, ()>)
    ensures
        match r {
            Ok(l) => items_field(obj_view(fields@), k@)
                == Ok::<Option<ItemsV>, ()>(opt_items_view(l)),
            Err(_) => items_field(obj_view(fields@), k@) is Err,
        },
{
    match crate::value::obj_get_in(fields, k) {
        None => Ok(None),
        Some(v) => match read_items_value(v) {
            Some(l) => Ok(Some(l)),
            None => Err(()),
        },
    }
}

/// Reads one extra charge from a value.
fn read_extra(v: &Value) -> (r: Option<Extra>)
    ensures
        match r {
            Some(e) => extra_of_v(v@) == Some(extra_view(e)),
            None => extra_of_v(v@) is None,
        },
{
    match v {
        Value::Object(fields) => {
            let description = match read_text(fields, "description") {
                Ok(d) => d,
                Err(_) => { return None; },
            };
            let account = match read_text(fields, "account") {
                Ok(Some(a)) => a,
                _ => { return None; },
            };
            let amount = match read_money(fields, "amount") {
                Ok(d) => d,
                Err(_) => { return None; },
            };
            let rate = match read_money(fields, "rate") {
                Ok(d) => d,
                Err(_) => { return None; },
            };
            Some(Extra { description, account, amount, rate })
        },
        _ => None,
    }
}

/// Reads an optional extras field of a document.
fn read_extras_field(fields: &Vec<(String, Value)>, k: &str)
    -> (r: Result<Option<Vec<Extra>>, ()>)
    ensures
        match r {
            Ok(l) => extras_field(obj_view(fields@), k@)
                == Ok::<Option<Seq<ExtraV>>, ()>(opt_extras_view(l)),
            Err(_) => extras_field(obj_view(fields@), k@) is Err,
        },
{
    match crate::value::obj_get_in(fields, k) {
        None => Ok(None),
        Some(v) => match v {
            Value::Array(items) => {
                let ghost w = crate::value::views_of(items@);
                let mut out: Vec<Extra> = Vec::new();
                let ghost mut ps: Seq<ExtraV> = Seq::empty();
                let mut i: usize = 0;
                proof {
                    crate::value::lemma_views_of(items@);
                    assert(w.subrange(0, 0) =~= Seq::<ValView>::empty());
                }
                while i < items.len()
                    invariant
                        0 <= i <= items@.len(),
                        obj_get_v(obj_view(fields@), k@) == Some(ValView::Arr(w)),
                        w == crate::value::views_of(items@),
                        w.len() == items@.len(),
                        forall|j: int| 0 <= j < items@.len()
                            ==> #[trigger] w[j] == view_of(items@[j]),
                        out@.len() == i,
                        ps.len() == i,
                        extra_list_of(w.subrange(0, i as int)) == Some(ps),
                        forall|j: int| 0 <= j < i
                            ==> ps[j] == extra_view(#[trigger] out@[j]),
                    decreases items@.len() - i,
                {
                    proof {
                        let t = w.subrange(0, i as int + 1);
                        assert(t.subrange(0, t.len() - 1) =~= w.subrange(0, i as int));
                        assert(t[t.len() - 1] == w[i as int]);
                    }
                    match read_extra(&items[i]) {
                        Some(e) => {
                            proof {
                                ps = ps + seq![extra_view(e)];
                            }
                            out.push(e);
                        },
                        None => {
                            proof {
                                extra_list_none_extends(w, i as int + 1);
                            }
                            return Err(());
                        },
                    }
                    i = i + 1;
                }
                proof {
                    assert(w.subrange(0, i as int) =~= w);
                    assert(Seq::new(out@.len(), |j: int| extra_view(out@[j])) =~= ps);
                }
                Ok(Some(out))
            },
            _ => Err(()),
        },
    }
}

/// Reads an optional payment field of a document.
fn read_payment_field(fields: &Vec<(String, Value)>, k: &str)
    -> (r: Result<Option<Payment>, ()>)
    ensures
        match r {
            Ok(l) => payment_field(obj_view(fields@), k@)
                == Ok::<Option<PaymentV>, ()>(opt_payment_view(l)),
            Err(_) => payment_field(obj_view(fields@), k@) is Err,
        },
{
    match crate::value::obj_get_in(fields, k) {
        None => Ok(None),
        Some(v) => match v {
            Value::Object(pf) => {
                let account = match read_text(pf, "account") {
                    Ok(Some(a)) => a,
                    _ => { return Err(()); },
                };
                let amount = match read_money(pf, "amount") {
                    Ok(Some(m)) => m,
                    _ => { return Err(()); },
                };
                Ok(Some(Payment { account, amount }))
            },
            _ => Err(()),
        },
    }
}

impl Entry {
    /// Reads a raw entry from a key/value document. Every recognized
    /// field must hold a value of its type; `date` is required;
    /// unrecognized fields are ignored.
    pub fn from_value(v: &Value) -> (r: Result<Entry, DocError>)
        ensures
            r is Ok <==> (v@ matches ValView::Obj(o) && entry_doc_ok(o)),
            r matches Ok(e) ==> ({
                let o = v@->Obj_0;
                &&& text_field(o, "id"@) == Ok::<Option<Seq<char>>, ()>(opt_chars(e.id))
                &&& text_field(o, "type"@)
                    == Ok::<Option<Seq<char>>, ()>(opt_chars(e.entry_type))
                &&& text_field(o, "date"@) == Ok::<Option<Seq<char>>, ()>(Some(e.date@))
                &&& text_field(o, "memo"@) == Ok::<Option<Seq<char>>, ()>(opt_chars(e.memo))
                &&& lines_field(o, "credits"@)
                    == Ok::<Option<LinesV>, ()>(opt_lines_view(e.credits))
                &&& lines_field(o, "debits"@)
                    == Ok::<Option<LinesV>, ()>(opt_lines_view(e.debits))
                &&& text_field(o, "party"@) == Ok::<Option<Seq<char>>, ()>(opt_chars(e.party))
                &&& text_field(o, "account"@)
                    == Ok::<Option<Seq<char>>, ()>(opt_chars(e.account))
                &&& money_field(o, "amount"@) == Ok::<Option<int>, ()>(opt_units(e.amount))
                &&& items_field(o, "items"@) == Ok::<Option<ItemsV>, ()>(opt_items_view(e.items))
                &&& extras_field(o, "extras"@)
                    == Ok::<Option<Seq<ExtraV>>, ()>(opt_extras_view(e.extras))
                &&& payment_field(o, "payment"@)
                    == Ok::<Option<PaymentV>, ()>(opt_payment_view(e.payment))
                &&& text_field(o, "repeat"@) == Ok::<Option<Seq<char>>, ()>(opt_chars(e.repeat))
                &&& text_field(o, "end"@) == Ok::<Option<Seq<char>>, ()>(opt_chars(e.end))
            }),
    {
        let fields = match v {
            Value::Object(fields) => fields,
            _ => {
                return Err(DocError::new("entry document is not a key/value object"));
            },
        };
        let id = match read_text(fields, "id") {
            Ok(d) => d,
            Err(_) => { return Err(DocError::new("entry field id must be text")); },
        };
        let entry_type = match read_text(fields, "type") {
            Ok(d) => d,
            Err(_) => { return Err(DocError::new("entry field type must be text")); },
        };
        let date = match read_text(fields, "date") {
            Ok(Some(d)) => d,
            Ok(None) => { return Err(DocError::new("entry field date is required")); },
            Err(_) => { return Err(DocError::new("entry field date must be text")); },
        };
        let memo = match read_text(fields, "memo") {
            Ok(d) => d,
            Err(_) => { return Err(DocError::new("entry field memo must be text")); },
        };
        let credits = match read_lines_field(fields, "credits") {
            Ok(d) => d,
            Err(_) => {
                return Err(DocError::new("entry field credits must hold journal lines"));
            },
        };
        let debits = match read_lines_field(fields, "debits") {
            Ok(d) => d,
            Err(_) => {
                return Err(DocError::new("entry field debits must hold journal lines"));
            },
        };
        let party = match read_text(fields, "party") {
            Ok(d) => d,
            Err(_) => { return Err(DocError::new("entry field party must be text")); },
        };
        let account = match read_text(fields, "account") {
            Ok(d) => d,
            Err(_) => { return Err(DocError::new("entry field account must be text")); },
        };
        let amount = match read_money(fields, "amount") {
            Ok(d) => d,
            Err(_) => { return Err(DocError::new("entry field amount must be an amount")); },
        };
        let items = match read_items_field(fields, "items") {
            Ok(d) => d,
            Err(_) => { return Err(DocError::new("entry field items must hold items")); },
        };
        let extras = match read_extras_field(fields, "extras") {
            Ok(d) => d,
            Err(_) => { return Err(DocError::new("entry field extras must hold extras")); },
        };
        let payment = match read_payment_field(fields, "payment") {
            Ok(d) => d,
            Err(_) => { return Err(DocError::new("entry field payment must hold a payment")); },
        };
        let repeat = match read_text(fields, "repeat") {
            Ok(d) => d,
            Err(_) => { return Err(DocError::new("entry field repeat must be text")); },
        };
        let end = match read_text(fields, "end") {
            Ok(d) => d,
            Err(_) => { return Err(DocError::new("entry field end must be text")); },
        };
        Ok(Entry {
            id,
            entry_type,
            date,
            memo,
            credits,
            debits,
            party,
            account,
            amount,
            items,
            extras,
            payment,
            repeat,
            end,
        })
    }
}

} // verus!

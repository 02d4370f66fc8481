//! Reconciliation rules for bank transactions: parsed rule documents,
//! their ordered application to a transaction, and the generating
//! entry that matching or generation consumes.

use vstd::prelude::*;
use super::BankTx;
use crate::expr::{expr_view, expr_views, EvalErrView, Expr, ExprView};
use crate::value::{obj_get_in, obj_get_v, obj_view, view_of, ValView, Value};

verus! {

/// Why a rule document or expression could not be used.
#[derive(Debug, PartialEq)]
pub struct RuleError {
    message: String,
}

impl RuleError {
    /// The description of the failure.
    pub closed spec fn message_spec(self) -> Seq<char> {
        self.message@
    }

    /// A short description of the failure.
    pub fn message(&self) -> (r: String)
        ensures
            r@ == self.message_spec(),
    {
        self.message.clone()
    }

    fn new(msg: &str) -> (r: RuleError) {
        RuleError { message: msg.to_owned() }
    }
}

/// The expression a document value denotes. Bare text denotes a `Name`
/// (a field reference falling back to the text itself); other scalars
/// denote literals; an array is an operator form `[op, arg, ...]` with
/// operators `eq`/`=`, `match`, `contains`, `and`, `or`, `join` and
/// `var`; objects denote nothing.
pub open spec fn expr_of_v(v: ValView) -> Option<ExprView>
    decreases v,
    via expr_of_v_dec
{
    match v {
        ValView::Text(s) => Some(ExprView::Name(s)),
        ValView::Bool(b) => Some(ExprView::Lit(ValView::Bool(b))),
        ValView::Num(n) => Some(ExprView::Lit(ValView::Num(n))),
        ValView::Null => Some(ExprView::Lit(ValView::Null)),
        ValView::Obj(_) => None,
        ValView::Arr(items) => {
            if items.len() == 0 {
                None
            } else {
                match items[0] {
                    ValView::Text(op) => {
                        if op == "eq"@ || op == "="@ {
                            if items.len() == 3 {
                                match (expr_of_v(items[1]), expr_of_v(items[2])) {
                                    (Some(a), Some(b)) => Some(ExprView::Eq(seq![a, b])),
                                    _ => None,
                                }
                            } else {
                                None
                            }
                        } else if op == "match"@ {
                            if items.len() == 3 {
                                match (expr_of_v(items[1]), items[2]) {
                                    (Some(a), ValView::Text(p)) =>
                                        Some(ExprView::Match(seq![a], p)),
                                    _ => None,
                                }
                            } else {
                                None
                            }
                        } else if op == "contains"@ {
                            if items.len() == 3 {
                                match (expr_of_v(items[1]), items[2]) {
                                    (Some(a), ValView::Text(p)) =>
                                        Some(ExprView::Contains(seq![a], p)),
                                    _ => None,
                                }
                            } else {
                                None
                            }
                        } else if op == "and"@ {
                            match exprs_of_v(items.subrange(1, items.len() as int)) {
                                Some(es) => Some(ExprView::And(es)),
                                None => None,
                            }
                        } else if op == "or"@ {
                            match exprs_of_v(items.subrange(1, items.len() as int)) {
                                Some(es) => Some(ExprView::Or(es)),
                                None => None,
                            }
                        } else if op == "join"@ {
                            if items.len() >= 2 {
                                match items[1] {
                                    ValView::Text(sep) => match exprs_of_v(
                                        items.subrange(2, items.len() as int)) {
                                        Some(es) => Some(ExprView::Join(sep, es)),
                                        None => None,
                                    },
                                    _ => None,
                                }
                            } else {
                                None
                            }
                        } else if op == "var"@ {
                            if items.len() == 2 {
                                match items[1] {
                                    ValView::Text(n) => Some(ExprView::Var(n)),
                                    _ => None,
                                }
                            } else {
                                None
                            }
                        } else {
                            None
                        }
                    },
                    _ => None,
                }
            }
        },
    }
}

/// The expressions a list of document values denotes, or `None` when
/// one of them denotes none.
pub open spec fn exprs_of_v(items: Seq<ValView>) -> Option<Seq<ExprView>>
    decreases items,
    via exprs_of_v_dec
{
    if items.len() == 0 {
        Some(Seq::empty())
    } else {
        match exprs_of_v(items.subrange(0, items.len() - 1)) {
            None => None,
            Some(es) => match expr_of_v(items[items.len() - 1]) {
                Some(e) => Some(es + seq![e]),
                None => None,
            },
        }
    }
}

#[via_fn]
proof fn expr_of_v_dec(v: ValView) {
    match v {
        ValView::Arr(items) => {
            assert(decreases_to!(v => v->Arr_0));
            if items.len() >= 1 {
                assert(decreases_to!(v->Arr_0
                    => v->Arr_0.subrange(1, v->Arr_0.len() as int)));
            }
            if items.len() >= 2 {
                assert(decreases_to!(v->Arr_0 => v->Arr_0[1int]));
                assert(decreases_to!(v->Arr_0
                    => v->Arr_0.subrange(2, v->Arr_0.len() as int)));
            }
            if items.len() >= 3 {
                assert(decreases_to!(v->Arr_0 => v->Arr_0[2int]));
            }
        },
        _ => {},
    }
}

#[via_fn]
proof fn exprs_of_v_dec(items: Seq<ValView>) {
    if items.len() > 0 {
        assert(decreases_to!(items => items.subrange(0, items.len() - 1)));
        assert(decreases_to!(items => items[items.len() - 1]));
    }
}

impl Expr {
    /// Parses the expression a document value denotes.
    pub fn from_value(v: &Value) -> (r: Option<Expr>)
        ensures
            match r {
                Some(e) => expr_of_v(v@) == Some(e@),
                None => expr_of_v(v@) is None,
            },
        decreases *v,
    {
        match v {
            Value::Text(s) => Some(Expr::Name(s.clone())),
            Value::Bool(b) => Some(Expr::Lit(Value::Bool(*b))),
            Value::Number(m) => Some(Expr::Lit(Value::Number(*m))),
            Value::Null => Some(Expr::Lit(Value::Null)),
            Value::Object(_) => None,
            Value::Array(items) => {
                let ghost w = crate::value::views_of(items@);
                proof {
                    crate::value::lemma_views_of(items@);
                    assert(decreases_to!(*v => v->Array_0));
                    assert(decreases_to!(v->Array_0 => v->Array_0@));
                }
                if items.len() == 0 {
                    return None;
                }
                let op = match &items[0] {
                    Value::Text(op) => op,
                    _ => {
                        return None;
                    },
                };
                let two_args = items.len() == 3;
                if crate::text::str_eq(op.as_str(), "eq")
                    || crate::text::str_eq(op.as_str(), "=")
                {
                    if !two_args {
                        return None;
                    }
                    proof {
                        assert(decreases_to!(v->Array_0@ => v->Array_0@[1int]));
                        assert(decreases_to!(v->Array_0@ => v->Array_0@[2int]));
                    }
                    let a = match Expr::from_value(&items[1]) {
                        Some(a) => a,
                        None => {
                            return None;
                        },
                    };
                    let b = match Expr::from_value(&items[2]) {
                        Some(b) => b,
                        None => {
                            return None;
                        },
                    };
                    Some(Expr::Eq(Box::new(a), Box::new(b)))
                } else if crate::text::str_eq(op.as_str(), "match") {
                    if !two_args {
                        return None;
                    }
                    proof {
                        assert(decreases_to!(v->Array_0@ => v->Array_0@[1int]));
                    }
                    let a = match Expr::from_value(&items[1]) {
                        Some(a) => a,
                        None => {
                            return None;
                        },
                    };
                    match &items[2] {
                        Value::Text(p) => Some(Expr::Match(Box::new(a), p.clone())),
                        _ => None,
                    }
                } else if crate::text::str_eq(op.as_str(), "contains") {
                    if !two_args {
                        return None;
                    }
                    proof {
                        assert(decreases_to!(v->Array_0@ => v->Array_0@[1int]));
                    }
                    let a = match Expr::from_value(&items[1]) {
                        Some(a) => a,
                        None => {
                            return None;
                        },
                    };
                    match &items[2] {
                        Value::Text(p) => Some(Expr::Contains(Box::new(a), p.clone())),
                        _ => None,
                    }
                } else if crate::text::str_eq(op.as_str(), "and") {
                    match parse_expr_list(v, items, 1) {
                        Some(es) => Some(Expr::And(es)),
                        None => None,
                    }
                } else if crate::text::str_eq(op.as_str(), "or") {
                    match parse_expr_list(v, items, 1) {
                        Some(es) => Some(Expr::Or(es)),
                        None => None,
                    }
                } else if crate::text::str_eq(op.as_str(), "join") {
                    if items.len() < 2 {
                        return None;
                    }
                    let sep = match &items[1] {
                        Value::Text(sep) => sep.clone(),
                        _ => {
                            return None;
                        },
                    };
                    match parse_expr_list(v, items, 2) {
                        Some(es) => Some(Expr::Join(sep, es)),
                        None => None,
                    }
                } else if crate::text::str_eq(op.as_str(), "var") {
                    if items.len() != 2 {
                        return None;
                    }
                    match &items[1] {
                        Value::Text(n) => Some(Expr::Var(n.clone())),
                        _ => None,
                    }
                } else {
                    None
                }
            },
        }
    }
}

/// Parses the expressions of `items[from..]`, the argument list of an
/// operator form of `whole`.
fn parse_expr_list(whole: &Value, items: &Vec<Value>, from: usize) -> (r: Option<Vec<Expr>>)
    requires
        *whole == Value::Array(*items),
        from <= items@.len(),
    ensures
        match r {
            Some(es) => exprs_of_v(crate::value::views_of(items@)
                    .subrange(from as int, items@.len() as int))
                == Some(expr_views(es@)),
            None => exprs_of_v(crate::value::views_of(items@)
                .subrange(from as int, items@.len() as int)) is None,
        },
    decreases *whole, 0nat,
{
    let ghost w = crate::value::views_of(items@);
    let ghost tail = w.subrange(from as int, w.len() as int);
    let mut out: Vec<Expr> = Vec::new();
    let mut i: usize = from;
    proof {
        crate::value::lemma_views_of(items@);
        assert(tail.subrange(0, 0) =~= Seq::<ValView>::empty());
    }
    while i < items.len()
        invariant
            from <= i <= items@.len(),
            *whole == Value::Array(*items),
            w == crate::value::views_of(items@),
            w.len() == items@.len(),
            forall|j: int| 0 <= j < items@.len()
                ==> #[trigger] w[j] == view_of(items@[j]),
            tail == w.subrange(from as int, w.len() as int),
            out@.len() == i - from,
            exprs_of_v(tail.subrange(0, i - from)) == Some(expr_views(out@)),
        decreases items@.len() - i,
    {
        proof {
            let t = tail.subrange(0, i - from + 1);
            assert(t.subrange(0, t.len() - 1) =~= tail.subrange(0, i - from));
            assert(t[t.len() - 1] == tail[i - from]);
            assert(tail[i - from] == w[i as int]);
            assert(decreases_to!(*whole => whole->Array_0));
            assert(decreases_to!(whole->Array_0 => whole->Array_0@));
            assert(decreases_to!(whole->Array_0@ => whole->Array_0@[i as int]));
            crate::expr::lemma_expr_views(out@);
        }
        match Expr::from_value(&items[i]) {
            Some(e) => {
                let ghost out0 = out@;
                out.push(e);
                proof {
                    crate::expr::lemma_expr_views(out@);
                    crate::expr::lemma_expr_views(out0);
                    assert(expr_views(out@) =~= expr_views(out0) + seq![expr_view(e)]);
                }
            },
            None => {
                proof {
                    exprs_none_extends(tail, i - from + 1);
                }
                return None;
            },
        }
        i = i + 1;
    }
    proof {
        assert(tail.subrange(0, i - from) =~= tail);
    }
    Some(out)
}

/// The raw shape of one reconciliation rule document: a predicate
/// expression, named value bindings, and a partial entry template.
#[derive(Debug, PartialEq)]
pub struct RawRecRule {
    pub rule: Value,
    pub values: Vec<(String, Value)>,
    pub entry: Vec<(String, Value)>,
}

impl RawRecRule {
    /// Reads a raw rule from a key/value document: `rule` is required,
    /// `values` and `entry` are optional objects.
    pub fn from_value(v: &Value) -> (r: Result<RawRecRule, RuleError>)
        ensures
            r is Ok <==> (v@ matches ValView::Obj(o)
                && obj_get_v(o, "rule"@) is Some
                && (match obj_get_v(o, "values"@) {
                    None => true,
                    Some(w) => w is Obj,
                })
                && (match obj_get_v(o, "entry"@) {
                    None => true,
                    Some(w) => w is Obj,
                })),
            r matches Ok(rr) ==> ({
                let o = v@->Obj_0;
                &&& Some(rr.rule@) == obj_get_v(o, "rule"@)
                &&& obj_view(rr.values@) == match obj_get_v(o, "values"@) {
                        None => Seq::<(Seq<char>, ValView)>::empty(),
                        Some(w) => w->Obj_0,
                    }
                &&& obj_view(rr.entry@) == match obj_get_v(o, "entry"@) {
                        None => Seq::<(Seq<char>, ValView)>::empty(),
                        Some(w) => w->Obj_0,
                    }
            }),
    {
        let fields = match v {
            Value::Object(fields) => fields,
            _ => {
                return Err(RuleError::new("rule document is not a key/value object"));
            },
        };
        let rule = match crate::value::obj_get_in(fields, "rule") {
            Some(r) => r.deep_copy(),
            None => {
                return Err(RuleError::new("rule document has no rule"));
            },
        };
        let values = match crate::value::obj_get_in(fields, "values") {
            None => Vec::new(),
            Some(w) => match w {
                Value::Object(vf) => copy_object_fields(vf),
                _ => {
                    return Err(RuleError::new("rule values must be a key/value object"));
                },
            },
        };
        let entry = match crate::value::obj_get_in(fields, "entry") {
            None => Vec::new(),
            Some(w) => match w {
                Value::Object(vf) => copy_object_fields(vf),
                _ => {
                    return Err(RuleError::new("rule entry must be a key/value object"));
                },
            },
        };
        proof {
            assert(obj_view(Seq::<(String, Value)>::empty())
                =~= Seq::<(Seq<char>, ValView)>::empty());
        }
        Ok(RawRecRule { rule, values, entry })
    }
}

/// Copies the fields of an object, keeping views.
fn copy_object_fields(fields: &Vec<(String, Value)>) -> (r: Vec<(String, Value)>)
    ensures
        obj_view(r@) == obj_view(fields@),
{
    let mut out: Vec<(String, Value)> = Vec::new();
    let mut i: usize = 0;
    while i < fields.len()
        invariant
            0 <= i <= fields@.len(),
            out@.len() == i,
            forall|j: int| 0 <= j < i
                ==> ((#[trigger] out@[j]).0@ == fields@[j].0@
                    && view_of(out@[j].1) == view_of(fields@[j].1)),
        decreases fields@.len() - i,
    {
        out.push((fields[i].0.clone(), fields[i].1.deep_copy()));
        i = i + 1;
    }
    proof {
        crate::value::lemma_obj_view(out@);
        crate::value::lemma_obj_view(fields@);
        assert(obj_view(out@) =~= obj_view(fields@));
    }
    out
}

/// Ghost shape of a reconciliation rule.
#[verifier::ext_equal]
pub struct RecRuleV {
    pub rule: ExprView,
    pub values: Seq<(Seq<char>, ExprView)>,
    pub template: Seq<(Seq<char>, ValView)>,
}

/// One reconciliation rule: a predicate, value bindings, and a partial
/// entry template.
#[derive(Debug)]
pub struct RecRule {
    pub rule: Expr,
    pub values: Vec<(String, Expr)>,
    pub template: Vec<(String, Value)>,
}

/// Views of named expressions, in order.
pub open spec fn vals_views(s: Seq<(String, Expr)>) -> Seq<(Seq<char>, ExprView)> {
    Seq::new(s.len(), |i: int| (s[i].0@, expr_view(s[i].1)))
}

impl RecRule {
    /// The ghost shape of the rule.
    pub open spec fn view_spec(self) -> RecRuleV {
        RecRuleV {
            rule: expr_view(self.rule),
            values: vals_views(self.values@),
            template: obj_view(self.template@),
        }
    }

    /// Builds a rule from its raw form: the predicate and every value
    /// binding must denote expressions.
    pub fn from_raw(raw: &RawRecRule) -> (r: Result<RecRule, RuleError>)
        ensures
            r is Ok <==> (expr_of_v(raw.rule@) is Some
                && vals_exprs_of(obj_view(raw.values@)) is Some),
            r matches Ok(rr) ==> {
                &&& Some(rr.view_spec().rule) == expr_of_v(raw.rule@)
                &&& Some(rr.view_spec().values) == vals_exprs_of(obj_view(raw.values@))
                &&& rr.view_spec().template == obj_view(raw.entry@)
            },
    {
        let rule = match Expr::from_value(&raw.rule) {
            Some(e) => e,
            None => {
                return Err(RuleError::new("Failed to parse Rule"));
            },
        };
        let ghost vw = obj_view(raw.values@);
        let mut values: Vec<(String, Expr)> = Vec::new();
        let mut i: usize = 0;
        proof {
            crate::value::lemma_obj_view(raw.values@);
            assert(vw.subrange(0, 0) =~= Seq::<(Seq<char>, ValView)>::empty());
        }
        while i < raw.values.len()
            invariant
                0 <= i <= raw.values@.len(),
                vw == obj_view(raw.values@),
                vw.len() == raw.values@.len(),
                forall|j: int| 0 <= j < raw.values@.len()
                    ==> #[trigger] vw[j] == (raw.values@[j].0@, view_of(raw.values@[j].1)),
                values@.len() == i,
                vals_exprs_of(vw.subrange(0, i as int)) == Some(vals_views(values@)),
            decreases raw.values@.len() - i,
        {
            proof {
                let t = vw.subrange(0, i as int + 1);
                assert(t.subrange(0, t.len() - 1) =~= vw.subrange(0, i as int));
                assert(t[t.len() - 1] == vw[i as int]);
            }
            match Expr::from_value(&raw.values[i].1) {
                Some(e) => {
                    let ghost vals0 = values@;
                    values.push((raw.values[i].0.clone(), e));
                    proof {
                        assert(vals_views(values@)
                            =~= vals_views(vals0) + seq![(raw.values@[i as int].0@,
                                expr_view(e))]);
                    }
                },
                None => {
                    proof {
                        vals_exprs_none_extends(vw, i as int + 1);
                    }
                    return Err(RuleError::new("Failed to parse Expr"));
                },
            }
            i = i + 1;
        }
        proof {
            assert(vw.subrange(0, i as int) =~= vw);
        }
        let template = copy_object_fields(&raw.entry);
        Ok(RecRule { rule, values, template })
    }
}

/// The named expressions a list of named document values denotes.
pub open spec fn vals_exprs_of(
    o: Seq<(Seq<char>, ValView)>,
) -> Option<Seq<(Seq<char>, ExprView)>>
    decreases o.len(),
{
    if o.len() == 0 {
        Some(Seq::empty())
    } else {
        match vals_exprs_of(o.subrange(0, o.len() - 1)) {
            None => None,
            Some(es) => match expr_of_v(o[o.len() - 1].1) {
                Some(e) => Some(es + seq![(o[o.len() - 1].0, e)]),
                None => None,
            },
        }
    }
}

/// A failed prefix decides the whole named-expression parse.
proof fn vals_exprs_none_extends(o: Seq<(Seq<char>, ValView)>, k: int)
    requires
        0 <= k <= o.len(),
        vals_exprs_of(o.subrange(0, k)) is None,
    ensures
        vals_exprs_of(o) is None,
    decreases o.len() - k,
{
    if k == o.len() {
        assert(o.subrange(0, k) =~= o);
    } else {
        let next = o.subrange(0, k + 1);
        assert(next.subrange(0, next.len() - 1) =~= o.subrange(0, k));
        vals_exprs_none_extends(o, k + 1);
    }
}

/// A failed prefix decides the whole expression-list parse.
proof fn exprs_none_extends(items: Seq<ValView>, k: int)
    requires
        0 <= k <= items.len(),
        exprs_of_v(items.subrange(0, k)) is None,
    ensures
        exprs_of_v(items) is None,
    decreases items.len() - k,
{
    if k == items.len() {
        assert(items.subrange(0, k) =~= items);
    } else {
        let next = items.subrange(0, k + 1);
        assert(next.subrange(0, next.len() - 1) =~= items.subrange(0, k));
        exprs_none_extends(items, k + 1);
    }
}

/// `fields` with the first binding keyed `k` replaced by `(k, v)`, or
/// with `(k, v)` appended when no binding has that key.
pub open spec fn vals_set_v(
    fields: Seq<(Seq<char>, ExprView)>,
    k: Seq<char>,
    v: ExprView,
) -> Seq<(Seq<char>, ExprView)>
    decreases fields.len(),
{
    if fields.len() == 0 {
        seq![(k, v)]
    } else if fields[0].0 == k {
        seq![(k, v)] + fields.subrange(1, fields.len() as int)
    } else {
        seq![fields[0]] + vals_set_v(fields.subrange(1, fields.len() as int), k, v)
    }
}

/// `base` with every binding of `add` set in order, later bindings of
/// a name replacing earlier ones.
pub open spec fn merge_vals_v(
    base: Seq<(Seq<char>, ExprView)>,
    add: Seq<(Seq<char>, ExprView)>,
) -> Seq<(Seq<char>, ExprView)>
    decreases add.len(),
{
    if add.len() == 0 {
        base
    } else {
        merge_vals_v(
            vals_set_v(base, add[0].0, add[0].1),
            add.subrange(1, add.len() as int),
        )
    }
}

/// `base` with every field of `add` set in order.
pub open spec fn merge_obj_v(
    base: Seq<(Seq<char>, ValView)>,
    add: Seq<(Seq<char>, ValView)>,
) -> Seq<(Seq<char>, ValView)>
    decreases add.len(),
{
    if add.len() == 0 {
        base
    } else {
        merge_obj_v(
            crate::value::obj_set_v(base, add[0].0, add[0].1),
            add.subrange(1, add.len() as int),
        )
    }
}

/// Sets `k` to `v` among named expressions, replacing an existing
/// binding in place or appending a new one.
fn set_value_in(fields: &mut Vec<(String, Expr)>, k: String, v: Expr)
    ensures
        vals_views(final(fields)@) == vals_set_v(vals_views(old(fields)@), k@, v@),
{
    let ghost orig = vals_views(fields@);
    let ghost kv = k@;
    let ghost vv = v@;
    let mut i: usize = 0;
    proof {
        assert(orig.subrange(0, orig.len() as int) =~= orig);
        assert(orig.subrange(0, 0) + vals_set_v(orig, kv, vv) =~= vals_set_v(orig, kv, vv));
    }
    while i < fields.len()
        invariant
            0 <= i <= fields@.len(),
            fields@ == old(fields)@,
            orig == vals_views(fields@),
            orig.len() == fields@.len(),
            kv == k@,
            vv == v@,
            vals_set_v(orig, kv, vv) =~= orig.subrange(0, i as int)
                + vals_set_v(orig.subrange(i as int, orig.len() as int), kv, vv),
        decreases fields@.len() - i,
    {
        proof {
            let t = orig.subrange(i as int, orig.len() as int);
            assert(t[0] == orig[i as int]);
            assert(t.subrange(1, t.len() as int)
                =~= orig.subrange(i as int + 1, orig.len() as int));
        }
        if crate::text::str_eq(fields[i].0.as_str(), k.as_str()) {
            proof {
                let t = orig.subrange(i as int, orig.len() as int);
                assert(vals_set_v(t, kv, vv)
                    =~= seq![(kv, vv)] + orig.subrange(i as int + 1, orig.len() as int));
            }
            fields.set(i, (k, v));
            proof {
                assert(vals_views(fields@) =~= vals_set_v(orig, kv, vv));
            }
            return;
        }
        proof {
            let t = orig.subrange(i as int, orig.len() as int);
            assert(vals_set_v(t, kv, vv) =~= seq![orig[i as int]]
                + vals_set_v(orig.subrange(i as int + 1, orig.len() as int), kv, vv));
            assert(orig.subrange(0, i as int) + seq![orig[i as int]]
                =~= orig.subrange(0, i as int + 1));
        }
        i = i + 1;
    }
    proof {
        assert(orig.subrange(i as int, orig.len() as int).len() == 0);
        assert(vals_set_v(orig.subrange(i as int, orig.len() as int), kv, vv)
            =~= seq![(kv, vv)]);
    }
    fields.push((k, v));
    proof {
        assert(orig.subrange(0, i as int) =~= orig);
        assert(vals_views(fields@) =~= vals_set_v(orig, kv, vv));
    }
}

/// The entry being generated for one transaction: the transaction, the
/// value bindings accumulated from matching rules, and the accumulated
/// entry template.
#[derive(Debug)]
pub struct GenEntry {
    tx: BankTx,
    values: Vec<(String, Expr)>,
    template: Vec<(String, Value)>,
}

impl GenEntry {
    /// The transaction.
    pub closed spec fn tx_spec(self) -> BankTx {
        self.tx
    }

    /// The accumulated bindings.
    pub closed spec fn values_spec(self) -> Seq<(Seq<char>, ExprView)> {
        vals_views(self.values@)
    }

    /// The accumulated template.
    pub closed spec fn template_spec(self) -> Seq<(Seq<char>, ValView)> {
        obj_view(self.template@)
    }

    /// A fresh generating entry for the transaction: no bindings, an
    /// empty template.
    pub fn new(tx: &BankTx) -> (r: GenEntry)
        ensures
            r.tx_spec() == *tx,
            r.values_spec() == Seq::<(Seq<char>, ExprView)>::empty(),
            r.template_spec() == Seq::<(Seq<char>, ValView)>::empty(),
    {
        let r = GenEntry {
            tx: tx.clone(),
            values: Vec::new(),
            template: Vec::new(),
        };
        proof {
            assert(vals_views(r.values@) =~= Seq::<(Seq<char>, ExprView)>::empty());
            assert(obj_view(r.template@) =~= Seq::<(Seq<char>, ValView)>::empty());
        }
        r
    }
}

/// The result of folding rules over a transaction's record, starting
/// from the given bindings and template at rule index `idx`: evaluate
/// each predicate in order; on truth merge the rule's bindings and
/// template; stop as soon as the accumulated template is non-empty;
/// a failing predicate aborts with its rule's index.
pub open spec fn apply_rules_v(
    rules: Seq<RecRuleV>,
    rec: Seq<(Seq<char>, ValView)>,
    vals: Seq<(Seq<char>, ExprView)>,
    tmpl: Seq<(Seq<char>, ValView)>,
    idx: int,
) -> Result<(Seq<(Seq<char>, ExprView)>, Seq<(Seq<char>, ValView)>), (int, EvalErrView)>
    decreases rules.len(),
{
    if rules.len() == 0 {
        Ok((vals, tmpl))
    } else {
        match crate::expr::eval_spec(rules[0].rule, rec) {
            Err(e) => Err((idx, e)),
            Ok(v) => {
                let vals2 = if v.truthy_spec() {
                    merge_vals_v(vals, rules[0].values)
                } else {
                    vals
                };
                let tmpl2 = if v.truthy_spec() {
                    merge_obj_v(tmpl, rules[0].template)
                } else {
                    tmpl
                };
                if tmpl2.len() > 0 {
                    Ok((vals2, tmpl2))
                } else {
                    apply_rules_v(
                        rules.subrange(1, rules.len() as int), rec, vals2, tmpl2, idx + 1)
                }
            },
        }
    }
}

/// Once a rule run has produced a non-empty template, rules appended
/// after it are never consulted: the first matching terminal rule wins.
pub proof fn lemma_rules_short_circuit(
    rules: Seq<RecRuleV>,
    extra: RecRuleV,
    rec: Seq<(Seq<char>, ValView)>,
    vals: Seq<(Seq<char>, ExprView)>,
    tmpl: Seq<(Seq<char>, ValView)>,
    idx: int,
)
    requires
        tmpl.len() == 0,
        apply_rules_v(rules, rec, vals, tmpl, idx) matches Ok(r) && r.1.len() > 0,
    ensures
        apply_rules_v(rules.push(extra), rec, vals, tmpl, idx)
            == apply_rules_v(rules, rec, vals, tmpl, idx),
    decreases rules.len(),
{
    if rules.len() == 0 {
    } else {
        let ext = rules.push(extra);
        assert(ext[0] == rules[0]);
        assert(ext.subrange(1, ext.len() as int)
            =~= rules.subrange(1, rules.len() as int).push(extra));
        match crate::expr::eval_spec(rules[0].rule, rec) {
            Err(_) => {},
            Ok(v) => {
                let vals2 = if v.truthy_spec() {
                    merge_vals_v(vals, rules[0].values)
                } else {
                    vals
                };
                let tmpl2 = if v.truthy_spec() {
                    merge_obj_v(tmpl, rules[0].template)
                } else {
                    tmpl
                };
                if tmpl2.len() == 0 {
                    lemma_rules_short_circuit(
                        rules.subrange(1, rules.len() as int),
                        extra, rec, vals2, tmpl2, idx + 1);
                }
            },
        }
    }
}

/// An ordered list of reconciliation rules.
#[derive(Debug)]
pub struct RecRules {
    rules: Vec<RecRule>,
}

impl RecRules {
    /// The ghost shapes of the rules, in order.
    pub closed spec fn rules_spec(self) -> Seq<RecRuleV> {
        Seq::new(self.rules@.len(), |i: int| self.rules@[i].view_spec())
    }

    /// A rule list from its parsed rules.
    pub fn new(rules: Vec<RecRule>) -> (r: RecRules)
        ensures
            r.rules_spec() == Seq::new(rules@.len(), |i: int| rules@[i].view_spec()),
    {
        RecRules { rules }
    }

    /// An empty rule list.
    pub fn empty() -> (r: RecRules)
        ensures
            r.rules_spec() == Seq::<RecRuleV>::empty(),
    {
        let r = RecRules { rules: Vec::new() };
        proof {
            assert(r.rules_spec() =~= Seq::<RecRuleV>::empty());
        }
        r
    }

    /// Applies the rules in order to a transaction, producing its
    /// generating entry; stops at the first rule whose merge leaves the
    /// accumulated template non-empty; a failing predicate aborts with
    /// the offending rule's index.
    pub fn apply(&self, tx: &BankTx) -> (r: Result<GenEntry, RuleError>)
        ensures
            match r {
                Ok(ge) => ge.tx_spec() == *tx
                    && apply_rules_v(
                        self.rules_spec(), super::bank_record_v(*tx),
                        Seq::empty(), Seq::empty(), 0)
                        == Ok::<_, (int, EvalErrView)>((
                            ge.values_spec(), ge.template_spec())),
                Err(_) => apply_rules_v(
                    self.rules_spec(), super::bank_record_v(*tx),
                    Seq::empty(), Seq::empty(), 0) is Err,
            },
    {
        let record = tx.field_record();
        let mut ge = GenEntry::new(tx);
        let ghost rv = self.rules_spec();
        let ghost recv = super::bank_record_v(*tx);
        let mut i: usize = 0;
        proof {
            assert(rv.subrange(0, rv.len() as int) =~= rv);
        }
        while i < self.rules.len()
            invariant
                0 <= i <= self.rules@.len(),
                rv == self.rules_spec(),
                rv.len() == self.rules@.len(),
                forall|j: int| 0 <= j < rv.len()
                    ==> #[trigger] rv[j] == self.rules@[j].view_spec(),
                recv == super::bank_record_v(*tx),
                record@ == recv,
                ge.tx_spec() == *tx,
                ge.template_spec().len() == 0,
                apply_rules_v(rv, recv, Seq::empty(), Seq::empty(), 0)
                    == apply_rules_v(
                        rv.subrange(i as int, rv.len() as int), recv,
                        ge.values_spec(), ge.template_spec(), i as int),
            decreases self.rules@.len() - i,
        {
            proof {
                let t = rv.subrange(i as int, rv.len() as int);
                assert(t[0] == rv[i as int]);
                assert(t.subrange(1, t.len() as int)
                    =~= rv.subrange(i as int + 1, rv.len() as int));
            }
            let rule = &self.rules[i];
            let verdict = match rule.rule.evaluate(&record) {
                Ok(v) => v,
                Err(_) => {
                    let mut msg = "Error applying rule ".to_owned();
                    crate::text::push_uint(&mut msg, i as u64);
                    return Err(RuleError { message: msg });
                },
            };
            if verdict.truthy() {
                let ghost vals0 = ge.values_spec();
                let ghost tmpl0 = ge.template_spec();
                proof {
                    crate::value::lemma_obj_view(rule.template@);
                    assert(vals_views(rule.values@).subrange(0, 0)
                        =~= Seq::<(Seq<char>, ExprView)>::empty());
                    assert(obj_view(rule.template@).subrange(0, 0)
                        =~= Seq::<(Seq<char>, ValView)>::empty());
                }
                let mut j: usize = 0;
                while j < rule.values.len()
                    invariant
                        0 <= j <= rule.values@.len(),
                        ge.tx_spec() == *tx,
                        ge.values_spec() == merge_vals_v(
                            vals0, vals_views(rule.values@).subrange(0, j as int)),
                        ge.template_spec() == tmpl0,
                        vals_views(rule.values@).len() == rule.values@.len(),
                        forall|t: int| 0 <= t < rule.values@.len()
                            ==> #[trigger] vals_views(rule.values@)[t]
                                == (rule.values@[t].0@, expr_view(rule.values@[t].1)),
                    decreases rule.values@.len() - j,
                {
                    proof {
                        lemma_merge_vals_step(
                            vals0, vals_views(rule.values@), j as int);
                    }
                    set_value_in(
                        &mut ge.values,
                        rule.values[j].0.clone(),
                        rule.values[j].1.deep_copy(),
                    );
                    j = j + 1;
                }
                proof {
                    assert(vals_views(rule.values@)
                        .subrange(0, rule.values@.len() as int)
                        =~= vals_views(rule.values@));
                }
                proof {
                    crate::value::lemma_obj_view(rule.template@);
                }
                let mut k: usize = 0;
                while k < rule.template.len()
                    invariant
                        0 <= k <= rule.template@.len(),
                        ge.tx_spec() == *tx,
                        ge.values_spec() == merge_vals_v(vals0, vals_views(rule.values@)),
                        ge.template_spec() == merge_obj_v(
                            tmpl0, obj_view(rule.template@).subrange(0, k as int)),
                        obj_view(rule.template@).len() == rule.template@.len(),
                        forall|t: int| 0 <= t < rule.template@.len()
                            ==> #[trigger] obj_view(rule.template@)[t]
                                == (rule.template@[t].0@, view_of(rule.template@[t].1)),
                    decreases rule.template@.len() - k,
                {
                    proof {
                        lemma_merge_obj_step(
                            tmpl0, obj_view(rule.template@), k as int);
                    }
                    crate::value::obj_set_in(
                        &mut ge.template,
                        rule.template[k].0.clone(),
                        rule.template[k].1.deep_copy(),
                    );
                    k = k + 1;
                }
                proof {
                    assert(obj_view(rule.template@)
                        .subrange(0, rule.template@.len() as int)
                        =~= obj_view(rule.template@));
                }
            }
            if ge.template.len() > 0 {
                proof {
                    crate::value::lemma_obj_view(ge.template@);
                }
                return Ok(ge);
            }
            proof {
                crate::value::lemma_obj_view(ge.template@);
            }
            i = i + 1;
        }
        proof {
            assert(rv.subrange(i as int, rv.len() as int).len() == 0);
        }
        Ok(ge)
    }
}

/// The `{name}` placeholder of a binding name.
pub open spec fn brace_key(k: Seq<char>) -> Seq<char> {
    "{"@ + k + "}"@
}

/// `s` with every binding applied in order: for each binding, every
/// `{name}` placeholder is replaced by the bound text.
pub open spec fn subst_chars(s: Seq<char>, bs: Seq<(Seq<char>, Seq<char>)>) -> Seq<char>
    decreases bs.len(),
{
    if bs.len() == 0 {
        s
    } else {
        subst_chars(
            crate::text::replace_all_chars(s, brace_key(bs[0].0), bs[0].1),
            bs.subrange(1, bs.len() as int),
        )
    }
}

/// Deep substitution over a document value: placeholders are replaced
/// in every text leaf, keys and other scalars stay untouched.
pub open spec fn subst_value_v(v: ValView, bs: Seq<(Seq<char>, Seq<char>)>) -> ValView
    decreases v,
    via subst_value_v_dec
{
    match v {
        ValView::Null => ValView::Null,
        ValView::Bool(b) => ValView::Bool(b),
        ValView::Num(n) => ValView::Num(n),
        ValView::Text(s) => ValView::Text(subst_chars(s, bs)),
        ValView::Arr(items) => ValView::Arr(subst_list_v(items, bs)),
        ValView::Obj(fields) => ValView::Obj(subst_fields_v(fields, bs)),
    }
}

/// Deep substitution over a list of values.
pub open spec fn subst_list_v(
    items: Seq<ValView>,
    bs: Seq<(Seq<char>, Seq<char>)>,
) -> Seq<ValView>
    decreases items,
    via subst_list_v_dec
{
    if items.len() == 0 {
        Seq::empty()
    } else {
        subst_list_v(items.subrange(0, items.len() - 1), bs)
            + seq![subst_value_v(items[items.len() - 1], bs)]
    }
}

/// Deep substitution over an object's field values.
pub open spec fn subst_fields_v(
    fields: Seq<(Seq<char>, ValView)>,
    bs: Seq<(Seq<char>, Seq<char>)>,
) -> Seq<(Seq<char>, ValView)>
    decreases fields,
    via subst_fields_v_dec
{
    if fields.len() == 0 {
        Seq::empty()
    } else {
        subst_fields_v(fields.subrange(0, fields.len() - 1), bs)
            + seq![(
                fields[fields.len() - 1].0,
                subst_value_v(fields[fields.len() - 1].1, bs),
            )]
    }
}

#[via_fn]
proof fn subst_value_v_dec(v: ValView, bs: Seq<(Seq<char>, Seq<char>)>) {
    match v {
        ValView::Arr(_) => {
            assert(decreases_to!(v => v->Arr_0));
        },
        ValView::Obj(_) => {
            assert(decreases_to!(v => v->Obj_0));
        },
        _ => {},
    }
}

#[via_fn]
proof fn subst_list_v_dec(items: Seq<ValView>, bs: Seq<(Seq<char>, Seq<char>)>) {
    if items.len() > 0 {
        assert(decreases_to!(items => items.subrange(0, items.len() - 1)));
        assert(decreases_to!(items => items[items.len() - 1]));
    }
}

#[via_fn]
proof fn subst_fields_v_dec(fields: Seq<(Seq<char>, ValView)>, bs: Seq<(Seq<char>, Seq<char>)>) {
    if fields.len() > 0 {
        assert(decreases_to!(fields => fields.subrange(0, fields.len() - 1)));
        assert(decreases_to!(fields => fields[fields.len() - 1]));
        assert(decreases_to!(fields[fields.len() - 1] => fields[fields.len() - 1].1));
    }
}

/// Views of named texts, in order.
pub open spec fn binds_views(s: Seq<(String, String)>) -> Seq<(Seq<char>, Seq<char>)> {
    Seq::new(s.len(), |i: int| (s[i].0@, s[i].1@))
}

/// The bound text under `k`, reading the first matching binding.
pub open spec fn binds_get(
    bs: Seq<(Seq<char>, Seq<char>)>,
    k: Seq<char>,
) -> Option<Seq<char>>
    decreases bs.len(),
{
    if bs.len() == 0 {
        None
    } else if bs[0].0 == k {
        Some(bs[0].1)
    } else {
        binds_get(bs.subrange(1, bs.len() as int), k)
    }
}

/// Applies every binding's placeholder to `s`, in order.
fn subst_str(s: &str, bs: &Vec<(String, String)>) -> (r: String)
    ensures
        r@ == subst_chars(s@, binds_views(bs@)),
{
    let ghost bv = binds_views(bs@);
    let mut cur = s.to_owned();
    let mut i: usize = 0;
    proof {
        assert(bv.subrange(0, bv.len() as int) =~= bv);
    }
    while i < bs.len()
        invariant
            0 <= i <= bs@.len(),
            bv == binds_views(bs@),
            bv.len() == bs@.len(),
            subst_chars(s@, bv)
                == subst_chars(cur@, bv.subrange(i as int, bv.len() as int)),
        decreases bs@.len() - i,
    {
        proof {
            let t = bv.subrange(i as int, bv.len() as int);
            assert(t[0] == bv[i as int]);
            assert(t.subrange(1, t.len() as int)
                =~= bv.subrange(i as int + 1, bv.len() as int));
        }
        let mut pat = "{".to_owned();
        pat.append(bs[i].0.as_str());
        pat.append("}");
        proof {
            assert(pat@ == brace_key(bs@[i as int].0@));
        }
        cur = crate::text::replace_all(cur.as_str(), pat.as_str(), bs[i].1.as_str());
        i = i + 1;
    }
    proof {
        assert(bv.subrange(i as int, bv.len() as int).len() == 0);
    }
    cur
}

/// Deep substitution over a document value.
fn substituted(v: &Value, bs: &Vec<(String, String)>) -> (r: Value)
    ensures
        r@ == subst_value_v(v@, binds_views(bs@)),
    decreases *v,
{
    match v {
        Value::Null => Value::Null,
        Value::Bool(b) => Value::Bool(*b),
        Value::Number(m) => Value::Number(*m),
        Value::Text(s) => Value::Text(subst_str(s.as_str(), bs)),
        Value::Array(items) => {
            let ghost w = crate::value::views_of(items@);
            let mut out: Vec<Value> = Vec::new();
            let mut i: usize = 0;
            proof {
                crate::value::lemma_views_of(items@);
                assert(w.subrange(0, 0) =~= Seq::<ValView>::empty());
                assert(subst_list_v(w.subrange(0, 0), binds_views(bs@))
                    =~= Seq::<ValView>::empty());
            }
            while i < items.len()
                invariant
                    0 <= i <= items@.len(),
                    *v == Value::Array(*items),
                    w == crate::value::views_of(items@),
                    w.len() == items@.len(),
                    forall|j: int| 0 <= j < items@.len()
                        ==> #[trigger] w[j] == view_of(items@[j]),
                    out@.len() == i,
                    crate::value::views_of(out@)
                        =~= subst_list_v(w.subrange(0, i as int), binds_views(bs@)),
                decreases items@.len() - i,
            {
                proof {
                    let t = w.subrange(0, i as int + 1);
                    assert(t.subrange(0, t.len() - 1) =~= w.subrange(0, i as int));
                    assert(t[t.len() - 1] == w[i as int]);
                    assert(decreases_to!(*v => v->Array_0));
                    assert(decreases_to!(v->Array_0 => v->Array_0@));
                    assert(decreases_to!(v->Array_0@ => v->Array_0@[i as int]));
                }
                let ghost out0 = out@;
                out.push(substituted(&items[i], bs));
                proof {
                    crate::value::lemma_views_of(out@);
                    crate::value::lemma_views_of(out0);
                    assert(crate::value::views_of(out@)
                        =~= crate::value::views_of(out0)
                            + seq![subst_value_v(w[i as int], binds_views(bs@))]);
                }
                i = i + 1;
            }
            proof {
                assert(w.subrange(0, i as int) =~= w);
            }
            Value::Array(out)
        },
        Value::Object(fields) => {
            let ghost w = obj_view(fields@);
            let mut out: Vec<(String, Value)> = Vec::new();
            let mut i: usize = 0;
            proof {
                crate::value::lemma_obj_view(fields@);
                assert(w.subrange(0, 0) =~= Seq::<(Seq<char>, ValView)>::empty());
                assert(subst_fields_v(w.subrange(0, 0), binds_views(bs@))
                    =~= Seq::<(Seq<char>, ValView)>::empty());
            }
            while i < fields.len()
                invariant
                    0 <= i <= fields@.len(),
                    *v == Value::Object(*fields),
                    w == obj_view(fields@),
                    w.len() == fields@.len(),
                    forall|j: int| 0 <= j < fields@.len()
                        ==> #[trigger] w[j]
                            == (fields@[j].0@, view_of(fields@[j].1)),
                    out@.len() == i,
                    obj_view(out@)
                        =~= subst_fields_v(w.subrange(0, i as int), binds_views(bs@)),
                decreases fields@.len() - i,
            {
                proof {
                    let t = w.subrange(0, i as int + 1);
                    assert(t.subrange(0, t.len() - 1) =~= w.subrange(0, i as int));
                    assert(t[t.len() - 1] == w[i as int]);
                    assert(decreases_to!(*v => v->Object_0));
                    assert(decreases_to!(v->Object_0 => v->Object_0@));
                    assert(decreases_to!(v->Object_0@ => v->Object_0@[i as int]));
                    assert(decreases_to!(
                        v->Object_0@[i as int] => v->Object_0@[i as int].1));
                }
                let ghost out0 = out@;
                let k = fields[i].0.clone();
                let sv = substituted(&fields[i].1, bs);
                out.push((k, sv));
                proof {
                    crate::value::lemma_obj_view(out@);
                    crate::value::lemma_obj_view(out0);
                    assert(obj_view(out@)
                        =~= obj_view(out0) + seq![(
                            w[i as int].0,
                            subst_value_v(w[i as int].1, binds_views(bs@)),
                        )]);
                }
                i = i + 1;
            }
            proof {
                assert(w.subrange(0, i as int) =~= w);
            }
            Value::Object(out)
        },
    }
}

/// Replaces every `{name}` placeholder in the string leaves of `val`,
/// recursively through nested objects and arrays, with the named
/// binding's text; unmatched placeholders stay as they are.
pub fn template_deep(val: &mut Value, bindings: &Vec<(String, String)>)
    ensures
        final(val)@ == subst_value_v(old(val)@, binds_views(bindings@)),
{
    let replaced = substituted(val, bindings);
    *val = replaced;
}

/// The texts the accumulated bindings resolve to, in order: each
/// binding's expression evaluated against the record and rendered as
/// text; a failing or non-scalar binding aborts.
pub open spec fn resolve_values_v(
    vals: Seq<(Seq<char>, ExprView)>,
    rec: Seq<(Seq<char>, ValView)>,
) -> Result<Seq<(Seq<char>, Seq<char>)>, EvalErrView>
    decreases vals.len(),
{
    if vals.len() == 0 {
        Ok(Seq::empty())
    } else {
        match resolve_values_v(vals.subrange(0, vals.len() - 1), rec) {
            Err(e) => Err(e),
            Ok(bs) => match crate::expr::eval_spec(vals[vals.len() - 1].1, rec) {
                Err(e) => Err(e),
                Ok(v) => match v.scalar_chars_spec() {
                    Some(t) => Ok(bs + seq![(vals[vals.len() - 1].0, t)]),
                    None => Err(EvalErrView::TypeMismatch),
                },
            },
        }
    }
}

/// A failed prefix decides the whole resolution.
proof fn resolve_err_extends(
    vals: Seq<(Seq<char>, ExprView)>,
    rec: Seq<(Seq<char>, ValView)>,
    k: int,
)
    requires
        0 <= k <= vals.len(),
        resolve_values_v(vals.subrange(0, k), rec) is Err,
    ensures
        resolve_values_v(vals, rec) == resolve_values_v(vals.subrange(0, k), rec),
    decreases vals.len() - k,
{
    if k == vals.len() {
        assert(vals.subrange(0, k) =~= vals);
    } else {
        let next = vals.subrange(0, k + 1);
        assert(next.subrange(0, next.len() - 1) =~= vals.subrange(0, k));
        resolve_err_extends(vals, rec, k + 1);
    }
}

impl GenEntry {
    /// Resolves every accumulated binding to text against the
    /// transaction's field record, and applies the resolved bindings
    /// to the accumulated template's string leaves.
    pub fn evaluate(&self) -> (r: Result<
        (Vec<(String, String)>, Value),
        crate::expr::EvalError,
    >)
        ensures
            match resolve_values_v(
                self.values_spec(), super::bank_record_v(self.tx_spec())) {
                Err(e) => r matches Err(err) && err@ == e,
                Ok(bs) => r matches Ok(p) && binds_views(p.0@) == bs
                    && p.1@ == subst_value_v(ValView::Obj(self.template_spec()), bs),
            },
    {
        let record = self.tx.field_record();
        let ghost vv = self.values_spec();
        let ghost recv = super::bank_record_v(self.tx);
        let mut binds: Vec<(String, String)> = Vec::new();
        let mut i: usize = 0;
        proof {
            assert(vv.subrange(0, 0) =~= Seq::<(Seq<char>, ExprView)>::empty());
            assert(binds_views(binds@) =~= Seq::<(Seq<char>, Seq<char>)>::empty());
        }
        while i < self.values.len()
            invariant
                0 <= i <= self.values@.len(),
                vv == vals_views(self.values@),
                vv.len() == self.values@.len(),
                forall|j: int| 0 <= j < self.values@.len()
                    ==> #[trigger] vv[j]
                        == (self.values@[j].0@, expr_view(self.values@[j].1)),
                recv == super::bank_record_v(self.tx),
                record@ == recv,
                binds@.len() == i,
                resolve_values_v(vv.subrange(0, i as int), recv)
                    == Ok::<_, EvalErrView>(binds_views(binds@)),
            decreases self.values@.len() - i,
        {
            proof {
                let t = vv.subrange(0, i as int + 1);
                assert(t.subrange(0, t.len() - 1) =~= vv.subrange(0, i as int));
                assert(t[t.len() - 1] == vv[i as int]);
            }
            let v = match self.values[i].1.evaluate(&record) {
                Ok(v) => v,
                Err(e) => {
                    proof {
                        resolve_err_extends(vv, recv, i as int + 1);
                    }
                    return Err(e);
                },
            };
            let text = match v.scalar_string() {
                Some(t) => t,
                None => {
                    proof {
                        resolve_err_extends(vv, recv, i as int + 1);
                    }
                    return Err(crate::expr::EvalError::TypeMismatch);
                },
            };
            let ghost b0 = binds@;
            binds.push((self.values[i].0.clone(), text));
            proof {
                assert(binds_views(binds@)
                    =~= binds_views(b0) + seq![(
                        self.values@[i as int].0@, text@)]);
            }
            i = i + 1;
        }
        proof {
            assert(vv.subrange(0, i as int) =~= vv);
        }
        let obj = Value::Object(copy_object_fields(&self.template));
        let mut templated = obj;
        template_deep(&mut templated, &binds);
        Ok((binds, templated))
    }
}

/// The bound text under `k` among resolved bindings.
pub fn binds_lookup<'a>(bs: &'a Vec<(String, String)>, k: &str) -> (r: Option<&'a String>)
    ensures
        r is Some <==> binds_get(binds_views(bs@), k@) is Some,
        r matches Some(s) ==> binds_get(binds_views(bs@), k@) == Some(s@),
{
    let ghost bv = binds_views(bs@);
    let mut i: usize = 0;
    proof {
        assert(bv.subrange(0, bv.len() as int) =~= bv);
    }
    while i < bs.len()
        invariant
            0 <= i <= bs@.len(),
            bv == binds_views(bs@),
            bv.len() == bs@.len(),
            binds_get(bv, k@)
                == binds_get(bv.subrange(i as int, bv.len() as int), k@),
        decreases bs@.len() - i,
    {
        proof {
            let t = bv.subrange(i as int, bv.len() as int);
            assert(t[0] == bv[i as int]);
            assert(t.subrange(1, t.len() as int)
                =~= bv.subrange(i as int + 1, bv.len() as int));
        }
        if crate::text::str_eq(bs[i].0.as_str(), k) {
            return Some(&bs[i].1);
        }
        i = i + 1;
    }
    proof {
        assert(bv.subrange(i as int, bv.len() as int).len() == 0);
    }
    None
}

/// Whether a transaction with resolved bindings matches a recorded
/// journal entry: the dates must agree; a `bank_account` binding must
/// exist; and no line of the entry on that account may carry an amount
/// other than the transaction's amount inverted.
pub open spec fn matches_entry_v(
    tx: BankTx,
    bs: Seq<(Seq<char>, Seq<char>)>,
    jdate: crate::date::Date,
    lines: Seq<(Seq<char>, crate::entry::journal::JournalAmount)>,
) -> bool {
    if tx.date != jdate {
        false
    } else {
        match binds_get(bs, "bank_account"@) {
            None => false,
            Some(acct) => !(exists|i: int| 0 <= i < lines.len()
                && (#[trigger] lines[i]).0 == acct
                && lines[i].1 != tx.amount.spec_invert()),
        }
    }
}

impl GenEntry {
    /// Tests whether this generating entry matches a recorded journal
    /// entry, as `matches_entry_v` over the resolved bindings; a
    /// binding that fails to resolve aborts.
    pub fn match_entry(&self, entry: &crate::entry::journal::JournalEntry) -> (r: Result<
        bool,
        crate::expr::EvalError,
    >)
        ensures
            match resolve_values_v(
                self.values_spec(), super::bank_record_v(self.tx_spec())) {
                Err(e) => r matches Err(err) && err@ == e,
                Ok(bs) => r == Ok::<bool, crate::expr::EvalError>(matches_entry_v(
                    self.tx_spec(), bs, entry.date_spec(),
                    crate::entry::journal::jline_views(entry.lines_spec()))),
            },
    {
        let evaled = match self.evaluate() {
            Ok(p) => p.0,
            Err(e) => {
                return Err(e);
            },
        };
        if self.tx.date != entry.date() {
            return Ok(false);
        }
        let acct = match binds_lookup(&evaled, "bank_account") {
            Some(a) => a,
            None => {
                return Ok(false);
            },
        };
        let lines = entry.lines();
        let ghost lv = crate::entry::journal::jline_views(lines@);
        let n = lines.len();
        let mut i: usize = 0;
        while i < n
            invariant
                0 <= i <= n,
                n == lines@.len(),
                lv == crate::entry::journal::jline_views(lines@),
                lv.len() == n,
                lines@ == entry.lines_spec(),
                resolve_values_v(
                    self.values_spec(), super::bank_record_v(self.tx_spec()))
                    == Ok::<_, EvalErrView>(binds_views(evaled@)),
                binds_get(binds_views(evaled@), "bank_account"@) == Some(acct@),
                self.tx_spec().date == entry.date_spec(),
                forall|j: int| 0 <= j < i
                    ==> !((#[trigger] lv[j]).0 == acct@
                        && lv[j].1 != self.tx_spec().amount.spec_invert()),
            decreases n - i,
        {
            let l = lines.line(i);
            proof {
                assert(lv[i as int] == (lines@[i as int].0@, lines@[i as int].1));
            }
            if crate::text::str_eq(l.0.as_str(), acct.as_str()) {
                let inv = self.tx.amount.invert();
                if !(l.1 == inv) {
                    proof {
                        assert(lv[i as int].0 == acct@
                            && lv[i as int].1 != self.tx_spec().amount.spec_invert());
                    }
                    return Ok(false);
                }
            }
            i = i + 1;
        }
        Ok(true)
    }
}

/// Why an entry could not be generated from a transaction.
#[derive(Debug, PartialEq)]
pub struct GenError {
    message: String,
}

impl GenError {
    /// The description of the failure.
    pub closed spec fn message_spec(self) -> Seq<char> {
        self.message@
    }

    /// A short description of the failure.
    pub fn message(&self) -> (r: String)
        ensures
            r@ == self.message_spec(),
    {
        self.message.clone()
    }

    fn new(msg: &str) -> (r: GenError) {
        GenError { message: msg.to_owned() }
    }

    pub(crate) fn from_message(message: String) -> (r: GenError) {
        GenError { message }
    }
}

/// The entry document generated for a transaction: the substituted
/// template, with `id`, `date` and `memo` defaulted from the bindings
/// or the transaction when absent; when no `type` was set, a payment
/// in the transaction's direction is assumed, the document's `amount`
/// is set to the transaction's magnitude (replacing any template
/// amount), and the account falls back to the `bank_account` binding.
pub open spec fn gen_doc_v(
    tmpl: Seq<(Seq<char>, ValView)>,
    bs: Seq<(Seq<char>, Seq<char>)>,
    tx: BankTx,
) -> Seq<(Seq<char>, ValView)> {
    let d0 = subst_fields_v(tmpl, bs);
    let id_text = match binds_get(bs, "id"@) {
        Some(t) => t,
        None => crate::date::date_chars(tx.date) + "-"@
            + crate::money::plain_chars(tx.amount.magnitude_val()),
    };
    let d1 = if crate::value::obj_has_v(d0, "id"@) {
        d0
    } else {
        crate::value::obj_set_v(d0, "id"@, ValView::Text(id_text))
    };
    let date_text = match binds_get(bs, "date"@) {
        Some(t) => t,
        None => crate::date::date_chars(tx.date),
    };
    let d2 = if crate::value::obj_has_v(d1, "date"@) {
        d1
    } else {
        crate::value::obj_set_v(d1, "date"@, ValView::Text(date_text))
    };
    let memo_text = match binds_get(bs, "memo"@) {
        Some(t) => t,
        None => tx.memo@,
    };
    let d3 = if crate::value::obj_has_v(d2, "memo"@) {
        d2
    } else {
        crate::value::obj_set_v(d2, "memo"@, ValView::Text(memo_text))
    };
    if crate::value::obj_has_v(d3, "type"@) {
        d3
    } else {
        let tname = if tx.amount is Credit {
            "Payment Received"@
        } else {
            "Payment Sent"@
        };
        let d4 = crate::value::obj_set_v(d3, "type"@, ValView::Text(tname));
        let d5 = crate::value::obj_set_v(
            d4, "amount"@, ValView::Num(tx.amount.magnitude_val()));
        if crate::value::obj_has_v(d5, "account"@) {
            d5
        } else {
            match binds_get(bs, "bank_account"@) {
                Some(a) => crate::value::obj_set_v(d5, "account"@, ValView::Text(a)),
                None => d5,
            }
        }
    }
}

/// The recognized entry document keys are pairwise distinct.
proof fn lemma_keys_distinct()
    ensures
        "id"@ != "date"@ && "id"@ != "memo"@ && "id"@ != "type"@
            && "id"@ != "amount"@ && "id"@ != "account"@,
        "date"@ != "memo"@ && "date"@ != "type"@ && "date"@ != "amount"@
            && "date"@ != "account"@,
        "memo"@ != "type"@ && "memo"@ != "amount"@ && "memo"@ != "account"@,
        "type"@ != "amount"@ && "type"@ != "account"@,
        "amount"@ != "account"@,
{
    reveal_strlit("id");
    reveal_strlit("date");
    reveal_strlit("memo");
    reveal_strlit("type");
    reveal_strlit("amount");
    reveal_strlit("account");
    assert("id"@.len() == 2);
    assert("date"@.len() == 4);
    assert("memo"@.len() == 4);
    assert("type"@.len() == 4);
    assert("amount"@.len() == 6);
    assert("account"@.len() == 7);
    assert("date"@[0] == 'd' && "type"@[0] == 't' && "memo"@[0] == 'm');
}

/// Whether the rules generate an entry for `tx` at all: rule
/// application succeeds, the bindings resolve, and the generated
/// document validates.
pub open spec fn generation_ok(rules: Seq<RecRuleV>, tx: BankTx) -> bool {
    match apply_rules_v(rules, super::bank_record_v(tx), Seq::empty(), Seq::empty(), 0) {
        Err(_) => false,
        Ok(r) => match resolve_values_v(r.0, super::bank_record_v(tx)) {
            Err(_) => false,
            Ok(bs) => crate::entry::doc_entry_ok(gen_doc_v(r.1, bs, tx)),
        },
    }
}

/// How the entry generated for `tx` under the rules reflects its
/// generated document: the identifier, date and memo are the
/// document's; and when the accumulated template set no `type`, the
/// entry is a payment in the transaction's direction carrying the
/// transaction's magnitude.
pub open spec fn generates_to(rules: Seq<RecRuleV>, tx: BankTx, e: crate::entry::Entry) -> bool {
    &&& generation_ok(rules, tx)
    &&& match apply_rules_v(
            rules, super::bank_record_v(tx), Seq::empty(), Seq::empty(), 0) {
        Err(_) => false,
        Ok(r) => match resolve_values_v(r.0, super::bank_record_v(tx)) {
            Err(_) => false,
            Ok(bs) => ({
                let doc = gen_doc_v(r.1, bs, tx);
                &&& e.id_spec()
                    == crate::entry::raw::text_field(doc, "id"@).unwrap().unwrap()
                &&& Some(e.date_spec().ymd_spec()) == crate::date::ymd_of_chars(
                    crate::entry::raw::text_field(doc, "date"@).unwrap().unwrap())
                &&& e.memo_spec()
                    == crate::entry::raw::text_field(doc, "memo"@).unwrap()
                &&& (!crate::value::obj_has_v(subst_fields_v(r.1, bs), "type"@) ==> ({
                    &&& (tx.amount is Credit ==> (e.body_spec()
                            matches crate::entry::Body::PaymentReceived(p)
                        && p.amount.val() == tx.amount.magnitude_val()))
                    &&& (tx.amount is Debit ==> (e.body_spec()
                            matches crate::entry::Body::PaymentSent(p)
                        && p.amount.val() == tx.amount.magnitude_val()))
                }))
            }),
        },
    }
}

impl GenEntry {
    /// Generates the entry this transaction and its accumulated rules
    /// denote: the generated document, validated into a typed entry.
    #[verifier::rlimit(100)]
    pub fn generate(&self) -> (r: Result<crate::entry::Entry, GenError>)
        ensures
            match resolve_values_v(
                self.values_spec(), super::bank_record_v(self.tx_spec())) {
                Err(_) => r is Err,
                Ok(bs) => ({
                    let doc = gen_doc_v(self.template_spec(), bs, self.tx_spec());
                    &&& (r is Ok <==> crate::entry::doc_entry_ok(doc))
                    &&& (r matches Ok(e) ==> ({
                        let c = crate::entry::type_case(
                            crate::entry::raw::text_field(doc, "type"@).unwrap());
                        &&& e.id_spec()
                            == crate::entry::raw::text_field(doc, "id"@).unwrap().unwrap()
                        &&& Some(e.date_spec().ymd_spec()) == crate::date::ymd_of_chars(
                            crate::entry::raw::text_field(doc, "date"@).unwrap().unwrap())
                        &&& e.memo_spec()
                            == crate::entry::raw::text_field(doc, "memo"@).unwrap()
                        &&& (c == 1 ==> (e.body_spec()
                                matches crate::entry::Body::PaymentSent(p)
                            && Some(p.amount.val())
                                == crate::entry::raw::money_field(doc, "amount"@).unwrap()))
                        &&& (c == 2 ==> (e.body_spec()
                                matches crate::entry::Body::PaymentReceived(p)
                            && Some(p.amount.val())
                                == crate::entry::raw::money_field(doc, "amount"@).unwrap()))
                        &&& (c == 0 ==> e.body_spec() is Journal)
                        &&& (c == 3 ==> e.body_spec() is PurchaseInvoice)
                        &&& (c == 4 ==> e.body_spec() is SaleInvoice)
                        &&& (!crate::value::obj_has_v(
                                subst_fields_v(self.template_spec(), bs), "type"@)
                            ==> ({
                                &&& (self.tx_spec().amount is Credit ==> (e.body_spec()
                                        matches crate::entry::Body::PaymentReceived(p)
                                    && p.amount.val()
                                        == self.tx_spec().amount.magnitude_val()))
                                &&& (self.tx_spec().amount is Debit ==> (e.body_spec()
                                        matches crate::entry::Body::PaymentSent(p)
                                    && p.amount.val()
                                        == self.tx_spec().amount.magnitude_val()))
                            }))
                    }))
                }),
            },
    {
        let ghost recv = super::bank_record_v(self.tx_spec());
        let pair = match self.evaluate() {
            Ok(p) => p,
            Err(e) => {
                let mut msg = "Error evaluating rule values: ".to_owned();
                msg.append(e.message().as_str());
                return Err(GenError { message: msg });
            },
        };
        let ghost bs = binds_views(pair.0@);
        let evaled = pair.0;
        let templated = pair.1;
        let ghost d0 = subst_fields_v(self.template_spec(), bs);
        let mut fields = match templated {
            Value::Object(f) => f,
            other => {
                proof {
                    assert(view_of(other) is Obj);
                    assert(false);
                }
                return Err(GenError::new("generated template is not an object"));
            },
        };
        proof {
            assert(obj_view(fields@) == d0);
            lemma_keys_distinct();
        }
        let tx_mag = self.tx.amount.abs_amount();
        if obj_get_in(&fields, "id").is_none() {
            let idt: String = match binds_lookup(&evaled, "id") {
                Some(t) => t.clone(),
                None => {
                    let mut s = self.tx.date.to_chars();
                    s.append("-");
                    s.append(tx_mag.plain_string().as_str());
                    s
                },
            };
            crate::value::obj_set_in(&mut fields, "id".to_owned(), Value::Text(idt));
        }
        let ghost d1 = obj_view(fields@);
        if obj_get_in(&fields, "date").is_none() {
            let dt: String = match binds_lookup(&evaled, "date") {
                Some(t) => t.clone(),
                None => self.tx.date.to_chars(),
            };
            crate::value::obj_set_in(&mut fields, "date".to_owned(), Value::Text(dt));
        }
        let ghost d2 = obj_view(fields@);
        if obj_get_in(&fields, "memo").is_none() {
            let mt: String = match binds_lookup(&evaled, "memo") {
                Some(t) => t.clone(),
                None => self.tx.memo.clone(),
            };
            crate::value::obj_set_in(&mut fields, "memo".to_owned(), Value::Text(mt));
        }
        let ghost d3 = obj_view(fields@);
        if obj_get_in(&fields, "type").is_none() {
            let tname: &str = match &self.tx.amount {
                crate::entry::journal::JournalAmount::Credit(_) => "Payment Received",
                crate::entry::journal::JournalAmount::Debit(_) => "Payment Sent",
            };
            crate::value::obj_set_in(
                &mut fields, "type".to_owned(), Value::Text(tname.to_owned()));
            crate::value::obj_set_in(
                &mut fields, "amount".to_owned(), Value::Number(tx_mag));
            if obj_get_in(&fields, "account").is_none() {
                if let Some(acct) = binds_lookup(&evaled, "bank_account") {
                    let acct = acct.clone();
                    crate::value::obj_set_in(
                        &mut fields, "account".to_owned(), Value::Text(acct));
                }
            }
        }
        let ghost doc = gen_doc_v(self.template_spec(), bs, self.tx_spec());
        proof {
            assert(obj_view(fields@) == doc);
        }
        let doc_value = Value::Object(fields);
        let rawe = match crate::entry::raw::Entry::from_value(&doc_value) {
            Ok(rawe) => rawe,
            Err(e) => {
                let mut msg = "Generated entry document is invalid: ".to_owned();
                msg.append(e.message().as_str());
                return Err(GenError { message: msg });
            },
        };
        match crate::entry::Entry::from_raw(&rawe) {
            Ok(e) => {
                proof {
                    crate::entry::lemma_doc_raw_bridge(doc, rawe);
                    lemma_keys_distinct();
                    let tx = self.tx_spec();
                    let tmplv = subst_fields_v(self.template_spec(), bs);
                    if !crate::value::obj_has_v(tmplv, "type"@) {
                        let id_text = match binds_get(bs, "id"@) {
                            Some(t) => t,
                            None => crate::date::date_chars(tx.date) + "-"@
                                + crate::money::plain_chars(tx.amount.magnitude_val()),
                        };
                        let dd1 = if crate::value::obj_has_v(tmplv, "id"@) {
                            tmplv
                        } else {
                            crate::value::obj_set_v(tmplv, "id"@, ValView::Text(id_text))
                        };
                        if !crate::value::obj_has_v(tmplv, "id"@) {
                            crate::value::lemma_obj_set_get(
                                tmplv, "id"@, ValView::Text(id_text));
                        }
                        assert(obj_get_v(dd1, "type"@) == obj_get_v(tmplv, "type"@));
                        let date_text = match binds_get(bs, "date"@) {
                            Some(t) => t,
                            None => crate::date::date_chars(tx.date),
                        };
                        let dd2 = if crate::value::obj_has_v(dd1, "date"@) {
                            dd1
                        } else {
                            crate::value::obj_set_v(dd1, "date"@, ValView::Text(date_text))
                        };
                        if !crate::value::obj_has_v(dd1, "date"@) {
                            crate::value::lemma_obj_set_get(
                                dd1, "date"@, ValView::Text(date_text));
                        }
                        assert(obj_get_v(dd2, "type"@) == obj_get_v(dd1, "type"@));
                        let memo_text = match binds_get(bs, "memo"@) {
                            Some(t) => t,
                            None => tx.memo@,
                        };
                        let dd3 = if crate::value::obj_has_v(dd2, "memo"@) {
                            dd2
                        } else {
                            crate::value::obj_set_v(dd2, "memo"@, ValView::Text(memo_text))
                        };
                        if !crate::value::obj_has_v(dd2, "memo"@) {
                            crate::value::lemma_obj_set_get(
                                dd2, "memo"@, ValView::Text(memo_text));
                        }
                        assert(obj_get_v(dd3, "type"@) == obj_get_v(tmplv, "type"@));
                        assert(!crate::value::obj_has_v(dd3, "type"@));
                        let tname = if tx.amount is Credit {
                            "Payment Received"@
                        } else {
                            "Payment Sent"@
                        };
                        let dd4 = crate::value::obj_set_v(
                            dd3, "type"@, ValView::Text(tname));
                        crate::value::lemma_obj_set_get(dd3, "type"@, ValView::Text(tname));
                        let dd5 = crate::value::obj_set_v(
                            dd4, "amount"@, ValView::Num(tx.amount.magnitude_val()));
                        crate::value::lemma_obj_set_get(
                            dd4, "amount"@, ValView::Num(tx.amount.magnitude_val()));
                        assert(obj_get_v(dd5, "type"@) == Some(ValView::Text(tname)));
                        assert(obj_get_v(dd5, "amount"@)
                            == Some(ValView::Num(tx.amount.magnitude_val())));
                        if !crate::value::obj_has_v(dd5, "account"@) {
                            match binds_get(bs, "bank_account"@) {
                                Some(a) => {
                                    crate::value::lemma_obj_set_get(
                                        dd5, "account"@, ValView::Text(a));
                                    assert(doc == crate::value::obj_set_v(
                                        dd5, "account"@, ValView::Text(a)));
                                },
                                None => {},
                            }
                        }
                        assert(obj_get_v(doc, "type"@) == Some(ValView::Text(tname)));
                        assert(obj_get_v(doc, "amount"@)
                            == Some(ValView::Num(tx.amount.magnitude_val())));
                        assert(crate::entry::raw::text_field(doc, "type"@)
                            == Ok::<Option<Seq<char>>, ()>(Some(tname)));
                        assert(crate::entry::raw::money_field(doc, "amount"@)
                            == Ok::<Option<int>, ()>(Some(tx.amount.magnitude_val())));
                        reveal_strlit("Payment Sent");
                        reveal_strlit("Payment Received");
                        assert("Payment Sent"@.len() == 12);
                        assert("Payment Received"@.len() == 16);
                        if tx.amount is Credit {
                            assert(crate::entry::type_case(Some(tname)) == 2);
                        } else {
                            assert(crate::entry::type_case(Some(tname)) == 1);
                        }
                    }
                }
                Ok(e)
            },
            Err(e) => {
                proof {
                    crate::entry::lemma_doc_raw_bridge(doc, rawe);
                }
                let mut msg = "Generated entry is invalid: ".to_owned();
                msg.append(e.message().as_str());
                Err(GenError { message: msg })
            },
        }
    }
}

/// One step of merging bindings: setting the next binding extends the
/// partial merge by one.
proof fn lemma_merge_vals_step(
    base: Seq<(Seq<char>, ExprView)>,
    add: Seq<(Seq<char>, ExprView)>,
    j: int,
)
    requires
        0 <= j < add.len(),
    ensures
        merge_vals_v(base, add.subrange(0, j + 1))
            == vals_set_v(merge_vals_v(base, add.subrange(0, j)), add[j].0, add[j].1),
    decreases j,
{
    if j == 0 {
        assert(add.subrange(0, 1).subrange(1, 1) =~= Seq::<(Seq<char>, ExprView)>::empty());
        assert(add.subrange(0, 1)[0] == add[0]);
        assert(add.subrange(0, 0) =~= Seq::<(Seq<char>, ExprView)>::empty());
        assert(merge_vals_v(base, add.subrange(0, 0)) == base);
        assert(merge_vals_v(
            vals_set_v(base, add[0].0, add[0].1),
            Seq::<(Seq<char>, ExprView)>::empty(),
        ) == vals_set_v(base, add[0].0, add[0].1));
        assert(merge_vals_v(base, add.subrange(0, 1))
            == vals_set_v(base, add[0].0, add[0].1));
    } else {
        let a1 = add.subrange(0, j + 1);
        let a0 = add.subrange(0, j);
        assert(a1[0] == add[0]);
        assert(a0[0] == add[0]);
        assert(a1.subrange(1, a1.len() as int)
            =~= add.subrange(1, add.len() as int).subrange(0, j));
        assert(a0.subrange(1, a0.len() as int)
            =~= add.subrange(1, add.len() as int).subrange(0, j - 1));
        assert(add.subrange(1, add.len() as int)[j - 1] == add[j]);
        lemma_merge_vals_step(
            vals_set_v(base, add[0].0, add[0].1),
            add.subrange(1, add.len() as int),
            j - 1,
        );
        assert(merge_vals_v(base, a1) == merge_vals_v(
            vals_set_v(base, add[0].0, add[0].1),
            add.subrange(1, add.len() as int).subrange(0, j)));
        assert(merge_vals_v(base, a0) == merge_vals_v(
            vals_set_v(base, add[0].0, add[0].1),
            add.subrange(1, add.len() as int).subrange(0, j - 1)));
    }
}

/// One step of merging a template: setting the next field extends the
/// partial merge by one.
proof fn lemma_merge_obj_step(
    base: Seq<(Seq<char>, ValView)>,
    add: Seq<(Seq<char>, ValView)>,
    j: int,
)
    requires
        0 <= j < add.len(),
    ensures
        merge_obj_v(base, add.subrange(0, j + 1))
            == crate::value::obj_set_v(
                merge_obj_v(base, add.subrange(0, j)), add[j].0, add[j].1),
    decreases j,
{
    if j == 0 {
        assert(add.subrange(0, 1).subrange(1, 1) =~= Seq::<(Seq<char>, ValView)>::empty());
        assert(add.subrange(0, 1)[0] == add[0]);
        assert(add.subrange(0, 0) =~= Seq::<(Seq<char>, ValView)>::empty());
        assert(merge_obj_v(base, add.subrange(0, 0)) == base);
        assert(merge_obj_v(
            crate::value::obj_set_v(base, add[0].0, add[0].1),
            Seq::<(Seq<char>, ValView)>::empty(),
        ) == crate::value::obj_set_v(base, add[0].0, add[0].1));
        assert(merge_obj_v(base, add.subrange(0, 1))
            == crate::value::obj_set_v(base, add[0].0, add[0].1));
    } else {
        let a1 = add.subrange(0, j + 1);
        let a0 = add.subrange(0, j);
        assert(a1[0] == add[0]);
        assert(a0[0] == add[0]);
        assert(a1.subrange(1, a1.len() as int)
            =~= add.subrange(1, add.len() as int).subrange(0, j));
        assert(a0.subrange(1, a0.len() as int)
            =~= add.subrange(1, add.len() as int).subrange(0, j - 1));
        assert(add.subrange(1, add.len() as int)[j - 1] == add[j]);
        lemma_merge_obj_step(
            crate::value::obj_set_v(base, add[0].0, add[0].1),
            add.subrange(1, add.len() as int),
            j - 1,
        );
        assert(merge_obj_v(base, a1) == merge_obj_v(
            crate::value::obj_set_v(base, add[0].0, add[0].1),
            add.subrange(1, add.len() as int).subrange(0, j)));
        assert(merge_obj_v(base, a0) == merge_obj_v(
            crate::value::obj_set_v(base, add[0].0, add[0].1),
            add.subrange(1, add.len() as int).subrange(0, j - 1)));
    }
}

} // verus!

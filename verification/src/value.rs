//! A closed document value: the scalars, arrays and string-keyed objects
//! that rule templates and generated entry documents are made of.
//!
//! Ghost reasoning uses the deep view [`ValView`], where text is a
//! character sequence and numbers are unit counts; two values with the
//! same view are interchangeable in every contract of this library.

use vstd::prelude::*;
use crate::money::Money;

verus! {

/// A document value. Objects are ordered key/value lists; keys are
/// unique when objects are only extended through `obj_set_in`.
#[derive(Debug, PartialEq)]
pub enum Value {
    Null,
    Bool(bool),
    Number(Money),
    Text(String),
    Array(Vec<Value>),
    Object(Vec<(String, Value)>),
}

/// The deep, ghost-level shape of a document value.
#[verifier::ext_equal]
pub enum ValView {
    Null,
    Bool(bool),
    Num(int),
    Text(Seq<char>),
    Arr(Seq<ValView>),
    Obj(Seq<(Seq<char>, ValView)>),
}

/// Deep view of a value.
pub open spec fn view_of(v: Value) -> ValView
    decreases v,
    via view_of_dec
{
    match v {
        Value::Null => ValView::Null,
        Value::Bool(b) => ValView::Bool(b),
        Value::Number(m) => ValView::Num(m.val()),
        Value::Text(s) => ValView::Text(s@),
        Value::Array(items) => ValView::Arr(views_of(items@)),
        Value::Object(fields) => ValView::Obj(obj_view(fields@)),
    }
}

/// Deep views of a sequence of values, in order.
pub open spec fn views_of(s: Seq<Value>) -> Seq<ValView>
    decreases s,
    via views_of_dec
{
    if s.len() == 0 {
        Seq::empty()
    } else {
        views_of(s.subrange(0, s.len() - 1)) + seq![view_of(s[s.len() - 1])]
    }
}

/// Deep view of an object's field list, in order.
pub open spec fn obj_view(s: Seq<(String, Value)>) -> Seq<(Seq<char>, ValView)>
    decreases s,
    via obj_view_dec
{
    if s.len() == 0 {
        Seq::empty()
    } else {
        obj_view(s.subrange(0, s.len() - 1))
            + seq![(s[s.len() - 1].0@, view_of(s[s.len() - 1].1))]
    }
}

#[via_fn]
proof fn view_of_dec(v: Value) {
    match v {
        Value::Array(items) => {
            assert(decreases_to!(v => v->Array_0));
            assert(decreases_to!(v->Array_0 => v->Array_0@));
        },
        Value::Object(fields) => {
            assert(decreases_to!(v => v->Object_0));
            assert(decreases_to!(v->Object_0 => v->Object_0@));
        },
        _ => {},
    }
}

#[via_fn]
proof fn views_of_dec(s: Seq<Value>) {
    if s.len() > 0 {
        assert(decreases_to!(s => s.subrange(0, s.len() - 1)));
        assert(decreases_to!(s => s[s.len() - 1]));
    }
}

#[via_fn]
proof fn obj_view_dec(s: Seq<(String, Value)>) {
    if s.len() > 0 {
        assert(decreases_to!(s => s.subrange(0, s.len() - 1)));
        assert(decreases_to!(s => s[s.len() - 1]));
        assert(decreases_to!(s[s.len() - 1] => s[s.len() - 1].1));
    }
}

impl View for Value {
    type V = ValView;

    open spec fn view(&self) -> ValView {
        view_of(*self)
    }
}

/// `views_of` maps the sequence pointwise.
pub proof fn lemma_views_of(s: Seq<Value>)
    ensures
        views_of(s).len() == s.len(),
        forall|i: int| 0 <= i < s.len()
            ==> #[trigger] views_of(s)[i] == view_of(s[i]),
    decreases s.len(),
{
    if s.len() > 0 {
        lemma_views_of(s.subrange(0, s.len() - 1));
        assert forall|i: int| 0 <= i < s.len()
            implies #[trigger] views_of(s)[i] == view_of(s[i]) by {
            if i < s.len() - 1 {
                assert(views_of(s)[i] == views_of(s.subrange(0, s.len() - 1))[i]);
                assert(s.subrange(0, s.len() - 1)[i] == s[i]);
            }
        }
    }
}

/// `obj_view` maps the field list pointwise.
pub proof fn lemma_obj_view(s: Seq<(String, Value)>)
    ensures
        obj_view(s).len() == s.len(),
        forall|i: int| 0 <= i < s.len()
            ==> #[trigger] obj_view(s)[i] == (s[i].0@, view_of(s[i].1)),
    decreases s.len(),
{
    if s.len() > 0 {
        lemma_obj_view(s.subrange(0, s.len() - 1));
        assert forall|i: int| 0 <= i < s.len()
            implies #[trigger] obj_view(s)[i] == (s[i].0@, view_of(s[i].1)) by {
            if i < s.len() - 1 {
                assert(obj_view(s)[i] == obj_view(s.subrange(0, s.len() - 1))[i]);
                assert(s.subrange(0, s.len() - 1)[i] == s[i]);
            }
        }
    }
}

impl ValView {
    /// Truth value in a boolean context: null and false are false, a
    /// number is true when non-zero, text when non-empty, and arrays
    /// and objects are always true.
    pub open spec fn truthy_spec(self) -> bool {
        match self {
            ValView::Null => false,
            ValView::Bool(b) => b,
            ValView::Num(n) => n != 0,
            ValView::Text(s) => s.len() > 0,
            ValView::Arr(_) => true,
            ValView::Obj(_) => true,
        }
    }

    /// Rendering of a scalar as text: text itself, numbers in plain
    /// decimal form, `true` / `false`, and `null`. Arrays and objects
    /// have no text form.
    pub open spec fn scalar_chars_spec(self) -> Option<Seq<char>> {
        match self {
            ValView::Null => Some("null"@),
            ValView::Bool(b) => Some(if b { "true"@ } else { "false"@ }),
            ValView::Num(n) => Some(crate::money::plain_chars(n)),
            ValView::Text(s) => Some(s),
            ValView::Arr(_) => None,
            ValView::Obj(_) => None,
        }
    }

    /// Structural equality of two evaluated values: scalars of the same
    /// kind compare by value, values of different kinds compare unequal,
    /// and arrays and objects never compare equal.
    pub open spec fn eq_scalar_spec(self, other: ValView) -> bool {
        match (self, other) {
            (ValView::Null, ValView::Null) => true,
            (ValView::Bool(a), ValView::Bool(b)) => a == b,
            (ValView::Num(a), ValView::Num(b)) => a == b,
            (ValView::Text(a), ValView::Text(b)) => a == b,
            _ => false,
        }
    }
}

impl Value {
    /// A copy with the same deep view.
    pub fn deep_copy(&self) -> (r: Value)
        ensures
            r@ == self@,
        decreases *self,
    {
        match self {
            Value::Null => Value::Null,
            Value::Bool(b) => Value::Bool(*b),
            Value::Number(m) => Value::Number(*m),
            Value::Text(s) => Value::Text(s.clone()),
            Value::Array(items) => {
                let mut out: Vec<Value> = Vec::new();
                let mut i: usize = 0;
                while i < items.len()
                    invariant
                        0 <= i <= items@.len(),
                        out@.len() == i,
                        forall|j: int| 0 <= j < i
                            ==> view_of(#[trigger] out@[j]) == view_of(items@[j]),
                        *self == Value::Array(*items),
                    decreases items@.len() - i,
                {
                    proof {
                        assert(decreases_to!(*self => self->Array_0));
                        assert(decreases_to!(self->Array_0 => self->Array_0@));
                        assert(decreases_to!(self->Array_0@ => self->Array_0@[i as int]));
                        assert(self->Array_0@[i as int] == items@[i as int]);
                    }
                    out.push(items[i].deep_copy());
                    i = i + 1;
                }
                let r = Value::Array(out);
                proof {
                    lemma_views_of(out@);
                    lemma_views_of(items@);
                    assert(views_of(out@) =~= views_of(items@));
                    assert(r@ == self@);
                }
                r
            },
            Value::Object(fields) => {
                let mut out: Vec<(String, Value)> = Vec::new();
                let mut i: usize = 0;
                while i < fields.len()
                    invariant
                        0 <= i <= fields@.len(),
                        out@.len() == i,
                        forall|j: int| 0 <= j < i
                            ==> (#[trigger] out@[j]).0@ == fields@[j].0@
                                && view_of(out@[j].1) == view_of(fields@[j].1),
                        *self == Value::Object(*fields),
                    decreases fields@.len() - i,
                {
                    proof {
                        assert(decreases_to!(*self => self->Object_0));
                        assert(decreases_to!(self->Object_0 => self->Object_0@));
                        assert(decreases_to!(self->Object_0@ => self->Object_0@[i as int]));
                        assert(decreases_to!(
                            self->Object_0@[i as int] => self->Object_0@[i as int].1));
                        assert(self->Object_0@[i as int] == fields@[i as int]);
                    }
                    let k = fields[i].0.clone();
                    let v = fields[i].1.deep_copy();
                    out.push((k, v));
                    i = i + 1;
                }
                let r = Value::Object(out);
                proof {
                    lemma_obj_view(out@);
                    lemma_obj_view(fields@);
                    assert(obj_view(out@) =~= obj_view(fields@));
                    assert(r@ == self@);
                }
                r
            },
        }
    }

    /// Truth value in a boolean context.
    pub fn truthy(&self) -> (r: bool)
        ensures
            r == self@.truthy_spec(),
    {
        match self {
            Value::Null => false,
            Value::Bool(b) => *b,
            Value::Number(m) => !m.is_zero(),
            Value::Text(s) => s.as_str().unicode_len() > 0,
            Value::Array(_) => true,
            Value::Object(_) => true,
        }
    }

    /// Renders a scalar as text, refusing arrays and objects.
    pub fn scalar_string(&self) -> (r: Option<String>)
        ensures
            r is Some <==> self@.scalar_chars_spec() is Some,
            r matches Some(s) ==> self@.scalar_chars_spec() == Some(s@),
    {
        match self {
            Value::Null => Some("null".to_owned()),
            Value::Bool(b) => Some(
                if *b { "true".to_owned() } else { "false".to_owned() }
            ),
            Value::Number(m) => Some(m.plain_string()),
            Value::Text(s) => Some(s.clone()),
            Value::Array(_) => None,
            Value::Object(_) => None,
        }
    }

    /// Structural equality of two evaluated values.
    pub fn eq_scalar(&self, other: &Value) -> (r: bool)
        ensures
            r == self@.eq_scalar_spec(other@),
    {
        match (self, other) {
            (Value::Null, Value::Null) => true,
            (Value::Bool(a), Value::Bool(b)) => *a == *b,
            (Value::Number(a), Value::Number(b)) => a.units() == b.units(),
            (Value::Text(a), Value::Text(b)) => crate::text::str_eq(a.as_str(), b.as_str()),
            _ => false,
        }
    }
}

impl Clone for Value {
    /// A copy with the same deep view.
    fn clone(&self) -> (r: Value)
        ensures
            r@ == self@,
    {
        self.deep_copy()
    }
}

/// The view under key `k`, reading the first matching field.
pub open spec fn obj_get_v(
    fields: Seq<(Seq<char>, ValView)>,
    k: Seq<char>,
) -> Option<ValView>
    decreases fields.len(),
{
    if fields.len() == 0 {
        None
    } else if fields[0].0 == k {
        Some(fields[0].1)
    } else {
        obj_get_v(fields.subrange(1, fields.len() as int), k)
    }
}

/// Whether some field has key `k`.
pub open spec fn obj_has_v(fields: Seq<(Seq<char>, ValView)>, k: Seq<char>) -> bool {
    obj_get_v(fields, k) is Some
}

/// `fields` with the first field keyed `k` replaced by `(k, v)`, or with
/// `(k, v)` appended when no field has that key.
pub open spec fn obj_set_v(
    fields: Seq<(Seq<char>, ValView)>,
    k: Seq<char>,
    v: ValView,
) -> Seq<(Seq<char>, ValView)>
    decreases fields.len(),
{
    if fields.len() == 0 {
        seq![(k, v)]
    } else if fields[0].0 == k {
        seq![(k, v)] + fields.subrange(1, fields.len() as int)
    } else {
        seq![fields[0]] + obj_set_v(fields.subrange(1, fields.len() as int), k, v)
    }
}

/// Setting a key makes it readable, and leaves every other key as it was.
pub proof fn lemma_obj_set_get(
    fields: Seq<(Seq<char>, ValView)>,
    k: Seq<char>,
    v: ValView,
)
    ensures
        obj_get_v(obj_set_v(fields, k, v), k) == Some(v),
        forall|k2: Seq<char>| k2 != k
            ==> #[trigger] obj_get_v(obj_set_v(fields, k, v), k2) == obj_get_v(fields, k2),
    decreases fields.len(),
{
    if fields.len() == 0 {
        assert(obj_set_v(fields, k, v) =~= seq![(k, v)]);
        assert forall|k2: Seq<char>| k2 != k
            implies #[trigger] obj_get_v(obj_set_v(fields, k, v), k2)
                == obj_get_v(fields, k2) by {
            let s = obj_set_v(fields, k, v);
            assert(s.subrange(1, s.len() as int)
                =~= Seq::<(Seq<char>, ValView)>::empty());
            assert(obj_get_v(Seq::<(Seq<char>, ValView)>::empty(), k2) is None);
            assert(obj_get_v(fields, k2) is None);
        }
    } else if fields[0].0 == k {
        let s = obj_set_v(fields, k, v);
        assert(s =~= seq![(k, v)] + fields.subrange(1, fields.len() as int));
        assert(s[0] == (k, v));
        assert(s.subrange(1, s.len() as int)
            =~= fields.subrange(1, fields.len() as int));
    } else {
        let tail = fields.subrange(1, fields.len() as int);
        lemma_obj_set_get(tail, k, v);
        let s = obj_set_v(fields, k, v);
        assert(s =~= seq![fields[0]] + obj_set_v(tail, k, v));
        assert(s[0] == fields[0]);
        assert(s.subrange(1, s.len() as int) =~= obj_set_v(tail, k, v));
        assert forall|k2: Seq<char>| k2 != k
            implies #[trigger] obj_get_v(s, k2) == obj_get_v(fields, k2) by {
            assert(obj_get_v(obj_set_v(tail, k, v), k2) == obj_get_v(tail, k2));
        }
    }
}

/// Looks up `k` among the fields.
pub fn obj_get_in<'a>(fields: &'a Vec<(String, Value)>, k: &str) -> (r: Option<&'a Value>)
    ensures
        r is Some <==> obj_get_v(obj_view(fields@), k@) is Some,
        r matches Some(v) ==> obj_get_v(obj_view(fields@), k@) == Some(v@),
{
    let ghost whole = obj_view(fields@);
    let mut i: usize = 0;
    proof {
        lemma_obj_view(fields@);
        assert(whole.subrange(0, whole.len() as int) =~= whole);
    }
    while i < fields.len()
        invariant
            0 <= i <= fields@.len(),
            whole == obj_view(fields@),
            whole.len() == fields@.len(),
            obj_get_v(whole, k@)
                == obj_get_v(whole.subrange(i as int, whole.len() as int), k@),
        decreases fields@.len() - i,
    {
        proof {
            lemma_obj_view(fields@);
            let t = whole.subrange(i as int, whole.len() as int);
            assert(t[0] == whole[i as int]);
            assert(t.subrange(1, t.len() as int)
                =~= whole.subrange(i as int + 1, whole.len() as int));
        }
        if crate::text::str_eq(fields[i].0.as_str(), k) {
            return Some(&fields[i].1);
        }
        i = i + 1;
    }
    proof {
        assert(whole.subrange(i as int, whole.len() as int).len() == 0);
    }
    None
}

/// Sets `k` to `v` among the fields, replacing an existing field in
/// place or appending a new one.
pub fn obj_set_in(fields: &mut Vec<(String, Value)>, k: String, v: Value)
    ensures
        obj_view(final(fields)@) == obj_set_v(obj_view(old(fields)@), k@, v@),
{
    let ghost fseq = fields@;
    let ghost orig = obj_view(fields@);
    let ghost kv = k@;
    let ghost vv = v@;
    let mut i: usize = 0;
    proof {
        lemma_obj_view(fseq);
        assert(orig.subrange(0, orig.len() as int) =~= orig);
        assert(orig.subrange(0, 0) + obj_set_v(orig, kv, vv) =~= obj_set_v(orig, kv, vv));
    }
    while i < fields.len()
        invariant
            0 <= i <= fields@.len(),
            fseq == fields@,
            fseq == old(fields)@,
            orig == obj_view(fseq),
            orig.len() == fseq.len(),
            forall|j: int| 0 <= j < fseq.len()
                ==> #[trigger] orig[j] == (fseq[j].0@, view_of(fseq[j].1)),
            kv == k@,
            vv == v@,
            obj_set_v(orig, kv, vv) =~= orig.subrange(0, i as int)
                + obj_set_v(orig.subrange(i as int, orig.len() as int), kv, vv),
        decreases fields@.len() - i,
    {
        proof {
            let t = orig.subrange(i as int, orig.len() as int);
            assert(t[0] == orig[i as int]);
            assert(t.subrange(1, t.len() as int)
                =~= orig.subrange(i as int + 1, orig.len() as int));
        }
        if crate::text::str_eq(fields[i].0.as_str(), k.as_str()) {
            proof {
                let t = orig.subrange(i as int, orig.len() as int);
                assert(obj_set_v(t, kv, vv)
                    =~= seq![(kv, vv)] + orig.subrange(i as int + 1, orig.len() as int));
            }
            fields.set(i, (k, v));
            proof {
                lemma_obj_view(fields@);
                assert(obj_view(fields@) =~= obj_set_v(orig, kv, vv));
            }
            return;
        }
        proof {
            let t = orig.subrange(i as int, orig.len() as int);
            assert(obj_set_v(t, kv, vv) =~= seq![orig[i as int]]
                + obj_set_v(orig.subrange(i as int + 1, orig.len() as int), kv, vv));
            assert(orig.subrange(0, i as int) + seq![orig[i as int]]
                =~= orig.subrange(0, i as int + 1));
        }
        i = i + 1;
    }
    proof {
        assert(orig.subrange(i as int, orig.len() as int).len() == 0);
        assert(obj_set_v(orig.subrange(i as int, orig.len() as int), kv, vv)
            =~= seq![(kv, vv)]);
    }
    fields.push((k, v));
    proof {
        lemma_obj_view(fields@);
        assert(orig.subrange(0, i as int) =~= orig);
        assert(obj_view(fields@) =~= obj_set_v(orig, kv, vv));
    }
}

} // verus!

//! The rule expression language: a small tagged AST evaluated against a
//! transaction's field record, usable both as a predicate and to derive
//! values.

use vstd::prelude::*;
use crate::value::{
    obj_get_v, obj_view, view_of, ValView, Value,
};

verus! {

/// An expression over a field record.
///
/// A bare string in a rule document parses to `Name`: it refers to the
/// record field of that name when one exists and otherwise denotes the
/// string itself. The explicit `[var, n]` form parses to `Var`, which
/// demands the field and fails when it is absent.
#[derive(Debug, PartialEq)]
pub enum Expr {
    /// Strict field reference: fails on an absent field.
    Var(String),
    /// Bare name: the field's value when present, else the name itself.
    Name(String),
    /// A literal value.
    Lit(Value),
    /// Structural equality of two evaluated scalars.
    Eq(Box<Expr>, Box<Expr>),
    /// Case-sensitive glob match of an evaluated string against a
    /// pattern with `*` wildcards, anchored at both ends.
    Match(Box<Expr>, String),
    /// Substring test on an evaluated string.
    Contains(Box<Expr>, String),
    /// Short-circuit conjunction, left to right.
    And(Vec<Expr>),
    /// Short-circuit disjunction, left to right.
    Or(Vec<Expr>),
    /// Stringifies each part and concatenates with the separator.
    Join(String, Vec<Expr>),
}

/// Ghost shape of an expression.
#[verifier::ext_equal]
pub enum ExprView {
    Var(Seq<char>),
    Name(Seq<char>),
    Lit(ValView),
    Eq(Seq<ExprView>),
    Match(Seq<ExprView>, Seq<char>),
    Contains(Seq<ExprView>, Seq<char>),
    And(Seq<ExprView>),
    Or(Seq<ExprView>),
    Join(Seq<char>, Seq<ExprView>),
}

/// Ghost shape of an evaluation failure.
#[verifier::ext_equal]
pub enum EvalErrView {
    UnknownField(Seq<char>),
    TypeMismatch,
}

/// Why an expression failed to evaluate.
#[derive(Debug, PartialEq)]
pub enum EvalError {
    /// A `Var` expression named a field absent from the record.
    UnknownField(String),
    /// A string operation was applied to a non-string value.
    TypeMismatch,
}

impl View for EvalError {
    type V = EvalErrView;

    open spec fn view(&self) -> EvalErrView {
        match *self {
            EvalError::UnknownField(n) => EvalErrView::UnknownField(n@),
            EvalError::TypeMismatch => EvalErrView::TypeMismatch,
        }
    }
}

impl EvalError {
    /// A short description of the failure.
    pub fn message(&self) -> (r: String)
        ensures
            match *self {
                EvalError::UnknownField(_) =>
                    r@ == "Unknown field in expression: "@ + self@->UnknownField_0,
                EvalError::TypeMismatch =>
                    r@ == "Type mismatch in expression"@,
            },
    {
        match self {
            EvalError::UnknownField(n) => {
                let mut out = "Unknown field in expression: ".to_owned();
                out.append(n.as_str());
                out
            },
            EvalError::TypeMismatch => "Type mismatch in expression".to_owned(),
        }
    }
}

/// Deep view of an expression.
pub open spec fn expr_view(e: Expr) -> ExprView
    decreases e,
    via expr_view_dec
{
    match e {
        Expr::Var(n) => ExprView::Var(n@),
        Expr::Name(n) => ExprView::Name(n@),
        Expr::Lit(v) => ExprView::Lit(view_of(v)),
        Expr::Eq(a, b) => ExprView::Eq(seq![expr_view(*a), expr_view(*b)]),
        Expr::Match(a, p) => ExprView::Match(seq![expr_view(*a)], p@),
        Expr::Contains(a, p) => ExprView::Contains(seq![expr_view(*a)], p@),
        Expr::And(es) => ExprView::And(expr_views(es@)),
        Expr::Or(es) => ExprView::Or(expr_views(es@)),
        Expr::Join(sep, es) => ExprView::Join(sep@, expr_views(es@)),
    }
}

/// Deep views of a sequence of expressions, in order.
pub open spec fn expr_views(s: Seq<Expr>) -> Seq<ExprView>
    decreases s,
    via expr_views_dec
{
    if s.len() == 0 {
        Seq::empty()
    } else {
        expr_views(s.subrange(0, s.len() - 1)) + seq![expr_view(s[s.len() - 1])]
    }
}

#[via_fn]
proof fn expr_view_dec(e: Expr) {
    match e {
        Expr::Eq(a, b) => {
            assert(decreases_to!(e => e->Eq_0));
            assert(decreases_to!(e => e->Eq_1));
        },
        Expr::Match(a, p) => {
            assert(decreases_to!(e => e->Match_0));
        },
        Expr::Contains(a, p) => {
            assert(decreases_to!(e => e->Contains_0));
        },
        Expr::And(es) => {
            assert(decreases_to!(e => e->And_0));
            assert(decreases_to!(e->And_0 => e->And_0@));
        },
        Expr::Or(es) => {
            assert(decreases_to!(e => e->Or_0));
            assert(decreases_to!(e->Or_0 => e->Or_0@));
        },
        Expr::Join(sep, es) => {
            assert(decreases_to!(e => e->Join_1));
            assert(decreases_to!(e->Join_1 => e->Join_1@));
        },
        _ => {},
    }
}

#[via_fn]
proof fn expr_views_dec(s: Seq<Expr>) {
    if s.len() > 0 {
        assert(decreases_to!(s => s.subrange(0, s.len() - 1)));
        assert(decreases_to!(s => s[s.len() - 1]));
    }
}

impl View for Expr {
    type V = ExprView;

    open spec fn view(&self) -> ExprView {
        expr_view(*self)
    }
}

/// `expr_views` maps the sequence pointwise.
pub proof fn lemma_expr_views(s: Seq<Expr>)
    ensures
        expr_views(s).len() == s.len(),
        forall|i: int| 0 <= i < s.len()
            ==> #[trigger] expr_views(s)[i] == expr_view(s[i]),
    decreases s.len(),
{
    if s.len() > 0 {
        lemma_expr_views(s.subrange(0, s.len() - 1));
        assert forall|i: int| 0 <= i < s.len()
            implies #[trigger] expr_views(s)[i] == expr_view(s[i]) by {
            if i < s.len() - 1 {
                assert(expr_views(s)[i] == expr_views(s.subrange(0, s.len() - 1))[i]);
                assert(s.subrange(0, s.len() - 1)[i] == s[i]);
            }
        }
    }
}

/// Anchored, case-sensitive glob match: `*` matches any run of
/// characters, every other pattern character matches itself.
pub open spec fn glob_match(p: Seq<char>, s: Seq<char>) -> bool
    decreases p.len() + s.len(),
{
    if p.len() == 0 {
        s.len() == 0
    } else if p[0] == '*' {
        glob_match(p.subrange(1, p.len() as int), s)
            || (s.len() > 0 && glob_match(p, s.subrange(1, s.len() as int)))
    } else {
        s.len() > 0 && p[0] == s[0]
            && glob_match(p.subrange(1, p.len() as int), s.subrange(1, s.len() as int))
    }
}

/// Whether `needle` occurs as a contiguous run inside `s`.
pub open spec fn contains_sub(s: Seq<char>, needle: Seq<char>) -> bool {
    exists|i: int| 0 <= i <= s.len() - needle.len()
        && #[trigger] s.subrange(i, i + needle.len() as int) == needle
}

/// The given texts joined with the separator between each two.
pub open spec fn join_chars(texts: Seq<Seq<char>>, sep: Seq<char>) -> Seq<char>
    decreases texts.len(),
{
    if texts.len() == 0 {
        Seq::empty()
    } else if texts.len() == 1 {
        texts[0]
    } else {
        join_chars(texts.subrange(0, texts.len() - 1), sep) + sep + texts[texts.len() - 1]
    }
}

/// Meaning of an expression against a record: the value it denotes, or
/// the failure it produces.
pub open spec fn eval_spec(
    e: ExprView,
    r: Seq<(Seq<char>, ValView)>,
) -> Result<ValView, EvalErrView>
    decreases e,
    via eval_spec_dec
{
    match e {
        ExprView::Var(n) => match obj_get_v(r, n) {
            Some(v) => Ok(v),
            None => Err(EvalErrView::UnknownField(n)),
        },
        ExprView::Name(n) => match obj_get_v(r, n) {
            Some(v) => Ok(v),
            None => Ok(ValView::Text(n)),
        },
        ExprView::Lit(v) => Ok(v),
        ExprView::Eq(args) => {
            if args.len() == 2 {
                match eval_spec(args[0], r) {
                    Err(err) => Err(err),
                    Ok(a) => match eval_spec(args[1], r) {
                        Err(err) => Err(err),
                        Ok(b) => Ok(ValView::Bool(a.eq_scalar_spec(b))),
                    },
                }
            } else {
                Err(EvalErrView::TypeMismatch)
            }
        },
        ExprView::Match(args, p) => {
            if args.len() == 1 {
                match eval_spec(args[0], r) {
                    Err(err) => Err(err),
                    Ok(ValView::Text(s)) => Ok(ValView::Bool(glob_match(p, s))),
                    Ok(_) => Err(EvalErrView::TypeMismatch),
                }
            } else {
                Err(EvalErrView::TypeMismatch)
            }
        },
        ExprView::Contains(args, needle) => {
            if args.len() == 1 {
                match eval_spec(args[0], r) {
                    Err(err) => Err(err),
                    Ok(ValView::Text(s)) => Ok(ValView::Bool(contains_sub(s, needle))),
                    Ok(_) => Err(EvalErrView::TypeMismatch),
                }
            } else {
                Err(EvalErrView::TypeMismatch)
            }
        },
        ExprView::And(list) => match eval_and_spec(list, r) {
            Ok(b) => Ok(ValView::Bool(b)),
            Err(err) => Err(err),
        },
        ExprView::Or(list) => match eval_or_spec(list, r) {
            Ok(b) => Ok(ValView::Bool(b)),
            Err(err) => Err(err),
        },
        ExprView::Join(sep, list) => match eval_texts_spec(list, r) {
            Ok(texts) => Ok(ValView::Text(join_chars(texts, sep))),
            Err(err) => Err(err),
        },
    }
}

/// Conjunction: false at the first untrue operand, true when all hold;
/// the first failure aborts.
pub open spec fn eval_and_spec(
    list: Seq<ExprView>,
    r: Seq<(Seq<char>, ValView)>,
) -> Result<bool, EvalErrView>
    decreases list,
    via eval_and_spec_dec
{
    if list.len() == 0 {
        Ok(true)
    } else {
        match eval_spec(list[0], r) {
            Err(err) => Err(err),
            Ok(v) => if !v.truthy_spec() {
                Ok(false)
            } else {
                eval_and_spec(list.subrange(1, list.len() as int), r)
            },
        }
    }
}

/// Disjunction: true at the first true operand, false when none holds;
/// the first failure aborts.
pub open spec fn eval_or_spec(
    list: Seq<ExprView>,
    r: Seq<(Seq<char>, ValView)>,
) -> Result<bool, EvalErrView>
    decreases list,
    via eval_or_spec_dec
{
    if list.len() == 0 {
        Ok(false)
    } else {
        match eval_spec(list[0], r) {
            Err(err) => Err(err),
            Ok(v) => if v.truthy_spec() {
                Ok(true)
            } else {
                eval_or_spec(list.subrange(1, list.len() as int), r)
            },
        }
    }
}

/// Text of each operand in order; a non-scalar is a type mismatch and
/// the first failure aborts.
pub open spec fn eval_texts_spec(
    list: Seq<ExprView>,
    r: Seq<(Seq<char>, ValView)>,
) -> Result<Seq<Seq<char>>, EvalErrView>
    decreases list,
    via eval_texts_spec_dec
{
    if list.len() == 0 {
        Ok(Seq::empty())
    } else {
        match eval_texts_spec(list.subrange(0, list.len() - 1), r) {
            Err(err) => Err(err),
            Ok(texts) => match eval_spec(list[list.len() - 1], r) {
                Err(err) => Err(err),
                Ok(v) => match v.scalar_chars_spec() {
                    Some(t) => Ok(texts + seq![t]),
                    None => Err(EvalErrView::TypeMismatch),
                },
            },
        }
    }
}

#[via_fn]
proof fn eval_spec_dec(e: ExprView, r: Seq<(Seq<char>, ValView)>) {
    match e {
        ExprView::Eq(args) => {
            assert(decreases_to!(e => e->Eq_0));
            if args.len() == 2 {
                assert(decreases_to!(e->Eq_0 => e->Eq_0[0]));
                assert(decreases_to!(e->Eq_0 => e->Eq_0[1]));
            }
        },
        ExprView::Match(args, p) => {
            assert(decreases_to!(e => e->Match_0));
            if args.len() == 1 {
                assert(decreases_to!(e->Match_0 => e->Match_0[0]));
            }
        },
        ExprView::Contains(args, needle) => {
            assert(decreases_to!(e => e->Contains_0));
            if args.len() == 1 {
                assert(decreases_to!(e->Contains_0 => e->Contains_0[0]));
            }
        },
        ExprView::And(list) => {
            assert(decreases_to!(e => e->And_0));
        },
        ExprView::Or(list) => {
            assert(decreases_to!(e => e->Or_0));
        },
        ExprView::Join(sep, list) => {
            assert(decreases_to!(e => e->Join_1));
        },
        _ => {},
    }
}

#[via_fn]
proof fn eval_and_spec_dec(list: Seq<ExprView>, r: Seq<(Seq<char>, ValView)>) {
    if list.len() > 0 {
        assert(decreases_to!(list => list[0]));
        assert(decreases_to!(list => list.subrange(1, list.len() as int)));
    }
}

#[via_fn]
proof fn eval_or_spec_dec(list: Seq<ExprView>, r: Seq<(Seq<char>, ValView)>) {
    if list.len() > 0 {
        assert(decreases_to!(list => list[0]));
        assert(decreases_to!(list => list.subrange(1, list.len() as int)));
    }
}

#[via_fn]
proof fn eval_texts_spec_dec(list: Seq<ExprView>, r: Seq<(Seq<char>, ValView)>) {
    if list.len() > 0 {
        assert(decreases_to!(list => list[list.len() - 1]));
        assert(decreases_to!(list => list.subrange(0, list.len() - 1)));
    }
}

/// Glob match of the pattern tail `p[pi..]` against the text tail `s[si..]`.
pub fn glob_at(p: &str, pi: usize, s: &str, si: usize) -> (r: bool)
    requires
        pi <= p@.len(),
        si <= s@.len(),
    ensures
        r == glob_match(
            p@.subrange(pi as int, p@.len() as int),
            s@.subrange(si as int, s@.len() as int),
        ),
    decreases p@.len() - pi + s@.len() - si,
{
    let plen = p.unicode_len();
    let slen = s.unicode_len();
    let ghost pv = p@.subrange(pi as int, plen as int);
    let ghost sv = s@.subrange(si as int, slen as int);
    if pi == plen {
        return si == slen;
    }
    let pc = p.get_char(pi);
    proof {
        assert(pv[0] == p@[pi as int]);
        assert(pv.subrange(1, pv.len() as int)
            =~= p@.subrange(pi as int + 1, plen as int));
    }
    if pc == '*' {
        if glob_at(p, pi + 1, s, si) {
            true
        } else if si < slen {
            proof {
                assert(sv.subrange(1, sv.len() as int)
                    =~= s@.subrange(si as int + 1, slen as int));
            }
            glob_at(p, pi, s, si + 1)
        } else {
            false
        }
    } else {
        if si == slen {
            return false;
        }
        let sc = s.get_char(si);
        proof {
            assert(sv[0] == s@[si as int]);
            assert(sv.subrange(1, sv.len() as int)
                =~= s@.subrange(si as int + 1, slen as int));
        }
        if sc != pc {
            return false;
        }
        glob_at(p, pi + 1, s, si + 1)
    }
}

/// Whether the whole pattern matches the whole text.
pub fn glob_matches(p: &str, s: &str) -> (r: bool)
    ensures
        r == glob_match(p@, s@),
{
    proof {
        assert(p@.subrange(0, p@.len() as int) =~= p@);
        assert(s@.subrange(0, s@.len() as int) =~= s@);
    }
    glob_at(p, 0, s, 0)
}

/// Whether `needle` occurs inside `s`.
pub fn contains_str(s: &str, needle: &str) -> (r: bool)
    ensures
        r == contains_sub(s@, needle@),
{
    let slen = s.unicode_len();
    let nlen = needle.unicode_len();
    if nlen > slen {
        return false;
    }
    if nlen == 0 {
        proof {
            assert(s@.subrange(0, 0 + needle@.len() as int) =~= needle@);
        }
        return true;
    }
    let mut i: usize = 0;
    while i <= slen - nlen
        invariant
            0 <= i <= slen - nlen + 1,
            1 <= nlen <= slen,
            slen == s@.len(),
            nlen == needle@.len(),
            forall|k: int| 0 <= k < i
                ==> #[trigger] s@.subrange(k, k + needle@.len() as int) != needle@,
        decreases slen + 1 - nlen - i,
    {
        let mut j: usize = 0;
        let mut hit = true;
        while j < nlen
            invariant_except_break
                0 <= j <= nlen,
                i + nlen <= slen,
                slen == s@.len(),
                nlen == needle@.len(),
                hit,
                forall|t: int| 0 <= t < j
                    ==> s@[i + t] == #[trigger] needle@[t],
            ensures
                hit ==> s@.subrange(i as int, i + needle@.len() as int) =~= needle@,
                !hit ==> s@.subrange(i as int, i + needle@.len() as int) != needle@,
            decreases nlen - j,
        {
            if s.get_char(i + j) != needle.get_char(j) {
                proof {
                    assert(s@.subrange(i as int, i + needle@.len() as int)[j as int]
                        == s@[i + j]);
                    assert(s@.subrange(i as int, i + needle@.len() as int) != needle@);
                }
                hit = false;
                break;
            }
            j = j + 1;
        }
        if hit {
            proof {
                assert(s@.subrange(i as int, i + needle@.len() as int) =~= needle@);
            }
            return true;
        }
        proof {
            assert(s@.subrange(i as int, i + needle@.len() as int) != needle@);
        }
        i = i + 1;
    }
    proof {
        assert(!contains_sub(s@, needle@));
    }
    false
}

impl Expr {
    /// A copy with the same deep view.
    pub fn deep_copy(&self) -> (r: Expr)
        ensures
            r@ == self@,
        decreases *self,
    {
        match self {
            Expr::Var(n) => Expr::Var(n.clone()),
            Expr::Name(n) => Expr::Name(n.clone()),
            Expr::Lit(v) => Expr::Lit(v.deep_copy()),
            Expr::Eq(a, b) => {
                proof {
                    assert(decreases_to!(*self => self->Eq_0));
                    assert(decreases_to!(*self => self->Eq_1));
                }
                Expr::Eq(Box::new(a.deep_copy()), Box::new(b.deep_copy()))
            },
            Expr::Match(a, p) => {
                proof {
                    assert(decreases_to!(*self => self->Match_0));
                }
                Expr::Match(Box::new(a.deep_copy()), p.clone())
            },
            Expr::Contains(a, p) => {
                proof {
                    assert(decreases_to!(*self => self->Contains_0));
                }
                Expr::Contains(Box::new(a.deep_copy()), p.clone())
            },
            Expr::And(es) => {
                let r = Expr::And(copy_exprs(self, es));
                proof {
                    assert(r@ == self@);
                }
                r
            },
            Expr::Or(es) => {
                let r = Expr::Or(copy_exprs(self, es));
                proof {
                    assert(r@ == self@);
                }
                r
            },
            Expr::Join(sep, es) => {
                let r = Expr::Join(sep.clone(), copy_exprs(self, es));
                proof {
                    assert(r@ == self@);
                }
                r
            },
        }
    }
}

/// Copies a list of sub-expressions of `whole`, keeping views.
fn copy_exprs(whole: &Expr, es: &Vec<Expr>) -> (r: Vec<Expr>)
    requires
        *whole == Expr::And(*es) || *whole == Expr::Or(*es)
            || (exists|sep: String| *whole == Expr::Join(sep, *es)),
    ensures
        expr_views(r@) == expr_views(es@),
    decreases *whole, 0nat,
{
    let mut out: Vec<Expr> = Vec::new();
    let mut i: usize = 0;
    while i < es.len()
        invariant
            0 <= i <= es@.len(),
            out@.len() == i,
            forall|j: int| 0 <= j < i
                ==> expr_view(#[trigger] out@[j]) == expr_view(es@[j]),
            *whole == Expr::And(*es) || *whole == Expr::Or(*es)
                || (exists|sep: String| *whole == Expr::Join(sep, *es)),
        decreases es@.len() - i,
    {
        proof {
            if *whole == Expr::And(*es) {
                assert(decreases_to!(*whole => whole->And_0));
                assert(decreases_to!(whole->And_0 => whole->And_0@));
                assert(decreases_to!(whole->And_0@ => whole->And_0@[i as int]));
            } else if *whole == Expr::Or(*es) {
                assert(decreases_to!(*whole => whole->Or_0));
                assert(decreases_to!(whole->Or_0 => whole->Or_0@));
                assert(decreases_to!(whole->Or_0@ => whole->Or_0@[i as int]));
            } else {
                assert(decreases_to!(*whole => whole->Join_1));
                assert(decreases_to!(whole->Join_1 => whole->Join_1@));
                assert(decreases_to!(whole->Join_1@ => whole->Join_1@[i as int]));
            }
            assert(decreases_to!(*whole => es@[i as int]));
        }
        out.push(es[i].deep_copy());
        i = i + 1;
    }
    proof {
        lemma_expr_views(out@);
        lemma_expr_views(es@);
        assert(expr_views(out@) =~= expr_views(es@));
    }
    out
}

impl Clone for Expr {
    /// A copy with the same deep view.
    fn clone(&self) -> (r: Expr)
        ensures
            r@ == self@,
    {
        self.deep_copy()
    }
}

/// A prefix failure decides the whole text list.
proof fn lemma_texts_prefix_err(
    list: Seq<ExprView>,
    r: Seq<(Seq<char>, ValView)>,
    k: int,
)
    requires
        0 <= k <= list.len(),
        eval_texts_spec(list.subrange(0, k), r) is Err,
    ensures
        eval_texts_spec(list, r) == eval_texts_spec(list.subrange(0, k), r),
    decreases list.len() - k,
{
    if k == list.len() {
        assert(list.subrange(0, k) =~= list);
    } else {
        let next = list.subrange(0, k + 1);
        assert(next.subrange(0, next.len() - 1) =~= list.subrange(0, k));
        assert(eval_texts_spec(next, r) == eval_texts_spec(list.subrange(0, k), r));
        lemma_texts_prefix_err(list, r, k + 1);
    }
}

impl Expr {
    /// Evaluates the expression against a field record, to the value
    /// given by `eval_spec` or the failure it denotes.
    pub fn evaluate(&self, record: &FieldRecord) -> (r: Result<Value, EvalError>)
        ensures
            match r {
                Ok(v) => eval_spec(self@, record@) == Ok::<ValView, EvalErrView>(v@),
                Err(err) => eval_spec(self@, record@) == Err::<ValView, EvalErrView>(err@),
            },
        decreases *self,
    {
        let ghost rv = record@;
        match self {
            Expr::Var(n) => match record.get(n.as_str()) {
                Some(v) => Ok(v.deep_copy()),
                None => Err(EvalError::UnknownField(n.clone())),
            },
            Expr::Name(n) => match record.get(n.as_str()) {
                Some(v) => Ok(v.deep_copy()),
                None => Ok(Value::Text(n.clone())),
            },
            Expr::Lit(v) => Ok(v.deep_copy()),
            Expr::Eq(a, b) => {
                proof {
                    assert(decreases_to!(*self => self->Eq_0));
                    assert(decreases_to!(*self => self->Eq_1));
                }
                match a.evaluate(record) {
                    Err(err) => Err(err),
                    Ok(va) => match b.evaluate(record) {
                        Err(err) => Err(err),
                        Ok(vb) => Ok(Value::Bool(va.eq_scalar(&vb))),
                    },
                }
            },
            Expr::Match(a, p) => {
                proof {
                    assert(decreases_to!(*self => self->Match_0));
                }
                match a.evaluate(record) {
                    Err(err) => Err(err),
                    Ok(v) => match v {
                        Value::Text(s) => Ok(Value::Bool(
                            glob_matches(p.as_str(), s.as_str()))),
                        _ => Err(EvalError::TypeMismatch),
                    },
                }
            },
            Expr::Contains(a, p) => {
                proof {
                    assert(decreases_to!(*self => self->Contains_0));
                }
                match a.evaluate(record) {
                    Err(err) => Err(err),
                    Ok(v) => match v {
                        Value::Text(s) => Ok(Value::Bool(
                            contains_str(s.as_str(), p.as_str()))),
                        _ => Err(EvalError::TypeMismatch),
                    },
                }
            },
            Expr::And(es) => {
                let ghost whole = expr_views(es@);
                let mut i: usize = 0;
                proof {
                    lemma_expr_views(es@);
                    assert(whole.subrange(0, whole.len() as int) =~= whole);
                }
                while i < es.len()
                    invariant
                        0 <= i <= es@.len(),
                        *self == Expr::And(*es),
                        rv == record@,
                        whole == expr_views(es@),
                        whole.len() == es@.len(),
                        eval_and_spec(whole, rv)
                            == eval_and_spec(
                                whole.subrange(i as int, whole.len() as int), rv),
                    decreases es@.len() - i,
                {
                    proof {
                        lemma_expr_views(es@);
                        let t = whole.subrange(i as int, whole.len() as int);
                        assert(t[0] == whole[i as int]);
                        assert(t.subrange(1, t.len() as int)
                            =~= whole.subrange(i as int + 1, whole.len() as int));
                        assert(decreases_to!(*self => self->And_0));
                        assert(decreases_to!(self->And_0 => self->And_0@));
                        assert(decreases_to!(self->And_0@ => self->And_0@[i as int]));
                    }
                    match es[i].evaluate(record) {
                        Err(err) => {
                            return Err(err);
                        },
                        Ok(v) => {
                            if !v.truthy() {
                                return Ok(Value::Bool(false));
                            }
                        },
                    }
                    i = i + 1;
                }
                proof {
                    assert(whole.subrange(i as int, whole.len() as int).len() == 0);
                }
                Ok(Value::Bool(true))
            },
            Expr::Or(es) => {
                let ghost whole = expr_views(es@);
                let mut i: usize = 0;
                proof {
                    lemma_expr_views(es@);
                    assert(whole.subrange(0, whole.len() as int) =~= whole);
                }
                while i < es.len()
                    invariant
                        0 <= i <= es@.len(),
                        *self == Expr::Or(*es),
                        rv == record@,
                        whole == expr_views(es@),
                        whole.len() == es@.len(),
                        eval_or_spec(whole, rv)
                            == eval_or_spec(
                                whole.subrange(i as int, whole.len() as int), rv),
                    decreases es@.len() - i,
                {
                    proof {
                        lemma_expr_views(es@);
                        let t = whole.subrange(i as int, whole.len() as int);
                        assert(t[0] == whole[i as int]);
                        assert(t.subrange(1, t.len() as int)
                            =~= whole.subrange(i as int + 1, whole.len() as int));
                        assert(decreases_to!(*self => self->Or_0));
                        assert(decreases_to!(self->Or_0 => self->Or_0@));
                        assert(decreases_to!(self->Or_0@ => self->Or_0@[i as int]));
                    }
                    match es[i].evaluate(record) {
                        Err(err) => {
                            return Err(err);
                        },
                        Ok(v) => {
                            if v.truthy() {
                                return Ok(Value::Bool(true));
                            }
                        },
                    }
                    i = i + 1;
                }
                proof {
                    assert(whole.subrange(i as int, whole.len() as int).len() == 0);
                }
                Ok(Value::Bool(false))
            },
            Expr::Join(sep, es) => {
                let ghost whole = expr_views(es@);
                let mut out = String::new();
                let ghost mut texts: Seq<Seq<char>> = Seq::empty();
                let mut i: usize = 0;
                proof {
                    lemma_expr_views(es@);
                    assert(whole.subrange(0, 0) =~= Seq::<ExprView>::empty());
                }
                while i < es.len()
                    invariant
                        0 <= i <= es@.len(),
                        *self == Expr::Join(*sep, *es),
                        rv == record@,
                        whole == expr_views(es@),
                        whole.len() == es@.len(),
                        texts.len() == i,
                        eval_texts_spec(whole.subrange(0, i as int), rv)
                            == Ok::<Seq<Seq<char>>, EvalErrView>(texts),
                        out@ == join_chars(texts, sep@),
                    decreases es@.len() - i,
                {
                    proof {
                        lemma_expr_views(es@);
                        let t = whole.subrange(0, i as int + 1);
                        assert(t.subrange(0, t.len() - 1) =~= whole.subrange(0, i as int));
                        assert(t[t.len() - 1] == whole[i as int]);
                        assert(decreases_to!(*self => self->Join_1));
                        assert(decreases_to!(self->Join_1 => self->Join_1@));
                        assert(decreases_to!(self->Join_1@ => self->Join_1@[i as int]));
                    }
                    match es[i].evaluate(record) {
                        Err(err) => {
                            proof {
                                lemma_texts_prefix_err(whole, rv, i as int + 1);
                            }
                            return Err(err);
                        },
                        Ok(v) => match v.scalar_string() {
                            None => {
                                proof {
                                    lemma_texts_prefix_err(whole, rv, i as int + 1);
                                }
                                return Err(EvalError::TypeMismatch);
                            },
                            Some(t) => {
                                let ghost texts0 = texts;
                                if i > 0 {
                                    out.append(sep.as_str());
                                }
                                out.append(t.as_str());
                                proof {
                                    texts = texts0 + seq![t@];
                                    assert(texts.subrange(0, texts.len() - 1) =~= texts0);
                                    assert(texts[texts.len() - 1] == t@);
                                    if i == 0 {
                                        assert(join_chars(texts, sep@) == texts[0]);
                                        assert(out@ =~= t@);
                                    }
                                }
                            },
                        },
                    }
                    i = i + 1;
                }
                proof {
                    assert(whole.subrange(0, i as int) =~= whole);
                }
                Ok(Value::Text(out))
            },
        }
    }
}

/// The typed field map of a transaction, consumed by the evaluator.
#[derive(Debug)]
pub struct FieldRecord {
    fields: Vec<(String, Value)>,
}

impl View for FieldRecord {
    type V = Seq<(Seq<char>, ValView)>;

    closed spec fn view(&self) -> Seq<(Seq<char>, ValView)> {
        obj_view(self.fields@)
    }
}

impl FieldRecord {
    /// Builds a record from named values.
    pub fn from_pairs(fields: Vec<(String, Value)>) -> (r: FieldRecord)
        ensures
            r@ == obj_view(fields@),
    {
        FieldRecord { fields }
    }

    /// The value of the named field, if present.
    pub fn get(&self, name: &str) -> (r: Option<&Value>)
        ensures
            r is Some <==> obj_get_v(self@, name@) is Some,
            r matches Some(v) ==> obj_get_v(self@, name@) == Some(v@),
    {
        crate::value::obj_get_in(&self.fields, name)
    }
}

} // verus!

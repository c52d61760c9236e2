//! Structural equality of runtime values — the meaning of the builtin `=` —
//! and view-preserving deep clones of values and expression trees.
//!
//! Two `Future` values never compare equal, even when populated with equal
//! results: a future is an opaque handle, and this relaxation is part of the
//! language's contract.
use vstd::prelude::*;

use crate::ast::{
    Expr, ExprS, Value, ValueS, expr_size, exprs_size, exprs_view, lemma_exprs_size_elem,
    lemma_exprs_view_index, lemma_exprs_view_len, lemma_values_size_elem,
    lemma_values_view_index, lemma_values_view_len, value_size, values_size, values_view,
};

verus! {

/// Structural equality on value models; any two futures are unequal.
pub open spec fn value_eq_s(a: ValueS, b: ValueS) -> bool
    decreases value_size(a),
{
    match (a, b) {
        (ValueS::Int(x), ValueS::Int(y)) => x == y,
        (ValueS::Bool(x), ValueS::Bool(y)) => x == y,
        (ValueS::Vector(x), ValueS::Vector(y)) => values_eq_s(x, y),
        (ValueS::Function(n1, p1, b1), ValueS::Function(n2, p2, b2)) => n1 == n2 && p1 == p2
            && expr_eq_s(*b1, *b2),
        (ValueS::Future(_), ValueS::Future(_)) => false,
        _ => false,
    }
}

pub open spec fn values_eq_s(a: Seq<ValueS>, b: Seq<ValueS>) -> bool
    decreases values_size(a),
{
    if a.len() != b.len() {
        false
    } else if a.len() == 0 {
        true
    } else {
        values_eq_s(a.subrange(0, a.len() - 1), b.subrange(0, b.len() - 1)) && value_eq_s(
            a.last(),
            b.last(),
        )
    }
}

/// Structural equality on expression models; literals containing futures
/// follow the value rule, so they too never compare equal.
pub open spec fn expr_eq_s(a: ExprS, b: ExprS) -> bool
    decreases expr_size(a),
{
    match (a, b) {
        (ExprS::Literal(x), ExprS::Literal(y)) => value_eq_s(x, y),
        (ExprS::Variable(x), ExprS::Variable(y)) => x == y,
        (ExprS::Application(f1, a1), ExprS::Application(f2, a2)) => expr_eq_s(*f1, *f2)
            && exprs_eq_s(a1, a2),
        (ExprS::Let(n1, v1, b1), ExprS::Let(n2, v2, b2)) => n1 == n2 && expr_eq_s(*v1, *v2)
            && expr_eq_s(*b1, *b2),
        (ExprS::If(c1, t1, e1), ExprS::If(c2, t2, e2)) => expr_eq_s(*c1, *c2) && expr_eq_s(
            *t1,
            *t2,
        ) && expr_eq_s(*e1, *e2),
        (ExprS::Spawn(x), ExprS::Spawn(y)) => expr_eq_s(*x, *y),
        (ExprS::Sync(x), ExprS::Sync(y)) => expr_eq_s(*x, *y),
        _ => false,
    }
}

pub open spec fn exprs_eq_s(a: Seq<ExprS>, b: Seq<ExprS>) -> bool
    decreases exprs_size(a),
{
    if a.len() != b.len() {
        false
    } else if a.len() == 0 {
        true
    } else {
        exprs_eq_s(a.subrange(0, a.len() - 1), b.subrange(0, b.len() - 1)) && expr_eq_s(
            a.last(),
            b.last(),
        )
    }
}

pub proof fn lemma_values_eq_s_pointwise(a: Seq<ValueS>, b: Seq<ValueS>)
    ensures
        values_eq_s(a, b) <==> (a.len() == b.len() && forall|i: int|
            0 <= i < a.len() ==> value_eq_s(a[i], b[i])),
    decreases a.len(),
{
    if a.len() == b.len() && a.len() > 0 {
        let a0 = a.subrange(0, a.len() - 1);
        let b0 = b.subrange(0, b.len() - 1);
        lemma_values_eq_s_pointwise(a0, b0);
        assert(forall|i: int| 0 <= i < a0.len() ==> a0[i] == a[i] && b0[i] == b[i]);
        if values_eq_s(a, b) {
            assert forall|i: int| 0 <= i < a.len() implies value_eq_s(a[i], b[i]) by {
                if i == a.len() - 1 {
                    assert(a[i] == a.last() && b[i] == b.last());
                }
            }
        }
        if a.len() == b.len() && (forall|i: int| 0 <= i < a.len() ==> value_eq_s(a[i], b[i])) {
            assert(value_eq_s(a.last(), b.last()));
            assert(values_eq_s(a0, b0));
        }
    }
}

pub proof fn lemma_exprs_eq_s_pointwise(a: Seq<ExprS>, b: Seq<ExprS>)
    ensures
        exprs_eq_s(a, b) <==> (a.len() == b.len() && forall|i: int|
            0 <= i < a.len() ==> expr_eq_s(a[i], b[i])),
    decreases a.len(),
{
    if a.len() == b.len() && a.len() > 0 {
        let a0 = a.subrange(0, a.len() - 1);
        let b0 = b.subrange(0, b.len() - 1);
        lemma_exprs_eq_s_pointwise(a0, b0);
        assert(forall|i: int| 0 <= i < a0.len() ==> a0[i] == a[i] && b0[i] == b[i]);
        if exprs_eq_s(a, b) {
            assert forall|i: int| 0 <= i < a.len() implies expr_eq_s(a[i], b[i]) by {
                if i == a.len() - 1 {
                    assert(a[i] == a.last() && b[i] == b.last());
                }
            }
        }
        if a.len() == b.len() && (forall|i: int| 0 <= i < a.len() ==> expr_eq_s(a[i], b[i])) {
            assert(expr_eq_s(a.last(), b.last()));
            assert(exprs_eq_s(a0, b0));
        }
    }
}

pub fn string_eq(a: &String, b: &String) -> (r: bool)
    ensures
        r == (a@ == b@),
{
    *a == *b
}

/// Decides structural equality of two values, as the builtin `=` sees it.
pub fn value_eq(a: &Value, b: &Value) -> (r: bool)
    ensures
        r == value_eq_s(a@, b@),
    decreases value_size(a@),
{
    match (a, b) {
        (Value::Int(x), Value::Int(y)) => *x == *y,
        (Value::Bool(x), Value::Bool(y)) => *x == *y,
        (Value::Vector(x), Value::Vector(y)) => values_eq(x, y),
        (Value::Function(n1, p1, b1), Value::Function(n2, p2, b2)) => {
            string_eq(n1, n2) && strings_eq(p1, p2) && expr_eq(b1, b2)
        },
        (Value::Future(_), Value::Future(_)) => false,
        _ => false,
    }
}

pub fn values_eq(a: &Vec<Value>, b: &Vec<Value>) -> (r: bool)
    ensures
        r == values_eq_s(values_view(a@), values_view(b@)),
    decreases values_size(values_view(a@)),
{
    proof {
        lemma_values_view_len(a@);
        lemma_values_view_len(b@);
        lemma_values_eq_s_pointwise(values_view(a@), values_view(b@));
    }
    if a.len() != b.len() {
        return false;
    }
    let n = a.len();
    let mut i: usize = 0;
    while i < n
        invariant
            n == a@.len() == b@.len(),
            0 <= i <= n,
            forall|j: int| 0 <= j < i ==> value_eq_s(values_view(a@)[j], values_view(b@)[j]),
        decreases n - i,
    {
        proof {
            lemma_values_view_index(a@, i as int);
            lemma_values_view_index(b@, i as int);
            lemma_values_size_elem(values_view(a@), i as int);
        }
        if !value_eq(&a[i], &b[i]) {
            proof {
                lemma_values_eq_s_pointwise(values_view(a@), values_view(b@));
            }
            return false;
        }
        i = i + 1;
    }
    proof {
        lemma_values_eq_s_pointwise(values_view(a@), values_view(b@));
    }
    true
}

pub fn strings_eq(a: &Vec<String>, b: &Vec<String>) -> (r: bool)
    ensures
        r == (a@.map_values(|p: String| p@) == b@.map_values(|p: String| p@)),
{
    let ghost av = a@.map_values(|p: String| p@);
    let ghost bv = b@.map_values(|p: String| p@);
    if a.len() != b.len() {
        proof {
            assert(av.len() != bv.len());
        }
        return false;
    }
    let n = a.len();
    let mut i: usize = 0;
    while i < n
        invariant
            n == a@.len() == b@.len(),
            av == a@.map_values(|p: String| p@),
            bv == b@.map_values(|p: String| p@),
            0 <= i <= n,
            forall|j: int| 0 <= j < i ==> av[j] == bv[j],
        decreases n - i,
    {
        if !(a[i] == b[i]) {
            proof {
                assert(av[i as int] != bv[i as int]);
            }
            return false;
        }
        i = i + 1;
    }
    proof {
        assert(av =~= bv);
    }
    true
}

pub fn expr_eq(a: &Expr, b: &Expr) -> (r: bool)
    ensures
        r == expr_eq_s(a@, b@),
    decreases expr_size(a@),
{
    match (a, b) {
        (Expr::Literal(x), Expr::Literal(y)) => value_eq(x, y),
        (Expr::Variable(x), Expr::Variable(y)) => string_eq(x, y),
        (Expr::Application(f1, a1), Expr::Application(f2, a2)) => {
            expr_eq(f1, f2) && exprs_eq(a1, a2)
        },
        (Expr::Let(n1, v1, b1), Expr::Let(n2, v2, b2)) => {
            string_eq(n1, n2) && expr_eq(v1, v2) && expr_eq(b1, b2)
        },
        (Expr::If(c1, t1, e1), Expr::If(c2, t2, e2)) => {
            expr_eq(c1, c2) && expr_eq(t1, t2) && expr_eq(e1, e2)
        },
        (Expr::Spawn(x), Expr::Spawn(y)) => expr_eq(x, y),
        (Expr::Sync(x), Expr::Sync(y)) => expr_eq(x, y),
        _ => false,
    }
}

pub fn exprs_eq(a: &Vec<Expr>, b: &Vec<Expr>) -> (r: bool)
    ensures
        r == exprs_eq_s(exprs_view(a@), exprs_view(b@)),
    decreases exprs_size(exprs_view(a@)),
{
    proof {
        lemma_exprs_view_len(a@);
        lemma_exprs_view_len(b@);
        lemma_exprs_eq_s_pointwise(exprs_view(a@), exprs_view(b@));
    }
    if a.len() != b.len() {
        return false;
    }
    let n = a.len();
    let mut i: usize = 0;
    while i < n
        invariant
            n == a@.len() == b@.len(),
            0 <= i <= n,
            forall|j: int| 0 <= j < i ==> expr_eq_s(exprs_view(a@)[j], exprs_view(b@)[j]),
        decreases n - i,
    {
        proof {
            lemma_exprs_view_index(a@, i as int);
            lemma_exprs_view_index(b@, i as int);
            lemma_exprs_size_elem(exprs_view(a@), i as int);
        }
        if !expr_eq(&a[i], &b[i]) {
            proof {
                lemma_exprs_eq_s_pointwise(exprs_view(a@), exprs_view(b@));
            }
            return false;
        }
        i = i + 1;
    }
    proof {
        lemma_exprs_eq_s_pointwise(exprs_view(a@), exprs_view(b@));
    }
    true
}

/// Deep clone of a value; the clone has the same model as the original.
pub fn clone_value(v: &Value) -> (r: Value)
    ensures
        r@ == v@,
    decreases value_size(v@),
{
    match v {
        Value::Int(n) => Value::Int(*n),
        Value::Bool(b) => Value::Bool(*b),
        Value::Vector(vs) => Value::Vector(clone_values(vs)),
        Value::Function(name, params, body) => Value::Function(
            name.clone(),
            clone_strings(params),
            Box::new(clone_expr(body)),
        ),
        Value::Future(id) => Value::Future(*id),
    }
}

pub fn clone_values(vs: &Vec<Value>) -> (r: Vec<Value>)
    ensures
        r@.len() == vs@.len(),
        values_view(r@) == values_view(vs@),
    decreases values_size(values_view(vs@)),
{
    let mut r: Vec<Value> = Vec::new();
    let n = vs.len();
    let mut i: usize = 0;
    proof {
        assert(vs@.subrange(0, 0) =~= r@);
    }
    while i < n
        invariant
            n == vs@.len(),
            0 <= i <= n,
            r@.len() == i,
            values_view(r@) == values_view(vs@.subrange(0, i as int)),
        decreases n - i,
    {
        proof {
            lemma_values_view_index(vs@, i as int);
            lemma_values_size_elem(values_view(vs@), i as int);
        }
        let ghost old_r = r@;
        let c = clone_value(&vs[i]);
        r.push(c);
        proof {
            assert(r@.subrange(0, i as int) =~= old_r);
            assert(vs@.subrange(0, i + 1 as int).subrange(0, i as int) =~= vs@.subrange(
                0,
                i as int,
            ));
            assert(vs@.subrange(0, i + 1 as int).last() == vs@[i as int]);
        }
        i = i + 1;
    }
    proof {
        assert(vs@.subrange(0, n as int) =~= vs@);
    }
    r
}

pub fn clone_strings(ps: &Vec<String>) -> (r: Vec<String>)
    ensures
        r@.len() == ps@.len(),
        r@.map_values(|p: String| p@) == ps@.map_values(|p: String| p@),
{
    let mut r: Vec<String> = Vec::new();
    let n = ps.len();
    let mut i: usize = 0;
    while i < n
        invariant
            n == ps@.len(),
            0 <= i <= n,
            r@.len() == i,
            forall|j: int| 0 <= j < i ==> r@[j]@ == ps@[j]@,
        decreases n - i,
    {
        let c = ps[i].clone();
        r.push(c);
        i = i + 1;
    }
    proof {
        assert(r@.map_values(|p: String| p@) =~= ps@.map_values(|p: String| p@));
    }
    r
}

/// Deep clone of an expression tree; the clone has the same model.
pub fn clone_expr(e: &Expr) -> (r: Expr)
    ensures
        r@ == e@,
    decreases expr_size(e@),
{
    match e {
        Expr::Literal(v) => Expr::Literal(clone_value(v)),
        Expr::Variable(n) => Expr::Variable(n.clone()),
        Expr::Application(f, args) => Expr::Application(
            Box::new(clone_expr(f)),
            clone_exprs(args),
        ),
        Expr::Let(n, ve, be) => Expr::Let(
            n.clone(),
            Box::new(clone_expr(ve)),
            Box::new(clone_expr(be)),
        ),
        Expr::If(c, t, e2) => Expr::If(
            Box::new(clone_expr(c)),
            Box::new(clone_expr(t)),
            Box::new(clone_expr(e2)),
        ),
        Expr::Spawn(inner) => Expr::Spawn(Box::new(clone_expr(inner))),
        Expr::Sync(inner) => Expr::Sync(Box::new(clone_expr(inner))),
    }
}

pub fn clone_exprs(es: &Vec<Expr>) -> (r: Vec<Expr>)
    ensures
        r@.len() == es@.len(),
        exprs_view(r@) == exprs_view(es@),
    decreases exprs_size(exprs_view(es@)),
{
    let mut r: Vec<Expr> = Vec::new();
    let n = es.len();
    let mut i: usize = 0;
    proof {
        assert(es@.subrange(0, 0) =~= r@);
    }
    while i < n
        invariant
            n == es@.len(),
            0 <= i <= n,
            r@.len() == i,
            exprs_view(r@) == exprs_view(es@.subrange(0, i as int)),
        decreases n - i,
    {
        proof {
            lemma_exprs_view_index(es@, i as int);
            lemma_exprs_size_elem(exprs_view(es@), i as int);
        }
        let ghost old_r = r@;
        let c = clone_expr(&es[i]);
        r.push(c);
        proof {
            assert(r@.subrange(0, i as int) =~= old_r);
            assert(es@.subrange(0, i + 1 as int).subrange(0, i as int) =~= es@.subrange(
                0,
                i as int,
            ));
            assert(es@.subrange(0, i + 1 as int).last() == es@[i as int]);
        }
        i = i + 1;
    }
    proof {
        assert(es@.subrange(0, n as int) =~= es@);
    }
    r
}

impl Clone for Value {
    /// The clone has the same model as the original.
    fn clone(&self) -> (r: Self)
        ensures
            r@ == self@,
    {
        clone_value(self)
    }
}

impl Clone for Expr {
    /// The clone has the same model as the original.
    fn clone(&self) -> (r: Self)
        ensures
            r@ == self@,
    {
        clone_expr(self)
    }
}

} // verus!

//! Data model of the language: runtime values, expression trees, and the
//! error kinds evaluation can produce, together with their mathematical
//! counterparts (`ValueS`, `ExprS`, `ErrorS`) that all contracts speak of.
use vstd::prelude::*;

verus! {

/// A runtime value. A `Vector` is immutable once constructed; a `Function`
/// is a named, uninvoked procedure whose parameter list fixes its arity; a
/// `Future` is a handle (an index into the owning interpreter's future
/// store) to the result of a spawned evaluation.
pub enum Value {
    Int(i64),
    Bool(bool),
    Vector(Vec<Value>),
    Function(String, Vec<String>, Box<Expr>),
    Future(usize),
}

/// An expression tree. Trees are immutable and freely clonable; they carry
/// no back-references and no cycles.
pub enum Expr {
    Literal(Value),
    Variable(String),
    Application(Box<Expr>, Vec<Expr>),
    Let(String, Box<Expr>, Box<Expr>),
    If(Box<Expr>, Box<Expr>, Box<Expr>),
    Spawn(Box<Expr>),
    Sync(Box<Expr>),
}

/// The error kinds evaluation can return. `DepthLimit` reports that the
/// caller-supplied bound on nested user-function application was exhausted.
pub enum Error {
    UndefinedVariable(String),
    NotCallable,
    ArityMismatch,
    TypeError(String),
    EmptyCollection,
    FutureAlreadyConsumed,
    DepthLimit,
}

/// Mathematical model of a `Value`.
pub enum ValueS {
    Int(int),
    Bool(bool),
    Vector(Seq<ValueS>),
    Function(Seq<char>, Seq<Seq<char>>, Box<ExprS>),
    Future(int),
}

/// Mathematical model of an `Expr`.
pub enum ExprS {
    Literal(ValueS),
    Variable(Seq<char>),
    Application(Box<ExprS>, Seq<ExprS>),
    Let(Seq<char>, Box<ExprS>, Box<ExprS>),
    If(Box<ExprS>, Box<ExprS>, Box<ExprS>),
    Spawn(Box<ExprS>),
    Sync(Box<ExprS>),
}

/// Mathematical model of an `Error`.
pub enum ErrorS {
    UndefinedVariable(Seq<char>),
    NotCallable,
    ArityMismatch,
    TypeError(Seq<char>),
    EmptyCollection,
    FutureAlreadyConsumed,
    DepthLimit,
}

pub open spec fn value_view(v: Value) -> ValueS
    decreases v,
{
    match v {
        Value::Int(n) => ValueS::Int(n as int),
        Value::Bool(b) => ValueS::Bool(b),
        Value::Vector(vs) => ValueS::Vector(values_view(vs@)),
        Value::Function(name, params, body) => ValueS::Function(
            name@,
            params@.map_values(|p: String| p@),
            Box::new(expr_view(*body)),
        ),
        Value::Future(id) => ValueS::Future(id as int),
    }
}

pub open spec fn values_view(s: Seq<Value>) -> Seq<ValueS>
    decreases s,
{
    if s.len() == 0 {
        Seq::empty()
    } else {
        values_view(s.subrange(0, s.len() - 1)).push(value_view(s.last()))
    }
}

pub open spec fn expr_view(e: Expr) -> ExprS
    decreases e,
{
    match e {
        Expr::Literal(v) => ExprS::Literal(value_view(v)),
        Expr::Variable(n) => ExprS::Variable(n@),
        Expr::Application(f, args) => ExprS::Application(
            Box::new(expr_view(*f)),
            exprs_view(args@),
        ),
        Expr::Let(n, ve, be) => ExprS::Let(
            n@,
            Box::new(expr_view(*ve)),
            Box::new(expr_view(*be)),
        ),
        Expr::If(c, t, e2) => ExprS::If(
            Box::new(expr_view(*c)),
            Box::new(expr_view(*t)),
            Box::new(expr_view(*e2)),
        ),
        Expr::Spawn(inner) => ExprS::Spawn(Box::new(expr_view(*inner))),
        Expr::Sync(inner) => ExprS::Sync(Box::new(expr_view(*inner))),
    }
}

pub open spec fn exprs_view(s: Seq<Expr>) -> Seq<ExprS>
    decreases s,
{
    if s.len() == 0 {
        Seq::empty()
    } else {
        exprs_view(s.subrange(0, s.len() - 1)).push(expr_view(s.last()))
    }
}

impl View for Value {
    type V = ValueS;

    open spec fn view(&self) -> ValueS {
        value_view(*self)
    }
}

impl View for Expr {
    type V = ExprS;

    open spec fn view(&self) -> ExprS {
        expr_view(*self)
    }
}

pub open spec fn error_view(e: Error) -> ErrorS {
    match e {
        Error::UndefinedVariable(n) => ErrorS::UndefinedVariable(n@),
        Error::NotCallable => ErrorS::NotCallable,
        Error::ArityMismatch => ErrorS::ArityMismatch,
        Error::TypeError(reason) => ErrorS::TypeError(reason@),
        Error::EmptyCollection => ErrorS::EmptyCollection,
        Error::FutureAlreadyConsumed => ErrorS::FutureAlreadyConsumed,
        Error::DepthLimit => ErrorS::DepthLimit,
    }
}

impl View for Error {
    type V = ErrorS;

    open spec fn view(&self) -> ErrorS {
        error_view(*self)
    }
}

/// Model of an evaluation result.
pub open spec fn result_view(r: Result<Value, Error>) -> Result<ValueS, ErrorS> {
    match r {
        Ok(v) => Ok(value_view(v)),
        Err(e) => Err(error_view(e)),
    }
}

pub proof fn lemma_values_view_len(s: Seq<Value>)
    ensures
        values_view(s).len() == s.len(),
    decreases s.len(),
{
    if s.len() > 0 {
        lemma_values_view_len(s.subrange(0, s.len() - 1));
    }
}

pub proof fn lemma_values_view_index(s: Seq<Value>, i: int)
    requires
        0 <= i < s.len(),
    ensures
        values_view(s).len() == s.len(),
        values_view(s)[i] == value_view(s[i]),
    decreases s.len(),
{
    lemma_values_view_len(s);
    if i < s.len() - 1 {
        lemma_values_view_index(s.subrange(0, s.len() - 1), i);
    } else {
        lemma_values_view_len(s.subrange(0, s.len() - 1));
    }
}

pub proof fn lemma_exprs_view_len(s: Seq<Expr>)
    ensures
        exprs_view(s).len() == s.len(),
    decreases s.len(),
{
    if s.len() > 0 {
        lemma_exprs_view_len(s.subrange(0, s.len() - 1));
    }
}

pub proof fn lemma_exprs_view_index(s: Seq<Expr>, i: int)
    requires
        0 <= i < s.len(),
    ensures
        exprs_view(s).len() == s.len(),
        exprs_view(s)[i] == expr_view(s[i]),
    decreases s.len(),
{
    lemma_exprs_view_len(s);
    if i < s.len() - 1 {
        lemma_exprs_view_index(s.subrange(0, s.len() - 1), i);
    } else {
        lemma_exprs_view_len(s.subrange(0, s.len() - 1));
    }
}

/// Structural size of a value model; the termination measure for recursion
/// over the (mutually recursive) value and expression models.
pub open spec fn value_size(v: ValueS) -> nat
    decreases v,
{
    match v {
        ValueS::Int(_) => 1,
        ValueS::Bool(_) => 1,
        ValueS::Vector(vs) => 1 + values_size(vs),
        ValueS::Function(_, _, body) => 1 + expr_size(*body),
        ValueS::Future(_) => 1,
    }
}

pub open spec fn values_size(s: Seq<ValueS>) -> nat
    decreases s,
{
    if s.len() == 0 {
        0
    } else {
        values_size(s.subrange(0, s.len() - 1)) + value_size(s.last()) + 1
    }
}

pub open spec fn expr_size(e: ExprS) -> nat
    decreases e,
{
    match e {
        ExprS::Literal(v) => 1 + value_size(v),
        ExprS::Variable(_) => 1,
        ExprS::Application(f, args) => 1 + expr_size(*f) + exprs_size(args),
        ExprS::Let(_, ve, be) => 1 + expr_size(*ve) + expr_size(*be),
        ExprS::If(c, t, e2) => 1 + expr_size(*c) + expr_size(*t) + expr_size(*e2),
        ExprS::Spawn(inner) => 1 + expr_size(*inner),
        ExprS::Sync(inner) => 1 + expr_size(*inner),
    }
}

pub open spec fn exprs_size(s: Seq<ExprS>) -> nat
    decreases s,
{
    if s.len() == 0 {
        0
    } else {
        exprs_size(s.subrange(0, s.len() - 1)) + expr_size(s.last()) + 1
    }
}

pub proof fn lemma_exprs_size_elem(s: Seq<ExprS>, i: int)
    requires
        0 <= i < s.len(),
    ensures
        expr_size(s[i]) < exprs_size(s),
    decreases s.len(),
{
    if i < s.len() - 1 {
        lemma_exprs_size_elem(s.subrange(0, s.len() - 1), i);
    }
}

pub proof fn lemma_values_size_elem(s: Seq<ValueS>, i: int)
    requires
        0 <= i < s.len(),
    ensures
        value_size(s[i]) < values_size(s),
    decreases s.len(),
{
    if i < s.len() - 1 {
        lemma_values_size_elem(s.subrange(0, s.len() - 1), i);
    }
}

} // verus!

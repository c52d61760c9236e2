//! The interpreter: the executable evaluator, proved to agree with the
//! mathematical evaluator `eval_s` on every input and in every state.
//!
//! An `Interpreter` owns an environment (pre-bound with placeholder function
//! values for the builtin names; builtin behaviour is dispatched by name,
//! never by evaluating a placeholder body) and a future store. `Spawn`
//! evaluates its expression against a snapshot of the current environment —
//! the spawned evaluation's bindings are invisible to the spawning context —
//! and stores the outcome, success or failure, in a fresh write-once cell of
//! the store; `Sync` drains a cell on first read, so a second `Sync` of the
//! same handle fails with `FutureAlreadyConsumed`. A `Future` handle that
//! does not refer to a cell of this store is likewise treated as consumed.
use vstd::prelude::*;

use vstd::pervasive::VecAdditionalExecFns;

use crate::ast::{
    Error, ErrorS, Expr, ExprS, Value, ValueS, expr_size, exprs_size, exprs_view,
    lemma_exprs_size_elem, lemma_exprs_view_index, lemma_exprs_view_len,
    lemma_values_view_index, lemma_values_view_len, result_view, values_view,
};
use crate::env::Env;
use crate::equality::{clone_value, string_eq, value_eq};
use crate::semantics::{
    CellS, StateS, apply_user_s, bind_params, builtin_add_s, builtin_cons_s, builtin_eq_s,
    builtin_head_s, builtin_if_s, builtin_sub_s, builtin_tail_s, eval_list_s, eval_s,
    lemma_eval_list_s_err, lemma_eval_list_s_len,
};

verus! {

/// One cell of the future store: the outcome of a spawned evaluation, or
/// the mark left once a `Sync` has drained it.
pub enum FutureCell {
    Ready(Result<Value, Error>),
    Consumed,
}

pub open spec fn cell_view(c: FutureCell) -> CellS {
    match c {
        FutureCell::Ready(r) => CellS::Ready(result_view(r)),
        FutureCell::Consumed => CellS::Consumed,
    }
}

pub open spec fn cells_view(s: Seq<FutureCell>) -> Seq<CellS> {
    Seq::new(s.len(), |i: int| cell_view(s[i]))
}

/// The environment a fresh interpreter starts from: each builtin name bound
/// to a placeholder function value whose body is never executed.
pub open spec fn initial_env() -> Map<Seq<char>, ValueS> {
    Map::empty().insert(
        "+"@,
        ValueS::Function("+"@, seq!["x"@, "y"@], Box::new(ExprS::Variable("x"@))),
    ).insert(
        "-"@,
        ValueS::Function("-"@, seq!["x"@, "y"@], Box::new(ExprS::Variable("x"@))),
    ).insert(
        "="@,
        ValueS::Function("="@, seq!["x"@, "y"@], Box::new(ExprS::Variable("x"@))),
    ).insert(
        "if"@,
        ValueS::Function(
            "if"@,
            seq!["condition"@, "then"@, "else"@],
            Box::new(ExprS::Variable("condition"@)),
        ),
    ).insert(
        "cons"@,
        ValueS::Function("cons"@, seq!["head"@, "tail"@], Box::new(ExprS::Variable("head"@))),
    ).insert(
        "head"@,
        ValueS::Function("head"@, seq!["list"@], Box::new(ExprS::Variable("list"@))),
    ).insert(
        "tail"@,
        ValueS::Function("tail"@, seq!["list"@], Box::new(ExprS::Variable("list"@))),
    )
}

fn clone_error(e: &Error) -> (c: Error)
    ensures
        c@ == e@,
{
    match e {
        Error::UndefinedVariable(n) => Error::UndefinedVariable(n.clone()),
        Error::NotCallable => Error::NotCallable,
        Error::ArityMismatch => Error::ArityMismatch,
        Error::TypeError(reason) => Error::TypeError(reason.clone()),
        Error::EmptyCollection => Error::EmptyCollection,
        Error::FutureAlreadyConsumed => Error::FutureAlreadyConsumed,
        Error::DepthLimit => Error::DepthLimit,
    }
}

fn clone_outcome(r: &Result<Value, Error>) -> (c: Result<Value, Error>)
    ensures
        result_view(c) == result_view(*r),
{
    match r {
        Ok(v) => Ok(clone_value(v)),
        Err(e) => Err(clone_error(e)),
    }
}

/// A placeholder function value for a builtin binding.
fn placeholder(name: &str, params: Vec<String>, var: &str) -> (r: Value)
    ensures
        r@ == ValueS::Function(
            name@,
            params@.map_values(|p: String| p@),
            Box::new(ExprS::Variable(var@)),
        ),
{
    Value::Function(name.to_owned(), params, Box::new(Expr::Variable(var.to_owned())))
}

fn three_strings(a: &str, b: &str, c: &str) -> (r: Vec<String>)
    ensures
        r@.map_values(|p: String| p@) == seq![a@, b@, c@],
{
    let mut v: Vec<String> = Vec::new();
    v.push(a.to_owned());
    v.push(b.to_owned());
    v.push(c.to_owned());
    proof {
        assert(v@.map_values(|p: String| p@) =~= seq![a@, b@, c@]);
    }
    v
}

fn two_strings(a: &str, b: &str) -> (r: Vec<String>)
    ensures
        r@.map_values(|p: String| p@) == seq![a@, b@],
{
    let mut v: Vec<String> = Vec::new();
    v.push(a.to_owned());
    v.push(b.to_owned());
    proof {
        assert(v@.map_values(|p: String| p@) =~= seq![a@, b@]);
    }
    v
}

fn one_string(a: &str) -> (r: Vec<String>)
    ensures
        r@.map_values(|p: String| p@) == seq![a@],
{
    let mut v: Vec<String> = Vec::new();
    v.push(a.to_owned());
    proof {
        assert(v@.map_values(|p: String| p@) =~= seq![a@]);
    }
    v
}

pub struct Interpreter {
    env: Env,
    futures: Vec<FutureCell>,
}

impl Interpreter {
    /// The state this interpreter is in: its environment map and its future
    /// store.
    pub closed spec fn state(&self) -> StateS {
        StateS { env: self.env@, futures: cells_view(self.futures@) }
    }

    /// A fresh interpreter: the builtin names pre-bound to placeholders, an
    /// empty future store.
    pub fn new() -> (r: Interpreter)
        ensures
            r.state() == (StateS { env: initial_env(), futures: Seq::<CellS>::empty() }),
    {
        let mut env = Env::empty();
        env.insert("+".to_owned(), placeholder("+", two_strings("x", "y"), "x"));
        env.insert("-".to_owned(), placeholder("-", two_strings("x", "y"), "x"));
        env.insert("=".to_owned(), placeholder("=", two_strings("x", "y"), "x"));
        env.insert(
            "if".to_owned(),
            placeholder("if", three_strings("condition", "then", "else"), "condition"),
        );
        env.insert("cons".to_owned(), placeholder("cons", two_strings("head", "tail"), "head"));
        env.insert("head".to_owned(), placeholder("head", one_string("list"), "list"));
        env.insert("tail".to_owned(), placeholder("tail", one_string("list"), "list"));
        let r = Interpreter { env, futures: Vec::new() };
        proof {
            assert(cells_view(r.futures@) =~= Seq::<CellS>::empty());
        }
        r
    }

    /// Binds `name` to `value` in the interpreter's environment, as a `Let`
    /// would, overwriting any prior binding of that name.
    pub fn define(&mut self, name: String, value: Value)
        ensures
            final(self).state() == (StateS {
                env: old(self).state().env.insert(name@, value@),
                futures: old(self).state().futures,
            }),
    {
        self.env.insert(name, value);
    }

    /// Evaluates `expr` against the interpreter's current state. Returns
    /// exactly what the mathematical evaluator returns, and leaves the
    /// interpreter in exactly the state it describes; `fuel` bounds the
    /// nesting depth of user-function application.
    pub fn eval(&mut self, expr: &Expr, fuel: u64) -> (r: Result<Value, Error>)
        ensures
            ({
                let (rs, st) = eval_s(old(self).state(), expr@, fuel as nat);
                result_view(r) == rs && final(self).state() == st
            }),
        decreases fuel, expr_size(expr@), 2int,
    {
        match expr {
            Expr::Literal(v) => Ok(clone_value(v)),
            Expr::Variable(name) => {
                match self.env.lookup(name) {
                    Some(v) => Ok(v),
                    None => Err(Error::UndefinedVariable(name.clone())),
                }
            },
            Expr::Application(f, args) => {
                let fv = match self.eval(f, fuel) {
                    Ok(v) => v,
                    Err(e) => {
                        return Err(e);
                    },
                };
                match fv {
                    Value::Function(name, params, body) => {
                        if string_eq(&name, &"+".to_owned()) {
                            self.builtin_add(args, fuel)
                        } else if string_eq(&name, &"-".to_owned()) {
                            self.builtin_sub(args, fuel)
                        } else if string_eq(&name, &"=".to_owned()) {
                            self.builtin_eq(args, fuel)
                        } else if string_eq(&name, &"if".to_owned()) {
                            self.builtin_if(args, fuel)
                        } else if string_eq(&name, &"cons".to_owned()) {
                            self.builtin_cons(args, fuel)
                        } else if string_eq(&name, &"head".to_owned()) {
                            self.builtin_head(args, fuel)
                        } else if string_eq(&name, &"tail".to_owned()) {
                            self.builtin_tail(args, fuel)
                        } else {
                            self.apply_user(params, body, args, fuel)
                        }
                    },
                    _ => Err(Error::NotCallable),
                }
            },
            Expr::Let(name, ve, be) => {
                let v = match self.eval(ve, fuel) {
                    Ok(v) => v,
                    Err(e) => {
                        return Err(e);
                    },
                };
                self.env.insert(name.clone(), v);
                self.eval(be, fuel)
            },
            Expr::If(c, t, e2) => {
                let cond = match self.eval(c, fuel) {
                    Ok(v) => v,
                    Err(e) => {
                        return Err(e);
                    },
                };
                match cond {
                    Value::Bool(b) => if b {
                        self.eval(t, fuel)
                    } else {
                        self.eval(e2, fuel)
                    },
                    _ => Err(Error::TypeError("condition must be a boolean".to_owned())),
                }
            },
            Expr::Spawn(inner) => {
                let snapshot = self.env.snapshot();
                let mut child = Interpreter { env: snapshot, futures: Vec::new() };
                core::mem::swap(&mut child.futures, &mut self.futures);
                let outcome = child.eval(inner, fuel);
                core::mem::swap(&mut child.futures, &mut self.futures);
                let id = self.futures.len();
                let ghost before = self.futures@;
                self.futures.push(FutureCell::Ready(outcome));
                proof {
                    assert(cells_view(self.futures@) =~= cells_view(before).push(
                        cell_view(self.futures@.last()),
                    ));
                }
                Ok(Value::Future(id))
            },
            Expr::Sync(inner) => {
                let sv = match self.eval(inner, fuel) {
                    Ok(v) => v,
                    Err(e) => {
                        return Err(e);
                    },
                };
                match sv {
                    Value::Future(id) => {
                        if id < self.futures.len() {
                            let stored: Option<Result<Value, Error>> = match &self.futures[id] {
                                FutureCell::Ready(rr) => Some(clone_outcome(rr)),
                                FutureCell::Consumed => None,
                            };
                            match stored {
                                Some(res) => {
                                    let ghost before = self.futures@;
                                    self.futures.set(id, FutureCell::Consumed);
                                    proof {
                                        assert(cells_view(self.futures@) =~= cells_view(
                                            before,
                                        ).update(id as int, CellS::Consumed));
                                    }
                                    res
                                },
                                None => Err(Error::FutureAlreadyConsumed),
                            }
                        } else {
                            Err(Error::FutureAlreadyConsumed)
                        }
                    },
                    _ => Err(Error::TypeError("cannot sync non-future value".to_owned())),
                }
            },
        }
    }

    /// Evaluates a list of argument expressions left to right, stopping at
    /// the first failure.
    fn eval_args(&mut self, args: &Vec<Expr>, fuel: u64) -> (r: Result<Vec<Value>, Error>)
        ensures
            ({
                let (rs, st) = eval_list_s(old(self).state(), exprs_view(args@), fuel as nat);
                final(self).state() == st && (match r {
                    Ok(vs) => rs == Ok::<Seq<ValueS>, ErrorS>(values_view(vs@)),
                    Err(e) => rs == Err::<Seq<ValueS>, ErrorS>(e@),
                })
            }),
        decreases fuel, exprs_size(exprs_view(args@)), 0int,
    {
        let ghost st0 = self.state();
        let ghost ev = exprs_view(args@);
        let mut vals: Vec<Value> = Vec::new();
        let n = args.len();
        proof {
            lemma_exprs_view_len(args@);
            assert(ev.subrange(0, 0) =~= Seq::<ExprS>::empty());
            assert(values_view(vals@) =~= Seq::<ValueS>::empty());
        }
        let mut i: usize = 0;
        while i < n
            invariant
                0 <= i <= n,
                n == args@.len(),
                ev == exprs_view(args@),
                ev.len() == n,
                st0 == old(self).state(),
                vals@.len() == i,
                eval_list_s(st0, ev.subrange(0, i as int), fuel as nat) == (
                    Ok::<Seq<ValueS>, ErrorS>(values_view(vals@)),
                    self.state(),
                ),
            decreases n - i,
        {
            proof {
                lemma_exprs_view_index(args@, i as int);
                lemma_exprs_size_elem(ev, i as int);
            }
            let ghost old_vals = vals@;
            match self.eval(&args[i], fuel) {
                Err(e) => {
                    proof {
                        lemma_eval_list_s_err(st0, ev, fuel as nat, i as int);
                    }
                    return Err(e);
                },
                Ok(v) => {
                    vals.push(v);
                    proof {
                        assert(ev.subrange(0, i + 1 as int).subrange(0, i as int) =~= ev.subrange(
                            0,
                            i as int,
                        ));
                        assert(ev.subrange(0, i + 1 as int).last() == ev[i as int]);
                        assert(vals@.subrange(0, i as int) =~= old_vals);
                    }
                    i = i + 1;
                },
            }
        }
        proof {
            assert(ev.subrange(0, n as int) =~= ev);
        }
        Ok(vals)
    }

    /// Application of a user-defined function value: arity is checked before
    /// any argument is evaluated; the body runs in a fresh interpreter whose
    /// environment is a snapshot of the caller's extended with the parameter
    /// bindings, and which shares the caller's future store.
    fn apply_user(
        &mut self,
        params: Vec<String>,
        body: Box<Expr>,
        args: &Vec<Expr>,
        fuel: u64,
    ) -> (r: Result<Value, Error>)
        ensures
            ({
                let (rs, st) = apply_user_s(
                    old(self).state(),
                    params@.map_values(|p: String| p@),
                    (*body)@,
                    exprs_view(args@),
                    fuel as nat,
                );
                result_view(r) == rs && final(self).state() == st
            }),
        decreases fuel, exprs_size(exprs_view(args@)), 1int,
    {
        proof {
            lemma_exprs_view_len(args@);
        }
        if params.len() != args.len() {
            return Err(Error::ArityMismatch);
        }
        if fuel == 0 {
            return Err(Error::DepthLimit);
        }
        let vals = match self.eval_args(args, fuel) {
            Ok(vs) => vs,
            Err(e) => {
                return Err(e);
            },
        };
        proof {
            lemma_eval_list_s_len(old(self).state(), exprs_view(args@), fuel as nat);
            lemma_values_view_len(vals@);
        }
        let ghost caller_env = self.env@;
        let ghost pviews = params@.map_values(|p: String| p@);
        let ghost vviews = values_view(vals@);
        let mut child_env = self.env.snapshot();
        let n = params.len();
        proof {
            assert(pviews.subrange(0, 0) =~= Seq::<Seq<char>>::empty());
        }
        let mut i: usize = 0;
        while i < n
            invariant
                0 <= i <= n,
                n == params@.len(),
                vals@.len() == n,
                pviews == params@.map_values(|p: String| p@),
                vviews == values_view(vals@),
                pviews.len() == n,
                vviews.len() == n,
                child_env@ == bind_params(
                    caller_env,
                    pviews.subrange(0, i as int),
                    vviews.subrange(0, i as int),
                ),
            decreases n - i,
        {
            proof {
                lemma_values_view_index(vals@, i as int);
                assert(pviews.subrange(0, i + 1 as int).subrange(0, i as int) =~= pviews.subrange(
                    0,
                    i as int,
                ));
                assert(vviews.subrange(0, i + 1 as int).subrange(0, i as int) =~= vviews.subrange(
                    0,
                    i as int,
                ));
                assert(pviews.subrange(0, i + 1 as int).last() == pviews[i as int]);
                assert(vviews.subrange(0, i + 1 as int).last() == vviews[i as int]);
            }
            child_env.insert(params[i].clone(), clone_value(&vals[i]));
            i = i + 1;
        }
        proof {
            assert(pviews.subrange(0, n as int) =~= pviews);
            assert(vviews.subrange(0, n as int) =~= vviews);
        }
        let mut child = Interpreter { env: child_env, futures: Vec::new() };
        core::mem::swap(&mut child.futures, &mut self.futures);
        let rb = child.eval(&body, fuel - 1);
        core::mem::swap(&mut child.futures, &mut self.futures);
        rb
    }

    /// The builtin `+`: two arguments, wrapped 64-bit integer addition.
    pub fn builtin_add(&mut self, args: &Vec<Expr>, fuel: u64) -> (r: Result<Value, Error>)
        ensures
            ({
                let (rs, st) = builtin_add_s(old(self).state(), exprs_view(args@), fuel as nat);
                result_view(r) == rs && final(self).state() == st
            }),
        decreases fuel, exprs_size(exprs_view(args@)), 1int,
    {
        proof {
            lemma_exprs_view_len(args@);
        }
        if args.len() != 2 {
            return Err(Error::ArityMismatch);
        }
        let vals = match self.eval_args(args, fuel) {
            Ok(vs) => vs,
            Err(e) => {
                return Err(e);
            },
        };
        proof {
            lemma_eval_list_s_len(old(self).state(), exprs_view(args@), fuel as nat);
            lemma_values_view_len(vals@);
            lemma_values_view_index(vals@, 0);
            lemma_values_view_index(vals@, 1);
        }
        match (&vals[0], &vals[1]) {
            (Value::Int(a), Value::Int(b)) => Ok(Value::Int(a.wrapping_add(*b))),
            _ => Err(Error::TypeError("add takes two integers".to_owned())),
        }
    }

    /// The builtin `-`: two arguments, wrapped 64-bit integer subtraction.
    pub fn builtin_sub(&mut self, args: &Vec<Expr>, fuel: u64) -> (r: Result<Value, Error>)
        ensures
            ({
                let (rs, st) = builtin_sub_s(old(self).state(), exprs_view(args@), fuel as nat);
                result_view(r) == rs && final(self).state() == st
            }),
        decreases fuel, exprs_size(exprs_view(args@)), 1int,
    {
        proof {
            lemma_exprs_view_len(args@);
        }
        if args.len() != 2 {
            return Err(Error::ArityMismatch);
        }
        let vals = match self.eval_args(args, fuel) {
            Ok(vs) => vs,
            Err(e) => {
                return Err(e);
            },
        };
        proof {
            lemma_eval_list_s_len(old(self).state(), exprs_view(args@), fuel as nat);
            lemma_values_view_len(vals@);
            lemma_values_view_index(vals@, 0);
            lemma_values_view_index(vals@, 1);
        }
        match (&vals[0], &vals[1]) {
            (Value::Int(a), Value::Int(b)) => Ok(Value::Int(a.wrapping_sub(*b))),
            _ => Err(Error::TypeError("subtract takes two integers".to_owned())),
        }
    }

    /// The builtin `=`: two arguments, structural equality; futures never
    /// compare equal.
    pub fn builtin_eq(&mut self, args: &Vec<Expr>, fuel: u64) -> (r: Result<Value, Error>)
        ensures
            ({
                let (rs, st) = builtin_eq_s(old(self).state(), exprs_view(args@), fuel as nat);
                result_view(r) == rs && final(self).state() == st
            }),
        decreases fuel, exprs_size(exprs_view(args@)), 1int,
    {
        proof {
            lemma_exprs_view_len(args@);
        }
        if args.len() != 2 {
            return Err(Error::ArityMismatch);
        }
        let vals = match self.eval_args(args, fuel) {
            Ok(vs) => vs,
            Err(e) => {
                return Err(e);
            },
        };
        proof {
            lemma_eval_list_s_len(old(self).state(), exprs_view(args@), fuel as nat);
            lemma_values_view_len(vals@);
            lemma_values_view_index(vals@, 0);
            lemma_values_view_index(vals@, 1);
        }
        Ok(Value::Bool(value_eq(&vals[0], &vals[1])))
    }

    /// The builtin `if`: three arguments, checked before any is evaluated;
    /// the condition is evaluated, then only the selected branch.
    pub fn builtin_if(&mut self, args: &Vec<Expr>, fuel: u64) -> (r: Result<Value, Error>)
        ensures
            ({
                let (rs, st) = builtin_if_s(old(self).state(), exprs_view(args@), fuel as nat);
                result_view(r) == rs && final(self).state() == st
            }),
        decreases fuel, exprs_size(exprs_view(args@)), 1int,
    {
        proof {
            lemma_exprs_view_len(args@);
        }
        if args.len() != 3 {
            return Err(Error::ArityMismatch);
        }
        proof {
            lemma_exprs_view_index(args@, 0);
            lemma_exprs_view_index(args@, 1);
            lemma_exprs_view_index(args@, 2);
            lemma_exprs_size_elem(exprs_view(args@), 0);
            lemma_exprs_size_elem(exprs_view(args@), 1);
            lemma_exprs_size_elem(exprs_view(args@), 2);
        }
        let cond = match self.eval(&args[0], fuel) {
            Ok(v) => v,
            Err(e) => {
                return Err(e);
            },
        };
        match cond {
            Value::Bool(b) => {
                if b {
                    self.eval(&args[1], fuel)
                } else {
                    self.eval(&args[2], fuel)
                }
            },
            _ => Err(Error::TypeError("if condition must be a boolean".to_owned())),
        }
    }

    /// The builtin `cons`: two arguments; prepends the first to the vector
    /// that is the second, producing a new vector.
    pub fn builtin_cons(&mut self, args: &Vec<Expr>, fuel: u64) -> (r: Result<Value, Error>)
        ensures
            ({
                let (rs, st) = builtin_cons_s(old(self).state(), exprs_view(args@), fuel as nat);
                result_view(r) == rs && final(self).state() == st
            }),
        decreases fuel, exprs_size(exprs_view(args@)), 1int,
    {
        proof {
            lemma_exprs_view_len(args@);
        }
        if args.len() != 2 {
            return Err(Error::ArityMismatch);
        }
        let vals = match self.eval_args(args, fuel) {
            Ok(vs) => vs,
            Err(e) => {
                return Err(e);
            },
        };
        proof {
            lemma_eval_list_s_len(old(self).state(), exprs_view(args@), fuel as nat);
            lemma_values_view_len(vals@);
            lemma_values_view_index(vals@, 0);
            lemma_values_view_index(vals@, 1);
        }
        match &vals[1] {
            Value::Vector(t) => {
                let ghost h = values_view(vals@)[0];
                let mut nv: Vec<Value> = Vec::new();
                nv.push(clone_value(&vals[0]));
                proof {
                    assert(values_view(Seq::<Value>::empty()) =~= Seq::<ValueS>::empty());
                    assert(nv@.subrange(0, 0) =~= Seq::<Value>::empty());
                    assert(nv@.last()@ == h);
                    assert(values_view(nv@) =~= seq![h]);
                    assert(values_view(t@.subrange(0, 0)) =~= Seq::<ValueS>::empty());
                    assert(seq![h] + values_view(t@.subrange(0, 0)) =~= seq![h]);
                }
                let m = t.len();
                let mut j: usize = 0;
                while j < m
                    invariant
                        0 <= j <= m,
                        m == t@.len(),
                        nv@.len() == j + 1,
                        values_view(nv@) == seq![h] + values_view(t@.subrange(0, j as int)),
                    decreases m - j,
                {
                    proof {
                        lemma_values_view_index(t@, j as int);
                    }
                    let ghost old_nv = nv@;
                    nv.push(clone_value(&t[j]));
                    proof {
                        assert(nv@.subrange(0, old_nv.len() as int) =~= old_nv);
                        assert(t@.subrange(0, j + 1 as int).subrange(0, j as int) =~= t@.subrange(
                            0,
                            j as int,
                        ));
                        assert(t@.subrange(0, j + 1 as int).last() == t@[j as int]);
                        assert(values_view(nv@) =~= seq![h] + values_view(
                            t@.subrange(0, j + 1 as int),
                        ));
                    }
                    j = j + 1;
                }
                proof {
                    assert(t@.subrange(0, m as int) =~= t@);
                }
                Ok(Value::Vector(nv))
            },
            _ => Err(Error::TypeError("cons second argument must be a vector".to_owned())),
        }
    }

    /// The builtin `head`: one argument; the first element of the vector.
    pub fn builtin_head(&mut self, args: &Vec<Expr>, fuel: u64) -> (r: Result<Value, Error>)
        ensures
            ({
                let (rs, st) = builtin_head_s(old(self).state(), exprs_view(args@), fuel as nat);
                result_view(r) == rs && final(self).state() == st
            }),
        decreases fuel, exprs_size(exprs_view(args@)), 1int,
    {
        proof {
            lemma_exprs_view_len(args@);
        }
        if args.len() != 1 {
            return Err(Error::ArityMismatch);
        }
        let vals = match self.eval_args(args, fuel) {
            Ok(vs) => vs,
            Err(e) => {
                return Err(e);
            },
        };
        proof {
            lemma_eval_list_s_len(old(self).state(), exprs_view(args@), fuel as nat);
            lemma_values_view_len(vals@);
            lemma_values_view_index(vals@, 0);
        }
        match &vals[0] {
            Value::Vector(t) => {
                if t.len() == 0 {
                    Err(Error::EmptyCollection)
                } else {
                    proof {
                        lemma_values_view_index(t@, 0);
                    }
                    Ok(clone_value(&t[0]))
                }
            },
            _ => Err(Error::TypeError("head argument must be a vector".to_owned())),
        }
    }

    /// The builtin `tail`: one argument; the vector without its first
    /// element, as a new vector.
    pub fn builtin_tail(&mut self, args: &Vec<Expr>, fuel: u64) -> (r: Result<Value, Error>)
        ensures
            ({
                let (rs, st) = builtin_tail_s(old(self).state(), exprs_view(args@), fuel as nat);
                result_view(r) == rs && final(self).state() == st
            }),
        decreases fuel, exprs_size(exprs_view(args@)), 1int,
    {
        proof {
            lemma_exprs_view_len(args@);
        }
        if args.len() != 1 {
            return Err(Error::ArityMismatch);
        }
        let vals = match self.eval_args(args, fuel) {
            Ok(vs) => vs,
            Err(e) => {
                return Err(e);
            },
        };
        proof {
            lemma_eval_list_s_len(old(self).state(), exprs_view(args@), fuel as nat);
            lemma_values_view_len(vals@);
            lemma_values_view_index(vals@, 0);
        }
        match &vals[0] {
            Value::Vector(t) => {
                if t.len() == 0 {
                    Err(Error::EmptyCollection)
                } else {
                    let m = t.len();
                    let mut nv: Vec<Value> = Vec::new();
                    proof {
                        lemma_values_view_len(t@);
                        assert(values_view(nv@) =~= values_view(t@).subrange(1, 1));
                    }
                    let mut j: usize = 1;
                    while j < m
                        invariant
                            1 <= j <= m,
                            m == t@.len(),
                            values_view(t@).len() == m,
                            nv@.len() == j - 1,
                            values_view(nv@) == values_view(t@).subrange(1, j as int),
                        decreases m - j,
                    {
                        proof {
                            lemma_values_view_index(t@, j as int);
                        }
                        let ghost old_nv = nv@;
                        nv.push(clone_value(&t[j]));
                        proof {
                            assert(nv@.subrange(0, old_nv.len() as int) =~= old_nv);
                            assert(values_view(nv@) == values_view(old_nv).push(t@[j as int]@));
                            assert(values_view(nv@) =~= values_view(t@).subrange(
                                1,
                                j + 1 as int,
                            ));
                        }
                        j = j + 1;
                    }
                    Ok(Value::Vector(nv))
                }
            },
            _ => Err(Error::TypeError("tail argument must be a vector".to_owned())),
        }
    }
}

} // verus!

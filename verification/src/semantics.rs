//! The semantics of the language: a mathematical evaluator over the value
//! and expression models. Every executable entry point of the interpreter is
//! proved to return exactly what this evaluator returns and to leave the
//! interpreter in exactly the state this evaluator describes.
//!
//! Evaluation threads a state (the environment map and the future store)
//! through every subexpression, including failing ones: a failure carries
//! the state as it stood at the point of failure.
//!
//! `fuel` bounds the nesting depth of user-function application; it is the
//! only source of recursion that the expression tree itself does not bound.
//! When it runs out, evaluation stops with `ErrorS::DepthLimit`.
use vstd::prelude::*;

use crate::ast::{
    ErrorS, ExprS, ValueS, expr_size, exprs_size, lemma_exprs_size_elem,
};
use crate::equality::value_eq_s;

verus! {

/// One cell of the future store. `Spawn` appends a `Ready` cell holding the
/// spawned evaluation's outcome (its value, or its failure); the first
/// `Sync` drains the cell to `Consumed`.
pub enum CellS {
    Ready(Result<ValueS, ErrorS>),
    Consumed,
}

/// The state an evaluation runs against: the current environment and the
/// future store shared by every evaluation context.
pub struct StateS {
    pub env: Map<Seq<char>, ValueS>,
    pub futures: Seq<CellS>,
}

/// The names the builtin dispatch recognises. A function value whose name is
/// one of these is applied by the matching primitive, whatever its parameter
/// list or body say.
pub open spec fn is_builtin_name(n: Seq<char>) -> bool {
    n == "+"@ || n == "-"@ || n == "="@ || n == "if"@ || n == "cons"@ || n == "head"@
        || n == "tail"@
}

/// Integer addition with two's-complement wrap-around at the 64-bit range.
pub open spec fn wrap_to_i64(n: int) -> int {
    if n > i64::MAX {
        n - 0x1_0000_0000_0000_0000
    } else if n < i64::MIN {
        n + 0x1_0000_0000_0000_0000
    } else {
        n
    }
}

/// What `+` returns on two evaluated operands.
pub open spec fn add_values(x: ValueS, y: ValueS) -> Result<ValueS, ErrorS> {
    match (x, y) {
        (ValueS::Int(a), ValueS::Int(b)) => Ok(ValueS::Int(wrap_to_i64(a + b))),
        _ => Err(ErrorS::TypeError("add takes two integers"@)),
    }
}

/// What `-` returns on two evaluated operands (first minus second).
pub open spec fn sub_values(x: ValueS, y: ValueS) -> Result<ValueS, ErrorS> {
    match (x, y) {
        (ValueS::Int(a), ValueS::Int(b)) => Ok(ValueS::Int(wrap_to_i64(a - b))),
        _ => Err(ErrorS::TypeError("subtract takes two integers"@)),
    }
}

/// What `cons` returns: the first operand prepended to the vector that is
/// the second operand.
pub open spec fn cons_values(h: ValueS, t: ValueS) -> Result<ValueS, ErrorS> {
    match t {
        ValueS::Vector(vs) => Ok(ValueS::Vector(seq![h] + vs)),
        _ => Err(ErrorS::TypeError("cons second argument must be a vector"@)),
    }
}

/// What `head` returns: the first element of the vector operand.
pub open spec fn head_value(v: ValueS) -> Result<ValueS, ErrorS> {
    match v {
        ValueS::Vector(vs) => if vs.len() == 0 {
            Err(ErrorS::EmptyCollection)
        } else {
            Ok(vs[0])
        },
        _ => Err(ErrorS::TypeError("head argument must be a vector"@)),
    }
}

/// What `tail` returns: the vector operand without its first element.
pub open spec fn tail_value(v: ValueS) -> Result<ValueS, ErrorS> {
    match v {
        ValueS::Vector(vs) => if vs.len() == 0 {
            Err(ErrorS::EmptyCollection)
        } else {
            Ok(ValueS::Vector(vs.subrange(1, vs.len() as int)))
        },
        _ => Err(ErrorS::TypeError("tail argument must be a vector"@)),
    }
}

/// The environment a user function's body runs against: the caller's
/// environment extended with the parameter bindings, in order, so a repeated
/// parameter name keeps its rightmost argument.
pub open spec fn bind_params(
    env: Map<Seq<char>, ValueS>,
    params: Seq<Seq<char>>,
    vals: Seq<ValueS>,
) -> Map<Seq<char>, ValueS>
    decreases params.len(),
{
    if params.len() == 0 || vals.len() == 0 {
        env
    } else {
        bind_params(
            env,
            params.subrange(0, params.len() - 1),
            vals.subrange(0, vals.len() - 1),
        ).insert(params.last(), vals.last())
    }
}

/// Evaluates an expression against a state. Returns the outcome and the
/// state after evaluation; on failure the state is the one reached at the
/// point of failure.
pub open spec fn eval_s(st: StateS, e: ExprS, fuel: nat) -> (Result<ValueS, ErrorS>, StateS)
    decreases fuel, expr_size(e), 2int,
{
    match e {
        ExprS::Literal(v) => (Ok(v), st),
        ExprS::Variable(n) => if st.env.contains_key(n) {
            (Ok(st.env[n]), st)
        } else {
            (Err(ErrorS::UndefinedVariable(n)), st)
        },
        ExprS::Application(f, args) => {
            let (rf, st1) = eval_s(st, *f, fuel);
            match rf {
                Err(e1) => (Err(e1), st1),
                Ok(ValueS::Function(name, params, body)) => {
                    if name == "+"@ {
                        builtin_add_s(st1, args, fuel)
                    } else if name == "-"@ {
                        builtin_sub_s(st1, args, fuel)
                    } else if name == "="@ {
                        builtin_eq_s(st1, args, fuel)
                    } else if name == "if"@ {
                        builtin_if_s(st1, args, fuel)
                    } else if name == "cons"@ {
                        builtin_cons_s(st1, args, fuel)
                    } else if name == "head"@ {
                        builtin_head_s(st1, args, fuel)
                    } else if name == "tail"@ {
                        builtin_tail_s(st1, args, fuel)
                    } else {
                        apply_user_s(st1, params, *body, args, fuel)
                    }
                },
                Ok(_) => (Err(ErrorS::NotCallable), st1),
            }
        },
        ExprS::Let(n, ve, be) => {
            let (rv, st1) = eval_s(st, *ve, fuel);
            match rv {
                Err(e1) => (Err(e1), st1),
                Ok(v) => eval_s(
                    StateS { env: st1.env.insert(n, v), futures: st1.futures },
                    *be,
                    fuel,
                ),
            }
        },
        ExprS::If(c, t, e2) => {
            let (rc, st1) = eval_s(st, *c, fuel);
            match rc {
                Err(e1) => (Err(e1), st1),
                Ok(ValueS::Bool(true)) => eval_s(st1, *t, fuel),
                Ok(ValueS::Bool(false)) => eval_s(st1, *e2, fuel),
                Ok(_) => (Err(ErrorS::TypeError("condition must be a boolean"@)), st1),
            }
        },
        ExprS::Spawn(inner) => {
            let (rc, stc) = eval_s(st, *inner, fuel);
            (
                Ok(ValueS::Future(stc.futures.len() as int)),
                StateS { env: st.env, futures: stc.futures.push(CellS::Ready(rc)) },
            )
        },
        ExprS::Sync(inner) => {
            let (rv, st1) = eval_s(st, *inner, fuel);
            match rv {
                Err(e1) => (Err(e1), st1),
                Ok(ValueS::Future(id)) => if 0 <= id < st1.futures.len() {
                    match st1.futures[id] {
                        CellS::Ready(res) => (
                            res,
                            StateS {
                                env: st1.env,
                                futures: st1.futures.update(id, CellS::Consumed),
                            },
                        ),
                        CellS::Consumed => (Err(ErrorS::FutureAlreadyConsumed), st1),
                    }
                } else {
                    (Err(ErrorS::FutureAlreadyConsumed), st1)
                },
                Ok(_) => (Err(ErrorS::TypeError("cannot sync non-future value"@)), st1),
            }
        },
    }
}

/// Evaluates a list of expressions left to right, stopping at the first
/// failure.
pub open spec fn eval_list_s(st: StateS, es: Seq<ExprS>, fuel: nat) -> (
    Result<Seq<ValueS>, ErrorS>,
    StateS,
)
    decreases fuel, exprs_size(es), 0int,
{
    if es.len() == 0 {
        (Ok(Seq::empty()), st)
    } else {
        let (rv, st1) = eval_list_s(st, es.subrange(0, es.len() - 1), fuel);
        match rv {
            Err(e1) => (Err(e1), st1),
            Ok(vs) => {
                let (r2, st2) = eval_s(st1, es.last(), fuel);
                match r2 {
                    Err(e2) => (Err(e2), st2),
                    Ok(v) => (Ok(vs.push(v)), st2),
                }
            },
        }
    }
}

/// A failed element outcome, as the outcome of the whole list evaluation.
pub open spec fn as_list_err(r: Result<ValueS, ErrorS>) -> Result<Seq<ValueS>, ErrorS> {
    match r {
        Ok(_) => Ok(Seq::empty()),
        Err(e) => Err(e),
    }
}

pub proof fn lemma_eval_list_s_len(st: StateS, es: Seq<ExprS>, fuel: nat)
    ensures
        eval_list_s(st, es, fuel).0 matches Ok(vs) ==> vs.len() == es.len(),
    decreases es.len(),
{
    if es.len() > 0 {
        lemma_eval_list_s_len(st, es.subrange(0, es.len() - 1), fuel);
    }
}

/// If the first `i` elements evaluate without failure and element `i` fails,
/// the whole list evaluation fails with that failure, in that state.
pub proof fn lemma_eval_list_s_err(st: StateS, es: Seq<ExprS>, fuel: nat, i: int)
    requires
        0 <= i < es.len(),
        eval_list_s(st, es.subrange(0, i), fuel).0 is Ok,
        eval_s(eval_list_s(st, es.subrange(0, i), fuel).1, es[i], fuel).0 is Err,
    ensures
        eval_list_s(st, es, fuel).0 == as_list_err(
            eval_s(eval_list_s(st, es.subrange(0, i), fuel).1, es[i], fuel).0,
        ),
        eval_list_s(st, es, fuel).1 == eval_s(
            eval_list_s(st, es.subrange(0, i), fuel).1,
            es[i],
            fuel,
        ).1,
    decreases es.len(),
{
    if i == es.len() - 1 {
        assert(es.subrange(0, es.len() - 1) == es.subrange(0, i));
        assert(es.last() == es[i]);
    } else {
        let es0 = es.subrange(0, es.len() - 1);
        assert(es0.subrange(0, i) =~= es.subrange(0, i));
        assert(es0[i] == es[i]);
        lemma_eval_list_s_err(st, es0, fuel, i);
    }
}

/// Application of a user function: the arity check precedes argument
/// evaluation; the body runs against the caller's environment extended with
/// the parameter bindings, and the caller's environment is unchanged by the
/// call, while the future store carries over.
pub open spec fn apply_user_s(
    st: StateS,
    params: Seq<Seq<char>>,
    body: ExprS,
    args: Seq<ExprS>,
    fuel: nat,
) -> (Result<ValueS, ErrorS>, StateS)
    decreases fuel, exprs_size(args), 1int,
{
    if params.len() != args.len() {
        (Err(ErrorS::ArityMismatch), st)
    } else if fuel == 0 {
        (Err(ErrorS::DepthLimit), st)
    } else {
        let (ra, st1) = eval_list_s(st, args, fuel);
        match ra {
            Err(e1) => (Err(e1), st1),
            Ok(vals) => {
                let (rb, st2) = eval_s(
                    StateS { env: bind_params(st1.env, params, vals), futures: st1.futures },
                    body,
                    (fuel - 1) as nat,
                );
                (rb, StateS { env: st1.env, futures: st2.futures })
            },
        }
    }
}

/// The builtin `+`: exactly two arguments, evaluated left to right, then
/// wrapped 64-bit integer addition.
pub open spec fn builtin_add_s(st: StateS, args: Seq<ExprS>, fuel: nat) -> (
    Result<ValueS, ErrorS>,
    StateS,
)
    decreases fuel, exprs_size(args), 1int,
{
    if args.len() != 2 {
        (Err(ErrorS::ArityMismatch), st)
    } else {
        let (ra, st1) = eval_list_s(st, args, fuel);
        match ra {
            Err(e1) => (Err(e1), st1),
            Ok(vals) => (add_values(vals[0], vals[1]), st1),
        }
    }
}

/// The builtin `-`: exactly two arguments, evaluated left to right, then
/// wrapped 64-bit integer subtraction.
pub open spec fn builtin_sub_s(st: StateS, args: Seq<ExprS>, fuel: nat) -> (
    Result<ValueS, ErrorS>,
    StateS,
)
    decreases fuel, exprs_size(args), 1int,
{
    if args.len() != 2 {
        (Err(ErrorS::ArityMismatch), st)
    } else {
        let (ra, st1) = eval_list_s(st, args, fuel);
        match ra {
            Err(e1) => (Err(e1), st1),
            Ok(vals) => (sub_values(vals[0], vals[1]), st1),
        }
    }
}

/// The builtin `=`: exactly two arguments, evaluated left to right, then
/// structural equality; futures never compare equal.
pub open spec fn builtin_eq_s(st: StateS, args: Seq<ExprS>, fuel: nat) -> (
    Result<ValueS, ErrorS>,
    StateS,
)
    decreases fuel, exprs_size(args), 1int,
{
    if args.len() != 2 {
        (Err(ErrorS::ArityMismatch), st)
    } else {
        let (ra, st1) = eval_list_s(st, args, fuel);
        match ra {
            Err(e1) => (Err(e1), st1),
            Ok(vals) => (Ok(ValueS::Bool(value_eq_s(vals[0], vals[1]))), st1),
        }
    }
}

/// The builtin `if`: exactly three arguments, checked before any of them is
/// evaluated; the condition is evaluated, then only the selected branch.
pub open spec fn builtin_if_s(st: StateS, args: Seq<ExprS>, fuel: nat) -> (
    Result<ValueS, ErrorS>,
    StateS,
)
    decreases fuel, exprs_size(args), 1int,
    via builtin_if_s_decreases
{
    if args.len() != 3 {
        (Err(ErrorS::ArityMismatch), st)
    } else {
        let (rc, st1) = eval_s(st, args[0], fuel);
        match rc {
            Err(e1) => (Err(e1), st1),
            Ok(ValueS::Bool(true)) => eval_s(st1, args[1], fuel),
            Ok(ValueS::Bool(false)) => eval_s(st1, args[2], fuel),
            Ok(_) => (Err(ErrorS::TypeError("if condition must be a boolean"@)), st1),
        }
    }
}

#[via_fn]
proof fn builtin_if_s_decreases(st: StateS, args: Seq<ExprS>, fuel: nat) {
    if args.len() == 3 {
        lemma_exprs_size_elem(args, 0);
        lemma_exprs_size_elem(args, 1);
        lemma_exprs_size_elem(args, 2);
    }
}

/// The builtin `cons`: exactly two arguments, evaluated left to right.
pub open spec fn builtin_cons_s(st: StateS, args: Seq<ExprS>, fuel: nat) -> (
    Result<ValueS, ErrorS>,
    StateS,
)
    decreases fuel, exprs_size(args), 1int,
{
    if args.len() != 2 {
        (Err(ErrorS::ArityMismatch), st)
    } else {
        let (ra, st1) = eval_list_s(st, args, fuel);
        match ra {
            Err(e1) => (Err(e1), st1),
            Ok(vals) => (cons_values(vals[0], vals[1]), st1),
        }
    }
}

/// The builtin `head`: exactly one argument.
pub open spec fn builtin_head_s(st: StateS, args: Seq<ExprS>, fuel: nat) -> (
    Result<ValueS, ErrorS>,
    StateS,
)
    decreases fuel, exprs_size(args), 1int,
{
    if args.len() != 1 {
        (Err(ErrorS::ArityMismatch), st)
    } else {
        let (ra, st1) = eval_list_s(st, args, fuel);
        match ra {
            Err(e1) => (Err(e1), st1),
            Ok(vals) => (head_value(vals[0]), st1),
        }
    }
}

/// The builtin `tail`: exactly one argument.
pub open spec fn builtin_tail_s(st: StateS, args: Seq<ExprS>, fuel: nat) -> (
    Result<ValueS, ErrorS>,
    StateS,
)
    decreases fuel, exprs_size(args), 1int,
{
    if args.len() != 1 {
        (Err(ErrorS::ArityMismatch), st)
    } else {
        let (ra, st1) = eval_list_s(st, args, fuel);
        match ra {
            Err(e1) => (Err(e1), st1),
            Ok(vals) => (tail_value(vals[0]), st1),
        }
    }
}

} // verus!

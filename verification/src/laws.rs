//! The laws of the language, stated over the mathematical evaluator and
//! proved once and for all: every interpreter run is bound to them through
//! `Interpreter::eval`'s contract.
use vstd::prelude::*;

use crate::ast::{ErrorS, ExprS, ValueS};
use crate::equality::value_eq_s;
use crate::semantics::{
    CellS, StateS, apply_user_s, builtin_add_s, builtin_cons_s, builtin_eq_s, builtin_head_s,
    builtin_if_s, builtin_sub_s, builtin_tail_s, eval_list_s, eval_s, is_builtin_name,
};

verus! {

proof fn lemma_eval_literal_list1(st: StateS, x: ValueS, fuel: nat)
    ensures
        eval_list_s(st, seq![ExprS::Literal(x)], fuel) == (
            Ok::<Seq<ValueS>, ErrorS>(seq![x]),
            st,
        ),
{
    let args = seq![ExprS::Literal(x)];
    assert(args.subrange(0, 0) =~= Seq::<ExprS>::empty());
    assert(eval_list_s(st, Seq::<ExprS>::empty(), fuel) == (
        Ok::<Seq<ValueS>, ErrorS>(Seq::empty()),
        st,
    ));
    assert(eval_s(st, ExprS::Literal(x), fuel) == (Ok::<ValueS, ErrorS>(x), st));
    assert(args.last() == ExprS::Literal(x));
    assert(Seq::<ValueS>::empty().push(x) =~= seq![x]);
}

proof fn lemma_eval_literal_list2(st: StateS, x: ValueS, y: ValueS, fuel: nat)
    ensures
        eval_list_s(st, seq![ExprS::Literal(x), ExprS::Literal(y)], fuel) == (
            Ok::<Seq<ValueS>, ErrorS>(seq![x, y]),
            st,
        ),
{
    let args = seq![ExprS::Literal(x), ExprS::Literal(y)];
    let a1 = args.subrange(0, 1);
    assert(a1.subrange(0, 0) =~= Seq::<ExprS>::empty());
    assert(eval_list_s(st, Seq::<ExprS>::empty(), fuel) == (
        Ok::<Seq<ValueS>, ErrorS>(Seq::empty()),
        st,
    ));
    assert(eval_s(st, ExprS::Literal(x), fuel) == (Ok::<ValueS, ErrorS>(x), st));
    assert(eval_s(st, ExprS::Literal(y), fuel) == (Ok::<ValueS, ErrorS>(y), st));
    assert(a1.last() == args[0]);
    assert(Seq::<ValueS>::empty().push(x) =~= seq![x]);
    assert(eval_list_s(st, a1, fuel) == (Ok::<Seq<ValueS>, ErrorS>(seq![x]), st));
    assert(args.last() == args[1]);
    assert(seq![x].push(y) =~= seq![x, y]);
}

/// An application of a function value named `+` to two integer literals.
pub open spec fn add_app(a: int, b: int, params: Seq<Seq<char>>, body: ExprS) -> ExprS {
    ExprS::Application(
        Box::new(ExprS::Literal(ValueS::Function("+"@, params, Box::new(body)))),
        seq![ExprS::Literal(ValueS::Int(a)), ExprS::Literal(ValueS::Int(b))],
    )
}

/// For all integers `a` and `b` whose sum lies in the 64-bit range,
/// applying `+` to them yields exactly `a + b`, in an unchanged state —
/// whatever environment and future store the evaluation runs against, and
/// whatever the placeholder's parameter list and body say.
pub proof fn lemma_add_of_integers(
    st: StateS,
    a: int,
    b: int,
    params: Seq<Seq<char>>,
    body: ExprS,
    fuel: nat,
)
    requires
        i64::MIN <= a + b <= i64::MAX,
        i64::MIN <= a <= i64::MAX,
        i64::MIN <= b <= i64::MAX,
    ensures
        eval_s(st, add_app(a, b, params, body), fuel) == (
            Ok::<ValueS, ErrorS>(ValueS::Int(a + b)),
            st,
        ),
{
    lemma_eval_literal_list2(st, ValueS::Int(a), ValueS::Int(b), fuel);
    let fv = ValueS::Function("+"@, params, Box::new(body));
    let args = seq![ExprS::Literal(ValueS::Int(a)), ExprS::Literal(ValueS::Int(b))];
    assert(eval_s(st, ExprS::Literal(fv), fuel) == (Ok::<ValueS, ErrorS>(fv), st));
    assert(builtin_add_s(st, args, fuel) == (Ok::<ValueS, ErrorS>(ValueS::Int(a + b)), st));
}

/// An application of a function value named `-` to two integer literals.
pub open spec fn sub_app(a: int, b: int, params: Seq<Seq<char>>, body: ExprS) -> ExprS {
    ExprS::Application(
        Box::new(ExprS::Literal(ValueS::Function("-"@, params, Box::new(body)))),
        seq![ExprS::Literal(ValueS::Int(a)), ExprS::Literal(ValueS::Int(b))],
    )
}

/// For all integers `a` and `b` whose difference lies in the 64-bit range,
/// applying `-` to them yields exactly `a - b`, in an unchanged state.
pub proof fn lemma_sub_of_integers(
    st: StateS,
    a: int,
    b: int,
    params: Seq<Seq<char>>,
    body: ExprS,
    fuel: nat,
)
    requires
        i64::MIN <= a - b <= i64::MAX,
        i64::MIN <= a <= i64::MAX,
        i64::MIN <= b <= i64::MAX,
    ensures
        eval_s(st, sub_app(a, b, params, body), fuel) == (
            Ok::<ValueS, ErrorS>(ValueS::Int(a - b)),
            st,
        ),
{
    reveal_builtin_names();
    lemma_eval_literal_list2(st, ValueS::Int(a), ValueS::Int(b), fuel);
    let fv = ValueS::Function("-"@, params, Box::new(body));
    let args = seq![ExprS::Literal(ValueS::Int(a)), ExprS::Literal(ValueS::Int(b))];
    assert(eval_s(st, ExprS::Literal(fv), fuel) == (Ok::<ValueS, ErrorS>(fv), st));
    assert(builtin_sub_s(st, args, fuel) == (Ok::<ValueS, ErrorS>(ValueS::Int(a - b)), st));
}

/// An application of a function value named `name` to two literals.
pub open spec fn app2(
    name: Seq<char>,
    x: ValueS,
    y: ValueS,
    params: Seq<Seq<char>>,
    body: ExprS,
) -> ExprS {
    ExprS::Application(
        Box::new(ExprS::Literal(ValueS::Function(name, params, Box::new(body)))),
        seq![ExprS::Literal(x), ExprS::Literal(y)],
    )
}

/// An application of a function value named `name` to one literal.
pub open spec fn app1(
    name: Seq<char>,
    x: ValueS,
    params: Seq<Seq<char>>,
    body: ExprS,
) -> ExprS {
    ExprS::Application(
        Box::new(ExprS::Literal(ValueS::Function(name, params, Box::new(body)))),
        seq![ExprS::Literal(x)],
    )
}

proof fn reveal_builtin_names()
    ensures
        "+"@ != "-"@ && "+"@ != "="@ && "+"@ != "if"@ && "+"@ != "cons"@ && "+"@ != "head"@
            && "+"@ != "tail"@,
        "-"@ != "="@ && "-"@ != "if"@ && "-"@ != "cons"@ && "-"@ != "head"@ && "-"@ != "tail"@,
        "="@ != "if"@ && "="@ != "cons"@ && "="@ != "head"@ && "="@ != "tail"@,
        "if"@ != "cons"@ && "if"@ != "head"@ && "if"@ != "tail"@,
        "cons"@ != "head"@ && "cons"@ != "tail"@,
        "head"@ != "tail"@,
{
    reveal_strlit("+");
    reveal_strlit("-");
    reveal_strlit("=");
    reveal_strlit("if");
    reveal_strlit("cons");
    reveal_strlit("head");
    reveal_strlit("tail");
    assert(("+"@).len() == 1 && ("+"@)[0] == '+');
    assert(("-"@).len() == 1 && ("-"@)[0] == '-');
    assert(("="@).len() == 1 && ("="@)[0] == '=');
    assert(("if"@).len() == 2);
    assert(("cons"@).len() == 4 && ("cons"@)[0] == 'c');
    assert(("head"@).len() == 4 && ("head"@)[0] == 'h');
    assert(("tail"@).len() == 4 && ("tail"@)[0] == 't');
}

/// `cons(h, V)` on a vector `V` of length `n` yields a vector of length
/// `n + 1` whose first element is `h` and whose remaining elements equal `V`
/// in order; the state is unchanged.
pub proof fn lemma_cons_prepends(
    st: StateS,
    h: ValueS,
    v: Seq<ValueS>,
    params: Seq<Seq<char>>,
    body: ExprS,
    fuel: nat,
)
    ensures
        eval_s(st, app2("cons"@, h, ValueS::Vector(v), params, body), fuel) == (
            Ok::<ValueS, ErrorS>(ValueS::Vector(seq![h] + v)),
            st,
        ),
        (seq![h] + v).len() == v.len() + 1,
        (seq![h] + v)[0] == h,
        (seq![h] + v).subrange(1, (seq![h] + v).len() as int) == v,
{
    reveal_builtin_names();
    lemma_eval_literal_list2(st, h, ValueS::Vector(v), fuel);
    let fv = ValueS::Function("cons"@, params, Box::new(body));
    let args = seq![ExprS::Literal(h), ExprS::Literal(ValueS::Vector(v))];
    assert(eval_s(st, ExprS::Literal(fv), fuel) == (Ok::<ValueS, ErrorS>(fv), st));
    assert(builtin_cons_s(st, args, fuel) == (
        Ok::<ValueS, ErrorS>(ValueS::Vector(seq![h] + v)),
        st,
    ));
    assert((seq![h] + v).subrange(1, (seq![h] + v).len() as int) =~= v);
}

/// `head(cons(h, V)) == h`, in an unchanged state.
pub proof fn lemma_head_of_cons(
    st: StateS,
    h: ValueS,
    v: Seq<ValueS>,
    params: Seq<Seq<char>>,
    body: ExprS,
    fuel: nat,
)
    ensures
        eval_s(
            st,
            ExprS::Application(
                Box::new(ExprS::Literal(ValueS::Function("head"@, params, Box::new(body)))),
                seq![app2("cons"@, h, ValueS::Vector(v), params, body)],
            ),
            fuel,
        ) == (Ok::<ValueS, ErrorS>(h), st),
{
    reveal_builtin_names();
    lemma_cons_prepends(st, h, v, params, body, fuel);
    let inner = app2("cons"@, h, ValueS::Vector(v), params, body);
    let args = seq![inner];
    let w = ValueS::Vector(seq![h] + v);
    assert(args.subrange(0, 0) =~= Seq::<ExprS>::empty());
    assert(eval_list_s(st, Seq::<ExprS>::empty(), fuel) == (
        Ok::<Seq<ValueS>, ErrorS>(Seq::empty()),
        st,
    ));
    assert(args.last() == inner);
    assert(Seq::<ValueS>::empty().push(w) =~= seq![w]);
    assert(eval_list_s(st, args, fuel) == (Ok::<Seq<ValueS>, ErrorS>(seq![w]), st));
    let fv = ValueS::Function("head"@, params, Box::new(body));
    assert(eval_s(st, ExprS::Literal(fv), fuel) == (Ok::<ValueS, ErrorS>(fv), st));
    assert(builtin_head_s(st, args, fuel) == (Ok::<ValueS, ErrorS>(h), st));
}

/// `tail(cons(h, V)) == V`, in an unchanged state.
pub proof fn lemma_tail_of_cons(
    st: StateS,
    h: ValueS,
    v: Seq<ValueS>,
    params: Seq<Seq<char>>,
    body: ExprS,
    fuel: nat,
)
    ensures
        eval_s(
            st,
            ExprS::Application(
                Box::new(ExprS::Literal(ValueS::Function("tail"@, params, Box::new(body)))),
                seq![app2("cons"@, h, ValueS::Vector(v), params, body)],
            ),
            fuel,
        ) == (Ok::<ValueS, ErrorS>(ValueS::Vector(v)), st),
{
    reveal_builtin_names();
    lemma_cons_prepends(st, h, v, params, body, fuel);
    let inner = app2("cons"@, h, ValueS::Vector(v), params, body);
    let args = seq![inner];
    let w = ValueS::Vector(seq![h] + v);
    assert(args.subrange(0, 0) =~= Seq::<ExprS>::empty());
    assert(eval_list_s(st, Seq::<ExprS>::empty(), fuel) == (
        Ok::<Seq<ValueS>, ErrorS>(Seq::empty()),
        st,
    ));
    assert(args.last() == inner);
    assert(Seq::<ValueS>::empty().push(w) =~= seq![w]);
    assert(eval_list_s(st, args, fuel) == (Ok::<Seq<ValueS>, ErrorS>(seq![w]), st));
    let fv = ValueS::Function("tail"@, params, Box::new(body));
    assert(eval_s(st, ExprS::Literal(fv), fuel) == (Ok::<ValueS, ErrorS>(fv), st));
    assert((seq![h] + v).subrange(1, (seq![h] + v).len() as int) =~= v);
    assert(builtin_tail_s(st, args, fuel) == (
        Ok::<ValueS, ErrorS>(ValueS::Vector(v)),
        st,
    ));
}

/// `head` on an empty vector fails with `EmptyCollection`, in an unchanged
/// state.
pub proof fn lemma_head_of_empty_fails(
    st: StateS,
    params: Seq<Seq<char>>,
    body: ExprS,
    fuel: nat,
)
    ensures
        eval_s(st, app1("head"@, ValueS::Vector(Seq::empty()), params, body), fuel) == (
            Err::<ValueS, ErrorS>(ErrorS::EmptyCollection),
            st,
        ),
{
    reveal_builtin_names();
    lemma_eval_literal_list1(st, ValueS::Vector(Seq::empty()), fuel);
    let fv = ValueS::Function("head"@, params, Box::new(body));
    let args = seq![ExprS::Literal(ValueS::Vector(Seq::<ValueS>::empty()))];
    assert(eval_s(st, ExprS::Literal(fv), fuel) == (Ok::<ValueS, ErrorS>(fv), st));
    assert(builtin_head_s(st, args, fuel) == (
        Err::<ValueS, ErrorS>(ErrorS::EmptyCollection),
        st,
    ));
}

/// `tail` on an empty vector fails with `EmptyCollection`, in an unchanged
/// state.
pub proof fn lemma_tail_of_empty_fails(
    st: StateS,
    params: Seq<Seq<char>>,
    body: ExprS,
    fuel: nat,
)
    ensures
        eval_s(st, app1("tail"@, ValueS::Vector(Seq::empty()), params, body), fuel) == (
            Err::<ValueS, ErrorS>(ErrorS::EmptyCollection),
            st,
        ),
{
    reveal_builtin_names();
    lemma_eval_literal_list1(st, ValueS::Vector(Seq::empty()), fuel);
    let fv = ValueS::Function("tail"@, params, Box::new(body));
    let args = seq![ExprS::Literal(ValueS::Vector(Seq::<ValueS>::empty()))];
    assert(eval_s(st, ExprS::Literal(fv), fuel) == (Ok::<ValueS, ErrorS>(fv), st));
    assert(builtin_tail_s(st, args, fuel) == (
        Err::<ValueS, ErrorS>(ErrorS::EmptyCollection),
        st,
    ));
}

/// Applying a user function whose parameter count differs from the argument
/// count fails with `ArityMismatch`, for any mismatch, before any argument
/// is evaluated: the state is unchanged.
pub proof fn lemma_user_arity_mismatch(
    st: StateS,
    name: Seq<char>,
    params: Seq<Seq<char>>,
    body: ExprS,
    args: Seq<ExprS>,
    fuel: nat,
)
    requires
        !is_builtin_name(name),
        params.len() != args.len(),
    ensures
        eval_s(
            st,
            ExprS::Application(
                Box::new(ExprS::Literal(ValueS::Function(name, params, Box::new(body)))),
                args,
            ),
            fuel,
        ) == (Err::<ValueS, ErrorS>(ErrorS::ArityMismatch), st),
{
    let fv = ValueS::Function(name, params, Box::new(body));
    assert(eval_s(st, ExprS::Literal(fv), fuel) == (Ok::<ValueS, ErrorS>(fv), st));
    assert(apply_user_s(st, params, body, args, fuel) == (
        Err::<ValueS, ErrorS>(ErrorS::ArityMismatch),
        st,
    ));
}

/// Applying the builtin `if` to anything but exactly three arguments fails
/// with `ArityMismatch`, before any argument is evaluated: the state is
/// unchanged.
pub proof fn lemma_builtin_if_arity_mismatch(
    st: StateS,
    params: Seq<Seq<char>>,
    body: ExprS,
    args: Seq<ExprS>,
    fuel: nat,
)
    requires
        args.len() != 3,
    ensures
        eval_s(
            st,
            ExprS::Application(
                Box::new(ExprS::Literal(ValueS::Function("if"@, params, Box::new(body)))),
                args,
            ),
            fuel,
        ) == (Err::<ValueS, ErrorS>(ErrorS::ArityMismatch), st),
{
    reveal_builtin_names();
    let fv = ValueS::Function("if"@, params, Box::new(body));
    assert(eval_s(st, ExprS::Literal(fv), fuel) == (Ok::<ValueS, ErrorS>(fv), st));
    assert(builtin_if_s(st, args, fuel) == (
        Err::<ValueS, ErrorS>(ErrorS::ArityMismatch),
        st,
    ));
}

/// Two futures never compare equal under the language's structural
/// equality, whatever cells they refer to and whatever those cells hold.
pub proof fn lemma_futures_never_equal(i: int, j: int)
    ensures
        !value_eq_s(ValueS::Future(i), ValueS::Future(j)),
{
}

/// Applying `=` to two future literals yields `Boolean(false)`, even when
/// the two handles are the same, in an unchanged state.
pub proof fn lemma_eq_of_futures(
    st: StateS,
    i: int,
    j: int,
    params: Seq<Seq<char>>,
    body: ExprS,
    fuel: nat,
)
    ensures
        eval_s(st, app2("="@, ValueS::Future(i), ValueS::Future(j), params, body), fuel) == (
            Ok::<ValueS, ErrorS>(ValueS::Bool(false)),
            st,
        ),
{
    reveal_builtin_names();
    lemma_eval_literal_list2(st, ValueS::Future(i), ValueS::Future(j), fuel);
    let fv = ValueS::Function("="@, params, Box::new(body));
    let args = seq![ExprS::Literal(ValueS::Future(i)), ExprS::Literal(ValueS::Future(j))];
    assert(eval_s(st, ExprS::Literal(fv), fuel) == (Ok::<ValueS, ErrorS>(fv), st));
    assert(!value_eq_s(ValueS::Future(i), ValueS::Future(j)));
    assert(builtin_eq_s(st, args, fuel) == (
        Ok::<ValueS, ErrorS>(ValueS::Bool(false)),
        st,
    ));
}

/// `Sync(Spawn(e))` has exactly the outcome of evaluating `e` itself
/// against the same state — the spawned evaluation runs against a snapshot
/// of the same environment, its outcome (success or failure alike) is
/// stored in a fresh cell, and the `Sync` drains that cell. The surrounding
/// environment is unchanged by the round trip.
pub proof fn lemma_sync_of_spawn(st: StateS, e: ExprS, fuel: nat)
    ensures
        eval_s(st, ExprS::Sync(Box::new(ExprS::Spawn(Box::new(e)))), fuel).0 == eval_s(
            st,
            e,
            fuel,
        ).0,
        eval_s(st, ExprS::Sync(Box::new(ExprS::Spawn(Box::new(e)))), fuel).1.env == st.env,
{
    let (r, stc) = eval_s(st, e, fuel);
    let cells = stc.futures.push(CellS::Ready(r));
    let st1 = StateS { env: st.env, futures: cells };
    let id = stc.futures.len() as int;
    assert(eval_s(st, ExprS::Spawn(Box::new(e)), fuel) == (
        Ok::<ValueS, ErrorS>(ValueS::Future(id)),
        st1,
    ));
    assert(cells[id] == CellS::Ready(r));
    assert(eval_s(st, ExprS::Sync(Box::new(ExprS::Spawn(Box::new(e)))), fuel) == (
        r,
        StateS { env: st.env, futures: cells.update(id, CellS::Consumed) },
    ));
}

/// A `Sync` of a future whose cell has already been drained fails with
/// `FutureAlreadyConsumed` — it neither blocks nor yields stale data — and
/// leaves the state unchanged.
pub proof fn lemma_sync_after_consumed(st: StateS, id: int, fuel: nat)
    requires
        0 <= id < st.futures.len(),
        st.futures[id] is Consumed,
    ensures
        eval_s(st, ExprS::Sync(Box::new(ExprS::Literal(ValueS::Future(id)))), fuel) == (
            Err::<ValueS, ErrorS>(ErrorS::FutureAlreadyConsumed),
            st,
        ),
{
    assert(eval_s(st, ExprS::Literal(ValueS::Future(id)), fuel) == (
        Ok::<ValueS, ErrorS>(ValueS::Future(id)),
        st,
    ));
}

} // verus!

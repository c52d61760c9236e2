use minilang::ast::{Error, Expr, Value};
use minilang::equality::value_eq;
use minilang::interp::Interpreter;

const FUEL: u64 = 100;

fn int_lit(n: i64) -> Expr {
    Expr::Literal(Value::Int(n))
}

fn bool_lit(b: bool) -> Expr {
    Expr::Literal(Value::Bool(b))
}

fn var(name: &str) -> Expr {
    Expr::Variable(name.to_string())
}

fn app(f: Expr, args: Vec<Expr>) -> Expr {
    Expr::Application(Box::new(f), args)
}

fn vector_lit(items: Vec<i64>) -> Expr {
    Expr::Literal(Value::Vector(items.into_iter().map(Value::Int).collect()))
}

fn expect_int(r: Result<Value, Error>) -> i64 {
    match r {
        Ok(Value::Int(n)) => n,
        other => panic!("expected an integer result, got {:?}", result_tag(&other)),
    }
}

fn expect_bool(r: Result<Value, Error>) -> bool {
    match r {
        Ok(Value::Bool(b)) => b,
        other => panic!("expected a boolean result, got {:?}", result_tag(&other)),
    }
}

fn result_tag(r: &Result<Value, Error>) -> &'static str {
    match r {
        Ok(Value::Int(_)) => "Int",
        Ok(Value::Bool(_)) => "Bool",
        Ok(Value::Vector(_)) => "Vector",
        Ok(Value::Function(_, _, _)) => "Function",
        Ok(Value::Future(_)) => "Future",
        Err(Error::UndefinedVariable(_)) => "UndefinedVariable",
        Err(Error::NotCallable) => "NotCallable",
        Err(Error::ArityMismatch) => "ArityMismatch",
        Err(Error::TypeError(_)) => "TypeError",
        Err(Error::EmptyCollection) => "EmptyCollection",
        Err(Error::FutureAlreadyConsumed) => "FutureAlreadyConsumed",
        Err(Error::DepthLimit) => "DepthLimit",
    }
}

#[test]
fn add_yields_sum() {
    let mut interp = Interpreter::new();
    let r = interp.eval(&app(var("+"), vec![int_lit(2), int_lit(3)]), FUEL);
    assert_eq!(expect_int(r), 5);
}

#[test]
fn add_negative_operands() {
    let mut interp = Interpreter::new();
    let r = interp.eval(&app(var("+"), vec![int_lit(-7), int_lit(3)]), FUEL);
    assert_eq!(expect_int(r), -4);
}

#[test]
fn add_wraps_at_i64_range() {
    let mut interp = Interpreter::new();
    let r = interp.eval(&app(var("+"), vec![int_lit(i64::MAX), int_lit(1)]), FUEL);
    assert_eq!(expect_int(r), i64::MIN);
}

#[test]
fn sub_yields_difference() {
    let mut interp = Interpreter::new();
    let r = interp.eval(&app(var("-"), vec![int_lit(10), int_lit(4)]), FUEL);
    assert_eq!(expect_int(r), 6);
}

#[test]
fn add_rejects_non_integer_operand() {
    let mut interp = Interpreter::new();
    let r = interp.eval(&app(var("+"), vec![bool_lit(true), int_lit(1)]), FUEL);
    assert!(matches!(r, Err(Error::TypeError(_))));
}

#[test]
fn add_wrong_argument_count_is_arity_mismatch() {
    let mut interp = Interpreter::new();
    let r = interp.eval(&app(var("+"), vec![int_lit(1)]), FUEL);
    assert!(matches!(r, Err(Error::ArityMismatch)));
}

#[test]
fn cons_prepends_to_vector() {
    let mut interp = Interpreter::new();
    let r = interp.eval(
        &app(var("cons"), vec![int_lit(9), vector_lit(vec![1, 2])]),
        FUEL,
    );
    let expected = Value::Vector(vec![Value::Int(9), Value::Int(1), Value::Int(2)]);
    match r {
        Ok(v) => assert!(value_eq(&v, &expected)),
        Err(_) => panic!("cons failed"),
    }
}

#[test]
fn head_of_cons_is_first_element() {
    let mut interp = Interpreter::new();
    let cons = app(var("cons"), vec![int_lit(9), vector_lit(vec![1, 2])]);
    let r = interp.eval(&app(var("head"), vec![cons]), FUEL);
    assert_eq!(expect_int(r), 9);
}

#[test]
fn tail_of_cons_is_original_vector() {
    let mut interp = Interpreter::new();
    let cons = app(var("cons"), vec![int_lit(9), vector_lit(vec![1, 2])]);
    let r = interp.eval(&app(var("tail"), vec![cons]), FUEL);
    let expected = Value::Vector(vec![Value::Int(1), Value::Int(2)]);
    match r {
        Ok(v) => assert!(value_eq(&v, &expected)),
        Err(_) => panic!("tail failed"),
    }
}

#[test]
fn head_of_empty_vector_fails() {
    let mut interp = Interpreter::new();
    let r = interp.eval(&app(var("head"), vec![vector_lit(vec![])]), FUEL);
    assert!(matches!(r, Err(Error::EmptyCollection)));
}

#[test]
fn tail_of_empty_vector_fails() {
    let mut interp = Interpreter::new();
    let r = interp.eval(&app(var("tail"), vec![vector_lit(vec![])]), FUEL);
    assert!(matches!(r, Err(Error::EmptyCollection)));
}

#[test]
fn cons_rejects_non_vector_tail() {
    let mut interp = Interpreter::new();
    let r = interp.eval(&app(var("cons"), vec![int_lit(1), int_lit(2)]), FUEL);
    assert!(matches!(r, Err(Error::TypeError(_))));
}

#[test]
fn head_rejects_non_vector() {
    let mut interp = Interpreter::new();
    let r = interp.eval(&app(var("head"), vec![int_lit(5)]), FUEL);
    assert!(matches!(r, Err(Error::TypeError(_))));
}

#[test]
fn user_function_arity_mismatch() {
    let mut interp = Interpreter::new();
    // double(x) = +(x, x), applied to two arguments.
    let double = Value::Function(
        "double".to_string(),
        vec!["x".to_string()],
        Box::new(app(var("+"), vec![var("x"), var("x")])),
    );
    interp.define("double".to_string(), double);
    let r = interp.eval(&app(var("double"), vec![int_lit(1), int_lit(2)]), FUEL);
    assert!(matches!(r, Err(Error::ArityMismatch)));
    let r2 = interp.eval(&app(var("double"), vec![]), FUEL);
    assert!(matches!(r2, Err(Error::ArityMismatch)));
}

#[test]
fn user_function_applies() {
    let mut interp = Interpreter::new();
    let double = Value::Function(
        "double".to_string(),
        vec!["x".to_string()],
        Box::new(app(var("+"), vec![var("x"), var("x")])),
    );
    interp.define("double".to_string(), double);
    let r = interp.eval(&app(var("double"), vec![int_lit(21)]), FUEL);
    assert_eq!(expect_int(r), 42);
}

#[test]
fn builtin_if_wrong_argument_count_is_arity_mismatch() {
    let mut interp = Interpreter::new();
    let r = interp.eval(&app(var("if"), vec![bool_lit(true), int_lit(1)]), FUEL);
    assert!(matches!(r, Err(Error::ArityMismatch)));
}

#[test]
fn builtin_if_selects_branch() {
    let mut interp = Interpreter::new();
    let r = interp.eval(
        &app(var("if"), vec![bool_lit(false), int_lit(1), int_lit(2)]),
        FUEL,
    );
    assert_eq!(expect_int(r), 2);
}

#[test]
fn builtin_if_rejects_non_boolean_condition() {
    let mut interp = Interpreter::new();
    let r = interp.eval(
        &app(var("if"), vec![int_lit(1), int_lit(1), int_lit(2)]),
        FUEL,
    );
    assert!(matches!(r, Err(Error::TypeError(_))));
}

#[test]
fn if_expression_on_equal_literals() {
    // If(=(1,1), 10, 20) evaluates to 10.
    let mut interp = Interpreter::new();
    let cond = app(var("="), vec![int_lit(1), int_lit(1)]);
    let e = Expr::If(Box::new(cond), Box::new(int_lit(10)), Box::new(int_lit(20)));
    let r = interp.eval(&e, FUEL);
    assert_eq!(expect_int(r), 10);
}

#[test]
fn if_expression_rejects_non_boolean_condition() {
    let mut interp = Interpreter::new();
    let e = Expr::If(Box::new(int_lit(1)), Box::new(int_lit(10)), Box::new(int_lit(20)));
    let r = interp.eval(&e, FUEL);
    assert!(matches!(r, Err(Error::TypeError(_))));
}

#[test]
fn let_binds_name_in_body() {
    // Let("x", 5, +(x, x)) evaluates to 10.
    let mut interp = Interpreter::new();
    let e = Expr::Let(
        "x".to_string(),
        Box::new(int_lit(5)),
        Box::new(app(var("+"), vec![var("x"), var("x")])),
    );
    let r = interp.eval(&e, FUEL);
    assert_eq!(expect_int(r), 10);
}

#[test]
fn let_binding_outlives_its_body() {
    // Let mutates the interpreter's environment in place: the binding is
    // still visible to a later evaluation by the same interpreter.
    let mut interp = Interpreter::new();
    let e = Expr::Let("x".to_string(), Box::new(int_lit(5)), Box::new(int_lit(0)));
    let _ = interp.eval(&e, FUEL);
    let r = interp.eval(&var("x"), FUEL);
    assert_eq!(expect_int(r), 5);
}

#[test]
fn undefined_variable_is_reported_with_its_name() {
    let mut interp = Interpreter::new();
    let r = interp.eval(&var("nope"), FUEL);
    match r {
        Err(Error::UndefinedVariable(name)) => assert_eq!(name, "nope"),
        other => panic!("expected UndefinedVariable, got {}", result_tag(&other)),
    }
}

#[test]
fn applying_non_function_fails() {
    let mut interp = Interpreter::new();
    let r = interp.eval(&app(int_lit(3), vec![]), FUEL);
    assert!(matches!(r, Err(Error::NotCallable)));
}

#[test]
fn equality_of_integers() {
    let mut interp = Interpreter::new();
    let r = interp.eval(&app(var("="), vec![int_lit(4), int_lit(4)]), FUEL);
    assert!(expect_bool(r));
    let mut interp2 = Interpreter::new();
    let r2 = interp2.eval(&app(var("="), vec![int_lit(4), int_lit(5)]), FUEL);
    assert!(!expect_bool(r2));
}

#[test]
fn distinct_futures_with_equal_contents_compare_unequal() {
    // Two futures, each populated with Integer(1), are unequal under `=`.
    let mut interp = Interpreter::new();
    let e = Expr::Let(
        "a".to_string(),
        Box::new(Expr::Spawn(Box::new(int_lit(1)))),
        Box::new(Expr::Let(
            "b".to_string(),
            Box::new(Expr::Spawn(Box::new(int_lit(1)))),
            Box::new(app(var("="), vec![var("a"), var("b")])),
        )),
    );
    let r = interp.eval(&e, FUEL);
    assert!(!expect_bool(r));
}

#[test]
fn future_compared_with_itself_is_unequal() {
    let mut interp = Interpreter::new();
    let e = Expr::Let(
        "a".to_string(),
        Box::new(Expr::Spawn(Box::new(int_lit(1)))),
        Box::new(app(var("="), vec![var("a"), var("a")])),
    );
    let r = interp.eval(&e, FUEL);
    assert!(!expect_bool(r));
}

#[test]
fn sync_of_spawn_returns_spawned_value() {
    // Sync(Spawn(Literal(Integer(42)))) evaluates to Integer(42).
    let mut interp = Interpreter::new();
    let e = Expr::Sync(Box::new(Expr::Spawn(Box::new(int_lit(42)))));
    let r = interp.eval(&e, FUEL);
    assert_eq!(expect_int(r), 42);
}

#[test]
fn sync_of_spawn_matches_direct_evaluation() {
    let body = app(var("+"), vec![int_lit(20), int_lit(22)]);
    let mut direct = Interpreter::new();
    let direct_result = expect_int(direct.eval(&body, FUEL));
    let mut roundtrip = Interpreter::new();
    let e = Expr::Sync(Box::new(Expr::Spawn(Box::new(body))));
    let roundtrip_result = expect_int(roundtrip.eval(&e, FUEL));
    assert_eq!(direct_result, roundtrip_result);
    assert_eq!(roundtrip_result, 42);
}

#[test]
fn spawned_failure_surfaces_at_sync() {
    // A failing spawned evaluation is stored and re-surfaced by Sync.
    let mut interp = Interpreter::new();
    let e = Expr::Sync(Box::new(Expr::Spawn(Box::new(var("missing")))));
    let r = interp.eval(&e, FUEL);
    assert!(matches!(r, Err(Error::UndefinedVariable(_))));
}

#[test]
fn second_sync_of_same_future_fails() {
    let mut interp = Interpreter::new();
    let e = Expr::Let(
        "f".to_string(),
        Box::new(Expr::Spawn(Box::new(int_lit(5)))),
        Box::new(Expr::Let(
            "first".to_string(),
            Box::new(Expr::Sync(Box::new(var("f")))),
            Box::new(Expr::Sync(Box::new(var("f")))),
        )),
    );
    let r = interp.eval(&e, FUEL);
    assert!(matches!(r, Err(Error::FutureAlreadyConsumed)));
}

#[test]
fn sync_of_non_future_fails() {
    let mut interp = Interpreter::new();
    let r = interp.eval(&Expr::Sync(Box::new(int_lit(1))), FUEL);
    assert!(matches!(r, Err(Error::TypeError(_))));
}

#[test]
fn spawned_bindings_do_not_leak() {
    // The spawned evaluation runs against a snapshot: its Let bindings are
    // invisible to the spawning context.
    let mut interp = Interpreter::new();
    let child = Expr::Let("z".to_string(), Box::new(int_lit(1)), Box::new(int_lit(2)));
    let e = Expr::Sync(Box::new(Expr::Spawn(Box::new(child))));
    let r = interp.eval(&e, FUEL);
    assert_eq!(expect_int(r), 2);
    let after = interp.eval(&var("z"), FUEL);
    assert!(matches!(after, Err(Error::UndefinedVariable(_))));
}

#[test]
fn free_variables_resolve_against_caller_environment() {
    // Name resolution in a function body is dynamic: the body's free
    // variable is looked up in the caller's environment at call time.
    let mut interp = Interpreter::new();
    let g = Value::Function("g".to_string(), vec![], Box::new(var("y")));
    let e = Expr::Let(
        "y".to_string(),
        Box::new(int_lit(7)),
        Box::new(app(Expr::Literal(g), vec![])),
    );
    let r = interp.eval(&e, FUEL);
    assert_eq!(expect_int(r), 7);
}

#[test]
fn runaway_recursion_exhausts_fuel() {
    let mut interp = Interpreter::new();
    let looping = Value::Function("r".to_string(), vec![], Box::new(app(var("r"), vec![])));
    interp.define("r".to_string(), looping);
    let r = interp.eval(&app(var("r"), vec![]), 16);
    assert!(matches!(r, Err(Error::DepthLimit)));
}

#[test]
fn recursive_function_computes_over_vector() {
    // sum(n, v) = if n == 0 then 0 else head(v) + sum(n - 1, tail(v)).
    let mut interp = Interpreter::new();
    let body = app(
        var("if"),
        vec![
            app(var("="), vec![var("n"), int_lit(0)]),
            int_lit(0),
            app(
                var("+"),
                vec![
                    app(var("head"), vec![var("v")]),
                    app(
                        var("sum"),
                        vec![
                            app(var("-"), vec![var("n"), int_lit(1)]),
                            app(var("tail"), vec![var("v")]),
                        ],
                    ),
                ],
            ),
        ],
    );
    let sum = Value::Function(
        "sum".to_string(),
        vec!["n".to_string(), "v".to_string()],
        Box::new(body),
    );
    interp.define("sum".to_string(), sum);
    let r = interp.eval(
        &app(var("sum"), vec![int_lit(4), vector_lit(vec![1, 2, 3, 4])]),
        FUEL,
    );
    assert_eq!(expect_int(r), 10);
}

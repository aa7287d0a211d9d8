use clay::ast::{Expr, PrefixOp, Stmt};
use clay::errors::{ErrorKind, EvalError};
use clay::evaluator::{eval, eval_expr, eval_statement, join_to_string};
use clay::objects::{Context, Object};
use std::rc::Rc;

const FUEL: u64 = 100_000;

fn ident(n: &str) -> Expr {
    Expr::Identifier { pos: 0, segments: vec![n.to_string()] }
}

fn lit_int(v: i64) -> Expr {
    Expr::IntegerLiteral { pos: 0, value: v }
}

fn array(elements: Vec<Expr>) -> Expr {
    Expr::ArrayLiteral { pos: 0, elements }
}

fn assign(n: &str, e: Expr) -> Stmt {
    Stmt::Assignment { pos: 0, targets: vec![n.to_string()], value: e }
}

fn destructure(names: &[&str], e: Expr) -> Stmt {
    Stmt::Assignment {
        pos: 7,
        targets: names.iter().map(|n| n.to_string()).collect(),
        value: e,
    }
}

fn expr_stmt(e: Expr) -> Stmt {
    Stmt::Expression { pos: 0, expr: e }
}

fn ret(e: Expr) -> Stmt {
    Stmt::Return { pos: 0, value: e }
}

fn fn_lit(params: &[&str], body: Vec<Stmt>) -> Expr {
    Expr::FunctionLiteral {
        pos: 0,
        parameters: Rc::new(params.iter().map(|p| p.to_string()).collect()),
        body: Rc::new(body),
    }
}

fn call(n: &str, args: Vec<Expr>) -> Expr {
    Expr::Call { pos: 0, callee: Box::new(ident(n)), arguments: args }
}

fn prefix(op: PrefixOp, e: Expr) -> Expr {
    Expr::Prefix { pos: 0, op, operand: Rc::new(e) }
}

fn update(n: &str, e: Expr) -> Stmt {
    Stmt::Update { pos: 0, target: ident(n), value: e }
}

fn update_through(n: &str, e: Expr) -> Stmt {
    Stmt::Update { pos: 0, target: prefix(PrefixOp::Deref, ident(n)), value: e }
}

fn err_kind(r: Result<Object, EvalError>) -> ErrorKind {
    match r {
        Err(e) => e.kind,
        Ok(_) => panic!("expected an error"),
    }
}

#[test]
fn it_works() {
    assert_eq!(2 + 2, 4);
}

#[test]
fn program_binds_and_reads() {
    // x = 5; x;
    let program = vec![assign("x", lit_int(5)), expr_stmt(ident("x"))];
    assert!(matches!(eval(&program, FUEL), Ok(Object::Integer(5))));
}

#[test]
fn call_returns_argument() {
    // f = fn(a) { return a; }; f(7);
    let program = vec![
        assign("f", fn_lit(&["a"], vec![ret(ident("a"))])),
        expr_stmt(call("f", vec![lit_int(7)])),
    ];
    assert!(matches!(eval(&program, FUEL), Ok(Object::Integer(7))));
}

#[test]
fn reference_escapes_activation() {
    // f = fn() { x = 1; return &x; }; r = f(); *r;
    let program = vec![
        assign(
            "f",
            fn_lit(&[], vec![
                assign("x", lit_int(1)),
                ret(prefix(PrefixOp::AddressOf, ident("x"))),
            ]),
        ),
        assign("r", call("f", vec![])),
        expr_stmt(prefix(PrefixOp::Deref, ident("r"))),
    ];
    assert!(matches!(eval(&program, FUEL), Ok(Object::Integer(1))));
}

#[test]
fn inner_binding_shadows_without_leaking() {
    // x = 1; f = fn() { x = 2; return x; }; y = f(); x;
    let program = vec![
        assign("x", lit_int(1)),
        assign("f", fn_lit(&[], vec![assign("x", lit_int(2)), ret(ident("x"))])),
        assign("y", call("f", vec![])),
        expr_stmt(ident("x")),
    ];
    assert!(matches!(eval(&program, FUEL), Ok(Object::Integer(1))));
}

#[test]
fn inner_binding_is_seen_inside() {
    // x = 1; f = fn() { x = 2; return x; }; f();
    let program = vec![
        assign("x", lit_int(1)),
        assign("f", fn_lit(&[], vec![assign("x", lit_int(2)), ret(ident("x"))])),
        expr_stmt(call("f", vec![])),
    ];
    assert!(matches!(eval(&program, FUEL), Ok(Object::Integer(2))));
}

#[test]
fn mutate_after_define_reads_back() {
    let mut ctx = Context::new();
    ctx.set(0, "x", Object::Integer(1));
    assert!(ctx.update(0, "x", Object::Integer(2)));
    assert!(matches!(ctx.get(0, "x"), Some(Object::Integer(2))));
}

#[test]
fn mutate_undefined_fails_and_creates_nothing() {
    let mut ctx = Context::new();
    ctx.set(0, "x", Object::Integer(1));
    assert!(!ctx.update(0, "y", Object::Integer(1)));
    assert!(ctx.get(0, "y").is_none());
}

#[test]
fn mutate_undefined_reports_undefined_binding() {
    // y <- 1; with no prior binding of y
    let program = vec![update("y", lit_int(1))];
    assert_eq!(err_kind(eval(&program, FUEL)), ErrorKind::UndefinedBinding);
}

#[test]
fn closure_sees_captured_scope_not_call_site() {
    // x = 1; f = fn() { return x; }; g = fn() { x = 99; return f(); }; g();
    let program = vec![
        assign("x", lit_int(1)),
        assign("f", fn_lit(&[], vec![ret(ident("x"))])),
        assign("g", fn_lit(&[], vec![assign("x", lit_int(99)), ret(call("f", vec![]))])),
        expr_stmt(call("g", vec![])),
    ];
    assert!(matches!(eval(&program, FUEL), Ok(Object::Integer(1))));
}

#[test]
fn closure_sees_later_mutation_of_captured_scope() {
    // x = 1; f = fn() { return x; }; x <- 2; f();
    let program = vec![
        assign("x", lit_int(1)),
        assign("f", fn_lit(&[], vec![ret(ident("x"))])),
        update("x", lit_int(2)),
        expr_stmt(call("f", vec![])),
    ];
    assert!(matches!(eval(&program, FUEL), Ok(Object::Integer(2))));
}

#[test]
fn destructuring_binds_positionally() {
    // a, b = [1, 2]; a; then b;
    let program = vec![
        destructure(&["a", "b"], array(vec![lit_int(1), lit_int(2)])),
        expr_stmt(ident("a")),
    ];
    assert!(matches!(eval(&program, FUEL), Ok(Object::Integer(1))));
    let program = vec![
        destructure(&["a", "b"], array(vec![lit_int(1), lit_int(2)])),
        expr_stmt(ident("b")),
    ];
    assert!(matches!(eval(&program, FUEL), Ok(Object::Integer(2))));
}

#[test]
fn destructuring_non_array_is_type_mismatch() {
    let program = vec![destructure(&["a", "b"], lit_int(5))];
    let e = match eval(&program, FUEL) {
        Err(e) => e,
        Ok(_) => panic!("expected an error"),
    };
    assert_eq!(e.kind, ErrorKind::TypeMismatch);
    assert_eq!(e.pos, 7);
}

#[test]
fn destructuring_short_array_is_type_mismatch() {
    let program = vec![destructure(&["a", "b"], array(vec![lit_int(1)]))];
    assert_eq!(err_kind(eval(&program, FUEL)), ErrorKind::TypeMismatch);
}

#[test]
fn destructuring_longer_array_is_allowed() {
    let program = vec![
        destructure(&["a", "b"], array(vec![lit_int(1), lit_int(2), lit_int(3)])),
        expr_stmt(ident("b")),
    ];
    assert!(matches!(eval(&program, FUEL), Ok(Object::Integer(2))));
}

#[test]
fn return_stops_the_block() {
    // x = 0; f = fn() { return 1; x <- 2; }; y = f(); x is still 0, y is 1.
    let program = vec![
        assign("x", lit_int(0)),
        assign("f", fn_lit(&[], vec![ret(lit_int(1)), update("x", lit_int(2))])),
        assign("y", call("f", vec![])),
        expr_stmt(ident("x")),
    ];
    assert!(matches!(eval(&program, FUEL), Ok(Object::Integer(0))));
    let program = vec![
        assign("x", lit_int(0)),
        assign("f", fn_lit(&[], vec![ret(lit_int(1)), update("x", lit_int(2))])),
        assign("y", call("f", vec![])),
        expr_stmt(ident("y")),
    ];
    assert!(matches!(eval(&program, FUEL), Ok(Object::Integer(1))));
}

#[test]
fn body_without_return_gives_null() {
    let program = vec![
        assign("f", fn_lit(&[], vec![assign("x", lit_int(1))])),
        expr_stmt(call("f", vec![])),
    ];
    assert!(matches!(eval(&program, FUEL), Ok(Object::Null)));
}

#[test]
fn dereference_yields_snapshot_not_current_value() {
    // x = 1; r = &x; x <- 2; *r; — the snapshot, not the new value
    let program = vec![
        assign("x", lit_int(1)),
        assign("r", prefix(PrefixOp::AddressOf, ident("x"))),
        update("x", lit_int(2)),
        expr_stmt(prefix(PrefixOp::Deref, ident("r"))),
    ];
    assert!(matches!(eval(&program, FUEL), Ok(Object::Integer(1))));
}

#[test]
fn write_through_reference_mutates_referent() {
    // x = 1; r = &x; *r <- 5; x;
    let program = vec![
        assign("x", lit_int(1)),
        assign("r", prefix(PrefixOp::AddressOf, ident("x"))),
        update_through("r", lit_int(5)),
        expr_stmt(ident("x")),
    ];
    assert!(matches!(eval(&program, FUEL), Ok(Object::Integer(5))));
}

#[test]
fn write_through_reference_keeps_read_snapshot_stale() {
    // x = 1; r = &x; *r <- 5; *r; — the read path still gives the snapshot
    let program = vec![
        assign("x", lit_int(1)),
        assign("r", prefix(PrefixOp::AddressOf, ident("x"))),
        update_through("r", lit_int(5)),
        expr_stmt(prefix(PrefixOp::Deref, ident("r"))),
    ];
    assert!(matches!(eval(&program, FUEL), Ok(Object::Integer(1))));
}

#[test]
fn negation_coerces_non_boolean_to_false() {
    let program = vec![expr_stmt(prefix(PrefixOp::Not, lit_int(5)))];
    assert!(matches!(eval(&program, FUEL), Ok(Object::Boolean(false))));
}

#[test]
fn negation_flips_booleans() {
    let program = vec![expr_stmt(prefix(
        PrefixOp::Not,
        Expr::BooleanLiteral { pos: 0, value: true },
    ))];
    assert!(matches!(eval(&program, FUEL), Ok(Object::Boolean(false))));
    let program = vec![expr_stmt(prefix(
        PrefixOp::Not,
        Expr::BooleanLiteral { pos: 0, value: false },
    ))];
    assert!(matches!(eval(&program, FUEL), Ok(Object::Boolean(true))));
}

#[test]
fn arithmetic_negation_of_integer() {
    let program = vec![expr_stmt(prefix(PrefixOp::Neg, lit_int(41)))];
    assert!(matches!(eval(&program, FUEL), Ok(Object::Integer(-41))));
}

#[test]
fn arithmetic_negation_wraps_at_minimum() {
    let program = vec![expr_stmt(prefix(PrefixOp::Neg, lit_int(i64::MIN)))];
    assert!(matches!(eval(&program, FUEL), Ok(Object::Integer(i64::MIN))));
}

#[test]
fn arithmetic_negation_of_boolean_is_type_mismatch() {
    let program = vec![expr_stmt(prefix(
        PrefixOp::Neg,
        Expr::BooleanLiteral { pos: 0, value: true },
    ))];
    assert_eq!(err_kind(eval(&program, FUEL)), ErrorKind::TypeMismatch);
}

#[test]
fn undefined_identifier_is_reported_with_position() {
    let program = vec![expr_stmt(Expr::Identifier {
        pos: 42,
        segments: vec!["nope".to_string()],
    })];
    let e = match eval(&program, FUEL) {
        Err(e) => e,
        Ok(_) => panic!("expected an error"),
    };
    assert_eq!(e.kind, ErrorKind::UndefinedIdentifier);
    assert_eq!(e.pos, 42);
}

#[test]
fn calling_a_non_function_is_not_callable() {
    let program = vec![assign("x", lit_int(5)), expr_stmt(call("x", vec![]))];
    assert_eq!(err_kind(eval(&program, FUEL)), ErrorKind::NotCallable);
}

#[test]
fn calling_a_non_identifier_is_not_callable() {
    let program = vec![expr_stmt(Expr::Call {
        pos: 0,
        callee: Box::new(lit_int(5)),
        arguments: vec![],
    })];
    assert_eq!(err_kind(eval(&program, FUEL)), ErrorKind::NotCallable);
}

#[test]
fn wrong_arity_is_type_mismatch() {
    let program = vec![
        assign("f", fn_lit(&[], vec![ret(lit_int(1))])),
        expr_stmt(call("f", vec![lit_int(1)])),
    ];
    assert_eq!(err_kind(eval(&program, FUEL)), ErrorKind::TypeMismatch);
}

#[test]
fn dereferencing_a_non_reference_fails() {
    let program = vec![
        assign("x", lit_int(5)),
        expr_stmt(prefix(PrefixOp::Deref, ident("x"))),
    ];
    assert_eq!(err_kind(eval(&program, FUEL)), ErrorKind::NotAReference);
}

#[test]
fn unimplemented_statement_is_unsupported() {
    let program = vec![Stmt::Unsupported { pos: 3 }];
    let e = match eval(&program, FUEL) {
        Err(e) => e,
        Ok(_) => panic!("expected an error"),
    };
    assert_eq!(e.kind, ErrorKind::UnsupportedConstruct);
    assert_eq!(e.pos, 3);
}

#[test]
fn unimplemented_expression_is_unsupported() {
    let program = vec![expr_stmt(Expr::Unsupported { pos: 9 })];
    assert_eq!(err_kind(eval(&program, FUEL)), ErrorKind::UnsupportedConstruct);
}

#[test]
fn runaway_recursion_hits_the_depth_limit() {
    // f = fn() { return f(); }; f(); — f sees itself through the shared
    // captured environment, so this recurses until the budget runs out.
    let program = vec![
        assign("f", fn_lit(&[], vec![ret(call("f", vec![]))])),
        expr_stmt(call("f", vec![])),
    ];
    assert_eq!(err_kind(eval(&program, 500)), ErrorKind::DepthLimit);
}

#[test]
fn literals_evaluate_to_their_values() {
    let program = vec![expr_stmt(Expr::StringLiteral {
        pos: 0,
        value: "hi".to_string(),
    })];
    match eval(&program, FUEL) {
        Ok(Object::String(s)) => assert_eq!(s, "hi"),
        _ => panic!("expected a string"),
    }
    let program = vec![expr_stmt(Expr::UnderscoreLiteral { pos: 0 })];
    assert!(matches!(eval(&program, FUEL), Ok(Object::Underscore)));
    let bits = 2.5f64.to_bits();
    let program = vec![expr_stmt(Expr::FloatLiteral { pos: 0, bits })];
    match eval(&program, FUEL) {
        Ok(Object::Float(b)) => assert_eq!(f64::from_bits(b), 2.5),
        _ => panic!("expected a float"),
    }
}

#[test]
fn array_literal_evaluates_elements_in_order() {
    let program = vec![
        assign("x", lit_int(1)),
        expr_stmt(array(vec![ident("x"), lit_int(2)])),
    ];
    match eval(&program, FUEL) {
        Ok(Object::Array(elems)) => {
            assert_eq!(elems.len(), 2);
            assert!(matches!(elems[0], Object::Integer(1)));
            assert!(matches!(elems[1], Object::Integer(2)));
        },
        _ => panic!("expected an array"),
    }
}

#[test]
fn empty_program_evaluates_to_null() {
    let program: Vec<Stmt> = vec![];
    assert!(matches!(eval(&program, FUEL), Ok(Object::Null)));
}

#[test]
fn top_level_continues_after_return_signal() {
    // the top level is not a block: a bare block with a return does not stop
    // the statements after it.
    let program = vec![
        Stmt::Block { pos: 0, statements: vec![ret(lit_int(1))] },
        expr_stmt(lit_int(2)),
    ];
    assert!(matches!(eval(&program, FUEL), Ok(Object::Integer(2))));
}

#[test]
fn block_runs_in_enclosing_environment() {
    // { x = 1; } x; — blocks introduce no scope of their own.
    let program = vec![
        Stmt::Block { pos: 0, statements: vec![assign("x", lit_int(1))] },
        expr_stmt(ident("x")),
    ];
    assert!(matches!(eval(&program, FUEL), Ok(Object::Integer(1))));
}

#[test]
fn multi_segment_identifiers_are_flattened() {
    // a binding of "ab" answers the two-segment identifier a.b
    let program = vec![
        assign("ab", lit_int(4)),
        expr_stmt(Expr::Identifier {
            pos: 0,
            segments: vec!["a".to_string(), "b".to_string()],
        }),
    ];
    assert!(matches!(eval(&program, FUEL), Ok(Object::Integer(4))));
}

#[test]
fn join_to_string_concatenates_segments() {
    let segs = vec!["foo".to_string(), "bar".to_string()];
    assert_eq!(join_to_string(&segs), "foobar");
    let empty: Vec<String> = vec![];
    assert_eq!(join_to_string(&empty), "");
}

#[test]
fn statement_and_expression_entry_points() {
    let mut ctx = Context::new();
    let r = eval_statement(&assign("x", lit_int(3)), &mut ctx, 0, FUEL);
    assert!(matches!(r, Ok(Object::Null)));
    let r = eval_expr(&ident("x"), &mut ctx, 0, FUEL);
    assert!(matches!(r, Ok(Object::Integer(3))));
}

#[test]
fn depth_limit_reports_budget_exhaustion() {
    let program = vec![expr_stmt(lit_int(1))];
    assert_eq!(err_kind(eval(&program, 0)), ErrorKind::DepthLimit);
}

#[test]
fn lookup_walks_outward_and_innermost_wins() {
    let mut ctx = Context::new();
    ctx.set(0, "x", Object::Integer(1));
    ctx.set(0, "y", Object::Integer(9));
    let inner = ctx.push_env(Some(0));
    ctx.set(inner, "x", Object::Integer(2));
    assert!(matches!(ctx.get(inner, "x"), Some(Object::Integer(2))));
    assert!(matches!(ctx.get(inner, "y"), Some(Object::Integer(9))));
    assert!(matches!(ctx.get(0, "x"), Some(Object::Integer(1))));
    assert!(ctx.get(inner, "z").is_none());
}

#[test]
fn mutate_stops_at_first_match_in_chain() {
    // the root binding must survive a mutation that hits an inner one
    let mut ctx = Context::new();
    ctx.set(0, "x", Object::Integer(1));
    let inner = ctx.push_env(Some(0));
    ctx.set(inner, "x", Object::Integer(2));
    assert!(ctx.update(inner, "x", Object::Integer(3)));
    assert!(matches!(ctx.get(inner, "x"), Some(Object::Integer(3))));
    assert!(matches!(ctx.get(0, "x"), Some(Object::Integer(1))));
}

#[test]
fn mutate_reaches_outer_scope_when_inner_lacks_the_name() {
    let mut ctx = Context::new();
    ctx.set(0, "x", Object::Integer(1));
    let inner = ctx.push_env(Some(0));
    assert!(ctx.update(inner, "x", Object::Integer(4)));
    assert!(matches!(ctx.get(0, "x"), Some(Object::Integer(4))));
}

#[test]
fn assignment_without_targets_is_unsupported() {
    let program = vec![Stmt::Assignment { pos: 1, targets: vec![], value: lit_int(5) }];
    assert_eq!(err_kind(eval(&program, FUEL)), ErrorKind::UnsupportedConstruct);
}

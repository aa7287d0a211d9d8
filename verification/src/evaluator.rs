//! The executable evaluator.
//!
//! Each function mirrors one function of [`crate::semantics`] and its
//! contract says exactly that: the environment arena afterwards and the
//! result are the ones the mathematical interpreter gives. Every function
//! takes a step budget (`fuel`) and reports [`ErrorKind::DepthLimit`] when it
//! runs out, so evaluation of any tree terminates.
use crate::ast::{expr_pos, stmt_pos, Expr, PrefixOp, Stmt};
use crate::errors::{ErrorKind, EvalError};
use crate::objects::{
    lemma_objs_view, obj_view, objs_view, rc_clone, Context, EnvModel, Object,
};
use crate::semantics::{
    bind_params, define_names, join_segments, spec_apply, spec_eval_block, spec_eval_expr,
    spec_eval_exprs, spec_eval_program, spec_eval_stmt, spec_update_target,
};
use crate::objects::Obj;
use crate::wrapping_neg_i64;
use std::rc::Rc;
use vstd::prelude::*;
use vstd::string::StringExecFns;

verus! {

/// The model of an evaluation result.
pub open spec fn res_view(r: Result<Object, EvalError>) -> Result<Obj, EvalError> {
    match r {
        Ok(o) => Ok(obj_view(o)),
        Err(e) => Err(e),
    }
}

/// The source position of a statement.
fn stmt_position(s: &Stmt) -> (p: u64)
    ensures
        p == stmt_pos(*s),
{
    match s {
        Stmt::Assignment { pos, .. } => *pos,
        Stmt::Block { pos, .. } => *pos,
        Stmt::Expression { pos, .. } => *pos,
        Stmt::Update { pos, .. } => *pos,
        Stmt::Return { pos, .. } => *pos,
        Stmt::Unsupported { pos } => *pos,
    }
}

/// The source position of an expression.
fn expr_position(e: &Expr) -> (p: u64)
    ensures
        p == expr_pos(*e),
{
    match e {
        Expr::Identifier { pos, .. } => *pos,
        Expr::StringLiteral { pos, .. } => *pos,
        Expr::BooleanLiteral { pos, .. } => *pos,
        Expr::IntegerLiteral { pos, .. } => *pos,
        Expr::FloatLiteral { pos, .. } => *pos,
        Expr::UnderscoreLiteral { pos } => *pos,
        Expr::ArrayLiteral { pos, .. } => *pos,
        Expr::FunctionLiteral { pos, .. } => *pos,
        Expr::Call { pos, .. } => *pos,
        Expr::Prefix { pos, .. } => *pos,
        Expr::Unsupported { pos } => *pos,
    }
}

/// Identifier segments joined into the one literal key the environments use.
pub fn join_to_string(segments: &Vec<String>) -> (r: String)
    ensures
        r@ == join_segments(segments@),
{
    let mut r = String::new();
    let mut i: usize = 0;
    while i < segments.len()
        invariant
            i <= segments@.len(),
            r@ == join_segments(segments@.take(i as int)),
        decreases segments@.len() - i,
    {
        proof {
            assert(segments@.take(i + 1).drop_last() =~= segments@.take(i as int));
            assert(segments@.take(i + 1).last() == segments@[i as int]);
        }
        r.append(segments[i].as_str());
        i = i + 1;
    }
    proof {
        assert(segments@.take(segments@.len() as int) =~= segments@);
    }
    r
}

/// A whole program, evaluated against a fresh root environment with the given
/// step budget for each top-level statement.
pub fn eval(program: &Vec<Stmt>, fuel: u64) -> (r: Result<Object, EvalError>)
    ensures
        res_view(r) == spec_eval_program(
            seq![crate::objects::empty_env_model(None)],
            program@,
            fuel as nat,
        ).1,
{
    proof {
        assert(program@.skip(0) =~= program@);
    }
    let mut context = Context::new();
    eval_program_from(program, 0, &mut context, fuel)
}

/// The tail of a program from statement `i` on, against an existing arena.
fn eval_program_from(program: &Vec<Stmt>, i: usize, ctx: &mut Context, fuel: u64) -> (r: Result<
    Object,
    EvalError,
>)
    requires
        i <= program@.len(),
    ensures
        ({
            let (envs2, rr) = spec_eval_program(old(ctx)@, program@.skip(i as int), fuel as nat);
            final(ctx)@ == envs2 && res_view(r) == rr
        }),
    decreases program@.len() - i,
{
    if i == program.len() {
        proof {
            assert(program@.skip(i as int) =~= Seq::<Stmt>::empty());
        }
        return Ok(Object::Null);
    }
    proof {
        assert(program@.skip(i as int)[0] == program@[i as int]);
        assert(program@.skip(i as int).drop_first() =~= program@.skip(i as int + 1));
    }
    match eval_statement(&program[i], ctx, 0, fuel) {
        Err(e) => Err(e),
        Ok(v) => if i + 1 == program.len() {
            proof {
                assert(program@.skip(i as int).len() == 1);
            }
            Ok(v)
        } else {
            eval_program_from(program, i + 1, ctx, fuel)
        },
    }
}

/// One statement, in environment `env` of the arena.
pub fn eval_statement(statement: &Stmt, ctx: &mut Context, env: usize, fuel: u64) -> (r: Result<
    Object,
    EvalError,
>)
    ensures
        ({
            let (envs2, rr) = spec_eval_stmt(old(ctx)@, env as int, *statement, fuel as nat);
            final(ctx)@ == envs2 && res_view(r) == rr
        }),
    decreases fuel, 0int,
{
    if fuel == 0 {
        return Err(EvalError { kind: ErrorKind::DepthLimit, pos: stmt_position(statement) });
    }
    let sub = fuel - 1;
    match statement {
        Stmt::Assignment { pos, targets, value } => {
            let v = match eval_expr(value, ctx, env, sub) {
                Ok(v) => v,
                Err(e) => {
                    return Err(e);
                },
            };
            if targets.len() == 1 {
                ctx.set(env, targets[0].as_str(), v);
                Ok(Object::Null)
            } else if targets.len() > 1 {
                match v {
                    Object::Array(elems) => if targets.len() <= elems.len() {
                        let ghost mid = ctx@;
                        let ghost vals = objs_view(elems@);
                        proof {
                            lemma_objs_view(elems@);
                        }
                        let mut i: usize = 0;
                        while i < targets.len()
                            invariant
                                i <= targets@.len(),
                                targets@.len() <= elems@.len(),
                                vals == objs_view(elems@),
                                vals.len() == elems@.len(),
                                forall|j: int|
                                    0 <= j < elems@.len() ==> vals[j] == obj_view(elems@[j]),
                                ctx@ == define_names(mid, env as int, targets@.take(i as int), vals),
                            decreases targets@.len() - i,
                        {
                            proof {
                                assert(targets@.take(i + 1).drop_last() =~= targets@.take(i as int));
                                assert(targets@.take(i + 1).last() == targets@[i as int]);
                            }
                            ctx.set(env, targets[i].as_str(), elems[i].clone());
                            i = i + 1;
                        }
                        proof {
                            assert(targets@.take(targets@.len() as int) =~= targets@);
                        }
                        Ok(Object::Null)
                    } else {
                        proof {
                            lemma_objs_view(elems@);
                        }
                        Err(EvalError { kind: ErrorKind::TypeMismatch, pos: *pos })
                    },
                    _ => Err(EvalError { kind: ErrorKind::TypeMismatch, pos: *pos }),
                }
            } else {
                Err(EvalError { kind: ErrorKind::UnsupportedConstruct, pos: *pos })
            }
        },
        Stmt::Block { pos, statements } => {
            proof {
                assert(statements@.skip(0) =~= statements@);
            }
            evaluate_block_statement(statements, 0, ctx, env, sub)
        },
        Stmt::Expression { pos, expr } => eval_expr(expr, ctx, env, sub),
        Stmt::Update { pos, target, value } => {
            let v = match eval_expr(value, ctx, env, sub) {
                Ok(v) => v,
                Err(e) => {
                    return Err(e);
                },
            };
            update_target(ctx, env, *pos, target, v)
        },
        Stmt::Return { pos, value } => {
            let v = match eval_expr(value, ctx, env, sub) {
                Ok(v) => v,
                Err(e) => {
                    return Err(e);
                },
            };
            Ok(Object::ReturnValue { value: Box::new(v) })
        },
        Stmt::Unsupported { pos } => Err(
            EvalError { kind: ErrorKind::UnsupportedConstruct, pos: *pos },
        ),
    }
}

/// Resolves an update statement's target and writes `v` through it: a plain
/// name mutates its nearest binding; a dereferenced name forwards the write
/// to the name the reference was taken from.
fn update_target(ctx: &mut Context, env: usize, pos: u64, target: &Expr, v: Object) -> (r: Result<
    Object,
    EvalError,
>)
    ensures
        ({
            let (envs2, rr) = spec_update_target(old(ctx)@, env as int, pos, *target, obj_view(v));
            final(ctx)@ == envs2 && res_view(r) == rr
        }),
{
    match target {
        Expr::Identifier { pos: tpos, segments } => {
            let key = join_to_string(segments);
            if ctx.update(env, key.as_str(), v.clone()) {
                Ok(v)
            } else {
                Err(EvalError { kind: ErrorKind::UndefinedBinding, pos: *tpos })
            }
        },
        Expr::Prefix { pos: ppos, op: PrefixOp::Deref, operand } => {
            match &**operand {
                Expr::Identifier { pos: ipos, segments } => {
                    let key = join_to_string(segments);
                    match ctx.get(env, key.as_str()) {
                        Some(Object::Reference { to, .. }) => match &*to {
                            Expr::Identifier { pos: rpos, segments: rsegs } => {
                                let rkey = join_to_string(rsegs);
                                if ctx.update(env, rkey.as_str(), v.clone()) {
                                    Ok(v)
                                } else {
                                    Err(EvalError { kind: ErrorKind::UndefinedBinding, pos: *rpos })
                                }
                            },
                            _ => Err(
                                EvalError { kind: ErrorKind::UnsupportedConstruct, pos: *ppos },
                            ),
                        },
                        Some(_) => Err(EvalError { kind: ErrorKind::NotAReference, pos: *ipos }),
                        None => Err(
                            EvalError { kind: ErrorKind::UndefinedIdentifier, pos: *ipos },
                        ),
                    }
                },
                _ => Err(EvalError { kind: ErrorKind::UnsupportedConstruct, pos: *ppos }),
            }
        },
        Expr::Prefix { pos: ppos, op: _, operand } => Err(
            EvalError { kind: ErrorKind::UnsupportedConstruct, pos },
        ),
        _ => Err(EvalError { kind: ErrorKind::UnsupportedConstruct, pos }),
    }
}

/// One expression, in environment `env` of the arena.
pub fn eval_expr(expression: &Expr, ctx: &mut Context, env: usize, fuel: u64) -> (r: Result<
    Object,
    EvalError,
>)
    ensures
        ({
            let (envs2, rr) = spec_eval_expr(old(ctx)@, env as int, *expression, fuel as nat);
            final(ctx)@ == envs2 && res_view(r) == rr
        }),
    decreases fuel, 0int,
{
    if fuel == 0 {
        return Err(EvalError { kind: ErrorKind::DepthLimit, pos: expr_position(expression) });
    }
    let sub = fuel - 1;
    match expression {
        Expr::Identifier { pos, segments } => {
            let key = join_to_string(segments);
            match ctx.get(env, key.as_str()) {
                Some(v) => {
                    return Ok(v);
                },
                None => {
                    return Err(EvalError { kind: ErrorKind::UndefinedIdentifier, pos: *pos });
                },
            }
        },
        Expr::StringLiteral { pos, value } => {
            return Ok(Object::String(value.clone()));
        },
        Expr::BooleanLiteral { pos, value } => {
            return Ok(Object::Boolean(*value));
        },
        Expr::IntegerLiteral { pos, value } => {
            return Ok(Object::Integer(*value));
        },
        Expr::FloatLiteral { pos, bits } => {
            return Ok(Object::Float(*bits));
        },
        Expr::UnderscoreLiteral { pos } => {
            return Ok(Object::Underscore);
        },
        Expr::ArrayLiteral { pos, elements } => {
            proof {
                assert(elements@.skip(0) =~= elements@);
            }
            match eval_expressions(elements, 0, ctx, env, sub) {
                Ok(vals) => {
                    return Ok(Object::Array(vals));
                },
                Err(e) => {
                    return Err(e);
                },
            }
        },
        Expr::FunctionLiteral { pos, parameters, body } => {
            return Ok(
                Object::Function {
                    parameters: rc_clone(parameters),
                    body: rc_clone(body),
                    context: env,
                },
            );
        },
        Expr::Call { pos, callee, arguments } => match &**callee {
            Expr::Identifier { pos: cpos, segments } => {
                let key = join_to_string(segments);
                match ctx.get(env, key.as_str()) {
                    Some(fv) => match fv {
                        Object::Function { .. } => {
                            proof {
                                assert(arguments@.skip(0) =~= arguments@);
                            }
                            let args = match eval_expressions(arguments, 0, ctx, env, sub) {
                                Ok(args) => args,
                                Err(e) => {
                                    return Err(e);
                                },
                            };
                            return apply_function(fv, args, ctx, *pos, sub);
                        },
                        _ => {
                            return Err(EvalError { kind: ErrorKind::NotCallable, pos: *cpos });
                        },
                    },
                    None => {
                        return Err(EvalError { kind: ErrorKind::UndefinedIdentifier, pos: *cpos });
                    },
                }
            },
            _ => {
                return Err(EvalError { kind: ErrorKind::NotCallable, pos: *pos });
            },
        },
        Expr::Prefix { pos, op, operand } => {
            let v = match eval_expr(&*operand, ctx, env, sub) {
                Ok(v) => v,
                Err(e) => {
                    return Err(e);
                },
            };
            match op {
                PrefixOp::AddressOf => {
                    return Ok(Object::Reference { value: Box::new(v), to: rc_clone(operand) });
                },
                PrefixOp::Deref => match &**operand {
                    Expr::Identifier { .. } => match v {
                        Object::Reference { value, .. } => {
                            return Ok(*value);
                        },
                        _ => {
                            return Err(EvalError { kind: ErrorKind::NotAReference, pos: *pos });
                        },
                    },
                    _ => {
                        return Err(
                            EvalError { kind: ErrorKind::UnsupportedConstruct, pos: *pos },
                        );
                    },
                },
                PrefixOp::Not => match v {
                    Object::Boolean(b) => {
                        return Ok(Object::Boolean(!b));
                    },
                    _ => {
                        return Ok(Object::Boolean(false));
                    },
                },
                PrefixOp::Neg => match v {
                    Object::Integer(i) => {
                        return Ok(Object::Integer(wrapping_neg_i64(i)));
                    },
                    _ => {
                        return Err(EvalError { kind: ErrorKind::TypeMismatch, pos: *pos });
                    },
                },
            }
        },
        Expr::Unsupported { pos } => Err(
            EvalError { kind: ErrorKind::UnsupportedConstruct, pos: *pos },
        ),
    }
}

/// The expressions from index `i` on, left to right; the first failure stops
/// the walk.
fn eval_expressions(exprs: &Vec<Expr>, i: usize, ctx: &mut Context, env: usize, fuel: u64) -> (r:
    Result<Vec<Object>, EvalError>)
    requires
        i <= exprs@.len(),
    ensures
        ({
            let (envs2, rr) = spec_eval_exprs(
                old(ctx)@,
                env as int,
                exprs@.skip(i as int),
                fuel as nat,
            );
            final(ctx)@ == envs2 && (match r {
                Ok(vs) => rr == Ok::<Seq<Obj>, EvalError>(objs_view(vs@)),
                Err(e) => rr == Err::<Seq<Obj>, EvalError>(e),
            })
        }),
    decreases fuel, exprs@.len() - i,
{
    if i == exprs.len() {
        proof {
            assert(exprs@.skip(i as int) =~= Seq::<Expr>::empty());
        }
        return Ok(Vec::new());
    }
    proof {
        assert(exprs@.skip(i as int)[0] == exprs@[i as int]);
        assert(exprs@.skip(i as int).drop_first() =~= exprs@.skip(i as int + 1));
    }
    if fuel == 0 {
        return Err(EvalError { kind: ErrorKind::DepthLimit, pos: expr_position(&exprs[i]) });
    }
    let v = match eval_expr(&exprs[i], ctx, env, fuel - 1) {
        Ok(v) => v,
        Err(e) => {
            return Err(e);
        },
    };
    let mut rest = match eval_expressions(exprs, i + 1, ctx, env, fuel) {
        Ok(vs) => vs,
        Err(e) => {
            return Err(e);
        },
    };
    proof {
        lemma_objs_view(rest@);
        lemma_objs_view(rest@.insert(0, v));
        assert(objs_view(rest@.insert(0, v)) =~= seq![obj_view(v)] + objs_view(rest@));
    }
    rest.insert(0, v);
    Ok(rest)
}

/// Applies a function value to already-evaluated arguments.
fn apply_function(func: Object, args: Vec<Object>, ctx: &mut Context, pos: u64, fuel: u64) -> (r:
    Result<Object, EvalError>)
    ensures
        ({
            let (envs2, rr) = spec_apply(
                old(ctx)@,
                obj_view(func),
                objs_view(args@),
                pos,
                fuel as nat,
            );
            final(ctx)@ == envs2 && res_view(r) == rr
        }),
    decreases fuel, 0int,
{
    if fuel == 0 {
        return Err(EvalError { kind: ErrorKind::DepthLimit, pos });
    }
    proof {
        lemma_objs_view(args@);
    }
    match func {
        Object::Function { parameters, body, context } => {
            if args.len() != parameters.len() {
                return Err(EvalError { kind: ErrorKind::TypeMismatch, pos });
            }
            let callee_env = extend_local_ctx(&parameters, args, ctx, context);
            proof {
                assert(body@.skip(0) =~= body@);
            }
            match evaluate_block_statement(&body, 0, ctx, callee_env, fuel - 1) {
                Ok(v) => Ok(unwrap_return_value(v)),
                Err(e) => Err(e),
            }
        },
        _ => Err(EvalError { kind: ErrorKind::NotCallable, pos }),
    }
}

/// The activation record of a call: a fresh environment parented to the
/// closure's captured environment, with the parameters bound in order.
fn extend_local_ctx(parameters: &Rc<Vec<String>>, args: Vec<Object>, ctx: &mut Context, captured: usize) -> (id: usize)
    requires
        parameters@.len() == args@.len(),
    ensures
        id == old(ctx)@.len(),
        final(ctx)@ == old(ctx)@.push(
            EnvModel {
                store: bind_params(parameters@, objs_view(args@)),
                outer: Some(captured as int),
                modules: Map::empty(),
            },
        ),
{
    let ghost vals = objs_view(args@);
    proof {
        lemma_objs_view(args@);
    }
    let id = ctx.push_env(Some(captured));
    let ghost base = ctx@;
    let mut i: usize = 0;
    while i < parameters.len()
        invariant
            i <= parameters@.len(),
            parameters@.len() == args@.len(),
            id == base.len() - 1,
            base.len() >= 1,
            vals == objs_view(args@),
            vals.len() == args@.len(),
            forall|j: int| 0 <= j < args@.len() ==> vals[j] == obj_view(args@[j]),
            ctx@ == base.update(
                id as int,
                EnvModel {
                    store: bind_params(parameters@.take(i as int), vals),
                    outer: Some(captured as int),
                    modules: Map::empty(),
                },
            ),
            base[id as int] == crate::objects::empty_env_model(Some(captured as int)),
        decreases parameters@.len() - i,
    {
        proof {
            assert(parameters@.take(i + 1).drop_last() =~= parameters@.take(i as int));
            assert(parameters@.take(i + 1).last() == parameters@[i as int]);
        }
        ctx.set(id, parameters[i].as_str(), args[i].clone());
        proof {
            assert(ctx@ =~= base.update(
                id as int,
                EnvModel {
                    store: bind_params(parameters@.take(i + 1), vals),
                    outer: Some(captured as int),
                    modules: Map::empty(),
                },
            ));
        }
        i = i + 1;
    }
    proof {
        assert(parameters@.take(parameters@.len() as int) =~= parameters@);
        assert(ctx@ =~= old(ctx)@.push(
            EnvModel {
                store: bind_params(parameters@, objs_view(args@)),
                outer: Some(captured as int),
                modules: Map::empty(),
            },
        ));
    }
    id
}

/// The statements of a block from index `i` on: in order, stopping at the
/// first failure or `return` signal.
fn evaluate_block_statement(stmts: &Vec<Stmt>, i: usize, ctx: &mut Context, env: usize, fuel: u64) -> (r:
    Result<Object, EvalError>)
    requires
        i <= stmts@.len(),
    ensures
        ({
            let (envs2, rr) = spec_eval_block(
                old(ctx)@,
                env as int,
                stmts@.skip(i as int),
                fuel as nat,
            );
            final(ctx)@ == envs2 && res_view(r) == rr
        }),
    decreases fuel, stmts@.len() - i,
{
    if i == stmts.len() {
        proof {
            assert(stmts@.skip(i as int) =~= Seq::<Stmt>::empty());
        }
        return Ok(Object::Null);
    }
    proof {
        assert(stmts@.skip(i as int)[0] == stmts@[i as int]);
        assert(stmts@.skip(i as int).drop_first() =~= stmts@.skip(i as int + 1));
    }
    if fuel == 0 {
        return Err(EvalError { kind: ErrorKind::DepthLimit, pos: stmt_position(&stmts[i]) });
    }
    let v = match eval_statement(&stmts[i], ctx, env, fuel - 1) {
        Ok(v) => v,
        Err(e) => {
            return Err(e);
        },
    };
    match v {
        Object::ReturnValue { value } => Ok(Object::ReturnValue { value }),
        _ => evaluate_block_statement(stmts, i + 1, ctx, env, fuel),
    }
}

/// Unwraps a `return` signal to the value it carries; any other block result
/// means the call produces `Null`.
fn unwrap_return_value(block: Object) -> (r: Object)
    ensures
        obj_view(r) == (match obj_view(block) {
            Obj::Ret { value } => *value,
            _ => Obj::Null,
        }),
{
    match block {
        Object::ReturnValue { value } => *value,
        _ => Object::Null,
    }
}

} // verus!

//! The mathematical semantics of the language: a big-step interpreter over
//! the models of values and environments.
//!
//! Every executable entry point of [`crate::evaluator`] is specified against
//! these functions, so what the evaluator returns — value, error, and the
//! whole environment arena — is pinned down for every input. Evaluation is
//! total: a step budget (`fuel`) decreases on the way into every subterm and
//! every call, and running out surfaces as [`ErrorKind::DepthLimit`].
use crate::ast::{expr_pos, stmt_pos, Expr, PrefixOp, Stmt};
use crate::errors::{ErrorKind, EvalError};
use crate::objects::{
    arena_define, chain_lookup, chain_resolve, EnvModel, Obj,
};
use crate::spec_neg_i64;
use vstd::prelude::*;

verus! {

/// A failure of the given kind at the given source position.
pub open spec fn failure(kind: ErrorKind, pos: u64) -> EvalError {
    EvalError { kind, pos }
}

/// Identifier segments flattened into one literal lookup key.
pub open spec fn join_segments(segs: Seq<String>) -> Seq<char>
    decreases segs.len(),
{
    if segs.len() == 0 {
        Seq::empty()
    } else {
        join_segments(segs.drop_last()) + segs.last()@
    }
}

/// Parameter names bound to the arguments at the same positions, in
/// declaration order, so a repeated name keeps its last argument.
pub open spec fn bind_params(params: Seq<String>, args: Seq<Obj>) -> Map<Seq<char>, Obj>
    decreases params.len(),
{
    if params.len() == 0 {
        Map::empty()
    } else {
        bind_params(params.drop_last(), args).insert(
            params.last()@,
            args[params.len() - 1],
        )
    }
}

/// Each name bound, in order, to the value at its position: the positional
/// destructuring of `vals` over `names` in environment `env`.
pub open spec fn define_names(
    envs: Seq<EnvModel>,
    env: int,
    names: Seq<String>,
    vals: Seq<Obj>,
) -> Seq<EnvModel>
    decreases names.len(),
{
    if names.len() == 0 {
        envs
    } else {
        arena_define(
            define_names(envs, env, names.drop_last(), vals),
            env,
            names.last()@,
            vals[names.len() - 1],
        )
    }
}

/// One statement, evaluated in environment `env`: the arena afterwards and
/// the statement's result.
pub open spec fn spec_eval_stmt(
    envs: Seq<EnvModel>,
    env: int,
    s: Stmt,
    fuel: nat,
) -> (Seq<EnvModel>, Result<Obj, EvalError>)
    decreases fuel, 0int,
{
    if fuel == 0 {
        (envs, Err(failure(ErrorKind::DepthLimit, stmt_pos(s))))
    } else {
        let sub = (fuel - 1) as nat;
        match s {
            Stmt::Assignment { pos, targets, value } => {
                let (envs1, r) = spec_eval_expr(envs, env, value, sub);
                match r {
                    Err(e) => (envs1, Err(e)),
                    Ok(v) => if targets@.len() == 1 {
                        (arena_define(envs1, env, targets@[0]@, v), Ok(Obj::Null))
                    } else if targets@.len() > 1 {
                        match v {
                            Obj::Arr(elems) => if targets@.len() <= elems.len() {
                                (define_names(envs1, env, targets@, elems), Ok(Obj::Null))
                            } else {
                                (envs1, Err(failure(ErrorKind::TypeMismatch, pos)))
                            },
                            _ => (envs1, Err(failure(ErrorKind::TypeMismatch, pos))),
                        }
                    } else {
                        (envs1, Err(failure(ErrorKind::UnsupportedConstruct, pos)))
                    },
                }
            },
            Stmt::Block { pos, statements } => spec_eval_block(envs, env, statements@, sub),
            Stmt::Expression { pos, expr } => spec_eval_expr(envs, env, expr, sub),
            Stmt::Update { pos, target, value } => {
                let (envs1, r) = spec_eval_expr(envs, env, value, sub);
                match r {
                    Err(e) => (envs1, Err(e)),
                    Ok(v) => spec_update_target(envs1, env, pos, target, v),
                }
            },
            Stmt::Return { pos, value } => {
                let (envs1, r) = spec_eval_expr(envs, env, value, sub);
                match r {
                    Err(e) => (envs1, Err(e)),
                    Ok(v) => (envs1, Ok(Obj::Ret { value: Box::new(v) })),
                }
            },
            Stmt::Unsupported { pos } => (
                envs,
                Err(failure(ErrorKind::UnsupportedConstruct, pos)),
            ),
        }
    }
}

/// Where an update statement writes `v`, once its right-hand side has been
/// evaluated: through a plain name, the nearest binding of that name; through
/// a dereferenced name, the nearest binding of the name the reference was
/// taken from. A successful update results in the written value.
pub open spec fn spec_update_target(
    envs: Seq<EnvModel>,
    env: int,
    pos: u64,
    target: Expr,
    v: Obj,
) -> (Seq<EnvModel>, Result<Obj, EvalError>) {
    match target {
        Expr::Identifier { pos: tpos, segments } => {
            let key = join_segments(segments@);
            match chain_resolve(envs, env, key) {
                Some(eidx) => (arena_define(envs, eidx, key, v), Ok(v)),
                None => (envs, Err(failure(ErrorKind::UndefinedBinding, tpos))),
            }
        },
        Expr::Prefix { pos: ppos, op, operand } => match op {
            PrefixOp::Deref => match operand@ {
                Expr::Identifier { pos: ipos, segments } => {
                    match chain_lookup(envs, env, join_segments(segments@)) {
                        Some(Obj::Ref { to, .. }) => match to {
                            Expr::Identifier { pos: rpos, segments: rsegs } => {
                                let rkey = join_segments(rsegs@);
                                match chain_resolve(envs, env, rkey) {
                                    Some(eidx) => (arena_define(envs, eidx, rkey, v), Ok(v)),
                                    None => (
                                        envs,
                                        Err(failure(ErrorKind::UndefinedBinding, rpos)),
                                    ),
                                }
                            },
                            _ => (envs, Err(failure(ErrorKind::UnsupportedConstruct, ppos))),
                        },
                        Some(_) => (envs, Err(failure(ErrorKind::NotAReference, ipos))),
                        None => (envs, Err(failure(ErrorKind::UndefinedIdentifier, ipos))),
                    }
                },
                _ => (envs, Err(failure(ErrorKind::UnsupportedConstruct, ppos))),
            },
            _ => (envs, Err(failure(ErrorKind::UnsupportedConstruct, pos))),
        },
        _ => (envs, Err(failure(ErrorKind::UnsupportedConstruct, pos))),
    }
}

/// One expression, evaluated in environment `env`.
pub open spec fn spec_eval_expr(
    envs: Seq<EnvModel>,
    env: int,
    e: Expr,
    fuel: nat,
) -> (Seq<EnvModel>, Result<Obj, EvalError>)
    decreases fuel, 0int,
{
    if fuel == 0 {
        (envs, Err(failure(ErrorKind::DepthLimit, expr_pos(e))))
    } else {
        let sub = (fuel - 1) as nat;
        match e {
            Expr::Identifier { pos, segments } => {
                match chain_lookup(envs, env, join_segments(segments@)) {
                    Some(v) => (envs, Ok(v)),
                    None => (envs, Err(failure(ErrorKind::UndefinedIdentifier, pos))),
                }
            },
            Expr::StringLiteral { pos, value } => (envs, Ok(Obj::Str(value@))),
            Expr::BooleanLiteral { pos, value } => (envs, Ok(Obj::Bool(value))),
            Expr::IntegerLiteral { pos, value } => (envs, Ok(Obj::Int(value))),
            Expr::FloatLiteral { pos, bits } => (envs, Ok(Obj::Float(bits))),
            Expr::UnderscoreLiteral { pos } => (envs, Ok(Obj::Underscore)),
            Expr::ArrayLiteral { pos, elements } => {
                let (envs1, r) = spec_eval_exprs(envs, env, elements@, sub);
                match r {
                    Ok(vals) => (envs1, Ok(Obj::Arr(vals))),
                    Err(e) => (envs1, Err(e)),
                }
            },
            Expr::FunctionLiteral { pos, parameters, body } => (
                envs,
                Ok(Obj::Func { parameters: parameters@, body: body@, context: env }),
            ),
            Expr::Call { pos, callee, arguments } => match *callee {
                Expr::Identifier { pos: cpos, segments } => {
                    match chain_lookup(envs, env, join_segments(segments@)) {
                        Some(fv) => if fv is Func {
                            let (envs1, r) = spec_eval_exprs(envs, env, arguments@, sub);
                            match r {
                                Ok(args) => spec_apply(envs1, fv, args, pos, sub),
                                Err(e) => (envs1, Err(e)),
                            }
                        } else {
                            (envs, Err(failure(ErrorKind::NotCallable, cpos)))
                        },
                        None => (envs, Err(failure(ErrorKind::UndefinedIdentifier, cpos))),
                    }
                },
                _ => (envs, Err(failure(ErrorKind::NotCallable, pos))),
            },
            Expr::Prefix { pos, op, operand } => {
                let (envs1, r) = spec_eval_expr(envs, env, operand@, sub);
                match r {
                    Err(e) => (envs1, Err(e)),
                    Ok(v) => match op {
                        PrefixOp::AddressOf => (
                            envs1,
                            Ok(Obj::Ref { value: Box::new(v), to: operand@ }),
                        ),
                        PrefixOp::Deref => match operand@ {
                            Expr::Identifier { .. } => match v {
                                Obj::Ref { value, .. } => (envs1, Ok(*value)),
                                _ => (envs1, Err(failure(ErrorKind::NotAReference, pos))),
                            },
                            _ => (envs1, Err(failure(ErrorKind::UnsupportedConstruct, pos))),
                        },
                        PrefixOp::Not => match v {
                            Obj::Bool(b) => (envs1, Ok(Obj::Bool(!b))),
                            _ => (envs1, Ok(Obj::Bool(false))),
                        },
                        PrefixOp::Neg => match v {
                            Obj::Int(i) => (envs1, Ok(Obj::Int(spec_neg_i64(i)))),
                            _ => (envs1, Err(failure(ErrorKind::TypeMismatch, pos))),
                        },
                    },
                }
            },
            Expr::Unsupported { pos } => (
                envs,
                Err(failure(ErrorKind::UnsupportedConstruct, pos)),
            ),
        }
    }
}

/// A sequence of expressions, evaluated left to right; the first failure
/// stops the walk.
pub open spec fn spec_eval_exprs(
    envs: Seq<EnvModel>,
    env: int,
    es: Seq<Expr>,
    fuel: nat,
) -> (Seq<EnvModel>, Result<Seq<Obj>, EvalError>)
    decreases fuel, es.len(),
{
    if es.len() == 0 {
        (envs, Ok(Seq::empty()))
    } else if fuel == 0 {
        (envs, Err(failure(ErrorKind::DepthLimit, expr_pos(es[0]))))
    } else {
        let (envs1, r) = spec_eval_expr(envs, env, es[0], (fuel - 1) as nat);
        match r {
            Err(e) => (envs1, Err(e)),
            Ok(v) => {
                let (envs2, rest) = spec_eval_exprs(envs1, env, es.drop_first(), fuel);
                match rest {
                    Ok(vs) => (envs2, Ok(seq![v] + vs)),
                    Err(e) => (envs2, Err(e)),
                }
            },
        }
    }
}

/// Function application: a fresh environment parented to the closure's
/// captured environment — never the caller's — with the parameters bound,
/// then the body as a block; a `return` signal unwraps to its value and any
/// other outcome is `Null`.
pub open spec fn spec_apply(
    envs: Seq<EnvModel>,
    f: Obj,
    args: Seq<Obj>,
    pos: u64,
    fuel: nat,
) -> (Seq<EnvModel>, Result<Obj, EvalError>)
    decreases fuel, 0int,
{
    if fuel == 0 {
        (envs, Err(failure(ErrorKind::DepthLimit, pos)))
    } else {
        match f {
            Obj::Func { parameters, body, context } => if args.len() != parameters.len() {
                (envs, Err(failure(ErrorKind::TypeMismatch, pos)))
            } else {
                let callee_env = envs.len() as int;
                let envs1 = envs.push(
                    EnvModel {
                        store: bind_params(parameters, args),
                        outer: Some(context),
                        modules: Map::empty(),
                    },
                );
                let (envs2, r) = spec_eval_block(envs1, callee_env, body, (fuel - 1) as nat);
                match r {
                    Ok(Obj::Ret { value }) => (envs2, Ok(*value)),
                    Ok(_) => (envs2, Ok(Obj::Null)),
                    Err(e) => (envs2, Err(e)),
                }
            },
            _ => (envs, Err(failure(ErrorKind::NotCallable, pos))),
        }
    }
}

/// A block: its statements in order, in the block's own environment (blocks
/// introduce no scope). A `return` signal stops the block at once and becomes
/// its result; a block that runs out of statements results in `Null`.
pub open spec fn spec_eval_block(
    envs: Seq<EnvModel>,
    env: int,
    stmts: Seq<Stmt>,
    fuel: nat,
) -> (Seq<EnvModel>, Result<Obj, EvalError>)
    decreases fuel, stmts.len(),
{
    if stmts.len() == 0 {
        (envs, Ok(Obj::Null))
    } else if fuel == 0 {
        (envs, Err(failure(ErrorKind::DepthLimit, stmt_pos(stmts[0]))))
    } else {
        let (envs1, r) = spec_eval_stmt(envs, env, stmts[0], (fuel - 1) as nat);
        match r {
            Err(e) => (envs1, Err(e)),
            Ok(v) => if v is Ret {
                (envs1, Ok(v))
            } else {
                spec_eval_block(envs1, env, stmts.drop_first(), fuel)
            },
        }
    }
}

/// A whole program: top-level statements in order against the root
/// environment, each with the full step budget; the program's result is the
/// last statement's result, `Null` for an empty program. Unlike a block, the
/// top level does not stop at a `return` signal.
pub open spec fn spec_eval_program(
    envs: Seq<EnvModel>,
    stmts: Seq<Stmt>,
    fuel: nat,
) -> (Seq<EnvModel>, Result<Obj, EvalError>)
    decreases stmts.len(),
{
    if stmts.len() == 0 {
        (envs, Ok(Obj::Null))
    } else {
        let (envs1, r) = spec_eval_stmt(envs, 0, stmts[0], fuel);
        match r {
            Err(e) => (envs1, Err(e)),
            Ok(v) => if stmts.len() == 1 {
                (envs1, Ok(v))
            } else {
                spec_eval_program(envs1, stmts.drop_first(), fuel)
            },
        }
    }
}

} // verus!

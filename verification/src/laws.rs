//! The language's guarantees, proved once and for all over the mathematical
//! semantics: scoping, capture, references, control flow and coercion.
use crate::ast::{Expr, PrefixOp, Stmt};
use crate::errors::{ErrorKind, EvalError};
use crate::objects::{arena_define, chain_lookup, chain_resolve, EnvModel, Obj};
use crate::semantics::{
    define_names, failure, join_segments, spec_apply, spec_eval_block, spec_eval_expr,
    spec_eval_stmt, spec_update_target,
};
use std::rc::Rc;
use vstd::prelude::*;

verus! {

/// Defining a name in environment `e` changes nothing an environment `o`
/// strictly inside the arena before `e` can see: the chain from `o` only
/// walks inward, so it never reaches `e`. This is why a binding made in an
/// inner scope — in particular in a call's activation environment, which is
/// appended after every environment the caller can reach — is invisible to
/// every outer scope, whatever name it uses.
pub proof fn lemma_shadowing(
    envs: Seq<EnvModel>,
    e: int,
    name: Seq<char>,
    v: Obj,
    o: int,
    key: Seq<char>,
)
    requires
        0 <= o < e < envs.len(),
    ensures
        chain_resolve(arena_define(envs, e, name, v), o, key) == chain_resolve(envs, o, key),
        chain_lookup(arena_define(envs, e, name, v), o, key) == chain_lookup(envs, o, key),
    decreases o,
{
    let envs2 = arena_define(envs, e, name, v);
    assert(envs2[o] == envs[o]);
    match envs[o].outer {
        Some(p) => {
            if 0 <= p < o && !envs[o].store.dom().contains(key) {
                lemma_shadowing(envs, e, name, v, p, key);
            }
        },
        None => {},
    }
}

/// Defining one name never disturbs another: a write to `k2` leaves every
/// lookup of a different key `k1` as it was, from any environment.
pub proof fn lemma_define_other_key(
    envs: Seq<EnvModel>,
    e: int,
    k2: Seq<char>,
    v: Obj,
    o: int,
    k1: Seq<char>,
)
    requires
        k1 != k2,
    ensures
        chain_resolve(arena_define(envs, e, k2, v), o, k1) == chain_resolve(envs, o, k1),
        chain_lookup(arena_define(envs, e, k2, v), o, k1) == chain_lookup(envs, o, k1),
    decreases o,
{
    let envs2 = arena_define(envs, e, k2, v);
    if 0 <= o < envs.len() {
        assert(envs2[o].store.dom().contains(k1) == envs[o].store.dom().contains(k1));
        assert(envs[o].store.dom().contains(k1) ==> envs2[o].store[k1] == envs[o].store[k1]);
        match envs[o].outer {
            Some(p) => {
                if 0 <= p < o && !envs[o].store.dom().contains(k1) {
                    lemma_define_other_key(envs, e, k2, v, p, k1);
                }
            },
            None => {},
        }
    }
}

/// Appending a fresh environment to the arena changes no lookup made from an
/// environment that already existed.
pub proof fn lemma_push_frame(envs: Seq<EnvModel>, added: EnvModel, o: int, key: Seq<char>)
    requires
        o < envs.len(),
    ensures
        chain_resolve(envs.push(added), o, key) == chain_resolve(envs, o, key),
        chain_lookup(envs.push(added), o, key) == chain_lookup(envs, o, key),
    decreases o,
{
    if 0 <= o {
        assert(envs.push(added)[o] == envs[o]);
        match envs[o].outer {
            Some(p) => {
                if 0 <= p < o && !envs[o].store.dom().contains(key) {
                    lemma_push_frame(envs, added, p, key);
                }
            },
            None => {},
        }
    }
}

/// Resolution only ever finds an environment on the chain: one at or inside
/// the start, whose own table defines the key.
pub proof fn lemma_resolve_found(envs: Seq<EnvModel>, o: int, key: Seq<char>, e: int)
    requires
        chain_resolve(envs, o, key) == Some(e),
    ensures
        0 <= e <= o,
        e < envs.len(),
        envs[e].store.dom().contains(key),
        chain_lookup(envs, o, key) == Some(envs[e].store[key]),
    decreases o,
{
    if !envs[o].store.dom().contains(key) {
        match envs[o].outer {
            Some(p) => {
                lemma_resolve_found(envs, p, key, e);
            },
            None => {},
        }
    }
}

/// Mutating a bound name through the chain and then reading it gives the
/// written value: the write lands exactly in the environment that resolution
/// finds, and resolution afterwards finds the same environment.
pub proof fn lemma_mutate_lookup(envs: Seq<EnvModel>, o: int, key: Seq<char>, e: int, v: Obj)
    requires
        chain_resolve(envs, o, key) == Some(e),
    ensures
        chain_resolve(arena_define(envs, e, key, v), o, key) == Some(e),
        chain_lookup(arena_define(envs, e, key, v), o, key) == Some(v),
    decreases o,
{
    let envs2 = arena_define(envs, e, key, v);
    assert(0 <= o < envs.len());
    lemma_resolve_found(envs, o, key, e);
    if envs[o].store.dom().contains(key) {
        assert(e == o);
        assert(envs2[o].store.dom().contains(key));
        assert(envs2[o].store[key] == v);
    } else {
        assert(e != o);
        match envs[o].outer {
            Some(p) => {
                lemma_mutate_lookup(envs, p, key, e, v);
                assert(!envs2[o].store.dom().contains(key));
            },
            None => {},
        }
    }
}

/// Mutating after defining in the same environment reads back the second
/// value: `define(x, a)` then `mutate(x, b)` makes `lookup(x)` give `b`.
pub proof fn lemma_mutate_after_define(
    envs: Seq<EnvModel>,
    e: int,
    name: Seq<char>,
    v1: Obj,
    v2: Obj,
)
    requires
        0 <= e < envs.len(),
    ensures
        chain_resolve(arena_define(envs, e, name, v1), e, name) == Some(e),
        chain_lookup(
            arena_define(arena_define(envs, e, name, v1), e, name, v2),
            e,
            name,
        ) == Some(v2),
{
    let envs1 = arena_define(envs, e, name, v1);
    assert(envs1[e].store.dom().contains(name));
    lemma_mutate_lookup(envs1, e, name, e, v2);
}

/// Mutating a name that no environment in the chain defines fails with
/// `UndefinedBinding` and leaves the whole arena untouched: a failed
/// mutation never creates a binding.
pub proof fn lemma_mutate_undefined(
    envs: Seq<EnvModel>,
    env: int,
    pos: u64,
    target: Expr,
    tpos: u64,
    segments: Vec<String>,
    v: Obj,
)
    requires
        target == (Expr::Identifier { pos: tpos, segments }),
        chain_resolve(envs, env, join_segments(segments@)) is None,
    ensures
        spec_update_target(envs, env, pos, target, v) == (
            envs,
            Err::<Obj, EvalError>(failure(ErrorKind::UndefinedBinding, tpos)),
        ),
        chain_lookup(envs, env, join_segments(segments@)) is None,
{
}

/// A closure resolves free names against the environment it captured when
/// the function literal was evaluated — never against its caller's scope.
/// Applying a parameterless function whose body is `return x;` yields
/// whatever `x` means along the captured environment's chain at call time
/// (capture is by reference, so mutations made after capture are seen), and
/// fails with `UndefinedIdentifier` when that chain never binds `x`.
pub proof fn lemma_lexical_capture(
    envs: Seq<EnvModel>,
    f: Obj,
    captured: int,
    body: Seq<Stmt>,
    rpos: u64,
    ipos: u64,
    segments: Vec<String>,
    x: Seq<char>,
    pos: u64,
    fuel: nat,
)
    requires
        fuel >= 4,
        0 <= captured < envs.len(),
        f == (Obj::Func { parameters: Seq::<String>::empty(), body, context: captured }),
        body =~= seq![
            Stmt::Return {
                pos: rpos,
                value: Expr::Identifier { pos: ipos, segments },
            },
        ],
        join_segments(segments@) == x,
    ensures
        spec_apply(envs, f, Seq::<Obj>::empty(), pos, fuel).1 == (
            match chain_lookup(envs, captured, x) {
                Some(v) => Ok::<Obj, EvalError>(v),
                None => Err::<Obj, EvalError>(failure(ErrorKind::UndefinedIdentifier, ipos)),
            }
        ),
{
    let activation = EnvModel {
        store: crate::semantics::bind_params(Seq::<String>::empty(), Seq::<Obj>::empty()),
        outer: Some(captured),
        modules: Map::empty(),
    };
    let envs1 = envs.push(activation);
    let ce = envs.len() as int;
    assert(activation.store =~= Map::<Seq<char>, Obj>::empty());
    assert(!activation.store.dom().contains(x));
    assert(envs1[ce] == activation);
    lemma_push_frame(envs, activation, captured, x);
    assert(chain_lookup(envs1, ce, x) == chain_lookup(envs, captured, x));
    assert(body.drop_first() =~= Seq::<Stmt>::empty());
}

/// After a positional destructuring, each name reads back as the array
/// element at its position — for a name bound once, or at its last
/// occurrence when it is repeated, since binding happens left to right.
pub proof fn lemma_destructuring(
    envs: Seq<EnvModel>,
    e: int,
    names: Seq<String>,
    vals: Seq<Obj>,
    i: int,
)
    requires
        0 <= e < envs.len(),
        0 <= i < names.len(),
        names.len() <= vals.len(),
        forall|j: int| i < j < names.len() ==> names[j]@ != names[i]@,
    ensures
        chain_lookup(define_names(envs, e, names, vals), e, names[i]@) == Some(vals[i]),
    decreases names.len(),
{
    lemma_define_names_frame(envs, e, names, vals);
    let inner = define_names(envs, e, names.drop_last(), vals);
    if i == names.len() - 1 {
        lemma_define_names_frame(envs, e, names.drop_last(), vals);
        assert(define_names(envs, e, names, vals) == arena_define(
            inner,
            e,
            names.last()@,
            vals[names.len() - 1],
        ));
        assert(define_names(envs, e, names, vals)[e].store.dom().contains(names[i]@));
    } else {
        assert(names.drop_last()[i] == names[i]);
        lemma_destructuring(envs, e, names.drop_last(), vals, i);
        lemma_define_other_key(inner, e, names.last()@, vals[names.len() - 1], e, names[i]@);
    }
}

/// Destructuring changes neither the arena's size nor any environment other
/// than the one it binds in.
pub proof fn lemma_define_names_frame(
    envs: Seq<EnvModel>,
    e: int,
    names: Seq<String>,
    vals: Seq<Obj>,
)
    ensures
        define_names(envs, e, names, vals).len() == envs.len(),
        forall|k: int|
            0 <= k < envs.len() && k != e ==> define_names(envs, e, names, vals)[k] == envs[k],
    decreases names.len(),
{
    if names.len() > 0 {
        lemma_define_names_frame(envs, e, names.drop_last(), vals);
    }
}

/// A block stops at the first `return` or failure: when the statements
/// through some prefix already end in a return signal or an error, the
/// statements after that prefix are never executed — the whole block is
/// exactly the prefix.
pub proof fn lemma_return_short_circuit(
    envs: Seq<EnvModel>,
    env: int,
    stmts1: Seq<Stmt>,
    stmts2: Seq<Stmt>,
    fuel: nat,
)
    requires
        ({
            let (envs2, r) = spec_eval_block(envs, env, stmts1, fuel);
            r is Err || (r matches Ok(v) && v is Ret)
        }),
    ensures
        spec_eval_block(envs, env, stmts1 + stmts2, fuel) == spec_eval_block(
            envs,
            env,
            stmts1,
            fuel,
        ),
    decreases stmts1.len(),
{
    assert(stmts1.len() > 0);
    assert((stmts1 + stmts2)[0] == stmts1[0]);
    if fuel == 0 {
    } else {
        let (envs1, r) = spec_eval_stmt(envs, env, stmts1[0], (fuel - 1) as nat);
        match r {
            Err(e) => {},
            Ok(v) => {
                if v is Ret {
                } else {
                    assert((stmts1 + stmts2).drop_first() =~= stmts1.drop_first() + stmts2);
                    lemma_return_short_circuit(envs1, env, stmts1.drop_first(), stmts2, fuel);
                }
            },
        }
    }
}

/// Reading through a reference yields the snapshot stored when the reference
/// was created: after any write to a binding other than the reference's own,
/// dereferencing still gives the stored value, not the referent's current
/// one.
pub proof fn lemma_reference_snapshot(
    envs: Seq<EnvModel>,
    env: int,
    r_name: Seq<char>,
    bsnap: Box<Obj>,
    rto: Expr,
    m: int,
    x_name: Seq<char>,
    w: Obj,
    pos: u64,
    operand: Rc<Expr>,
    ipos: u64,
    segments: Vec<String>,
    fuel: nat,
)
    requires
        fuel >= 2,
        x_name != r_name,
        chain_lookup(envs, env, r_name) == Some(Obj::Ref { value: bsnap, to: rto }),
        operand@ == (Expr::Identifier { pos: ipos, segments }),
        join_segments(segments@) == r_name,
    ensures
        ({
            let envs2 = arena_define(envs, m, x_name, w);
            spec_eval_expr(
                envs2,
                env,
                Expr::Prefix { pos, op: PrefixOp::Deref, operand },
                fuel,
            ) == (envs2, Ok::<Obj, EvalError>(*bsnap))
        }),
{
    let envs2 = arena_define(envs, m, x_name, w);
    lemma_define_other_key(envs, m, x_name, w, env, r_name);
    assert(chain_lookup(envs2, env, r_name) == Some(Obj::Ref { value: bsnap, to: rto }));
    assert(spec_eval_expr(envs2, env, operand@, (fuel - 1) as nat) == (
        envs2,
        Ok::<Obj, EvalError>(Obj::Ref { value: bsnap, to: rto }),
    ));
}

/// Writing through a dereferenced name mutates the binding the reference was
/// taken from — reading that name afterwards gives the written value — even
/// though reading through the reference still gives the old snapshot.
pub proof fn lemma_reference_write_through(
    envs: Seq<EnvModel>,
    env: int,
    pos: u64,
    r_name: Seq<char>,
    bsnap: Box<Obj>,
    x_name: Seq<char>,
    xe: int,
    w: Obj,
    ppos: u64,
    operand: Rc<Expr>,
    ipos: u64,
    segments: Vec<String>,
    rpos: u64,
    rsegs: Vec<String>,
)
    requires
        chain_lookup(envs, env, r_name) == Some(
            Obj::Ref {
                value: bsnap,
                to: Expr::Identifier { pos: rpos, segments: rsegs },
            },
        ),
        join_segments(rsegs@) == x_name,
        chain_resolve(envs, env, x_name) == Some(xe),
        operand@ == (Expr::Identifier { pos: ipos, segments }),
        join_segments(segments@) == r_name,
    ensures
        spec_update_target(
            envs,
            env,
            pos,
            Expr::Prefix { pos: ppos, op: PrefixOp::Deref, operand },
            w,
        ) == (arena_define(envs, xe, x_name, w), Ok::<Obj, EvalError>(w)),
        chain_lookup(arena_define(envs, xe, x_name, w), env, x_name) == Some(w),
{
    lemma_mutate_lookup(envs, env, x_name, xe, w);
}

/// Logical negation coerces: applied to an operand whose value is anything
/// but a boolean, `!` yields `false` instead of a type error.
pub proof fn lemma_negation_coercion(
    envs: Seq<EnvModel>,
    env: int,
    pos: u64,
    operand: Rc<Expr>,
    fuel: nat,
)
    requires
        fuel >= 1,
        ({
            let (envs1, r) = spec_eval_expr(envs, env, operand@, (fuel - 1) as nat);
            r matches Ok(v) && !(v is Bool)
        }),
    ensures
        ({
            let (envs1, r) = spec_eval_expr(envs, env, operand@, (fuel - 1) as nat);
            spec_eval_expr(envs, env, Expr::Prefix { pos, op: PrefixOp::Not, operand }, fuel) == (
                envs1,
                Ok::<Obj, EvalError>(Obj::Bool(false)),
            )
        }),
{
}

} // verus!


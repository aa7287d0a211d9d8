//! A verified tree-walking evaluator for a small expression/statement
//! scripting language, with lexically scoped bindings, first-class closures
//! and snapshot references.
//!
//! The evaluator consumes an already-built syntax tree ([`ast`]) and produces
//! runtime values ([`objects::Object`]). Environments live in an arena indexed
//! by stable handles ([`objects::Context`]), so several closures and the
//! active call stack can share one scope without aliasing. Every entry point
//! is specified against a mathematical big-step interpreter ([`semantics`]),
//! and the language's guarantees are proved once and for all in [`laws`].
pub mod ast;
pub mod errors;
pub mod evaluator;
pub mod laws;
pub mod objects;
pub mod semantics;

use vstd::prelude::*;

verus! {

/// Negation of a machine integer, wrapping at the extreme value as the
/// two's-complement hardware the language targets does.
pub fn wrapping_neg_i64(i: i64) -> (r: i64)
    ensures
        r == spec_neg_i64(i),
{
    if i == i64::MIN {
        i64::MIN
    } else {
        -i
    }
}

/// What negation returns: the arithmetic negation, except that the minimum
/// value (which has no positive counterpart) is its own negation.
pub open spec fn spec_neg_i64(i: i64) -> i64 {
    if i == i64::MIN {
        i64::MIN
    } else {
        (-(i as int)) as i64
    }
}

} // verus!

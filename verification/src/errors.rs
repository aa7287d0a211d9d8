//! Failure values produced by the evaluator.
//!
//! Every fallible operation returns a typed error instead of aborting, so the
//! driver around the library decides whether to halt or continue.
use vstd::prelude::*;

verus! {

/// The kinds of failure the evaluator can report.
#[derive(Clone, Copy, Debug, PartialEq, Eq, Structural)]
pub enum ErrorKind {
    /// A name was not found anywhere in the environment chain on read.
    UndefinedIdentifier,
    /// A name was not found anywhere in the environment chain on write.
    UndefinedBinding,
    /// A call target is not a function value, or the callee is not a plain identifier.
    NotCallable,
    /// Dereference applied to a value that is not a reference.
    NotAReference,
    /// An operator or positional destructuring applied to a value of the wrong shape.
    TypeMismatch,
    /// A statement or expression category the evaluator does not implement.
    UnsupportedConstruct,
    /// The cooperative step budget given to the evaluator ran out.
    DepthLimit,
}

/// A failure, with the source position of the node that caused it.
#[derive(Clone, Copy, Debug, PartialEq, Eq, Structural)]
pub struct EvalError {
    pub kind: ErrorKind,
    pub pos: u64,
}

} // verus!

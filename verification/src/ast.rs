//! The syntax tree the evaluator consumes.
//!
//! The tree is already built when it reaches this library; every node carries
//! the source position of the token it came from, so failures can point at it.
//! Aggregates that end up shared by runtime values (a function literal's
//! parameter list and body, a prefix operand kept inside a reference) sit
//! behind `Rc`, so closures and references alias them instead of copying.
use std::rc::Rc;
use vstd::prelude::*;

verus! {

/// The prefix operators of the language.
#[derive(Clone, Copy, Debug, PartialEq, Eq, Structural)]
pub enum PrefixOp {
    /// `&`: take a reference holding a snapshot of the operand's value.
    AddressOf,
    /// `*`: read the snapshot held by a reference.
    Deref,
    /// `!`: logical negation, coercing non-boolean operands to `false`.
    Not,
    /// `-`: arithmetic negation of an integer.
    Neg,
}

/// An expression node.
#[derive(Debug)]
pub enum Expr {
    /// A single- or multi-segment identifier; segments are flattened into one
    /// literal lookup key, not resolved through module tables.
    Identifier { pos: u64, segments: Vec<String> },
    StringLiteral { pos: u64, value: String },
    BooleanLiteral { pos: u64, value: bool },
    IntegerLiteral { pos: u64, value: i64 },
    /// A floating-point literal, carried as its IEEE 754 bit pattern. The
    /// evaluator only ever constructs and moves such values, never computes
    /// with them, so the bits are all it needs.
    FloatLiteral { pos: u64, bits: u64 },
    UnderscoreLiteral { pos: u64 },
    ArrayLiteral { pos: u64, elements: Vec<Expr> },
    FunctionLiteral { pos: u64, parameters: Rc<Vec<String>>, body: Rc<Vec<Stmt>> },
    Call { pos: u64, callee: Box<Expr>, arguments: Vec<Expr> },
    Prefix { pos: u64, op: PrefixOp, operand: Rc<Expr> },
    /// Any expression category the language reserves but does not implement
    /// (infix operators, match expressions).
    Unsupported { pos: u64 },
}

/// A statement node.
#[derive(Debug)]
pub enum Stmt {
    /// `x = e` when `targets` has one name; positional destructuring of an
    /// array when it has several.
    Assignment { pos: u64, targets: Vec<String>, value: Expr },
    /// `{ ... }`: runs in the enclosing environment, introducing no scope.
    Block { pos: u64, statements: Vec<Stmt> },
    /// An expression evaluated for its value.
    Expression { pos: u64, expr: Expr },
    /// `x <- e` style mutation of an existing binding, or `*r <- e` writing
    /// through a reference.
    Update { pos: u64, target: Expr, value: Expr },
    /// `return e;`
    Return { pos: u64, value: Expr },
    /// Any statement category the language reserves but does not implement
    /// (conditionals, loops, match).
    Unsupported { pos: u64 },
}

impl View for Expr {
    type V = Expr;

    /// An expression is already pure data; its mathematical view is itself.
    /// The identity view lets `Rc<Expr>` fields be read in specifications.
    open spec fn view(&self) -> Expr {
        *self
    }
}

/// The source position carried by an expression node.
pub open spec fn expr_pos(e: Expr) -> u64 {
    match e {
        Expr::Identifier { pos, .. } => pos,
        Expr::StringLiteral { pos, .. } => pos,
        Expr::BooleanLiteral { pos, .. } => pos,
        Expr::IntegerLiteral { pos, .. } => pos,
        Expr::FloatLiteral { pos, .. } => pos,
        Expr::UnderscoreLiteral { pos } => pos,
        Expr::ArrayLiteral { pos, .. } => pos,
        Expr::FunctionLiteral { pos, .. } => pos,
        Expr::Call { pos, .. } => pos,
        Expr::Prefix { pos, .. } => pos,
        Expr::Unsupported { pos } => pos,
    }
}

/// The source position carried by a statement node.
pub open spec fn stmt_pos(s: Stmt) -> u64 {
    match s {
        Stmt::Assignment { pos, .. } => pos,
        Stmt::Block { pos, .. } => pos,
        Stmt::Expression { pos, .. } => pos,
        Stmt::Update { pos, .. } => pos,
        Stmt::Return { pos, .. } => pos,
        Stmt::Unsupported { pos } => pos,
    }
}

} // verus!

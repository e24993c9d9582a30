//! The program tree: one struct per construct, gathered under the [`Node`]
//! tag, plus the function table and the runtime error type.
//!
//! A value of the language is a fixed-width signed integer (`i64`); arithmetic
//! is checked, and an operation whose mathematical result does not fit is a
//! fatal [`EvalError::Overflow`].  A variable identifier is a small
//! non-negative integer (`u64`), scoped to one store.  Trees are never
//! mutated: only the store changes during evaluation.

use vstd::prelude::*;

verus! {

/// The arithmetic and bitwise operators.  All of them evaluate both operands,
/// left to right, unconditionally.
#[derive(Clone, Copy, Debug, PartialEq, Eq, Structural)]
pub enum ArithOp {
    Add,
    Sub,
    Mul,
    /// Integer division truncating toward zero; a zero divisor is fatal.
    Div,
    BitAnd,
    BitOr,
}

/// The comparison operators.  Each yields exactly 1 (true) or 0 (false).
#[derive(Clone, Copy, Debug, PartialEq, Eq, Structural)]
pub enum CmpOp {
    Gt,
    Lt,
    Gte,
    Lte,
    Equ,
}

/// How a run fails.  No error is recovered internally: any of these aborts
/// the whole run with a labeled failure rather than a silently wrong value.
#[derive(Clone, Copy, Debug, PartialEq, Eq, Structural)]
pub enum EvalError {
    /// A `Div` node saw a zero divisor.
    DivisionByZero,
    /// An arithmetic result fell outside the fixed-width value type.
    Overflow,
    /// A call named a function slot the table does not define, or handed it
    /// the wrong number of arguments.
    UnresolvedReference,
    /// The nested-call depth budget ran out: the language's stand-in for
    /// stack exhaustion on unbounded recursion.
    DepthExceeded,
}

/// A literal value; evaluates to itself without touching the store.
#[derive(Debug)]
pub struct Const {
    pub value: i64,
}

/// A variable read; an id that was never written reads as 0.
#[derive(Debug)]
pub struct GetVar {
    pub id: u64,
}

/// A variable write: evaluates `expr`, stores the result at `id`, and yields
/// that result (assignment is itself an expression).
#[derive(Debug)]
pub struct SetVar {
    pub id: u64,
    pub expr: Box<Node>,
}

/// An arithmetic or bitwise node: both operands evaluated, left to right.
#[derive(Debug)]
pub struct Binary {
    pub op: ArithOp,
    pub lhs: Box<Node>,
    pub rhs: Box<Node>,
}

/// A comparison node: both operands evaluated, left to right; yields 1 or 0.
#[derive(Debug)]
pub struct Compare {
    pub op: CmpOp,
    pub lhs: Box<Node>,
    pub rhs: Box<Node>,
}

/// Conjunction over the truthy test `value > 0`.  Deliberately
/// non-short-circuiting: both operands are always evaluated.
#[derive(Debug)]
pub struct And {
    pub lhs: Box<Node>,
    pub rhs: Box<Node>,
}

/// Disjunction over the truthy test `value > 0`.  Deliberately
/// non-short-circuiting: both operands are always evaluated.
#[derive(Debug)]
pub struct Or {
    pub lhs: Box<Node>,
    pub rhs: Box<Node>,
}

/// Sequencing: evaluates `first`, discards its value, then evaluates `rest`
/// and yields its value.  A statement list is a right-nested chain of these.
#[derive(Debug)]
pub struct Chain {
    pub first: Box<Node>,
    pub rest: Box<Node>,
}

/// Branching, the one short-circuiting construct: evaluates `cond`, then
/// exactly one of the two branches (`then_branch` when `cond > 0`).
#[derive(Debug)]
pub struct IfElse {
    pub cond: Box<Node>,
    pub then_branch: Box<Node>,
    pub else_branch: Box<Node>,
}

/// Bounded iteration: evaluates `from` and `to` once each, then runs `body`
/// for each value of `id` in `[from, to)` in ascending order, and yields 0.
/// The loop variable lives in the same store as every other variable.
#[derive(Debug)]
pub struct Range {
    pub id: u64,
    pub from: Box<Node>,
    pub to: Box<Node>,
    pub body: Box<Node>,
}

/// A call of function slot `target` in the table.  The arguments are
/// evaluated against the caller's store, in order; the body then runs in a
/// brand-new store holding only the bound parameters.
#[derive(Debug)]
pub struct Call {
    pub target: usize,
    pub args: Vec<Node>,
}

/// An expression of the language: one tag per construct.
#[derive(Debug)]
pub enum Node {
    Const(Const),
    GetVar(GetVar),
    SetVar(SetVar),
    Binary(Binary),
    Compare(Compare),
    And(And),
    Or(Or),
    Chain(Chain),
    IfElse(IfElse),
    Range(Range),
    Call(Call),
}

/// A user-defined function: the formal parameter slots, in binding order, and
/// the body.  Defined once at program construction, never mutated; a body may
/// call any slot of the table, including its own (recursion).
#[derive(Debug)]
pub struct FunctionDef {
    pub params: Vec<u64>,
    pub body: Node,
}

} // verus!

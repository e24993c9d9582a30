//! A tiny imperative expression language and its verified evaluator.
//!
//! Programs are immutable trees of [`Node`]s: constants, variable reads and
//! writes, arithmetic, bitwise, comparison and logical operators, sequencing,
//! branching, bounded iteration, and calls into a table of user-defined
//! functions.  Evaluation runs against a mutable integer store
//! ([`Environment`]); each function call owns a brand-new, empty store, so the
//! callee sees nothing of the caller's variables beyond its bound parameters.
//!
//! The meaning of every construct is pinned down by the specification
//! functions in [`semantics`]; the executable evaluator in [`eval`] is proved
//! to return exactly what those functions say.  [`laws`] states and proves the
//! general facts of the language: operators evaluate both operands, branches
//! evaluate exactly one, loops return zero, calls are isolated.

pub mod ast;
pub mod env;
pub mod semantics;
pub mod eval;
pub mod laws;

pub use ast::ArithOp;
pub use ast::And;
pub use ast::Binary;
pub use ast::Call;
pub use ast::Chain;
pub use ast::CmpOp;
pub use ast::Compare;
pub use ast::Const;
pub use ast::EvalError;
pub use ast::FunctionDef;
pub use ast::GetVar;
pub use ast::IfElse;
pub use ast::Node;
pub use ast::Or;
pub use ast::Range;
pub use ast::SetVar;
pub use env::Environment;
pub use eval::run;

//! The meaning of the language, as specification functions.
//!
//! [`eval`] gives every node a result — a value and the store it leaves
//! behind, or a fatal error — by a strict post-order walk of the tree.  The
//! `fuel` argument bounds the depth of nested function calls and only ever
//! shrinks at a call, so a program without calls evaluates the same under any
//! fuel; when the budget runs out the run fails with
//! [`EvalError::DepthExceeded`], the specification's rendering of stack
//! exhaustion on unbounded recursion.

use crate::ast::ArithOp;
use crate::ast::CmpOp;
use crate::ast::EvalError;
use crate::ast::FunctionDef;
use crate::ast::Node;
use crate::env::lookup;
use vstd::prelude::*;

verus! {

/// The truthy convention: a value counts as true exactly when it is
/// positive.
pub open spec fn truthy(v: i64) -> bool {
    v > 0
}

/// The integer a comparison or logical node yields: 1 for true, 0 for false.
pub open spec fn flag(b: bool) -> i64 {
    if b {
        1
    } else {
        0
    }
}

/// Whether the comparison denoted by `op` holds of the operand values.
pub open spec fn cmp_holds(op: CmpOp, l: i64, r: i64) -> bool {
    match op {
        CmpOp::Gt => l > r,
        CmpOp::Lt => l < r,
        CmpOp::Gte => l >= r,
        CmpOp::Lte => l <= r,
        CmpOp::Equ => l == r,
    }
}

/// Signed division truncating toward zero, for `d != 0`: the quotient of the
/// magnitudes, negated when the signs differ.  (The `/` of mathematical
/// integers rounds toward negative infinity, so the negative cases are
/// phrased over magnitudes.)
pub open spec fn div_trunc(x: int, d: int) -> int
    recommends
        d != 0,
{
    if x == 0 {
        0
    } else if x > 0 && d > 0 {
        x / d
    } else if x < 0 && d < 0 {
        (x * -1) / (d * -1)
    } else if x < 0 {
        ((x * -1) / d) * -1
    } else {
        (x / (d * -1)) * -1
    }
}

/// An exact result when it fits the fixed-width value type, else the fatal
/// overflow error: the consistent arithmetic policy of this evaluator.
pub open spec fn fitted(v: int) -> Result<i64, EvalError> {
    if i64::MIN <= v <= i64::MAX {
        Ok(v as i64)
    } else {
        Err(EvalError::Overflow)
    }
}

/// What an arithmetic or bitwise node computes from its two operand values.
pub open spec fn apply_arith(op: ArithOp, l: i64, r: i64) -> Result<i64, EvalError> {
    match op {
        ArithOp::Add => fitted(l + r),
        ArithOp::Sub => fitted(l - r),
        ArithOp::Mul => fitted(l * r),
        ArithOp::Div => if r == 0 {
            Err(EvalError::DivisionByZero)
        } else {
            fitted(div_trunc(l as int, r as int))
        },
        ArithOp::BitAnd => Ok(l & r),
        ArithOp::BitOr => Ok(l | r),
    }
}

/// The store a call hands its callee: empty but for the formals, each bound
/// to the matching argument value, in declaration order (with a repeated
/// formal, the later slot wins).
pub open spec fn bind(params: Seq<u64>, vals: Seq<i64>) -> Map<u64, i64>
    recommends
        params.len() == vals.len(),
    decreases params.len(),
{
    if params.len() == 0 {
        Map::empty()
    } else {
        bind(params.drop_last(), vals.drop_last()).insert(params.last(), vals.last())
    }
}

/// The result of evaluating `n` against store `env`: the node's value and
/// the store it leaves behind, or the error that aborts the run.
pub open spec fn eval(defs: Seq<FunctionDef>, fuel: nat, n: Node, env: Map<u64, i64>) -> Result<
    (i64, Map<u64, i64>),
    EvalError,
>
    decreases fuel, n, 0int,
{
    match n {
        Node::Const(c) => Ok((c.value, env)),
        Node::GetVar(g) => Ok((lookup(env, g.id), env)),
        Node::SetVar(s) => match eval(defs, fuel, *s.expr, env) {
            Ok((v, env1)) => Ok((v, env1.insert(s.id, v))),
            Err(e) => Err(e),
        },
        Node::Binary(b) => match eval(defs, fuel, *b.lhs, env) {
            Ok((l, env1)) => match eval(defs, fuel, *b.rhs, env1) {
                Ok((r, env2)) => match apply_arith(b.op, l, r) {
                    Ok(v) => Ok((v, env2)),
                    Err(e) => Err(e),
                },
                Err(e) => Err(e),
            },
            Err(e) => Err(e),
        },
        Node::Compare(c) => match eval(defs, fuel, *c.lhs, env) {
            Ok((l, env1)) => match eval(defs, fuel, *c.rhs, env1) {
                Ok((r, env2)) => Ok((flag(cmp_holds(c.op, l, r)), env2)),
                Err(e) => Err(e),
            },
            Err(e) => Err(e),
        },
        Node::And(a) => match eval(defs, fuel, *a.lhs, env) {
            Ok((l, env1)) => match eval(defs, fuel, *a.rhs, env1) {
                Ok((r, env2)) => Ok((flag(truthy(l) && truthy(r)), env2)),
                Err(e) => Err(e),
            },
            Err(e) => Err(e),
        },
        Node::Or(o) => match eval(defs, fuel, *o.lhs, env) {
            Ok((l, env1)) => match eval(defs, fuel, *o.rhs, env1) {
                Ok((r, env2)) => Ok((flag(truthy(l) || truthy(r)), env2)),
                Err(e) => Err(e),
            },
            Err(e) => Err(e),
        },
        Node::Chain(s) => match eval(defs, fuel, *s.first, env) {
            Ok((_, env1)) => eval(defs, fuel, *s.rest, env1),
            Err(e) => Err(e),
        },
        Node::IfElse(i) => match eval(defs, fuel, *i.cond, env) {
            Ok((c, env1)) => if truthy(c) {
                eval(defs, fuel, *i.then_branch, env1)
            } else {
                eval(defs, fuel, *i.else_branch, env1)
            },
            Err(e) => Err(e),
        },
        Node::Range(r) => match eval(defs, fuel, *r.from, env) {
            Ok((lo, env1)) => match eval(defs, fuel, *r.to, env1) {
                Ok((hi, env2)) => eval_range(defs, fuel, r.id, lo, hi, *r.body, env2),
                Err(e) => Err(e),
            },
            Err(e) => Err(e),
        },
        Node::Call(c) => if c.target >= defs.len() || c.args@.len() != defs[
            c.target as int
        ].params@.len() {
            Err(EvalError::UnresolvedReference)
        } else if fuel == 0 {
            Err(EvalError::DepthExceeded)
        } else {
            match eval_args(defs, fuel, c.args@, env) {
                Ok((vals, env1)) => match eval(
                    defs,
                    (fuel - 1) as nat,
                    defs[c.target as int].body,
                    bind(defs[c.target as int].params@, vals),
                ) {
                    Ok((v, _)) => Ok((v, env1)),
                    Err(e) => Err(e),
                },
                Err(e) => Err(e),
            }
        },
    }
}

/// The values of a call's argument list, evaluated left to right against the
/// caller's store, together with the store they leave behind.
pub open spec fn eval_args(
    defs: Seq<FunctionDef>,
    fuel: nat,
    args: Seq<Node>,
    env: Map<u64, i64>,
) -> Result<(Seq<i64>, Map<u64, i64>), EvalError>
    decreases fuel, args, 0int,
{
    if args.len() == 0 {
        Ok((Seq::empty(), env))
    } else {
        match eval(defs, fuel, args[0], env) {
            Ok((v, env1)) => match eval_args(defs, fuel, args.subrange(1, args.len() as int), env1) {
                Ok((vs, env2)) => Ok((seq![v] + vs, env2)),
                Err(e) => Err(e),
            },
            Err(e) => Err(e),
        }
    }
}

/// The iterations a `Range` node still owes once its bounds are known: for
/// each `i` in `[lo, hi)` in ascending order, set the loop variable to `i`
/// and run the body for its effect; the node's own value is always 0.
pub open spec fn eval_range(
    defs: Seq<FunctionDef>,
    fuel: nat,
    id: u64,
    lo: i64,
    hi: i64,
    body: Node,
    env: Map<u64, i64>,
) -> Result<(i64, Map<u64, i64>), EvalError>
    decreases fuel, body, hi - lo,
{
    if lo >= hi {
        Ok((0, env))
    } else {
        match eval(defs, fuel, body, env.insert(id, lo)) {
            Ok((_, env1)) => eval_range(defs, fuel, id, (lo + 1) as i64, hi, body, env1),
            Err(e) => Err(e),
        }
    }
}

/// Whether every call in `n` names a slot the table defines, with as many
/// arguments as the slot has formals.
pub open spec fn resolved(defs: Seq<FunctionDef>, n: Node) -> bool
    decreases n, 0int,
{
    match n {
        Node::Const(_) => true,
        Node::GetVar(_) => true,
        Node::SetVar(s) => resolved(defs, *s.expr),
        Node::Binary(b) => resolved(defs, *b.lhs) && resolved(defs, *b.rhs),
        Node::Compare(c) => resolved(defs, *c.lhs) && resolved(defs, *c.rhs),
        Node::And(a) => resolved(defs, *a.lhs) && resolved(defs, *a.rhs),
        Node::Or(o) => resolved(defs, *o.lhs) && resolved(defs, *o.rhs),
        Node::Chain(s) => resolved(defs, *s.first) && resolved(defs, *s.rest),
        Node::IfElse(i) => resolved(defs, *i.cond) && resolved(defs, *i.then_branch) && resolved(
            defs,
            *i.else_branch,
        ),
        Node::Range(r) => resolved(defs, *r.from) && resolved(defs, *r.to) && resolved(
            defs,
            *r.body,
        ),
        Node::Call(c) => c.target < defs.len() && c.args@.len() == defs[
            c.target as int
        ].params@.len() && resolved_all(defs, c.args@),
    }
}

/// [`resolved`], over every node of an argument list.
pub open spec fn resolved_all(defs: Seq<FunctionDef>, args: Seq<Node>) -> bool
    decreases args, 0int,
{
    args.len() == 0 || (resolved(defs, args[0]) && resolved_all(
        defs,
        args.subrange(1, args.len() as int),
    ))
}

/// An argument list resolves exactly when each of its nodes does.
pub proof fn lemma_resolved_all_iff(defs: Seq<FunctionDef>, args: Seq<Node>)
    ensures
        resolved_all(defs, args) <==> (forall|j: int|
            0 <= j < args.len() ==> resolved(defs, #[trigger] args[j])),
    decreases args.len(),
{
    if args.len() > 0 {
        let rest = args.subrange(1, args.len() as int);
        lemma_resolved_all_iff(defs, rest);
        if resolved_all(defs, args) {
            assert forall|j: int| 0 <= j < args.len() implies resolved(
                defs,
                #[trigger] args[j],
            ) by {
                if j > 0 {
                    assert(args[j] == rest[j - 1]);
                    assert(resolved(defs, rest[j - 1]));
                }
            }
        }
        if forall|j: int| 0 <= j < args.len() ==> resolved(defs, #[trigger] args[j]) {
            assert(resolved(defs, args[0]));
            assert forall|j: int| 0 <= j < rest.len() implies resolved(
                defs,
                #[trigger] rest[j],
            ) by {
                assert(rest[j] == args[j + 1]);
            }
            assert(resolved_all(defs, rest));
        }
    }
}

/// Whether the whole program is well formed: the root and every function
/// body resolve all their references.  A builder must establish this before
/// evaluation begins.
pub open spec fn program_resolved(defs: Seq<FunctionDef>, root: Node) -> bool {
    resolved(defs, root) && (forall|i: int|
        0 <= i < defs.len() ==> resolved(defs, #[trigger] defs[i].body))
}

/// What a whole run returns: the unresolved-reference rejection before any
/// evaluation, else the root's value in a fresh store.
pub open spec fn run_result(defs: Seq<FunctionDef>, root: Node, fuel: nat) -> Result<
    i64,
    EvalError,
> {
    if !program_resolved(defs, root) {
        Err(EvalError::UnresolvedReference)
    } else {
        match eval(defs, fuel, root, Map::empty()) {
            Ok((v, _)) => Ok(v),
            Err(e) => Err(e),
        }
    }
}

} // verus!

//! The general facts of the language, stated once and proved for every
//! store, every function table, and every fuel budget.
//!
//! Scenario-sized checks (a particular program and its value) live in the
//! test suite; what stands here is what holds universally: operator nodes on
//! constants compute the mathematical operation, comparisons yield only the
//! two flag values, `And`/`Or` evaluate both operands, `IfElse` evaluates
//! exactly one branch, `Range` always yields zero, writes round-trip through
//! reads, and a call is isolated from its caller's variables.

use crate::ast::ArithOp;
use crate::ast::Const;
use crate::ast::EvalError;
use crate::ast::FunctionDef;
use crate::ast::GetVar;
use crate::ast::Node;
use crate::env::lookup;
use crate::semantics::bind;
use crate::semantics::div_trunc;
use crate::semantics::eval;
use crate::semantics::eval_args;
use crate::semantics::eval_range;
use crate::semantics::flag;
use crate::semantics::program_resolved;
use crate::semantics::resolved;
use crate::semantics::resolved_all;
use crate::semantics::run_result;
use crate::semantics::truthy;
use vstd::arithmetic::div_mod::lemma_fundamental_div_mod;
use vstd::arithmetic::div_mod::lemma_mod_bound;
use vstd::math::abs;
use vstd::prelude::*;

verus! {

/// Adding two constants yields exactly their sum, in any store, leaving the
/// store untouched, whenever the sum fits the value type.
pub proof fn law_add_consts(
    defs: Seq<FunctionDef>,
    fuel: nat,
    n: Node,
    a: i64,
    b: i64,
    env: Map<u64, i64>,
)
    requires
        n matches Node::Binary(bn) && bn.op == ArithOp::Add && *bn.lhs == Node::Const(
            (Const { value: a }),
        ) && *bn.rhs == Node::Const((Const { value: b })),
        i64::MIN <= a + b <= i64::MAX,
    ensures
        eval(defs, fuel, n, env) == Ok::<(i64, Map<u64, i64>), EvalError>(((a + b) as i64, env)),
{
    let bn = n->Binary_0;
    assert(eval(defs, fuel, *bn.lhs, env) == Ok::<(i64, Map<u64, i64>), EvalError>((a, env)));
    assert(eval(defs, fuel, *bn.rhs, env) == Ok::<(i64, Map<u64, i64>), EvalError>((b, env)));
}

/// Subtracting two constants yields exactly their difference, in any store,
/// whenever the difference fits the value type.
pub proof fn law_sub_consts(
    defs: Seq<FunctionDef>,
    fuel: nat,
    n: Node,
    a: i64,
    b: i64,
    env: Map<u64, i64>,
)
    requires
        n matches Node::Binary(bn) && bn.op == ArithOp::Sub && *bn.lhs == Node::Const(
            (Const { value: a }),
        ) && *bn.rhs == Node::Const((Const { value: b })),
        i64::MIN <= a - b <= i64::MAX,
    ensures
        eval(defs, fuel, n, env) == Ok::<(i64, Map<u64, i64>), EvalError>(((a - b) as i64, env)),
{
    let bn = n->Binary_0;
    assert(eval(defs, fuel, *bn.lhs, env) == Ok::<(i64, Map<u64, i64>), EvalError>((a, env)));
    assert(eval(defs, fuel, *bn.rhs, env) == Ok::<(i64, Map<u64, i64>), EvalError>((b, env)));
}

/// Multiplying two constants yields exactly their product, in any store,
/// whenever the product fits the value type.
pub proof fn law_mul_consts(
    defs: Seq<FunctionDef>,
    fuel: nat,
    n: Node,
    a: i64,
    b: i64,
    env: Map<u64, i64>,
)
    requires
        n matches Node::Binary(bn) && bn.op == ArithOp::Mul && *bn.lhs == Node::Const(
            (Const { value: a }),
        ) && *bn.rhs == Node::Const((Const { value: b })),
        i64::MIN <= a * b <= i64::MAX,
    ensures
        eval(defs, fuel, n, env) == Ok::<(i64, Map<u64, i64>), EvalError>(((a * b) as i64, env)),
{
    let bn = n->Binary_0;
    assert(eval(defs, fuel, *bn.lhs, env) == Ok::<(i64, Map<u64, i64>), EvalError>((a, env)));
    assert(eval(defs, fuel, *bn.rhs, env) == Ok::<(i64, Map<u64, i64>), EvalError>((b, env)));
}

/// The bitwise-and of two constants, which can never overflow, yields
/// exactly their bitwise-and in any store.
pub proof fn law_bitand_consts(
    defs: Seq<FunctionDef>,
    fuel: nat,
    n: Node,
    a: i64,
    b: i64,
    env: Map<u64, i64>,
)
    requires
        n matches Node::Binary(bn) && bn.op == ArithOp::BitAnd && *bn.lhs == Node::Const(
            (Const { value: a }),
        ) && *bn.rhs == Node::Const((Const { value: b })),
    ensures
        eval(defs, fuel, n, env) == Ok::<(i64, Map<u64, i64>), EvalError>((a & b, env)),
{
    let bn = n->Binary_0;
    assert(eval(defs, fuel, *bn.lhs, env) == Ok::<(i64, Map<u64, i64>), EvalError>((a, env)));
    assert(eval(defs, fuel, *bn.rhs, env) == Ok::<(i64, Map<u64, i64>), EvalError>((b, env)));
}

/// The bitwise-or of two constants, which can never overflow, yields
/// exactly their bitwise-or in any store.
pub proof fn law_bitor_consts(
    defs: Seq<FunctionDef>,
    fuel: nat,
    n: Node,
    a: i64,
    b: i64,
    env: Map<u64, i64>,
)
    requires
        n matches Node::Binary(bn) && bn.op == ArithOp::BitOr && *bn.lhs == Node::Const(
            (Const { value: a }),
        ) && *bn.rhs == Node::Const((Const { value: b })),
    ensures
        eval(defs, fuel, n, env) == Ok::<(i64, Map<u64, i64>), EvalError>((a | b, env)),
{
    let bn = n->Binary_0;
    assert(eval(defs, fuel, *bn.lhs, env) == Ok::<(i64, Map<u64, i64>), EvalError>((a, env)));
    assert(eval(defs, fuel, *bn.rhs, env) == Ok::<(i64, Map<u64, i64>), EvalError>((b, env)));
}

/// Dividing two constants with a nonzero divisor yields the quotient
/// truncated toward zero, in any store (the one overflowing pair,
/// `i64::MIN / -1`, excepted).
pub proof fn law_div_consts(
    defs: Seq<FunctionDef>,
    fuel: nat,
    n: Node,
    a: i64,
    b: i64,
    env: Map<u64, i64>,
)
    requires
        n matches Node::Binary(bn) && bn.op == ArithOp::Div && *bn.lhs == Node::Const(
            (Const { value: a }),
        ) && *bn.rhs == Node::Const((Const { value: b })),
        b != 0,
        !(a == i64::MIN && b == -1),
    ensures
        eval(defs, fuel, n, env) == Ok::<(i64, Map<u64, i64>), EvalError>(
            (div_trunc(a as int, b as int) as i64, env),
        ),
{
    let bn = n->Binary_0;
    assert(eval(defs, fuel, *bn.lhs, env) == Ok::<(i64, Map<u64, i64>), EvalError>((a, env)));
    assert(eval(defs, fuel, *bn.rhs, env) == Ok::<(i64, Map<u64, i64>), EvalError>((b, env)));
    lemma_div_trunc_in_range(a, b);
}

/// Division by zero is the fatal error, never a value: a `Div` node whose
/// divisor operand evaluates to 0 aborts the run, whatever the dividend.
pub proof fn law_div_by_zero(
    defs: Seq<FunctionDef>,
    fuel: nat,
    n: Node,
    env: Map<u64, i64>,
    l: i64,
    env1: Map<u64, i64>,
    env2: Map<u64, i64>,
)
    requires
        n is Binary,
        n->Binary_0.op == ArithOp::Div,
        eval(defs, fuel, *n->Binary_0.lhs, env) == Ok::<(i64, Map<u64, i64>), EvalError>((l, env1)),
        eval(defs, fuel, *n->Binary_0.rhs, env1) == Ok::<(i64, Map<u64, i64>), EvalError>(
            (0i64, env2),
        ),
    ensures
        eval(defs, fuel, n, env) == Err::<(i64, Map<u64, i64>), EvalError>(
            EvalError::DivisionByZero,
        ),
{
}

/// For a nonzero divisor, the quotient [`div_trunc`] picks is the one of
/// division truncating toward zero: the remainder it leaves has magnitude
/// below the divisor's and never opposes the dividend's sign.
pub proof fn lemma_div_trunc_truncates(a: int, b: int)
    requires
        b != 0,
    ensures
        abs(a - b * div_trunc(a, b)) < abs(b),
        a >= 0 ==> a - b * div_trunc(a, b) >= 0,
        a <= 0 ==> a - b * div_trunc(a, b) <= 0,
{
    if a == 0 {
        assert(a - b * div_trunc(a, b) == 0) by (nonlinear_arith)
            requires
                div_trunc(a, b) == 0,
                a == 0,
        ;
    } else if a > 0 && b > 0 {
        let k = a / b;
        lemma_fundamental_div_mod(a, b);
        lemma_mod_bound(a, b);
        assert(a - b * k == a % b);
    } else if a < 0 && b < 0 {
        let p = a * -1;
        let q = b * -1;
        let k = p / q;
        lemma_fundamental_div_mod(p, q);
        lemma_mod_bound(p, q);
        assert(a - b * k == -(p % q)) by (nonlinear_arith)
            requires
                p == q * k + p % q,
                p == a * -1,
                q == b * -1,
        ;
    } else if a < 0 {
        let p = a * -1;
        let k = p / b;
        lemma_fundamental_div_mod(p, b);
        lemma_mod_bound(p, b);
        assert(div_trunc(a, b) == k * -1);
        assert(a - b * (k * -1) == -(p % b)) by (nonlinear_arith)
            requires
                p == b * k + p % b,
                p == a * -1,
        ;
    } else {
        let q = b * -1;
        let k = a / q;
        lemma_fundamental_div_mod(a, q);
        lemma_mod_bound(a, q);
        assert(div_trunc(a, b) == k * -1);
        assert(a - b * (k * -1) == a % q) by (nonlinear_arith)
            requires
                a == q * k + a % q,
                q == b * -1,
        ;
    }
}

/// For `i64` operands with a nonzero divisor, the truncated quotient
/// overflows the value type only for `i64::MIN / -1`.
pub proof fn lemma_div_trunc_in_range(a: i64, b: i64)
    requires
        b != 0,
        !(a == i64::MIN && b == -1),
    ensures
        i64::MIN <= div_trunc(a as int, b as int) <= i64::MAX,
{
    let x = a as int;
    let d = b as int;
    if x == 0 {
    } else if x > 0 && d > 0 {
        lemma_div_nonneg_le(x, d);
    } else if x < 0 && d < 0 {
        lemma_div_nonneg_le(x * -1, d * -1);
        if d * -1 == 1 {
            assert(x * -1 == (x * -1) / 1);
        } else {
            lemma_div_shrinks(x * -1, d * -1);
        }
    } else if x < 0 {
        lemma_div_nonneg_le(x * -1, d);
    } else {
        lemma_div_nonneg_le(x, d * -1);
    }
}

/// Dividing a non-negative integer by a positive one never grows it.
proof fn lemma_div_nonneg_le(p: int, q: int)
    requires
        p >= 0,
        q > 0,
    ensures
        0 <= p / q <= p,
{
    lemma_fundamental_div_mod(p, q);
    lemma_mod_bound(p, q);
    assert(0 <= p / q <= p) by (nonlinear_arith)
        requires
            p == q * (p / q) + p % q,
            0 <= p % q < q,
            p >= 0,
            q > 0,
    ;
}

/// Dividing a non-negative integer by at least 2 strictly shrinks a
/// positive dividend.
proof fn lemma_div_shrinks(p: int, q: int)
    requires
        p > 0,
        q >= 2,
    ensures
        p / q < p,
{
    lemma_fundamental_div_mod(p, q);
    lemma_mod_bound(p, q);
    assert(p / q < p) by (nonlinear_arith)
        requires
            p == q * (p / q) + p % q,
            0 <= p % q < q,
            p > 0,
            q >= 2,
    ;
}

/// A comparison node never yields anything but the two flag values 1 and 0,
/// whatever its operands evaluate to — equal operands included.
pub proof fn law_compare_yields_flag(defs: Seq<FunctionDef>, fuel: nat, n: Node, env: Map<u64, i64>)
    requires
        n is Compare,
    ensures
        (match eval(defs, fuel, n, env) {
            Ok(res) => res.0 == 0 || res.0 == 1,
            Err(_) => true,
        }),
{
    let cn = n->Compare_0;
    if let Ok((l, env1)) = eval(defs, fuel, *cn.lhs, env) {
        if let Ok((r, env2)) = eval(defs, fuel, *cn.rhs, env1) {
            assert(eval(defs, fuel, n, env) matches Ok(res) && (res.0 == 0 || res.0 == 1));
        }
    }
}

/// `And` evaluates both operands, left to right, even when the left one
/// already decides the outcome: the store the node leaves is the one the
/// right operand left, and the value is the flag of the truthy conjunction.
pub proof fn law_and_evaluates_both(
    defs: Seq<FunctionDef>,
    fuel: nat,
    n: Node,
    env: Map<u64, i64>,
    l: i64,
    env1: Map<u64, i64>,
    r: i64,
    env2: Map<u64, i64>,
)
    requires
        n is And,
        eval(defs, fuel, *n->And_0.lhs, env) == Ok::<(i64, Map<u64, i64>), EvalError>((l, env1)),
        eval(defs, fuel, *n->And_0.rhs, env1) == Ok::<(i64, Map<u64, i64>), EvalError>((r, env2)),
    ensures
        eval(defs, fuel, n, env) == Ok::<(i64, Map<u64, i64>), EvalError>(
            (flag(truthy(l) && truthy(r)), env2),
        ),
{
}

/// `Or` evaluates both operands, left to right, even when the left one
/// already decides the outcome: the store the node leaves is the one the
/// right operand left, and the value is the flag of the truthy disjunction.
pub proof fn law_or_evaluates_both(
    defs: Seq<FunctionDef>,
    fuel: nat,
    n: Node,
    env: Map<u64, i64>,
    l: i64,
    env1: Map<u64, i64>,
    r: i64,
    env2: Map<u64, i64>,
)
    requires
        n is Or,
        eval(defs, fuel, *n->Or_0.lhs, env) == Ok::<(i64, Map<u64, i64>), EvalError>((l, env1)),
        eval(defs, fuel, *n->Or_0.rhs, env1) == Ok::<(i64, Map<u64, i64>), EvalError>((r, env2)),
    ensures
        eval(defs, fuel, n, env) == Ok::<(i64, Map<u64, i64>), EvalError>(
            (flag(truthy(l) || truthy(r)), env2),
        ),
{
}

/// `IfElse` evaluates exactly one branch: once the condition's value is
/// known, the node's whole result is the taken branch's result, and the
/// untaken branch contributes nothing — not even a store effect.
pub proof fn law_if_else_single_branch(
    defs: Seq<FunctionDef>,
    fuel: nat,
    n: Node,
    env: Map<u64, i64>,
    c: i64,
    env1: Map<u64, i64>,
)
    requires
        n is IfElse,
        eval(defs, fuel, *n->IfElse_0.cond, env) == Ok::<(i64, Map<u64, i64>), EvalError>(
            (c, env1),
        ),
    ensures
        truthy(c) ==> eval(defs, fuel, n, env) == eval(defs, fuel, *n->IfElse_0.then_branch, env1),
        !truthy(c) ==> eval(defs, fuel, n, env) == eval(defs, fuel, *n->IfElse_0.else_branch, env1),
{
}

/// A `Range` whose bounds came out with `from >= to` performs no iteration:
/// it yields 0 and leaves the store exactly as the bounds left it.
pub proof fn law_range_empty(
    defs: Seq<FunctionDef>,
    fuel: nat,
    n: Node,
    env: Map<u64, i64>,
    lo: i64,
    env1: Map<u64, i64>,
    hi: i64,
    env2: Map<u64, i64>,
)
    requires
        n is Range,
        eval(defs, fuel, *n->Range_0.from, env) == Ok::<(i64, Map<u64, i64>), EvalError>(
            (lo, env1),
        ),
        eval(defs, fuel, *n->Range_0.to, env1) == Ok::<(i64, Map<u64, i64>), EvalError>(
            (hi, env2),
        ),
        lo >= hi,
    ensures
        eval(defs, fuel, n, env) == Ok::<(i64, Map<u64, i64>), EvalError>((0i64, env2)),
{
    let rn = n->Range_0;
    assert(eval(defs, fuel, n, env) == eval_range(defs, fuel, rn.id, lo, hi, *rn.body, env2));
    assert(eval_range(defs, fuel, rn.id, lo, hi, *rn.body, env2) == Ok::<
        (i64, Map<u64, i64>),
        EvalError,
    >((0i64, env2)));
}

/// Each pending `Range` iteration runs in order: with `lo < hi` the loop
/// variable is set to `lo`, the body runs for its effect, and the remaining
/// iterations continue from `lo + 1` in the store the body left.
pub proof fn law_range_step(
    defs: Seq<FunctionDef>,
    fuel: nat,
    id: u64,
    lo: i64,
    hi: i64,
    body: Node,
    env: Map<u64, i64>,
)
    requires
        lo < hi,
    ensures
        eval_range(defs, fuel, id, lo, hi, body, env) == (match eval(
            defs,
            fuel,
            body,
            env.insert(id, lo),
        ) {
            Ok(res) => eval_range(defs, fuel, id, (lo + 1) as i64, hi, body, res.1),
            Err(e) => Err(e),
        }),
{
}

/// However many iterations a `Range` performs, its own value is always 0.
pub proof fn law_range_yields_zero(defs: Seq<FunctionDef>, fuel: nat, n: Node, env: Map<u64, i64>)
    requires
        n is Range,
    ensures
        (match eval(defs, fuel, n, env) {
            Ok(res) => res.0 == 0,
            Err(_) => true,
        }),
{
    let rn = n->Range_0;
    if let Ok((lo, env1)) = eval(defs, fuel, *rn.from, env) {
        if let Ok((hi, env2)) = eval(defs, fuel, *rn.to, env1) {
            lemma_range_yields_zero(defs, fuel, rn.id, lo, hi, *rn.body, env2);
        }
    }
}

/// The pending iterations of a `Range`, however many, always come out 0.
proof fn lemma_range_yields_zero(
    defs: Seq<FunctionDef>,
    fuel: nat,
    id: u64,
    lo: i64,
    hi: i64,
    body: Node,
    env: Map<u64, i64>,
)
    ensures
        (match eval_range(defs, fuel, id, lo, hi, body, env) {
            Ok(res) => res.0 == 0,
            Err(_) => true,
        }),
    decreases hi - lo,
{
    if lo < hi {
        if let Ok((_, env1)) = eval(defs, fuel, body, env.insert(id, lo)) {
            lemma_range_yields_zero(defs, fuel, id, (lo + 1) as i64, hi, body, env1);
        }
    }
}

/// A write followed by a read of the same id, in the same store,
/// round-trips the written value; the store remembers exactly that write.
pub proof fn law_set_then_get(
    defs: Seq<FunctionDef>,
    fuel: nat,
    n: Node,
    env: Map<u64, i64>,
    v: i64,
    env1: Map<u64, i64>,
)
    requires
        n is SetVar,
        eval(defs, fuel, n, env) == Ok::<(i64, Map<u64, i64>), EvalError>((v, env1)),
    ensures
        lookup(env1, n->SetVar_0.id) == v,
        eval(defs, fuel, Node::GetVar((GetVar { id: n->SetVar_0.id })), env1) == Ok::<
            (i64, Map<u64, i64>),
            EvalError,
        >((v, env1)),
{
    let sn = n->SetVar_0;
    if let Ok((w, envw)) = eval(defs, fuel, *sn.expr, env) {
        assert(env1 == envw.insert(sn.id, w));
    }
}

/// Reading an id that was never written yields 0 and changes nothing.
pub proof fn law_get_unwritten(
    defs: Seq<FunctionDef>,
    fuel: nat,
    id: u64,
    env: Map<u64, i64>,
)
    requires
        !env.dom().contains(id),
    ensures
        eval(defs, fuel, Node::GetVar((GetVar { id })), env) == Ok::<
            (i64, Map<u64, i64>),
            EvalError,
        >((0i64, env)),
{
}

/// The store a call hands its callee holds the formals and nothing else:
/// no caller variable is visible in it.
pub proof fn law_bind_domain(params: Seq<u64>, vals: Seq<i64>)
    requires
        params.len() == vals.len(),
    ensures
        bind(params, vals).dom() == params.to_set(),
    decreases params.len(),
{
    if params.len() == 0 {
        assert(bind(params, vals).dom() =~= params.to_set());
    } else {
        law_bind_domain(params.drop_last(), vals.drop_last());
        assert forall|x: u64| params.to_set().contains(x) implies bind(
            params,
            vals,
        ).dom().contains(x) by {
            let i = choose|i: int| 0 <= i < params.len() && params[i] == x;
            if i < params.len() - 1 {
                assert(params.drop_last()[i] == x);
                assert(params.drop_last().to_set().contains(x));
            }
        }
        assert forall|x: u64| bind(params, vals).dom().contains(x) implies params.to_set().contains(
            x,
        ) by {
            if x == params.last() {
                assert(params[params.len() - 1] == x);
            } else {
                assert(params.drop_last().to_set().contains(x));
                let i = choose|i: int|
                    0 <= i < params.drop_last().len() && params.drop_last()[i] == x;
                assert(params[i] == x);
            }
        }
        assert(bind(params, vals).dom() =~= params.to_set());
    }
}

/// A call is isolated from its caller: the arguments run against the
/// caller's store, the body runs against a brand-new store holding only the
/// bound formals, and the caller's store after the call is exactly what the
/// argument evaluation left — the callee can neither observe nor mutate any
/// caller variable.
pub proof fn law_call_isolation(
    defs: Seq<FunctionDef>,
    fuel: nat,
    n: Node,
    env: Map<u64, i64>,
    vals: Seq<i64>,
    env1: Map<u64, i64>,
)
    requires
        n is Call,
        n->Call_0.target < defs.len(),
        n->Call_0.args@.len() == defs[n->Call_0.target as int].params@.len(),
        fuel > 0,
        eval_args(defs, fuel, n->Call_0.args@, env) == Ok::<(Seq<i64>, Map<u64, i64>), EvalError>(
            (vals, env1),
        ),
    ensures
        (match eval(
            defs,
            (fuel - 1) as nat,
            defs[n->Call_0.target as int].body,
            bind(defs[n->Call_0.target as int].params@, vals),
        ) {
            Ok(res) => eval(defs, fuel, n, env) == Ok::<(i64, Map<u64, i64>), EvalError>(
                (res.0, env1),
            ),
            Err(e) => eval(defs, fuel, n, env) == Err::<(i64, Map<u64, i64>), EvalError>(e),
        }),
{
}

/// Unresolved references are a build-time matter: once a program resolves,
/// no evaluation of any of its nodes, under any store and any fuel, can
/// surface the unresolved-reference error.
pub proof fn law_resolved_never_unresolved(
    defs: Seq<FunctionDef>,
    fuel: nat,
    n: Node,
    env: Map<u64, i64>,
)
    requires
        program_resolved(defs, n),
    ensures
        eval(defs, fuel, n, env) != Err::<(i64, Map<u64, i64>), EvalError>(
            EvalError::UnresolvedReference,
        ),
    decreases fuel, n, 0int,
{
    match n {
        Node::Const(_) => {},
        Node::GetVar(_) => {},
        Node::SetVar(s) => {
            law_resolved_never_unresolved(defs, fuel, *s.expr, env);
        },
        Node::Binary(bn) => {
            law_resolved_never_unresolved(defs, fuel, *bn.lhs, env);
            if let Ok((_, env1)) = eval(defs, fuel, *bn.lhs, env) {
                law_resolved_never_unresolved(defs, fuel, *bn.rhs, env1);
            }
        },
        Node::Compare(cn) => {
            law_resolved_never_unresolved(defs, fuel, *cn.lhs, env);
            if let Ok((_, env1)) = eval(defs, fuel, *cn.lhs, env) {
                law_resolved_never_unresolved(defs, fuel, *cn.rhs, env1);
            }
        },
        Node::And(an) => {
            law_resolved_never_unresolved(defs, fuel, *an.lhs, env);
            if let Ok((_, env1)) = eval(defs, fuel, *an.lhs, env) {
                law_resolved_never_unresolved(defs, fuel, *an.rhs, env1);
            }
        },
        Node::Or(on) => {
            law_resolved_never_unresolved(defs, fuel, *on.lhs, env);
            if let Ok((_, env1)) = eval(defs, fuel, *on.lhs, env) {
                law_resolved_never_unresolved(defs, fuel, *on.rhs, env1);
            }
        },
        Node::Chain(sn) => {
            law_resolved_never_unresolved(defs, fuel, *sn.first, env);
            if let Ok((_, env1)) = eval(defs, fuel, *sn.first, env) {
                law_resolved_never_unresolved(defs, fuel, *sn.rest, env1);
            }
        },
        Node::IfElse(ifn) => {
            law_resolved_never_unresolved(defs, fuel, *ifn.cond, env);
            if let Ok((c, env1)) = eval(defs, fuel, *ifn.cond, env) {
                if truthy(c) {
                    law_resolved_never_unresolved(defs, fuel, *ifn.then_branch, env1);
                } else {
                    law_resolved_never_unresolved(defs, fuel, *ifn.else_branch, env1);
                }
            }
        },
        Node::Range(rn) => {
            law_resolved_never_unresolved(defs, fuel, *rn.from, env);
            if let Ok((lo, env1)) = eval(defs, fuel, *rn.from, env) {
                law_resolved_never_unresolved(defs, fuel, *rn.to, env1);
                if let Ok((hi, env2)) = eval(defs, fuel, *rn.to, env1) {
                    lemma_range_never_unresolved(defs, fuel, rn.id, lo, hi, *rn.body, env2);
                }
            }
        },
        Node::Call(cn) => {
            if fuel > 0 {
                lemma_args_never_unresolved(defs, fuel, cn.args@, env);
                if let Ok((vals, _)) = eval_args(defs, fuel, cn.args@, env) {
                    assert(resolved(defs, defs[cn.target as int].body));
                    law_resolved_never_unresolved(
                        defs,
                        (fuel - 1) as nat,
                        defs[cn.target as int].body,
                        bind(defs[cn.target as int].params@, vals),
                    );
                }
            }
        },
    }
}

/// [`law_resolved_never_unresolved`], over an argument list.
proof fn lemma_args_never_unresolved(
    defs: Seq<FunctionDef>,
    fuel: nat,
    args: Seq<Node>,
    env: Map<u64, i64>,
)
    requires
        resolved_all(defs, args),
        forall|i: int| 0 <= i < defs.len() ==> resolved(defs, #[trigger] defs[i].body),
    ensures
        eval_args(defs, fuel, args, env) != Err::<(Seq<i64>, Map<u64, i64>), EvalError>(
            EvalError::UnresolvedReference,
        ),
    decreases fuel, args, 0int,
{
    if args.len() > 0 {
        law_resolved_never_unresolved(defs, fuel, args[0], env);
        if let Ok((_, env1)) = eval(defs, fuel, args[0], env) {
            lemma_args_never_unresolved(defs, fuel, args.subrange(1, args.len() as int), env1);
        }
    }
}

/// [`law_resolved_never_unresolved`], over the pending iterations of a
/// `Range`.
proof fn lemma_range_never_unresolved(
    defs: Seq<FunctionDef>,
    fuel: nat,
    id: u64,
    lo: i64,
    hi: i64,
    body: Node,
    env: Map<u64, i64>,
)
    requires
        resolved(defs, body),
        forall|i: int| 0 <= i < defs.len() ==> resolved(defs, #[trigger] defs[i].body),
    ensures
        eval_range(defs, fuel, id, lo, hi, body, env) != Err::<(i64, Map<u64, i64>), EvalError>(
            EvalError::UnresolvedReference,
        ),
    decreases fuel, body, hi - lo,
{
    if lo < hi {
        law_resolved_never_unresolved(defs, fuel, body, env.insert(id, lo));
        if let Ok((_, env1)) = eval(defs, fuel, body, env.insert(id, lo)) {
            lemma_range_never_unresolved(defs, fuel, id, (lo + 1) as i64, hi, body, env1);
        }
    }
}

/// A whole run fails with the unresolved-reference error exactly when the
/// program does not resolve: the rejection happens before evaluation, and a
/// program past it can no longer meet that error.
pub proof fn law_unresolved_iff_not_resolved(defs: Seq<FunctionDef>, root: Node, fuel: nat)
    ensures
        run_result(defs, root, fuel) == Err::<i64, EvalError>(EvalError::UnresolvedReference)
            <==> !program_resolved(defs, root),
{
    if program_resolved(defs, root) {
        law_resolved_never_unresolved(defs, fuel, root, Map::empty());
    }
}

} // verus!

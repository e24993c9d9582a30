//! The executable evaluator, proved to return exactly what the
//! specification functions in [`crate::semantics`] say.
//!
//! [`run`] is the sole entry point: it rejects a program with unresolved
//! references before any evaluation, then walks the root node against a
//! fresh store.  `fuel` bounds the depth of nested function calls (the
//! machine's stand-in for call-stack capacity); it is spent only when a call
//! enters a function body.

use crate::ast::ArithOp;
use crate::ast::Call;
use crate::ast::CmpOp;
use crate::ast::EvalError;
use crate::ast::FunctionDef;
use crate::ast::Node;
use crate::env::Environment;
use crate::semantics;
use vstd::prelude::*;

verus! {

/// Computes what one arithmetic or bitwise node yields from its operand
/// values, under the checked-arithmetic policy.
pub fn apply_arith(op: ArithOp, l: i64, r: i64) -> (res: Result<i64, EvalError>)
    ensures
        res == semantics::apply_arith(op, l, r),
{
    match op {
        ArithOp::Add => match l.checked_add(r) {
            Some(v) => Ok(v),
            None => Err(EvalError::Overflow),
        },
        ArithOp::Sub => match l.checked_sub(r) {
            Some(v) => Ok(v),
            None => Err(EvalError::Overflow),
        },
        ArithOp::Mul => match l.checked_mul(r) {
            Some(v) => Ok(v),
            None => Err(EvalError::Overflow),
        },
        ArithOp::Div => if r == 0 {
            Err(EvalError::DivisionByZero)
        } else {
            match l.checked_div(r) {
                Some(v) => Ok(v),
                None => Err(EvalError::Overflow),
            }
        },
        ArithOp::BitAnd => Ok(l & r),
        ArithOp::BitOr => Ok(l | r),
    }
}

/// Decides [`semantics::resolved`]: every call below `n` names a defined
/// slot and hands it as many arguments as the slot has formals.
#[verifier::loop_isolation(false)]
pub fn check_resolved(defs: &Vec<FunctionDef>, n: &Node) -> (b: bool)
    ensures
        b == semantics::resolved(defs@, *n),
    decreases *n, 0int,
{
    match n {
        Node::Const(_) => true,
        Node::GetVar(_) => true,
        Node::SetVar(s) => check_resolved(defs, &s.expr),
        Node::Binary(bn) => check_resolved(defs, &bn.lhs) && check_resolved(defs, &bn.rhs),
        Node::Compare(cn) => check_resolved(defs, &cn.lhs) && check_resolved(defs, &cn.rhs),
        Node::And(an) => check_resolved(defs, &an.lhs) && check_resolved(defs, &an.rhs),
        Node::Or(on) => check_resolved(defs, &on.lhs) && check_resolved(defs, &on.rhs),
        Node::Chain(sn) => check_resolved(defs, &sn.first) && check_resolved(defs, &sn.rest),
        Node::IfElse(ifn) => check_resolved(defs, &ifn.cond) && check_resolved(
            defs,
            &ifn.then_branch,
        ) && check_resolved(defs, &ifn.else_branch),
        Node::Range(rn) => check_resolved(defs, &rn.from) && check_resolved(defs, &rn.to)
            && check_resolved(defs, &rn.body),
        Node::Call(cn) => {
            if cn.target >= defs.len() {
                return false;
            }
            if cn.args.len() != defs[cn.target].params.len() {
                return false;
            }
            let mut i: usize = 0;
            while i < cn.args.len()
                invariant
                    0 <= i <= cn.args@.len(),
                    forall|j: int| 0 <= j < i ==> semantics::resolved(defs@, #[trigger] cn.args@[j]),
                decreases cn.args@.len() - i,
            {
                if !check_resolved(defs, &cn.args[i]) {
                    proof {
                        semantics::lemma_resolved_all_iff(defs@, cn.args@);
                    }
                    return false;
                }
                i = i + 1;
            }
            proof {
                semantics::lemma_resolved_all_iff(defs@, cn.args@);
            }
            true
        },
    }
}

/// The iterations a `Range` node owes once its bounds are known: for each
/// value of `id` in `[lo, hi)` in ascending order, run the body for its
/// effect; yields 0 however many iterations there were.
#[verifier::loop_isolation(false)]
fn run_range(
    defs: &Vec<FunctionDef>,
    fuel: u64,
    id: u64,
    lo: i64,
    hi: i64,
    body: &Node,
    env: &mut Environment,
) -> (r: Result<i64, EvalError>)
    ensures
        (match semantics::eval_range(defs@, fuel as nat, id, lo, hi, *body, old(env)@) {
            Ok(res) => r == Ok::<i64, EvalError>(res.0) && final(env)@ == res.1,
            Err(e) => r == Err::<i64, EvalError>(e),
        }),
    decreases fuel, *body, hi - lo + 1,
{
    let ghost env_start = env@;
    let mut i: i64 = lo;
    while i < hi
        invariant
            lo <= i,
            i <= hi || i == lo,
            semantics::eval_range(defs@, fuel as nat, id, i, hi, *body, env@)
                == semantics::eval_range(defs@, fuel as nat, id, lo, hi, *body, env_start),
        decreases hi - i,
    {
        env.set(id, i);
        match eval_node(defs, fuel, body, env) {
            Ok(_) => (),
            Err(e) => return Err(e),
        }
        i = i + 1;
    }
    Ok(0)
}

/// A call: the arguments are evaluated against the caller's store in order,
/// then the body runs against a brand-new store holding only the formals.
/// The caller's store is exactly as the argument evaluation left it; the
/// callee's store is discarded with the call.
#[verifier::loop_isolation(false)]
#[verifier::rlimit(30)]
fn run_call(defs: &Vec<FunctionDef>, fuel: u64, cn: &Call, env: &mut Environment) -> (r: Result<
    i64,
    EvalError,
>)
    ensures
        (match semantics::eval(defs@, fuel as nat, Node::Call(*cn), old(env)@) {
            Ok(res) => r == Ok::<i64, EvalError>(res.0) && final(env)@ == res.1,
            Err(e) => r == Err::<i64, EvalError>(e),
        }),
    decreases fuel, *cn, 0int,
{
    if cn.target >= defs.len() {
        return Err(EvalError::UnresolvedReference);
    }
    if cn.args.len() != defs[cn.target].params.len() {
        return Err(EvalError::UnresolvedReference);
    }
    if fuel == 0 {
        return Err(EvalError::DepthExceeded);
    }
    let ghost env0 = env@;
    let mut vals: Vec<i64> = Vec::new();
    let mut i: usize = 0;
    proof {
        assert(cn.args@.subrange(0, cn.args@.len() as int) =~= cn.args@);
        if let Ok(rest) = semantics::eval_args(defs@, fuel as nat, cn.args@, env0) {
            assert((vals@ + rest.0) =~= rest.0);
        }
    }
    while i < cn.args.len()
        invariant
            0 <= i <= cn.args@.len(),
            vals@.len() == i,
            (match semantics::eval_args(
                defs@,
                fuel as nat,
                cn.args@.subrange(i as int, cn.args@.len() as int),
                env@,
            ) {
                Ok(rest) => semantics::eval_args(defs@, fuel as nat, cn.args@, env0) == Ok::<
                    _,
                    EvalError,
                >((vals@ + rest.0, rest.1)),
                Err(e) => semantics::eval_args(defs@, fuel as nat, cn.args@, env0) == Err::<
                    (Seq<i64>, Map<u64, i64>),
                    EvalError,
                >(e),
            }),
        decreases cn.args@.len() - i,
    {
        let ghost pre = env@;
        let ghost rem = cn.args@.subrange(i as int, cn.args@.len() as int);
        proof {
            assert(rem[0] == cn.args@[i as int]);
        }
        match eval_node(defs, fuel, &cn.args[i], env) {
            Ok(v) => {
                let ghost vprev = vals@;
                vals.push(v);
                i = i + 1;
                proof {
                    let remn = cn.args@.subrange(i as int, cn.args@.len() as int);
                    assert(rem.subrange(1, rem.len() as int) =~= remn);
                    assert(vals@ =~= vprev + seq![v]);
                    if let Ok(restn) = semantics::eval_args(defs@, fuel as nat, remn, env@) {
                        assert((vprev + (seq![v] + restn.0)) =~= (vals@ + restn.0));
                    }
                }
            },
            Err(e) => {
                return Err(e);
            },
        }
    }
    proof {
        assert(cn.args@.subrange(i as int, cn.args@.len() as int) =~= Seq::<Node>::empty());
        assert((vals@ + Seq::<i64>::empty()) =~= vals@);
    }
    let callee = &defs[cn.target];
    let mut callee_env = Environment::fresh();
    let mut j: usize = 0;
    while j < callee.params.len()
        invariant
            0 <= j <= callee.params@.len(),
            vals@.len() == callee.params@.len(),
            callee_env@ == semantics::bind(
                callee.params@.subrange(0, j as int),
                vals@.subrange(0, j as int),
            ),
        decreases callee.params@.len() - j,
    {
        callee_env.set(callee.params[j], vals[j]);
        j = j + 1;
        proof {
            assert(callee.params@.subrange(0, j as int).drop_last() =~= callee.params@.subrange(
                0,
                j - 1,
            ));
            assert(vals@.subrange(0, j as int).drop_last() =~= vals@.subrange(0, j - 1));
        }
    }
    proof {
        assert(callee.params@.subrange(0, j as int) =~= callee.params@);
        assert(vals@.subrange(0, j as int) =~= vals@);
    }
    match eval_node(defs, fuel - 1, &callee.body, &mut callee_env) {
        Ok(v) => Ok(v),
        Err(e) => Err(e),
    }
}

/// Evaluates `n` against `env`, mutating the store exactly as the
/// specification evaluator describes.  On an error the run is aborted and
/// the store left by the partial evaluation carries no promise.
#[verifier::rlimit(100)]
#[verifier::spinoff_prover]
pub fn eval_node(defs: &Vec<FunctionDef>, fuel: u64, n: &Node, env: &mut Environment) -> (r: Result<
    i64,
    EvalError,
>)
    ensures
        (match semantics::eval(defs@, fuel as nat, *n, old(env)@) {
            Ok(res) => r == Ok::<i64, EvalError>(res.0) && final(env)@ == res.1,
            Err(e) => r == Err::<i64, EvalError>(e),
        }),
    decreases fuel, *n, 1int,
{
    match n {
        Node::Const(c) => Ok(c.value),
        Node::GetVar(g) => Ok(env.get(g.id)),
        Node::SetVar(s) => {
            let v = match eval_node(defs, fuel, &s.expr, env) {
                Ok(v) => v,
                Err(e) => return Err(e),
            };
            env.set(s.id, v);
            Ok(v)
        },
        Node::Binary(bn) => {
            let l = match eval_node(defs, fuel, &bn.lhs, env) {
                Ok(v) => v,
                Err(e) => return Err(e),
            };
            let r = match eval_node(defs, fuel, &bn.rhs, env) {
                Ok(v) => v,
                Err(e) => return Err(e),
            };
            apply_arith(bn.op, l, r)
        },
        Node::Compare(cn) => {
            let l = match eval_node(defs, fuel, &cn.lhs, env) {
                Ok(v) => v,
                Err(e) => return Err(e),
            };
            let r = match eval_node(defs, fuel, &cn.rhs, env) {
                Ok(v) => v,
                Err(e) => return Err(e),
            };
            let holds = match cn.op {
                CmpOp::Gt => l > r,
                CmpOp::Lt => l < r,
                CmpOp::Gte => l >= r,
                CmpOp::Lte => l <= r,
                CmpOp::Equ => l == r,
            };
            Ok(
                if holds {
                    1
                } else {
                    0
                },
            )
        },
        Node::And(an) => {
            let l = match eval_node(defs, fuel, &an.lhs, env) {
                Ok(v) => v,
                Err(e) => return Err(e),
            };
            let r = match eval_node(defs, fuel, &an.rhs, env) {
                Ok(v) => v,
                Err(e) => return Err(e),
            };
            Ok(
                if l > 0 && r > 0 {
                    1
                } else {
                    0
                },
            )
        },
        Node::Or(on) => {
            let l = match eval_node(defs, fuel, &on.lhs, env) {
                Ok(v) => v,
                Err(e) => return Err(e),
            };
            let r = match eval_node(defs, fuel, &on.rhs, env) {
                Ok(v) => v,
                Err(e) => return Err(e),
            };
            Ok(
                if l > 0 || r > 0 {
                    1
                } else {
                    0
                },
            )
        },
        Node::Chain(sn) => {
            match eval_node(defs, fuel, &sn.first, env) {
                Ok(_) => (),
                Err(e) => return Err(e),
            }
            eval_node(defs, fuel, &sn.rest, env)
        },
        Node::IfElse(ifn) => {
            let c = match eval_node(defs, fuel, &ifn.cond, env) {
                Ok(v) => v,
                Err(e) => return Err(e),
            };
            if c > 0 {
                eval_node(defs, fuel, &ifn.then_branch, env)
            } else {
                eval_node(defs, fuel, &ifn.else_branch, env)
            }
        },
        Node::Range(rn) => {
            let lo = match eval_node(defs, fuel, &rn.from, env) {
                Ok(v) => v,
                Err(e) => return Err(e),
            };
            let hi = match eval_node(defs, fuel, &rn.to, env) {
                Ok(v) => v,
                Err(e) => return Err(e),
            };
            run_range(defs, fuel, rn.id, lo, hi, &rn.body, env)
        },
        Node::Call(cn) => run_call(defs, fuel, cn, env),
    }
}

/// The sole entry point: rejects a program whose references do not resolve,
/// then evaluates the root node against a fresh store and returns its value.
#[verifier::loop_isolation(false)]
pub fn run(root: &Node, defs: &Vec<FunctionDef>, fuel: u64) -> (r: Result<i64, EvalError>)
    ensures
        r == semantics::run_result(defs@, *root, fuel as nat),
{
    if !check_resolved(defs, root) {
        return Err(EvalError::UnresolvedReference);
    }
    let mut k: usize = 0;
    while k < defs.len()
        invariant
            0 <= k <= defs@.len(),
            forall|i: int| 0 <= i < k ==> semantics::resolved(defs@, #[trigger] defs@[i].body),
        decreases defs@.len() - k,
    {
        if !check_resolved(defs, &defs[k].body) {
            return Err(EvalError::UnresolvedReference);
        }
        k = k + 1;
    }
    let mut env = Environment::fresh();
    match eval_node(defs, fuel, root, &mut env) {
        Ok(v) => Ok(v),
        Err(e) => Err(e),
    }
}

} // verus!

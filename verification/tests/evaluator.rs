use minilang::And;
use minilang::ArithOp;
use minilang::Binary;
use minilang::Call;
use minilang::Chain;
use minilang::CmpOp;
use minilang::Compare;
use minilang::Const;
use minilang::EvalError;
use minilang::FunctionDef;
use minilang::GetVar;
use minilang::IfElse;
use minilang::Node;
use minilang::Or;
use minilang::Range;
use minilang::SetVar;
use minilang::run;

const FUEL: u64 = 64;

fn lit(v: i64) -> Node {
    Node::Const(Const { value: v })
}

fn get_var(id: u64) -> Node {
    Node::GetVar(GetVar { id })
}

fn set_var(id: u64, e: Node) -> Node {
    Node::SetVar(SetVar { id, expr: Box::new(e) })
}

fn bin(op: ArithOp, l: Node, r: Node) -> Node {
    Node::Binary(Binary { op, lhs: Box::new(l), rhs: Box::new(r) })
}

fn cmp(op: CmpOp, l: Node, r: Node) -> Node {
    Node::Compare(Compare { op, lhs: Box::new(l), rhs: Box::new(r) })
}

fn and_both(l: Node, r: Node) -> Node {
    Node::And(And { lhs: Box::new(l), rhs: Box::new(r) })
}

fn or_both(l: Node, r: Node) -> Node {
    Node::Or(Or { lhs: Box::new(l), rhs: Box::new(r) })
}

fn chain(first: Node, rest: Node) -> Node {
    Node::Chain(Chain { first: Box::new(first), rest: Box::new(rest) })
}

fn branch(cond: Node, then_branch: Node, else_branch: Node) -> Node {
    Node::IfElse(IfElse {
        cond: Box::new(cond),
        then_branch: Box::new(then_branch),
        else_branch: Box::new(else_branch),
    })
}

fn loop_range(id: u64, from: Node, to: Node, body: Node) -> Node {
    Node::Range(Range {
        id,
        from: Box::new(from),
        to: Box::new(to),
        body: Box::new(body),
    })
}

fn call_fn(target: usize, args: Vec<Node>) -> Node {
    Node::Call(Call { target, args })
}

fn no_defs() -> Vec<FunctionDef> {
    Vec::new()
}

/// Factorial end to end: a user-defined addition
/// helper, a factorial built from `Range` accumulation, and a branch that
/// picks `Factorial(5)` because addition commutes.
#[test]
fn test_factorial() {
    // AddCustom(a, b) = a + b, formals in slots 1 and 2.
    let add_custom = FunctionDef {
        params: vec![1, 2],
        body: bin(ArithOp::Add, get_var(1), get_var(2)),
    };
    // Factorial(n): slot 2 accumulates, slot 3 iterates 1..n+1.
    let factorial = FunctionDef {
        params: vec![1],
        body: chain(
            set_var(2, lit(1)),
            chain(
                loop_range(
                    3,
                    lit(1),
                    call_fn(0, vec![get_var(1), lit(1)]),
                    set_var(2, bin(ArithOp::Mul, get_var(3), get_var(2))),
                ),
                get_var(2),
            ),
        ),
    };
    let defs = vec![add_custom, factorial];
    let program = chain(
        set_var(1, call_fn(0, vec![lit(6), lit(5)])),
        chain(
            branch(
                cmp(
                    CmpOp::Equ,
                    call_fn(0, vec![lit(6), lit(5)]),
                    bin(ArithOp::Add, lit(5), lit(6)),
                ),
                set_var(1, call_fn(1, vec![lit(5)])),
                set_var(1, call_fn(1, vec![lit(6)])),
            ),
            get_var(1),
        ),
    );
    assert_eq!(run(&program, &defs, FUEL), Ok(120));
}

/// The naive doubly-recursive Fibonacci, with the convention `fib(0) = fib(1) = 1`, so `fib(10) = 89`.
#[test]
fn test_fibonacci() {
    let fibonacci = FunctionDef {
        params: vec![1],
        body: branch(
            cmp(CmpOp::Lt, get_var(1), lit(2)),
            lit(1),
            bin(
                ArithOp::Add,
                call_fn(0, vec![bin(ArithOp::Sub, get_var(1), lit(1))]),
                call_fn(0, vec![bin(ArithOp::Sub, get_var(1), lit(2))]),
            ),
        ),
    };
    let defs = vec![fibonacci];
    let program = call_fn(0, vec![lit(10)]);
    assert_eq!(run(&program, &defs, FUEL), Ok(89));
}

#[test]
fn arithmetic_on_constants() {
    let defs = no_defs();
    assert_eq!(run(&bin(ArithOp::Add, lit(6), lit(5)), &defs, FUEL), Ok(11));
    assert_eq!(run(&bin(ArithOp::Sub, lit(6), lit(9)), &defs, FUEL), Ok(-3));
    assert_eq!(run(&bin(ArithOp::Mul, lit(7), lit(-3)), &defs, FUEL), Ok(-21));
    assert_eq!(run(&bin(ArithOp::BitAnd, lit(12), lit(10)), &defs, FUEL), Ok(8));
    assert_eq!(run(&bin(ArithOp::BitOr, lit(12), lit(10)), &defs, FUEL), Ok(14));
}

#[test]
fn arithmetic_overflow_is_fatal() {
    let defs = no_defs();
    assert_eq!(
        run(&bin(ArithOp::Add, lit(i64::MAX), lit(1)), &defs, FUEL),
        Err(EvalError::Overflow)
    );
    assert_eq!(
        run(&bin(ArithOp::Sub, lit(i64::MIN), lit(1)), &defs, FUEL),
        Err(EvalError::Overflow)
    );
    assert_eq!(
        run(&bin(ArithOp::Mul, lit(i64::MIN), lit(-1)), &defs, FUEL),
        Err(EvalError::Overflow)
    );
    assert_eq!(
        run(&bin(ArithOp::Div, lit(i64::MIN), lit(-1)), &defs, FUEL),
        Err(EvalError::Overflow)
    );
}

#[test]
fn division_truncates_toward_zero() {
    let defs = no_defs();
    assert_eq!(run(&bin(ArithOp::Div, lit(7), lit(2)), &defs, FUEL), Ok(3));
    assert_eq!(run(&bin(ArithOp::Div, lit(-7), lit(2)), &defs, FUEL), Ok(-3));
    assert_eq!(run(&bin(ArithOp::Div, lit(7), lit(-2)), &defs, FUEL), Ok(-3));
    assert_eq!(run(&bin(ArithOp::Div, lit(-7), lit(-2)), &defs, FUEL), Ok(3));
    assert_eq!(run(&bin(ArithOp::Div, lit(0), lit(-5)), &defs, FUEL), Ok(0));
}

#[test]
fn division_by_zero_is_fatal() {
    let defs = no_defs();
    assert_eq!(
        run(&bin(ArithOp::Div, lit(7), lit(0)), &defs, FUEL),
        Err(EvalError::DivisionByZero)
    );
    assert_eq!(
        run(&bin(ArithOp::Div, lit(0), lit(0)), &defs, FUEL),
        Err(EvalError::DivisionByZero)
    );
}

#[test]
fn comparisons_yield_exactly_one_or_zero() {
    let defs = no_defs();
    assert_eq!(run(&cmp(CmpOp::Gt, lit(6), lit(5)), &defs, FUEL), Ok(1));
    assert_eq!(run(&cmp(CmpOp::Gt, lit(5), lit(5)), &defs, FUEL), Ok(0));
    assert_eq!(run(&cmp(CmpOp::Lt, lit(5), lit(6)), &defs, FUEL), Ok(1));
    assert_eq!(run(&cmp(CmpOp::Lt, lit(5), lit(5)), &defs, FUEL), Ok(0));
    assert_eq!(run(&cmp(CmpOp::Gte, lit(5), lit(5)), &defs, FUEL), Ok(1));
    assert_eq!(run(&cmp(CmpOp::Gte, lit(4), lit(5)), &defs, FUEL), Ok(0));
    assert_eq!(run(&cmp(CmpOp::Lte, lit(5), lit(5)), &defs, FUEL), Ok(1));
    assert_eq!(run(&cmp(CmpOp::Lte, lit(6), lit(5)), &defs, FUEL), Ok(0));
    assert_eq!(run(&cmp(CmpOp::Equ, lit(5), lit(5)), &defs, FUEL), Ok(1));
    assert_eq!(run(&cmp(CmpOp::Equ, lit(5), lit(6)), &defs, FUEL), Ok(0));
    assert_eq!(run(&cmp(CmpOp::Equ, lit(-5), lit(-5)), &defs, FUEL), Ok(1));
}

#[test]
fn and_evaluates_both_operands() {
    let defs = no_defs();
    // The left operand is falsy, yet the right operand's write must land.
    let program = chain(
        and_both(set_var(1, lit(-1)), set_var(2, lit(5))),
        bin(ArithOp::Add, get_var(1), get_var(2)),
    );
    assert_eq!(run(&program, &defs, FUEL), Ok(4));
    assert_eq!(run(&and_both(lit(-1), lit(5)), &defs, FUEL), Ok(0));
    assert_eq!(run(&and_both(lit(1), lit(2)), &defs, FUEL), Ok(1));
    assert_eq!(run(&and_both(lit(3), lit(0)), &defs, FUEL), Ok(0));
}

#[test]
fn or_evaluates_both_operands() {
    let defs = no_defs();
    // The left operand already decides the disjunction, yet the right
    // operand's write must land.
    let program = chain(or_both(set_var(1, lit(7)), set_var(2, lit(9))), get_var(2));
    assert_eq!(run(&program, &defs, FUEL), Ok(9));
    assert_eq!(run(&or_both(lit(7), lit(0)), &defs, FUEL), Ok(1));
    assert_eq!(run(&or_both(lit(0), lit(0)), &defs, FUEL), Ok(0));
    assert_eq!(run(&or_both(lit(-3), lit(2)), &defs, FUEL), Ok(1));
}

#[test]
fn if_else_runs_exactly_one_branch() {
    let defs = no_defs();
    // Taken branch: its write lands; the untaken branch's write must not.
    let taken = chain(
        branch(lit(1), set_var(1, lit(10)), set_var(2, lit(20))),
        get_var(1),
    );
    assert_eq!(run(&taken, &defs, FUEL), Ok(10));
    let untaken = chain(
        branch(lit(1), set_var(1, lit(10)), set_var(2, lit(20))),
        get_var(2),
    );
    assert_eq!(run(&untaken, &defs, FUEL), Ok(0));
    // A non-positive condition takes the else branch; zero is falsy.
    let else_taken = chain(
        branch(lit(0), set_var(1, lit(10)), set_var(2, lit(20))),
        bin(ArithOp::Add, get_var(1), get_var(2)),
    );
    assert_eq!(run(&else_taken, &defs, FUEL), Ok(20));
}

#[test]
fn range_with_empty_bounds_runs_zero_iterations() {
    let defs = no_defs();
    let program = chain(
        loop_range(1, lit(5), lit(2), set_var(9, lit(1))),
        get_var(9),
    );
    assert_eq!(run(&program, &defs, FUEL), Ok(0));
    assert_eq!(
        run(&loop_range(1, lit(5), lit(5), set_var(9, lit(1))), &defs, FUEL),
        Ok(0)
    );
}

#[test]
fn range_runs_each_value_in_order_and_yields_zero() {
    let defs = no_defs();
    // The loop itself yields 0 even when it iterates.
    assert_eq!(
        run(&loop_range(1, lit(2), lit(6), set_var(7, lit(1))), &defs, FUEL),
        Ok(0)
    );
    // Exactly to - from iterations.
    let count = chain(
        loop_range(1, lit(2), lit(6), set_var(7, bin(ArithOp::Add, get_var(7), lit(1)))),
        get_var(7),
    );
    assert_eq!(run(&count, &defs, FUEL), Ok(4));
    // The loop variable takes each value of [from, to) in ascending order.
    let digits = chain(
        loop_range(
            1,
            lit(1),
            lit(4),
            set_var(7, bin(ArithOp::Add, bin(ArithOp::Mul, get_var(7), lit(10)), get_var(1))),
        ),
        get_var(7),
    );
    assert_eq!(run(&digits, &defs, FUEL), Ok(123));
}

#[test]
fn set_then_get_round_trips() {
    let defs = no_defs();
    let program = chain(set_var(3, lit(42)), get_var(3));
    assert_eq!(run(&program, &defs, FUEL), Ok(42));
    // A write is itself an expression with the written value.
    assert_eq!(run(&set_var(3, lit(42)), &defs, FUEL), Ok(42));
    // An id never written reads as zero.
    assert_eq!(run(&get_var(5), &defs, FUEL), Ok(0));
}

#[test]
fn call_cannot_touch_caller_variables() {
    // The callee writes slot 1; the caller's slot 1 must keep its value.
    let defs = vec![
        FunctionDef {
            params: vec![3],
            body: chain(set_var(1, lit(7)), get_var(1)),
        },
        FunctionDef { params: vec![], body: get_var(1) },
    ];
    let keeps_caller_value = chain(
        set_var(1, lit(99)),
        chain(set_var(2, call_fn(0, vec![lit(5)])), get_var(1)),
    );
    assert_eq!(run(&keeps_caller_value, &defs, FUEL), Ok(99));
    let callee_result = chain(
        set_var(1, lit(99)),
        chain(set_var(2, call_fn(0, vec![lit(5)])), get_var(2)),
    );
    assert_eq!(run(&callee_result, &defs, FUEL), Ok(7));
    // The callee cannot see a caller variable it did not bind.
    let unseen = chain(set_var(1, lit(99)), call_fn(1, vec![]));
    assert_eq!(run(&unseen, &defs, FUEL), Ok(0));
    // A bound formal is visible under its own slot.
    let bound = chain(set_var(3, lit(11)), call_fn(0, vec![get_var(3)]));
    assert_eq!(run(&bound, &defs, FUEL), Ok(7));
}

#[test]
fn unresolved_references_are_rejected_before_evaluation() {
    let defs = vec![FunctionDef { params: vec![1], body: get_var(1) }];
    // An undefined slot.
    assert_eq!(
        run(&call_fn(5, vec![]), &defs, FUEL),
        Err(EvalError::UnresolvedReference)
    );
    // A defined slot handed the wrong number of arguments.
    assert_eq!(
        run(&call_fn(0, vec![]), &defs, FUEL),
        Err(EvalError::UnresolvedReference)
    );
    // The rejection comes before any evaluation: no other error surfaces.
    let would_divide_by_zero = chain(
        bin(ArithOp::Div, lit(1), lit(0)),
        call_fn(5, vec![]),
    );
    assert_eq!(
        run(&would_divide_by_zero, &defs, FUEL),
        Err(EvalError::UnresolvedReference)
    );
}

#[test]
fn unbounded_recursion_exhausts_the_depth_budget() {
    let defs = vec![FunctionDef { params: vec![], body: call_fn(0, vec![]) }];
    assert_eq!(
        run(&call_fn(0, vec![]), &defs, FUEL),
        Err(EvalError::DepthExceeded)
    );
}

// The optimizer's rewrites and counters.
use taurine::ast::{Expr, InternedString, Program, Stmt, TokenKind};
use taurine::number::NumOp;
use taurine::optimizer::{Optimizer, OptimizerStats};

fn arith(op: NumOp, a: u64, b: u64) -> u64 {
    let x = f64::from_bits(a);
    let y = f64::from_bits(b);
    match op {
        NumOp::Add => (x + y).to_bits(),
        NumOp::Sub => (x - y).to_bits(),
        NumOp::Mul => (x * y).to_bits(),
        NumOp::Div => (x / y).to_bits(),
        NumOp::Rem => (x % y).to_bits(),
        NumOp::Neg => (-x).to_bits(),
        NumOp::Less => (x < y) as u64,
        NumOp::Greater => (x > y) as u64,
        NumOp::LessEq => (x <= y) as u64,
        NumOp::GreaterEq => (x >= y) as u64,
        NumOp::Equal => (x == y) as u64,
        NumOp::FromUsize => (a as f64).to_bits(),
        NumOp::FromI64 => ((a as i64) as f64).to_bits(),
        NumOp::ToUsize => (x as usize) as u64,
        NumOp::ToI64 => (x as i64) as u64,
        NumOp::TextLen => format!("{x}").chars().count() as u64,
        NumOp::TextChar => format!("{x}").chars().nth(b as usize).map_or(0, |c| c as u64),
    }
}

fn num(x: f64) -> Expr {
    Expr::Number(x.to_bits())
}

fn var(k: usize) -> Expr {
    Expr::Identifier(InternedString(k))
}

fn bin(l: Expr, op: TokenKind, r: Expr) -> Expr {
    Expr::Binary { left: Box::new(l), op, right: Box::new(r), line: 1 }
}

fn let_(k: usize, e: Expr) -> Stmt {
    Stmt::Declaration { name: InternedString(k), initializer: Some(e), line: 1, is_const: false }
}

/// Optimizes one expression, as the initializer of a declaration.
fn optimized(e: Expr) -> (Expr, Optimizer) {
    let mut opt = Optimizer::new();
    let out = opt.optimize(Program { statements: vec![let_(0, e)] }, &arith);
    match out.statements.into_iter().next() {
        Some(Stmt::Declaration { initializer: Some(x), .. }) => (x, opt),
        _ => panic!("the declaration is gone"),
    }
}

fn number(e: &Expr) -> f64 {
    match e {
        Expr::Number(b) => f64::from_bits(*b),
        _ => panic!("not a number"),
    }
}

fn counters(s: &OptimizerStats) -> (usize, usize, usize, usize) {
    (s.constants_folded, s.dead_code_removed, s.strength_reduced, s.variables_propagated)
}

#[test]
fn new_optimizer_counts_nothing() {
    let opt = Optimizer::new();
    assert_eq!(counters(opt.stats()), (0, 0, 0, 0));
    let d = OptimizerStats::default();
    assert_eq!(counters(&d), (0, 0, 0, 0));
}

#[test]
fn folds_arithmetic() {
    let (e, opt) = optimized(bin(num(1.0), TokenKind::Plus, num(2.0)));
    assert_eq!(number(&e), 3.0);
    assert_eq!(counters(opt.stats()), (1, 0, 0, 0));
    let (e, _) = optimized(bin(bin(num(1.0), TokenKind::Plus, num(2.0)), TokenKind::Star, num(4.0)));
    assert_eq!(number(&e), 12.0);
    let (e, _) = optimized(bin(num(7.0), TokenKind::Percent, num(4.0)));
    assert_eq!(number(&e), 3.0);
}

#[test]
fn division_by_zero_is_not_folded() {
    let (e, opt) = optimized(bin(num(1.0), TokenKind::Slash, num(0.0)));
    assert!(matches!(e, Expr::Binary { op: TokenKind::Slash, .. }));
    assert_eq!(counters(opt.stats()), (0, 0, 0, 0));
}

#[test]
fn folds_comparisons() {
    let (e, _) = optimized(bin(num(1.0), TokenKind::Less, num(2.0)));
    assert!(matches!(e, Expr::LiteralTrue));
    let (e, _) = optimized(bin(num(3.0), TokenKind::GreaterEqual, num(4.0)));
    assert!(matches!(e, Expr::LiteralFalse));
    // Equality of two numbers compares the doubles exactly.
    let (e, _) = optimized(bin(num(1.0), TokenKind::EqualEqual, num(2.0)));
    assert!(matches!(e, Expr::LiteralFalse));
    let (e, _) = optimized(bin(num(42.0), TokenKind::EqualEqual, num(42.0)));
    assert!(matches!(e, Expr::LiteralTrue));
    let (e, opt) = optimized(bin(num(1.0), TokenKind::NotEqual, num(2.0)));
    assert!(matches!(e, Expr::LiteralTrue));
    assert_eq!(counters(opt.stats()), (1, 0, 0, 0));
}

#[test]
fn number_equality_is_exact() {
    let sum = bin(num(0.1), TokenKind::Plus, num(0.2));
    let (e, _) = optimized(bin(sum, TokenKind::EqualEqual, num(0.3)));
    assert!(matches!(e, Expr::LiteralFalse));
}

#[test]
fn folds_strings_and_unary() {
    let (e, _) = optimized(bin(Expr::String("ab".to_string()), TokenKind::Plus, Expr::String("cd".to_string())));
    assert!(matches!(e, Expr::String(ref s) if s == "abcd"));
    let (e, _) = optimized(Expr::Unary { op: TokenKind::Minus, expr: Box::new(num(5.0)), line: 1 });
    assert_eq!(number(&e), -5.0);
    let (e, _) = optimized(Expr::Unary { op: TokenKind::Not, expr: Box::new(Expr::LiteralTrue), line: 1 });
    assert!(matches!(e, Expr::LiteralFalse));
}

#[test]
fn folds_lengths() {
    let (e, _) = optimized(Expr::Length {
        expr: Box::new(Expr::Array { items: vec![num(1.0), num(2.0), num(3.0)], line: 1 }),
        line: 1,
    });
    assert_eq!(number(&e), 3.0);
    let (e, _) = optimized(Expr::Length { expr: Box::new(Expr::String("héllo".to_string())), line: 1 });
    assert_eq!(number(&e), 6.0);
}

#[test]
fn reduces_strength() {
    let (e, opt) = optimized(bin(var(5), TokenKind::Star, num(2.0)));
    match e {
        Expr::Binary { left, op: TokenKind::Plus, right, .. } => {
            assert!(matches!(*left, Expr::Identifier(InternedString(5))));
            assert!(matches!(*right, Expr::Identifier(InternedString(5))));
        },
        _ => panic!("not doubled by addition"),
    }
    assert_eq!(counters(opt.stats()), (0, 0, 1, 0));
    let (e, _) = optimized(bin(var(5), TokenKind::Star, num(1.0)));
    assert!(matches!(e, Expr::Identifier(InternedString(5))));
    let (e, _) = optimized(bin(num(0.0), TokenKind::Star, var(5)));
    assert_eq!(number(&e), 0.0);
    let (e, _) = optimized(bin(var(5), TokenKind::Plus, num(-0.0)));
    assert!(matches!(e, Expr::Identifier(InternedString(5))));
    let (e, _) = optimized(bin(var(5), TokenKind::Slash, num(1.0)));
    assert!(matches!(e, Expr::Identifier(InternedString(5))));
    let (e, _) = optimized(bin(num(0.0), TokenKind::Minus, var(5)));
    assert!(matches!(e, Expr::Binary { op: TokenKind::Minus, .. }));
}

#[test]
fn removes_dead_code() {
    let mut opt = Optimizer::new();
    let w = Stmt::While { condition: Expr::LiteralFalse, body: vec![let_(0, num(1.0))], line: 1 };
    let i = Stmt::If { condition: Expr::LiteralTrue, then_branch: vec![let_(1, num(2.0))], else_branch: None, line: 2 };
    let f = Stmt::If { condition: Expr::LiteralFalse, then_branch: vec![let_(2, num(3.0))], else_branch: None, line: 3 };
    let out = opt.optimize(Program { statements: vec![w, i, f] }, &arith);
    assert_eq!(out.statements.len(), 1);
    assert!(matches!(out.statements[0], Stmt::Declaration { name: InternedString(1), .. }));
    assert_eq!(counters(opt.stats()), (0, 3, 0, 0));
    let (e, opt) = optimized(Expr::NullCoalesce { left: Box::new(Expr::LiteralNil), right: Box::new(num(42.0)), line: 1 });
    assert_eq!(number(&e), 42.0);
    assert_eq!(counters(opt.stats()), (0, 1, 0, 0));
}

#[test]
fn propagates_constants() {
    let mut opt = Optimizer::new();
    let program = vec![let_(0, num(5.0)), let_(1, bin(var(0), TokenKind::Plus, num(1.0)))];
    let out = opt.optimize(Program { statements: program }, &arith);
    match &out.statements[1] {
        Stmt::Declaration { initializer: Some(e), .. } => assert_eq!(number(e), 6.0),
        _ => panic!("not a declaration"),
    }
    assert_eq!(counters(opt.stats()), (1, 0, 0, 1));
}

#[test]
fn assignment_replaces_a_constant() {
    let mut opt = Optimizer::new();
    let set = Stmt::Assignment { name: InternedString(0), value: var(9), line: 2, is_const_assign: false };
    let program = vec![let_(0, num(5.0)), set, let_(1, var(0))];
    let out = opt.optimize(Program { statements: program }, &arith);
    match &out.statements[2] {
        Stmt::Declaration { initializer: Some(e), .. } => assert!(matches!(e, Expr::Identifier(InternedString(0)))),
        _ => panic!("not a declaration"),
    }
}

#[test]
fn function_scope_is_restored() {
    let mut opt = Optimizer::new();
    let f = Stmt::Function { name: InternedString(0), params: vec![], body: vec![let_(1, num(7.0))], line: 1 };
    let out = opt.optimize(Program { statements: vec![f, let_(2, var(1))] }, &arith);
    match &out.statements[1] {
        Stmt::Declaration { initializer: Some(e), .. } => assert!(matches!(e, Expr::Identifier(InternedString(1)))),
        _ => panic!("not a declaration"),
    }
    assert_eq!(counters(opt.stats()), (0, 0, 0, 0));
}

#[test]
fn counters_never_decrease_and_nothing_is_added() {
    let mut opt = Optimizer::new();
    let first = vec![let_(0, bin(num(1.0), TokenKind::Plus, num(2.0))), let_(1, var(0))];
    let out = opt.optimize(Program { statements: first }, &arith);
    assert!(out.statements.len() <= 2);
    let before = counters(opt.stats());
    let second = vec![Stmt::While { condition: Expr::LiteralFalse, body: vec![], line: 1 }];
    let out = opt.optimize(Program { statements: second }, &arith);
    assert!(out.statements.is_empty());
    let after = counters(opt.stats());
    assert!(after.0 >= before.0 && after.1 >= before.1 && after.2 >= before.2 && after.3 >= before.3);
    assert_eq!(after.1, before.1 + 1);
}

fn assign(k: usize, e: Expr) -> Stmt {
    Stmt::Assignment { name: InternedString(k), value: e, line: 1, is_const_assign: false }
}

fn initializer(s: &Stmt) -> &Expr {
    match s {
        Stmt::Declaration { initializer: Some(e), .. } => e,
        _ => panic!("not a declaration with a value"),
    }
}

#[test]
fn a_branch_that_may_assign_stops_propagation() {
    // let x = 1; if c { x = 2 }; let y = x  keeps y = x.
    let mut opt = Optimizer::new();
    let branch = Stmt::If { condition: var(9), then_branch: vec![assign(0, num(2.0))], else_branch: None, line: 2 };
    let out = opt.optimize(Program { statements: vec![let_(0, num(1.0)), branch, let_(1, var(0))] }, &arith);
    assert!(matches!(initializer(&out.statements[2]), Expr::Identifier(InternedString(0))));
}

#[test]
fn a_loop_condition_is_not_frozen() {
    // let x = 0; while x < 5 { x = x + 1 }: the loop keeps reading x.
    let mut opt = Optimizer::new();
    let body = vec![assign(0, bin(var(0), TokenKind::Plus, num(1.0)))];
    let w = Stmt::While { condition: bin(var(0), TokenKind::Less, num(5.0)), body, line: 2 };
    let out = opt.optimize(Program { statements: vec![let_(0, num(0.0)), w] }, &arith);
    match &out.statements[1] {
        Stmt::While { condition, body, .. } => {
            assert!(matches!(condition, Expr::Binary { op: TokenKind::Less, .. }));
            match &body[0] {
                Stmt::Assignment { value, .. } => assert!(matches!(value, Expr::Binary { op: TokenKind::Plus, .. })),
                _ => panic!("not an assignment"),
            }
        },
        _ => panic!("the loop is gone"),
    }
}

#[test]
fn a_closure_keeps_reading_its_variable() {
    // function makeCounter() { let count = 0; function increment() { count = count + 1; return count } ... }
    let mut opt = Optimizer::new();
    let inc = Stmt::Function {
        name: InternedString(2),
        params: vec![],
        body: vec![assign(1, bin(var(1), TokenKind::Plus, num(1.0))), Stmt::Return(Some(var(1)))],
        line: 3,
    };
    let make = Stmt::Function {
        name: InternedString(3),
        params: vec![],
        body: vec![let_(1, num(0.0)), inc, Stmt::Return(Some(var(2)))],
        line: 1,
    };
    let out = opt.optimize(Program { statements: vec![make] }, &arith);
    let inner = match &out.statements[0] {
        Stmt::Function { body, .. } => &body[1],
        _ => panic!("not a function"),
    };
    match inner {
        Stmt::Function { body, .. } => {
            assert!(matches!(&body[0], Stmt::Assignment { value: Expr::Binary { .. }, .. }));
            assert!(matches!(&body[1], Stmt::Return(Some(Expr::Identifier(InternedString(1))))));
        },
        _ => panic!("not a function"),
    }
}

#[test]
fn a_call_after_a_function_does_not_see_stale_constants() {
    // let count = 0; function inc() { count = count + 1 }; inc(); let y = count
    let mut opt = Optimizer::new();
    let inc = Stmt::Function {
        name: InternedString(2),
        params: vec![],
        body: vec![assign(1, bin(var(1), TokenKind::Plus, num(1.0)))],
        line: 2,
    };
    let call = Stmt::Expression(Expr::Call { callee: Box::new(var(2)), arguments: vec![], line: 3 });
    let out = opt.optimize(Program { statements: vec![let_(1, num(0.0)), inc, call, let_(4, num(3.0)), let_(5, var(1))] }, &arith);
    assert!(matches!(initializer(&out.statements[4]), Expr::Identifier(InternedString(1))));
}

#[test]
fn a_loop_that_never_runs_keeps_the_constants() {
    // let x = 1; let d = false; while d { x = 2 }; let y = x
    let mut opt = Optimizer::new();
    let w = Stmt::While { condition: var(1), body: vec![assign(0, num(2.0))], line: 2 };
    let program = vec![let_(0, num(1.0)), let_(1, Expr::LiteralFalse), w, let_(2, var(0))];
    let out = opt.optimize(Program { statements: program }, &arith);
    assert_eq!(out.statements.len(), 3);
    assert_eq!(number(initializer(&out.statements[2])), 1.0);
    assert_eq!(counters(opt.stats()), (0, 1, 0, 2));
}

#[test]
fn a_redeclaration_forgets_the_old_constant() {
    // let x = 1; let x = f(); let y = x
    let mut opt = Optimizer::new();
    let call = Expr::Call { callee: Box::new(var(9)), arguments: vec![], line: 2 };
    let program = vec![let_(0, num(1.0)), let_(0, call), let_(1, var(0))];
    let out = opt.optimize(Program { statements: program }, &arith);
    assert!(matches!(initializer(&out.statements[2]), Expr::Identifier(InternedString(0))));
}

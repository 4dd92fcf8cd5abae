// Programs compiled to bytecode and run on the machine.  Each program is
// written as the syntax tree of the source text in the comment above it.
use taurine::ast::{Expr, InternedString, Program, Stmt, TokenKind};
use taurine::bytecode::{Compiler, VirtualMachine, VmError};
use taurine::number::NumOp;

fn arith(op: NumOp, a: u64, b: u64) -> u64 {
    let x = f64::from_bits(a);
    let y = f64::from_bits(b);
    match op {
        NumOp::Add => (x + y).to_bits(),
        NumOp::Sub => (x - y).to_bits(),
        NumOp::Mul => (x * y).to_bits(),
        NumOp::Div => (x / y).to_bits(),
        NumOp::Rem => (x % y).to_bits(),
        NumOp::Neg => (-x).to_bits(),
        NumOp::Less => (x < y) as u64,
        NumOp::Greater => (x > y) as u64,
        NumOp::LessEq => (x <= y) as u64,
        NumOp::GreaterEq => (x >= y) as u64,
        NumOp::Equal => (x == y) as u64,
        NumOp::FromUsize => (a as f64).to_bits(),
        NumOp::FromI64 => ((a as i64) as f64).to_bits(),
        NumOp::ToUsize => (x as usize) as u64,
        NumOp::ToI64 => (x as i64) as u64,
        NumOp::TextLen => format!("{x}").chars().count() as u64,
        NumOp::TextChar => format!("{x}").chars().nth(b as usize).map_or(0, |c| c as u64),
    }
}

fn run_bytecode(statements: Vec<Stmt>) -> Result<(), VmError> {
    let program = Program { statements };
    let compiler = Compiler::new();
    let bytecode = compiler.compile(program, &arith);
    let mut vm = VirtualMachine::new();
    vm.execute(&bytecode, &arith)
}

fn num(x: f64) -> Expr {
    Expr::Number(x.to_bits())
}

fn text(s: &str) -> Expr {
    Expr::String(s.to_string())
}

fn var(k: usize) -> Expr {
    Expr::Identifier(InternedString(k))
}

fn bin(l: Expr, op: TokenKind, r: Expr) -> Expr {
    Expr::Binary { left: Box::new(l), op, right: Box::new(r), line: 1 }
}

fn let_(k: usize, e: Expr) -> Stmt {
    Stmt::Declaration { name: InternedString(k), initializer: Some(e), line: 1, is_const: false }
}

fn set(k: usize, e: Expr) -> Stmt {
    Stmt::Assignment { name: InternedString(k), value: e, line: 1, is_const_assign: false }
}

#[test]
fn test_bytecode_arithmetic() {
    // let x = 10 + 20
    assert!(run_bytecode(vec![let_(0, bin(num(10.0), TokenKind::Plus, num(20.0)))]).is_ok());
    // let x = 100 - 50
    assert!(run_bytecode(vec![let_(0, bin(num(100.0), TokenKind::Minus, num(50.0)))]).is_ok());
    // let x = 10 * 5
    assert!(run_bytecode(vec![let_(0, bin(num(10.0), TokenKind::Star, num(5.0)))]).is_ok());
    // let x = 100 / 4
    assert!(run_bytecode(vec![let_(0, bin(num(100.0), TokenKind::Slash, num(4.0)))]).is_ok());
    // let x = 10 % 3
    assert!(run_bytecode(vec![let_(0, bin(num(10.0), TokenKind::Percent, num(3.0)))]).is_ok());
}

#[test]
fn test_bytecode_comparison() {
    // let x = 10 > 5
    assert!(run_bytecode(vec![let_(0, bin(num(10.0), TokenKind::Greater, num(5.0)))]).is_ok());
    // let x = 10 < 20
    assert!(run_bytecode(vec![let_(0, bin(num(10.0), TokenKind::Less, num(20.0)))]).is_ok());
    // let x = 10 == 10
    assert!(run_bytecode(vec![let_(0, bin(num(10.0), TokenKind::EqualEqual, num(10.0)))]).is_ok());
    // let x = 10 != 5
    assert!(run_bytecode(vec![let_(0, bin(num(10.0), TokenKind::NotEqual, num(5.0)))]).is_ok());
    // let x = 10 >= 10
    assert!(run_bytecode(vec![let_(0, bin(num(10.0), TokenKind::GreaterEqual, num(10.0)))]).is_ok());
    // let x = 10 <= 10
    assert!(run_bytecode(vec![let_(0, bin(num(10.0), TokenKind::LessEqual, num(10.0)))]).is_ok());
}

#[test]
fn test_bytecode_variables() {
    // let x = 42
    assert!(run_bytecode(vec![let_(0, num(42.0))]).is_ok());
    // let x = 42
    // let y = x + 1
    assert!(run_bytecode(vec![let_(0, num(42.0)), let_(1, bin(var(0), TokenKind::Plus, num(1.0)))]).is_ok());
}

#[test]
fn test_bytecode_strings() {
    // let s = "hello"
    assert!(run_bytecode(vec![let_(0, text("hello"))]).is_ok());
    // let s = "hello" + " world"
    assert!(run_bytecode(vec![let_(0, bin(text("hello"), TokenKind::Plus, text(" world")))]).is_ok());
}

#[test]
fn test_bytecode_arrays() {
    let array = || Expr::Array { items: vec![num(1.0), num(2.0), num(3.0)], line: 1 };
    // let arr = [1, 2, 3]
    assert!(run_bytecode(vec![let_(0, array())]).is_ok());
    // let arr = [1, 2, 3]
    // let x = arr[0]
    let index = Expr::Index { object: Box::new(var(0)), index: Box::new(num(0.0)), line: 2 };
    assert!(run_bytecode(vec![let_(0, array()), let_(1, index)]).is_ok());
}

#[test]
fn test_bytecode_tables() {
    // let obj = { name: "test", value: 42 }
    let table = Expr::Table { entries: vec![(InternedString(1), text("test")), (InternedString(2), num(42.0))], line: 1 };
    assert!(run_bytecode(vec![let_(0, table)]).is_ok());
}

#[test]
fn test_bytecode_if_else() {
    let if_ = |c: Expr, else_: bool| Stmt::If {
        condition: c,
        then_branch: vec![let_(0, num(1.0))],
        else_branch: if else_ { Some(vec![let_(0, num(2.0))]) } else { None },
        line: 1,
    };
    // if true { let x = 1 } else { let x = 2 }
    assert!(run_bytecode(vec![if_(Expr::LiteralTrue, true)]).is_ok());
    // if false { let x = 1 } else { let x = 2 }
    assert!(run_bytecode(vec![if_(Expr::LiteralFalse, true)]).is_ok());
    // if false { let x = 1 }
    assert!(run_bytecode(vec![if_(Expr::LiteralFalse, false)]).is_ok());
}

#[test]
fn test_bytecode_while_loop() {
    // let x = 0
    // while x < 5 { x = x + 1 }
    let body = vec![set(0, bin(var(0), TokenKind::Plus, num(1.0)))];
    let w = Stmt::While { condition: bin(var(0), TokenKind::Less, num(5.0)), body, line: 2 };
    assert!(run_bytecode(vec![let_(0, num(0.0)), w]).is_ok());
}

fn add_function() -> Stmt {
    // function add(a, b) { return a + b }
    Stmt::Function {
        name: InternedString(0),
        params: vec![(InternedString(1), None), (InternedString(2), None)],
        body: vec![Stmt::Return(Some(bin(var(1), TokenKind::Plus, var(2))))],
        line: 1,
    }
}

#[test]
fn test_bytecode_function_declaration() {
    assert!(run_bytecode(vec![add_function()]).is_ok());
}

#[test]
fn test_bytecode_function_call() {
    // function add(a, b) { return a + b }
    // let result = add(10, 20)
    let call = Expr::Call { callee: Box::new(var(0)), arguments: vec![num(10.0), num(20.0)], line: 3 };
    assert!(run_bytecode(vec![add_function(), let_(3, call)]).is_ok());
}

#[test]
fn test_bytecode_lambda() {
    // let double = (x) => x * 2
    let lambda = Expr::Lambda {
        params: vec![(InternedString(1), None)],
        body: Box::new(bin(var(1), TokenKind::Star, num(2.0))),
        line: 1,
    };
    assert!(run_bytecode(vec![let_(0, lambda)]).is_ok());
}

#[test]
fn test_bytecode_unary() {
    // let x = -5
    let neg = Expr::Unary { op: TokenKind::Minus, expr: Box::new(num(5.0)), line: 1 };
    assert!(run_bytecode(vec![let_(0, neg)]).is_ok());
    // let x = not true
    let not = Expr::Unary { op: TokenKind::Not, expr: Box::new(Expr::LiteralTrue), line: 1 };
    assert!(run_bytecode(vec![let_(0, not)]).is_ok());
}

#[test]
fn test_bytecode_null_coalesce() {
    let nc = |l: Expr| Expr::NullCoalesce { left: Box::new(l), right: Box::new(num(42.0)), line: 1 };
    // let x = nil ?? 42
    assert!(run_bytecode(vec![let_(0, nc(Expr::LiteralNil))]).is_ok());
    // let x = 10 ?? 42
    assert!(run_bytecode(vec![let_(0, nc(num(10.0)))]).is_ok());
}

#[test]
fn test_bytecode_for_in() {
    // for i in 1..5 { let x = i }
    let range = Expr::Range { start: Box::new(num(1.0)), end: Box::new(num(5.0)), line: 1 };
    let f = Stmt::ForIn { variable: InternedString(0), iterable: range, body: vec![let_(1, var(0))], line: 1 };
    assert!(run_bytecode(vec![f]).is_ok());
}

#[test]
fn test_bytecode_class() {
    // class Dog {
    //     function bark() { return "Woof" }
    // }
    let bark = Expr::FunctionLiteral { params: vec![], body: vec![Stmt::Return(Some(text("Woof")))], line: 3 };
    let class = Stmt::Class { name: InternedString(0), superclass: None, methods: vec![(InternedString(1), bark)], line: 2 };
    assert!(run_bytecode(vec![class]).is_ok());
}

#[test]
fn test_bytecode_empty_program() {
    assert!(run_bytecode(vec![]).is_ok());
}

#[test]
fn test_bytecode_multiple_statements() {
    // let a = 1
    // let b = 2
    // let c = a + b
    let program = vec![let_(0, num(1.0)), let_(1, num(2.0)), let_(2, bin(var(0), TokenKind::Plus, var(1)))];
    assert!(run_bytecode(program).is_ok());
}

#[test]
fn test_bytecode_nested_if() {
    // if true { if false { let x = 1 } else { let x = 2 } }
    let inner = Stmt::If {
        condition: Expr::LiteralFalse,
        then_branch: vec![let_(0, num(1.0))],
        else_branch: Some(vec![let_(0, num(2.0))]),
        line: 1,
    };
    let outer = Stmt::If { condition: Expr::LiteralTrue, then_branch: vec![inner], else_branch: None, line: 1 };
    assert!(run_bytecode(vec![outer]).is_ok());
}

#[test]
fn test_bytecode_index_access() {
    // let arr = [1, 2, 3]
    // let x = arr[0]
    let array = Expr::Array { items: vec![num(1.0), num(2.0), num(3.0)], line: 1 };
    let index = Expr::Index { object: Box::new(var(0)), index: Box::new(num(0.0)), line: 2 };
    assert!(run_bytecode(vec![let_(0, array), let_(1, index)]).is_ok());
}

#[test]
fn test_bytecode_property_access() {
    // let obj = { name: "test" }
    // let x = obj.name
    let table = Expr::Table { entries: vec![(InternedString(1), text("test"))], line: 1 };
    let get = Expr::Get { object: Box::new(var(0)), name: InternedString(1), line: 2 };
    assert!(run_bytecode(vec![let_(0, table), let_(2, get)]).is_ok());
}

#[test]
fn test_bytecode_break_continue() {
    // let x = 0
    // while true { x = x + 1
    // if x > 5 { break } }
    let check = Stmt::If {
        condition: bin(var(0), TokenKind::Greater, num(5.0)),
        then_branch: vec![Stmt::Break],
        else_branch: None,
        line: 3,
    };
    let body = vec![set(0, bin(var(0), TokenKind::Plus, num(1.0))), check];
    let w = Stmt::While { condition: Expr::LiteralTrue, body, line: 2 };
    assert!(run_bytecode(vec![let_(0, num(0.0)), w]).is_ok());
}

#[test]
fn test_bytecode_return_nil() {
    // function f() { return }
    let f = Stmt::Function { name: InternedString(0), params: vec![], body: vec![Stmt::Return(None)], line: 1 };
    assert!(run_bytecode(vec![f]).is_ok());
}

#[test]
fn test_bytecode_complex_expression() {
    // let result = (1 + 2) * 3 - 4 / 2
    let sum = bin(num(1.0), TokenKind::Plus, num(2.0));
    let left = bin(sum, TokenKind::Star, num(3.0));
    let right = bin(num(4.0), TokenKind::Slash, num(2.0));
    assert!(run_bytecode(vec![let_(0, bin(left, TokenKind::Minus, right))]).is_ok());
}

// The machine's results and errors.  A value that a program computes is
// observed by calling it: the error then carries the value.
use taurine::ast::{Expr, InternedString, Program, Stmt, TokenKind};
use taurine::bytecode::{BytecodeFunction, BytecodeProgram, Compiler, Instruction, VirtualMachine, VmError};
use taurine::interner::StringInterner;
use taurine::number::NumOp;
use taurine::value::Value;

fn arith(op: NumOp, a: u64, b: u64) -> u64 {
    let x = f64::from_bits(a);
    let y = f64::from_bits(b);
    match op {
        NumOp::Add => (x + y).to_bits(),
        NumOp::Sub => (x - y).to_bits(),
        NumOp::Mul => (x * y).to_bits(),
        NumOp::Div => (x / y).to_bits(),
        NumOp::Rem => (x % y).to_bits(),
        NumOp::Neg => (-x).to_bits(),
        NumOp::Less => (x < y) as u64,
        NumOp::Greater => (x > y) as u64,
        NumOp::LessEq => (x <= y) as u64,
        NumOp::GreaterEq => (x >= y) as u64,
        NumOp::Equal => (x == y) as u64,
        NumOp::FromUsize => (a as f64).to_bits(),
        NumOp::FromI64 => ((a as i64) as f64).to_bits(),
        NumOp::ToUsize => (x as usize) as u64,
        NumOp::ToI64 => (x as i64) as u64,
        NumOp::TextLen => format!("{x}").chars().count() as u64,
        NumOp::TextChar => format!("{x}").chars().nth(b as usize).map_or(0, |c| c as u64),
    }
}

fn run(statements: Vec<Stmt>) -> Result<(), VmError> {
    let bytecode = Compiler::new().compile(Program { statements }, &arith);
    VirtualMachine::new().execute(&bytecode, &arith)
}

fn num(x: f64) -> Expr {
    Expr::Number(x.to_bits())
}

fn text(s: &str) -> Expr {
    Expr::String(s.to_string())
}

fn var(k: usize) -> Expr {
    Expr::Identifier(InternedString(k))
}

fn bin(l: Expr, op: TokenKind, r: Expr) -> Expr {
    Expr::Binary { left: Box::new(l), op, right: Box::new(r), line: 1 }
}

fn let_(k: usize, e: Expr) -> Stmt {
    Stmt::Declaration { name: InternedString(k), initializer: Some(e), line: 1, is_const: false }
}

/// Calls the value of `e`, which fails unless it is a function.
fn call(e: Expr) -> Stmt {
    Stmt::Expression(Expr::Call { callee: Box::new(e), arguments: vec![], line: 9 })
}

/// The value of `e`, seen through the error of calling it.
fn value_of(statements: Vec<Stmt>, e: Expr) -> Value {
    let mut all = statements;
    all.push(call(e));
    match run(all) {
        Err(VmError::NotCallable(v)) => v,
        _ => panic!("the value was callable or the run did not fail"),
    }
}

fn number_of(statements: Vec<Stmt>, e: Expr) -> f64 {
    match value_of(statements, e) {
        Value::Number(n) => f64::from_bits(n),
        _ => panic!("not a number"),
    }
}

fn hand_made(instructions: Vec<Instruction>, constants: Vec<Value>, functions: Vec<BytecodeFunction>) -> BytecodeProgram {
    BytecodeProgram {
        functions,
        main: BytecodeFunction { name: 0, params: vec![], arity: 0, instructions, constants, max_slots: 0 },
        string_interner: StringInterner::new(),
    }
}

#[test]
fn arithmetic_results() {
    assert_eq!(number_of(vec![], bin(num(10.0), TokenKind::Plus, num(20.0))), 30.0);
    assert_eq!(number_of(vec![], bin(num(100.0), TokenKind::Minus, num(50.0))), 50.0);
    assert_eq!(number_of(vec![], bin(num(10.0), TokenKind::Star, num(5.0))), 50.0);
    assert_eq!(number_of(vec![], bin(num(100.0), TokenKind::Slash, num(4.0))), 25.0);
    assert_eq!(number_of(vec![], bin(num(10.0), TokenKind::Percent, num(3.0))), 1.0);
    let neg = Expr::Unary { op: TokenKind::Minus, expr: Box::new(num(5.0)), line: 1 };
    assert_eq!(number_of(vec![], neg), -5.0);
}

#[test]
fn locals_hold_their_values() {
    // let a = 1; let b = 2; (a + b)()
    let program = vec![let_(0, num(1.0)), let_(1, num(2.0))];
    assert_eq!(number_of(program, bin(var(0), TokenKind::Plus, var(1))), 3.0);
}

#[test]
fn string_concatenation() {
    match value_of(vec![], bin(text("hello"), TokenKind::Plus, text(" world"))) {
        Value::String(s) => assert_eq!(s, "hello world"),
        _ => panic!("not a string"),
    }
}

#[test]
fn comparisons_give_booleans() {
    let cases = [
        (TokenKind::Less, 1.0, 2.0, true),
        (TokenKind::Greater, 1.0, 2.0, false),
        (TokenKind::LessEqual, 2.0, 2.0, true),
        (TokenKind::GreaterEqual, 1.0, 2.0, false),
        (TokenKind::EqualEqual, 2.0, 2.0, true),
        (TokenKind::NotEqual, 2.0, 2.0, false),
    ];
    for (op, a, b, expected) in cases {
        match value_of(vec![], bin(num(a), op, num(b))) {
            Value::Bool(x) => assert_eq!(x, expected),
            _ => panic!("not a boolean"),
        }
    }
}

#[test]
fn strings_compare_by_bytes() {
    match value_of(vec![], bin(text("apple"), TokenKind::Less, text("banana"))) {
        Value::Bool(x) => assert!(x),
        _ => panic!("not a boolean"),
    }
    match value_of(vec![], bin(text("b"), TokenKind::Less, text("abc"))) {
        Value::Bool(x) => assert!(!x),
        _ => panic!("not a boolean"),
    }
    match value_of(vec![], bin(text("ab"), TokenKind::LessEqual, text("ab"))) {
        Value::Bool(x) => assert!(x),
        _ => panic!("not a boolean"),
    }
}

#[test]
fn only_nil_and_false_are_false() {
    let not = |e: Expr| Expr::Unary { op: TokenKind::Not, expr: Box::new(e), line: 1 };
    for (e, expected) in [(Expr::LiteralNil, true), (Expr::LiteralFalse, true), (num(0.0), false), (text(""), false)] {
        match value_of(vec![], not(e)) {
            Value::Bool(x) => assert_eq!(x, expected),
            _ => panic!("not a boolean"),
        }
    }
}

#[test]
fn function_call_returns_its_value() {
    // function add(a, b) { return a + b }
    // let result = add(10, 20)
    // result()
    let add = Stmt::Function {
        name: InternedString(0),
        params: vec![(InternedString(1), None), (InternedString(2), None)],
        body: vec![Stmt::Return(Some(bin(var(1), TokenKind::Plus, var(2))))],
        line: 1,
    };
    let call_add = Expr::Call { callee: Box::new(var(0)), arguments: vec![num(10.0), num(20.0)], line: 2 };
    assert_eq!(number_of(vec![add, let_(3, call_add)], var(3)), 30.0);
}

#[test]
fn default_parameters_fill_missing_arguments() {
    // function f(a, b = 5) { return a + b }
    // let r = f(1)
    let f = Stmt::Function {
        name: InternedString(0),
        params: vec![(InternedString(1), None), (InternedString(2), Some(num(5.0)))],
        body: vec![Stmt::Return(Some(bin(var(1), TokenKind::Plus, var(2))))],
        line: 1,
    };
    let call_f = Expr::Call { callee: Box::new(var(0)), arguments: vec![num(1.0)], line: 2 };
    assert_eq!(number_of(vec![f, let_(3, call_f)], var(3)), 6.0);
}

#[test]
fn while_loop_counts() {
    // let x = 0; while x < 5 { x = x + 1 }; x()
    let body = vec![Stmt::Assignment {
        name: InternedString(0),
        value: bin(var(0), TokenKind::Plus, num(1.0)),
        line: 2,
        is_const_assign: false,
    }];
    let w = Stmt::While { condition: bin(var(0), TokenKind::Less, num(5.0)), body, line: 2 };
    assert_eq!(number_of(vec![let_(0, num(0.0)), w], var(0)), 5.0);
}

#[test]
fn array_and_table_reads() {
    let array = Expr::Array { items: vec![num(1.0), num(2.0), num(3.0)], line: 1 };
    let index = Expr::Index { object: Box::new(var(0)), index: Box::new(num(1.0)), line: 2 };
    assert_eq!(number_of(vec![let_(0, array)], index), 2.0);
    let table = Expr::Table { entries: vec![(InternedString(5), num(8080.0))], line: 1 };
    let get = Expr::Get { object: Box::new(var(0)), name: InternedString(5), line: 2 };
    assert_eq!(number_of(vec![let_(0, table)], get), 8080.0);
    let length = Expr::Length { expr: Box::new(var(0)), line: 2 };
    let array = Expr::Array { items: vec![num(1.0), num(2.0), num(3.0)], line: 1 };
    assert_eq!(number_of(vec![let_(0, array)], length), 3.0);
    let length = Expr::Length { expr: Box::new(text("héllo")), line: 2 };
    assert_eq!(number_of(vec![], length), 6.0);
}

#[test]
fn string_index_gives_one_byte() {
    let index = Expr::Index { object: Box::new(text("abc")), index: Box::new(num(1.0)), line: 1 };
    match value_of(vec![], index) {
        Value::String(s) => assert_eq!(s, "b"),
        _ => panic!("not a string"),
    }
    let past = Expr::Index { object: Box::new(text("abc")), index: Box::new(num(7.0)), line: 1 };
    assert!(matches!(value_of(vec![], past), Value::Nil));
}

#[test]
fn global_read_after_write() {
    // StoreGlobal then LoadGlobal of one name gives the stored value back.
    let program = hand_made(
        vec![
            Instruction::LoadConstant { index: 0 },
            Instruction::StoreGlobal { name: InternedString(4) },
            Instruction::LoadGlobal { name: InternedString(4) },
            Instruction::Call { arg_count: 0 },
        ],
        vec![Value::Number(7.0f64.to_bits())],
        vec![],
    );
    match VirtualMachine::new().execute(&program, &arith) {
        Err(VmError::NotCallable(Value::Number(n))) => assert_eq!(f64::from_bits(n), 7.0),
        _ => panic!("the stored value did not come back"),
    }
}

#[test]
fn property_read_after_write() {
    // let t = {}; t.x = 3; t.x()
    let set = Stmt::PropertySet { object: Box::new(var(0)), name: InternedString(1), value: num(3.0), line: 2 };
    let get = Expr::Get { object: Box::new(var(0)), name: InternedString(1), line: 3 };
    let table = Expr::Table { entries: vec![], line: 1 };
    assert_eq!(number_of(vec![let_(0, table), set], get), 3.0);
}

#[test]
fn index_read_after_write() {
    // let a = [1, 2]; a[1] = 9; a[1]()
    let array = Expr::Array { items: vec![num(1.0), num(2.0)], line: 1 };
    let set = Stmt::Expression(Expr::SetIndex {
        object: Box::new(var(0)),
        index: Box::new(num(1.0)),
        value: Box::new(num(9.0)),
        line: 2,
    });
    let get = Expr::Index { object: Box::new(var(0)), index: Box::new(num(1.0)), line: 3 };
    assert_eq!(number_of(vec![let_(0, array), set], get), 9.0);
}

#[test]
fn equal_and_not_equal_disagree() {
    for (a, b) in [(1.0, 1.0), (1.0, 2.0)] {
        let eq = match value_of(vec![], bin(num(a), TokenKind::EqualEqual, num(b))) {
            Value::Bool(x) => x,
            _ => panic!("not a boolean"),
        };
        let ne = match value_of(vec![], bin(num(a), TokenKind::NotEqual, num(b))) {
            Value::Bool(x) => x,
            _ => panic!("not a boolean"),
        };
        assert_eq!(eq, !ne);
    }
}

#[test]
fn for_in_over_range() {
    // let s = 0; for i in 1..5 { s = s + i }; s()
    let range = Expr::Range { start: Box::new(num(1.0)), end: Box::new(num(5.0)), line: 1 };
    let body = vec![Stmt::Assignment {
        name: InternedString(0),
        value: bin(var(0), TokenKind::Plus, var(1)),
        line: 2,
        is_const_assign: false,
    }];
    let f = Stmt::ForIn { variable: InternedString(1), iterable: range, body, line: 2 };
    assert_eq!(number_of(vec![let_(0, num(0.0)), f], var(0)), 10.0);
}

#[test]
fn module_text_of_require() {
    let require = Expr::Require { path: "m".to_string(), line: 1 };
    match value_of(vec![], require) {
        Value::String(s) => assert_eq!(s, "<module InternedString(0)>"),
        _ => panic!("not a string"),
    }
}

#[test]
fn errors_of_arithmetic() {
    let div = vec![let_(0, bin(num(1.0), TokenKind::Slash, num(0.0)))];
    assert!(matches!(run(div), Err(VmError::DivisionByZero)));
    let rem = vec![let_(0, bin(num(1.0), TokenKind::Percent, num(-0.0)))];
    assert!(matches!(run(rem), Err(VmError::ModuloByZero)));
    let sub = vec![let_(0, bin(text("a"), TokenKind::Minus, num(1.0)))];
    assert!(matches!(run(sub), Err(VmError::InvalidOperands('-'))));
    let add = vec![let_(0, bin(text("a"), TokenKind::Plus, num(1.0)))];
    assert!(matches!(run(add), Err(VmError::InvalidOperands('+'))));
    let neg = vec![let_(0, Expr::Unary { op: TokenKind::Minus, expr: Box::new(text("a")), line: 1 })];
    assert!(matches!(run(neg), Err(VmError::CannotNegate)));
}

#[test]
fn errors_of_indexing() {
    let bad = vec![let_(0, Expr::Index { object: Box::new(num(5.0)), index: Box::new(num(0.0)), line: 1 })];
    assert!(matches!(run(bad), Err(VmError::InvalidIndex)));
    let array = Expr::Array { items: vec![num(1.0)], line: 1 };
    let out = Stmt::Expression(Expr::SetIndex {
        object: Box::new(var(0)),
        index: Box::new(num(5.0)),
        value: Box::new(num(1.0)),
        line: 2,
    });
    assert!(matches!(run(vec![let_(0, array), out]), Err(VmError::IndexOutOfBounds(5))));
    let assign = Stmt::Expression(Expr::SetIndex {
        object: Box::new(num(5.0)),
        index: Box::new(num(0.0)),
        value: Box::new(num(1.0)),
        line: 1,
    });
    assert!(matches!(run(vec![assign]), Err(VmError::InvalidIndexAssignment)));
    let length = vec![let_(0, Expr::Length { expr: Box::new(num(5.0)), line: 1 })];
    assert!(matches!(run(length), Err(VmError::CannotGetLength)));
}

#[test]
fn errors_of_properties() {
    let get = vec![let_(0, Expr::Get { object: Box::new(num(5.0)), name: InternedString(3), line: 1 })];
    assert!(matches!(run(get), Err(VmError::PropertyOfNonTable(InternedString(3)))));
    let set = Stmt::PropertySet { object: Box::new(num(5.0)), name: InternedString(4), value: num(1.0), line: 1 };
    assert!(matches!(run(vec![set]), Err(VmError::PropertySetOnNonTable(InternedString(4)))));
}

#[test]
fn errors_of_calls_and_classes() {
    assert!(matches!(run(vec![call(num(1.0))]), Err(VmError::NotCallable(Value::Number(_)))));
    let program = hand_made(
        vec![Instruction::LoadConstant { index: 0 }, Instruction::Call { arg_count: 0 }],
        vec![Value::Function { name: 9, params: vec![], default_params: vec![] }],
        vec![],
    );
    assert!(matches!(VirtualMachine::new().execute(&program, &arith), Err(VmError::FunctionIndexOutOfBounds(9))));
    let program = hand_made(
        vec![Instruction::LoadConstant { index: 0 }, Instruction::NewInstance { class_name: InternedString(0), arg_count: 0 }],
        vec![Value::Number(1.0f64.to_bits())],
        vec![],
    );
    assert!(matches!(VirtualMachine::new().execute(&program, &arith), Err(VmError::NotAClass)));
}

#[test]
fn errors_of_ranges_and_loops() {
    let range = Expr::Range { start: Box::new(text("a")), end: Box::new(text("b")), line: 1 };
    assert!(matches!(run(vec![let_(0, range)]), Err(VmError::RangeBoundsNotNumbers)));
    let f = Stmt::ForIn { variable: InternedString(0), iterable: num(5.0), body: vec![], line: 1 };
    assert!(matches!(run(vec![f]), Err(VmError::NotIterable)));
}

#[test]
fn bounded_run_stops() {
    let forever = Stmt::While { condition: Expr::LiteralTrue, body: vec![], line: 1 };
    let bytecode = Compiler::new().compile(Program { statements: vec![forever] }, &arith);
    assert!(VirtualMachine::new().execute_bounded(&bytecode, &arith, 1000).is_none());
    let short = Compiler::new().compile(Program { statements: vec![let_(0, num(1.0))] }, &arith);
    assert!(matches!(VirtualMachine::new().execute_bounded(&short, &arith, 1000), Some(Ok(()))));
    assert!(VirtualMachine::new().execute_bounded(&short, &arith, 1).is_none());
}

#[test]
fn bounded_run_refuses_a_panicking_step() {
    // A string index that cuts a character in two.
    let index = Expr::Index { object: Box::new(text("é")), index: Box::new(num(0.0)), line: 1 };
    let bytecode = Compiler::new().compile(Program { statements: vec![let_(0, index)] }, &arith);
    assert!(VirtualMachine::new().execute_bounded(&bytecode, &arith, 1000).is_none());
}

#[test]
fn successful_run_ends_every_call() {
    // A second run on the same machine starts from no call in progress.
    let bytecode = Compiler::new().compile(Program { statements: vec![let_(0, num(1.0))] }, &arith);
    let mut vm = VirtualMachine::new();
    assert!(vm.execute(&bytecode, &arith).is_ok());
    assert!(matches!(vm.execute_bounded(&bytecode, &arith, 5), Some(Ok(()))));
}

#[test]
fn constructor_is_called() {
    // A class whose `init` entry is the number 5: making an instance calls
    // it, which fails with the number.
    let mut interner = StringInterner::new();
    let init_id = interner.intern("init");
    let program = BytecodeProgram {
        functions: vec![],
        main: BytecodeFunction {
            name: 0,
            params: vec![],
            arity: 0,
            instructions: vec![
                Instruction::LoadConstant { index: 0 },
                Instruction::LoadConstant { index: 1 },
                Instruction::Class { name: InternedString(7), method_count: 1 },
                Instruction::NewInstance { class_name: InternedString(7), arg_count: 0 },
            ],
            constants: vec![Value::Number((init_id as f64).to_bits()), Value::Number(5.0f64.to_bits())],
            max_slots: 0,
        },
        string_interner: interner,
    };
    match VirtualMachine::new().execute(&program, &arith) {
        Err(VmError::NotCallable(Value::Number(n))) => assert_eq!(f64::from_bits(n), 5.0),
        _ => panic!("the constructor was not called"),
    }
}

#[test]
fn table_length_and_iteration() {
    // let t = { a: 1, b: 2, c: 4 }; #t()
    let table = || Expr::Table {
        entries: vec![(InternedString(1), num(1.0)), (InternedString(2), num(2.0)), (InternedString(3), num(4.0))],
        line: 1,
    };
    assert_eq!(number_of(vec![let_(0, table())], Expr::Length { expr: Box::new(var(0)), line: 2 }), 3.0);
    // A key set twice keeps one entry.
    let twice = Expr::Table { entries: vec![(InternedString(1), num(1.0)), (InternedString(1), num(5.0))], line: 1 };
    assert_eq!(number_of(vec![let_(0, twice)], Expr::Length { expr: Box::new(var(0)), line: 2 }), 1.0);
    // let s = 0; for v in t { s = s * 10 + v }; s()  -- values come in insertion order
    let body = vec![Stmt::Assignment {
        name: InternedString(9),
        value: bin(bin(var(9), TokenKind::Star, num(10.0)), TokenKind::Plus, var(8)),
        line: 3,
        is_const_assign: false,
    }];
    let f = Stmt::ForIn { variable: InternedString(8), iterable: var(0), body, line: 3 };
    assert_eq!(number_of(vec![let_(0, table()), let_(9, num(0.0)), f], var(9)), 124.0);
}

#[test]
fn nested_collections_stay_reachable() {
    // let t = { a: [1, 2] }; t.a[1]()
    let array = Expr::Array { items: vec![num(1.0), num(2.0)], line: 1 };
    let table = Expr::Table { entries: vec![(InternedString(1), array)], line: 1 };
    let get = Expr::Get { object: Box::new(var(0)), name: InternedString(1), line: 2 };
    let index = Expr::Index { object: Box::new(get), index: Box::new(num(1.0)), line: 2 };
    assert_eq!(number_of(vec![let_(0, table)], index), 2.0);
}

fn assign(k: usize, e: Expr) -> Stmt {
    Stmt::Assignment { name: InternedString(k), value: e, line: 1, is_const_assign: false }
}

fn if_(c: Expr, then_branch: Vec<Stmt>) -> Stmt {
    Stmt::If { condition: c, then_branch, else_branch: None, line: 1 }
}

#[test]
fn continue_skips_the_rest_of_the_body() {
    // let sum = 0; let i = 0
    // while i < 20 { i = i + 1; if i % 2 == 0 { continue }; if i > 15 { break }; sum = sum + i }
    let body = vec![
        assign(1, bin(var(1), TokenKind::Plus, num(1.0))),
        if_(bin(bin(var(1), TokenKind::Percent, num(2.0)), TokenKind::EqualEqual, num(0.0)), vec![Stmt::Continue]),
        if_(bin(var(1), TokenKind::Greater, num(15.0)), vec![Stmt::Break]),
        assign(0, bin(var(0), TokenKind::Plus, var(1))),
    ];
    let w = Stmt::While { condition: bin(var(1), TokenKind::Less, num(20.0)), body, line: 1 };
    assert_eq!(number_of(vec![let_(0, num(0.0)), let_(1, num(0.0)), w], var(0)), 64.0);
}

#[test]
fn an_expression_statement_does_not_end_the_function() {
    // function f() { 1 + 2; return 7 }; let r = f()
    let f = Stmt::Function {
        name: InternedString(0),
        params: vec![],
        body: vec![Stmt::Expression(bin(num(1.0), TokenKind::Plus, num(2.0))), Stmt::Return(Some(num(7.0)))],
        line: 1,
    };
    let call_f = Expr::Call { callee: Box::new(var(0)), arguments: vec![], line: 2 };
    assert_eq!(number_of(vec![f, let_(1, call_f)], var(1)), 7.0);
}

#[test]
fn destructuring_reads_the_array() {
    // let [a, b, c] = [10, 20, 30]; a + b + c
    let d = Stmt::Destructure {
        names: vec![InternedString(1), InternedString(2), InternedString(3)],
        initializer: Expr::Array { items: vec![num(10.0), num(20.0), num(30.0)], line: 1 },
        line: 1,
    };
    let sum = bin(bin(var(1), TokenKind::Plus, var(2)), TokenKind::Plus, var(3));
    assert_eq!(number_of(vec![d], sum), 60.0);
}

#[test]
fn safe_get_on_nil_gives_nil() {
    // let obj = nil; let x = obj?.missing; let y = x ?? "default"
    let get = Expr::SafeGet { object: Box::new(var(0)), name: InternedString(5), line: 1 };
    let y = Expr::NullCoalesce { left: Box::new(var(1)), right: Box::new(text("default")), line: 1 };
    let program = vec![let_(0, Expr::LiteralNil), let_(1, get), let_(2, y)];
    match value_of(program, var(2)) {
        Value::String(s) => assert_eq!(s, "default"),
        _ => panic!("not a string"),
    }
    let table = Expr::Table { entries: vec![(InternedString(5), num(4.0))], line: 1 };
    let get = Expr::SafeGet { object: Box::new(table), name: InternedString(5), line: 1 };
    assert_eq!(number_of(vec![], get), 4.0);
}

#[test]
fn this_is_restored_when_a_constructor_fails() {
    // A class whose `init` is not callable: the constructor call fails.
    let mut strings = StringInterner::new();
    let init = strings.intern("init");
    let program = BytecodeProgram {
        functions: vec![],
        main: BytecodeFunction {
            name: 0,
            params: vec![],
            arity: 0,
            instructions: vec![
                Instruction::NewTable,
                Instruction::LoadConstant { index: 0 },
                Instruction::TableSet { key: InternedString(init) },
                Instruction::NewInstance { class_name: InternedString(0), arg_count: 0 },
            ],
            constants: vec![Value::Number(1.0f64.to_bits())],
            max_slots: 0,
        },
        string_interner: strings,
    };
    let mut vm = VirtualMachine::new();
    assert!(matches!(vm.execute(&program, &arith), Err(VmError::NotCallable(Value::Number(_)))));
    // `this` is nil again: calling it reports nil.
    let probe = hand_made(vec![Instruction::This, Instruction::Call { arg_count: 0 }], vec![], vec![]);
    assert!(matches!(vm.execute(&probe, &arith), Err(VmError::NotCallable(Value::Nil))));
}

#[test]
fn f_strings_interpolate_strings() {
    // let name = "Taurine"; let v = "2"; f"Hello from {name} v{v}!"
    let parts = vec![
        ("Hello from ".to_string(), Some(Box::new(var(0)))),
        (" v".to_string(), Some(Box::new(var(1)))),
        ("!".to_string(), None),
    ];
    let f = Expr::FString { parts, line: 1 };
    match value_of(vec![let_(0, text("Taurine")), let_(1, text("2"))], f) {
        Value::String(s) => assert_eq!(s, "Hello from Taurine v2!"),
        _ => panic!("not a string"),
    }
}

#[test]
fn f_strings_write_numbers() {
    // let name = "Taurine"; let version = 2; f"Hello from {name} v{version}!"
    let parts = vec![
        ("Hello from ".to_string(), Some(Box::new(var(0)))),
        (" v".to_string(), Some(Box::new(var(1)))),
        ("!".to_string(), None),
    ];
    let f = Expr::FString { parts, line: 1 };
    match value_of(vec![let_(0, text("Taurine")), let_(1, num(2.0))], f) {
        Value::String(s) => assert_eq!(s, "Hello from Taurine v2!"),
        _ => panic!("not a string"),
    }
    let parts = vec![
        ("".to_string(), Some(Box::new(num(-0.5)))),
        (" ".to_string(), Some(Box::new(Expr::LiteralTrue))),
        (" ".to_string(), Some(Box::new(Expr::LiteralNil))),
    ];
    match value_of(vec![], Expr::FString { parts, line: 1 }) {
        Value::String(s) => assert_eq!(s, "-0.5 true nil"),
        _ => panic!("not a string"),
    }
}

#[test]
fn f_string_of_an_array_is_refused() {
    let parts = vec![("a = ".to_string(), Some(Box::new(Expr::Array { items: vec![], line: 1 })))];
    let f = Expr::FString { parts, line: 1 };
    assert!(matches!(run(vec![let_(0, f)]), Err(VmError::CannotInterpolate)));
}

#[test]
fn error_messages() {
    assert_eq!(VmError::InvalidOperands('+').message(&arith), "Invalid operands for +");
    assert_eq!(VmError::DivisionByZero.message(&arith), "Division by zero");
    assert_eq!(VmError::FunctionIndexOutOfBounds(12).message(&arith), "Function index 12 out of bounds");
    assert_eq!(VmError::IndexOutOfBounds(0).message(&arith), "Index 0 out of bounds");
    assert_eq!(
        VmError::PropertyOfNonTable(InternedString(3)).message(&arith),
        "Cannot get property 'InternedString(3)' on non-table"
    );
    assert_eq!(
        VmError::NotCallable(Value::Number(2.5f64.to_bits())).message(&arith),
        "Cannot call non-function value: Number(2.5)"
    );
    assert_eq!(
        VmError::NotCallable(Value::Function { name: 4, params: vec![1, 20], default_params: vec![] }).message(&arith),
        "Cannot call non-function value: Function { name: 4, params: [1, 20] }"
    );
    assert_eq!(VmError::NotCallable(Value::String("hi".to_string())).message(&arith), "Cannot call non-function value: String(\"hi\")");
    assert_eq!(VmError::CannotInterpolate.message(&arith), "Cannot write value as text");
}

#[test]
fn table_index_read_after_write() {
    // let t = {}; t[3] = 9; t[3]
    let t = Expr::Table { entries: vec![], line: 1 };
    let set = Stmt::Expression(Expr::SetIndex {
        object: Box::new(var(0)),
        index: Box::new(num(3.0)),
        value: Box::new(num(9.0)),
        line: 1,
    });
    let get = Expr::Index { object: Box::new(var(0)), index: Box::new(num(3.0)), line: 1 };
    assert_eq!(number_of(vec![let_(0, t), set], get), 9.0);
}

#[test]
fn a_run_stops_at_the_first_error() {
    // Calling a number fails; the division by zero after it never runs.
    let program = hand_made(
        vec![
            Instruction::LoadConstant { index: 0 },
            Instruction::Call { arg_count: 0 },
            Instruction::LoadConstant { index: 0 },
            Instruction::LoadConstant { index: 1 },
            Instruction::Divide,
        ],
        vec![Value::Number(1.0f64.to_bits()), Value::Number(0.0f64.to_bits())],
        vec![],
    );
    assert!(matches!(VirtualMachine::new().execute(&program, &arith), Err(VmError::NotCallable(_))));
}

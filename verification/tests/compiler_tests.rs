// The code that the compiler gives.
use taurine::ast::{Expr, InternedString, Program, Stmt, TokenKind};
use taurine::bytecode::{BytecodeProgram, Compiler, Instruction, OpCode};
use taurine::interner::StringInterner;
use taurine::limits::{compile_cost, program_size};
use taurine::number::NumOp;
use taurine::value::Value;

fn arith(op: NumOp, a: u64, b: u64) -> u64 {
    let x = f64::from_bits(a);
    let y = f64::from_bits(b);
    match op {
        NumOp::Add => (x + y).to_bits(),
        NumOp::Sub => (x - y).to_bits(),
        NumOp::Mul => (x * y).to_bits(),
        NumOp::Div => (x / y).to_bits(),
        NumOp::Rem => (x % y).to_bits(),
        NumOp::Neg => (-x).to_bits(),
        NumOp::Less => (x < y) as u64,
        NumOp::Greater => (x > y) as u64,
        NumOp::LessEq => (x <= y) as u64,
        NumOp::GreaterEq => (x >= y) as u64,
        NumOp::Equal => (x == y) as u64,
        NumOp::FromUsize => (a as f64).to_bits(),
        NumOp::FromI64 => ((a as i64) as f64).to_bits(),
        NumOp::ToUsize => (x as usize) as u64,
        NumOp::ToI64 => (x as i64) as u64,
        NumOp::TextLen => format!("{x}").chars().count() as u64,
        NumOp::TextChar => format!("{x}").chars().nth(b as usize).map_or(0, |c| c as u64),
    }
}

fn compile(statements: Vec<Stmt>) -> BytecodeProgram {
    Compiler::new().compile(Program { statements }, &arith)
}

fn num(x: f64) -> Expr {
    Expr::Number(x.to_bits())
}

fn var(k: usize) -> Expr {
    Expr::Identifier(InternedString(k))
}

fn bin(l: Expr, op: TokenKind, r: Expr) -> Expr {
    Expr::Binary { left: Box::new(l), op, right: Box::new(r), line: 1 }
}

fn let_(k: usize, e: Expr, line: usize) -> Stmt {
    Stmt::Declaration { name: InternedString(k), initializer: Some(e), line, is_const: false }
}

fn number_constant(v: &Value) -> f64 {
    match v {
        Value::Number(b) => f64::from_bits(*b),
        _ => panic!("not a number"),
    }
}

#[test]
fn declaration_code() {
    let p = compile(vec![let_(3, bin(num(1.0), TokenKind::Plus, num(2.0)), 1)]);
    assert_eq!(
        p.main.instructions,
        vec![
            Instruction::LoadConstant { index: 0 },
            Instruction::LoadConstant { index: 1 },
            Instruction::Add,
            Instruction::StoreLocal { slot: 0 },
            Instruction::Line { line_num: 1 },
            Instruction::ReturnNil,
        ]
    );
    assert_eq!(p.main.constants.len(), 2);
    assert_eq!(number_constant(&p.main.constants[0]), 1.0);
    assert_eq!(number_constant(&p.main.constants[1]), 2.0);
    assert_eq!(p.main.max_slots, 1);
    assert_eq!(p.main.arity, 0);
    assert_eq!(p.main.name, 0);
    assert!(p.functions.is_empty());
}

#[test]
fn empty_program_returns() {
    let p = compile(vec![]);
    assert_eq!(p.main.instructions, vec![Instruction::ReturnNil]);
    assert_eq!(p.main.max_slots, 0);
}

#[test]
fn globals_and_locals() {
    let set_global = Stmt::Assignment { name: InternedString(8), value: var(8), line: 1, is_const_assign: false };
    let set_local = Stmt::Assignment { name: InternedString(0), value: num(1.0), line: 2, is_const_assign: false };
    let p = compile(vec![set_global, let_(0, num(0.0), 2), set_local]);
    assert_eq!(
        p.main.instructions,
        vec![
            Instruction::LoadGlobal { name: InternedString(8) },
            Instruction::StoreGlobal { name: InternedString(8) },
            Instruction::Line { line_num: 1 },
            Instruction::LoadConstant { index: 0 },
            Instruction::StoreLocal { slot: 0 },
            Instruction::Line { line_num: 2 },
            Instruction::LoadConstant { index: 1 },
            Instruction::StoreLocal { slot: 0 },
            Instruction::Line { line_num: 2 },
            Instruction::ReturnNil,
        ]
    );
}

#[test]
fn while_loop_jumps() {
    // while x < 5 { break }
    let w = Stmt::While { condition: bin(var(0), TokenKind::Less, num(5.0)), body: vec![Stmt::Break], line: 4 };
    let p = compile(vec![w]);
    assert_eq!(
        p.main.instructions,
        vec![
            Instruction::LoadGlobal { name: InternedString(0) },
            Instruction::LoadConstant { index: 0 },
            Instruction::Less,
            Instruction::JumpIfFalse { offset: 2 },
            Instruction::Jump { offset: 1 },
            Instruction::JumpBack { offset: 6 },
            Instruction::Line { line_num: 4 },
            Instruction::ReturnNil,
        ]
    );
}

#[test]
fn continue_jumps_to_the_condition() {
    let w = Stmt::While { condition: Expr::LiteralTrue, body: vec![Stmt::Continue], line: 1 };
    let p = compile(vec![w]);
    assert_eq!(
        p.main.instructions,
        vec![
            Instruction::LoadTrue,
            Instruction::JumpIfFalse { offset: 2 },
            // `continue` goes back to the loop's test, at position 0.
            Instruction::JumpBack { offset: 3 },
            Instruction::JumpBack { offset: 4 },
            Instruction::Line { line_num: 1 },
            Instruction::ReturnNil,
        ]
    );
}

#[test]
fn if_else_jumps() {
    let i = Stmt::If {
        condition: Expr::LiteralTrue,
        then_branch: vec![Stmt::Expression(Expr::LiteralNil)],
        else_branch: Some(vec![Stmt::Expression(Expr::LiteralFalse)]),
        line: 2,
    };
    let p = compile(vec![i]);
    assert_eq!(
        p.main.instructions,
        vec![
            Instruction::LoadTrue,
            Instruction::JumpIfFalse { offset: 2 },
            Instruction::LoadNil,
            Instruction::Jump { offset: 1 },
            Instruction::LoadFalse,
            Instruction::Line { line_num: 2 },
            Instruction::ReturnNil,
        ]
    );
}

#[test]
fn functions_are_collected() {
    let f = Stmt::Function {
        name: InternedString(4),
        params: vec![(InternedString(1), None), (InternedString(2), Some(num(3.0)))],
        body: vec![Stmt::Return(Some(bin(var(1), TokenKind::Plus, var(2))))],
        line: 1,
    };
    let p = compile(vec![f]);
    assert_eq!(p.functions.len(), 1);
    let g = &p.functions[0];
    assert_eq!(g.name, 4);
    assert_eq!(g.params, vec![1, 2]);
    assert_eq!(g.arity, 2);
    assert_eq!(
        g.instructions,
        vec![
            Instruction::LoadLocal { slot: 0 },
            Instruction::LoadLocal { slot: 1 },
            Instruction::Add,
            Instruction::Return,
            Instruction::ReturnNil,
        ]
    );
    assert_eq!(
        p.main.instructions,
        vec![
            Instruction::LoadConstant { index: 0 },
            Instruction::StoreLocal { slot: 0 },
            Instruction::Line { line_num: 1 },
            Instruction::ReturnNil,
        ]
    );
    match &p.main.constants[0] {
        Value::Function { name, params, default_params } => {
            assert_eq!(*name, 0);
            assert_eq!(*params, vec![1, 2]);
            assert!(default_params[0].is_none());
            assert!(matches!(default_params[1], Some(Expr::Number(_))));
        },
        _ => panic!("not a function"),
    }
}

#[test]
fn every_compiled_function_ends_with_return_nil() {
    let inner = Expr::Lambda { params: vec![(InternedString(1), None)], body: Box::new(var(1)), line: 1 };
    let f = Stmt::Function { name: InternedString(0), params: vec![], body: vec![let_(2, inner, 1)], line: 1 };
    let p = compile(vec![f]);
    assert_eq!(p.functions.len(), 2);
    for g in p.functions.iter().chain(std::iter::once(&p.main)) {
        assert_eq!(g.instructions.last(), Some(&Instruction::ReturnNil));
        assert_eq!(g.arity, g.params.len());
    }
    assert_eq!(p.functions[0].instructions, vec![Instruction::LoadLocal { slot: 0 }, Instruction::Return, Instruction::ReturnNil]);
}

#[test]
fn destructuring_numbers_positions() {
    let d = Stmt::Destructure {
        names: vec![InternedString(1), InternedString(2)],
        initializer: Expr::Array { items: vec![], line: 1 },
        line: 1,
    };
    let p = compile(vec![d]);
    assert_eq!(
        p.main.instructions,
        vec![
            Instruction::NewArray { capacity: 0 },
            // The array is kept in a slot of its own, read for each name.
            Instruction::StoreLocal { slot: 0 },
            Instruction::LoadLocal { slot: 0 },
            Instruction::LoadConstant { index: 0 },
            Instruction::IndexGet,
            Instruction::StoreLocal { slot: 1 },
            Instruction::LoadLocal { slot: 0 },
            Instruction::LoadConstant { index: 1 },
            Instruction::IndexGet,
            Instruction::StoreLocal { slot: 2 },
            Instruction::Line { line_num: 1 },
            Instruction::ReturnNil,
        ]
    );
    assert_eq!(number_constant(&p.main.constants[0]), 0.0);
    assert_eq!(number_constant(&p.main.constants[1]), 1.0);
}

#[test]
fn imports_are_interned() {
    let a = Stmt::Import { path: "math".to_string(), alias: None, line: 1 };
    let b = Stmt::Import { path: "io".to_string(), alias: Some(InternedString(5)), line: 2 };
    let c = Stmt::Import { path: "math".to_string(), alias: None, line: 3 };
    let p = compile(vec![a, b, c]);
    assert_eq!(p.string_interner.get(0), Some("math"));
    assert_eq!(p.string_interner.get(1), Some("io"));
    assert_eq!(p.string_interner.len(), 2);
    assert_eq!(p.main.instructions[0], Instruction::LoadGlobal { name: InternedString(0) });
    assert_eq!(p.main.instructions[2], Instruction::LoadGlobal { name: InternedString(1) });
    assert_eq!(p.main.instructions[3], Instruction::StoreLocal { slot: 0 });
    assert_eq!(p.main.instructions[5], Instruction::LoadGlobal { name: InternedString(0) });
}

#[test]
fn method_calls_pass_this() {
    let callee = Expr::Get { object: Box::new(var(0)), name: InternedString(1), line: 1 };
    let call = Expr::Call { callee: Box::new(callee), arguments: vec![num(2.0)], line: 1 };
    let p = compile(vec![Stmt::Expression(call)]);
    assert_eq!(
        p.main.instructions,
        vec![
            Instruction::LoadGlobal { name: InternedString(0) },
            Instruction::This,
            Instruction::LoadConstant { index: 0 },
            Instruction::LoadGlobal { name: InternedString(0) },
            Instruction::PropertyGet { name: InternedString(1) },
            Instruction::Call { arg_count: 2 },
            Instruction::ReturnNil,
        ]
    );
}

#[test]
fn opcode_numbers() {
    assert_eq!(OpCode::LoadConstant.code(), 0);
    assert_eq!(OpCode::LoadNil.code(), 1);
    assert_eq!(OpCode::Length.code(), 55);
    assert_eq!(OpCode::Stringify.code(), 56);
}

#[test]
fn interner_gives_one_number_per_string() {
    let mut interner = StringInterner::new();
    let a = interner.intern("alpha");
    let b = interner.intern("beta");
    let a2 = interner.intern("alpha");
    assert_eq!(a, a2);
    assert_ne!(a, b);
    assert_eq!(interner.get(a), Some("alpha"));
    assert_eq!(interner.get(b), Some("beta"));
    assert_eq!(interner.get(2), None);
    assert_eq!(interner.get_id("beta"), Some(1));
    assert_eq!(interner.get_id("gamma"), None);
}

#[test]
fn compiled_functions_are_well_formed() {
    // function f(a) { while a < 3 { if a == 1 { break } else { continue } } for i in 0..a { return i } }
    // let g = (x) => x + 1
    let inner_if = Stmt::If {
        condition: bin(var(1), TokenKind::EqualEqual, num(1.0)),
        then_branch: vec![Stmt::Break],
        else_branch: Some(vec![Stmt::Continue]),
        line: 2,
    };
    let w = Stmt::While { condition: bin(var(1), TokenKind::Less, num(3.0)), body: vec![inner_if], line: 2 };
    let range = Expr::Range { start: Box::new(num(0.0)), end: Box::new(var(1)), line: 3 };
    let fi = Stmt::ForIn { variable: InternedString(2), iterable: range, body: vec![Stmt::Return(Some(var(2)))], line: 3 };
    let f = Stmt::Function { name: InternedString(0), params: vec![(InternedString(1), None)], body: vec![w, fi], line: 1 };
    let g = Expr::Lambda {
        params: vec![(InternedString(4), None)],
        body: Box::new(bin(var(4), TokenKind::Plus, num(1.0))),
        line: 4,
    };
    let p = compile(vec![f, let_(3, g, 4)]);
    for func in p.functions.iter().chain(std::iter::once(&p.main)) {
        let code = &func.instructions;
        let len = code.len();
        assert_eq!(code.last(), Some(&Instruction::ReturnNil));
        for (i, ins) in code.iter().enumerate() {
            match ins {
                Instruction::LoadConstant { index } => assert!(*index < func.constants.len()),
                Instruction::Jump { offset } | Instruction::JumpIfFalse { offset } | Instruction::JumpIfTrue { offset } => {
                    assert!(i + 1 + offset <= len)
                },
                Instruction::ForInNext { end_offset, .. } => assert!(i + 1 + end_offset <= len),
                Instruction::JumpBack { offset } => assert!(*offset <= i + 1),
                _ => {},
            }
        }
    }
}

#[test]
fn outer_locals_survive_a_function() {
    // let a = 1; function f(b) { let c = b }; let d = a
    let f = Stmt::Function {
        name: InternedString(5),
        params: vec![(InternedString(2), None)],
        body: vec![let_(3, var(2), 2)],
        line: 2,
    };
    let p = compile(vec![let_(1, num(1.0), 1), f, let_(4, var(1), 3)]);
    assert_eq!(
        p.main.instructions,
        vec![
            Instruction::LoadConstant { index: 0 },
            Instruction::StoreLocal { slot: 0 },
            Instruction::Line { line_num: 1 },
            Instruction::LoadConstant { index: 1 },
            Instruction::StoreLocal { slot: 1 },
            Instruction::Line { line_num: 2 },
            Instruction::LoadLocal { slot: 0 },
            Instruction::StoreLocal { slot: 2 },
            Instruction::Line { line_num: 3 },
            Instruction::ReturnNil,
        ]
    );
    assert_eq!(p.main.max_slots, 3);
    assert_eq!(
        p.functions[0].instructions,
        vec![
            Instruction::LoadLocal { slot: 0 },
            Instruction::StoreLocal { slot: 1 },
            Instruction::Line { line_num: 2 },
            Instruction::ReturnNil,
        ]
    );
    assert_eq!(p.functions[0].max_slots, 2);
}

#[test]
fn program_bounds() {
    // let x = 1 + 2
    let p = Program { statements: vec![let_(0, bin(num(1.0), TokenKind::Plus, num(2.0)), 1)] };
    assert_eq!(compile_cost(&p), Some(64));
    assert_eq!(program_size(&p), Some(4));
    let empty = Program { statements: vec![] };
    assert_eq!(compile_cost(&empty), Some(0));
    assert_eq!(program_size(&empty), Some(0));
    // function f(a, b) { return a }
    let f = Stmt::Function {
        name: InternedString(0),
        params: vec![(InternedString(1), None), (InternedString(2), None)],
        body: vec![Stmt::Return(Some(var(1)))],
        line: 1,
    };
    let p = Program { statements: vec![f] };
    assert_eq!(compile_cost(&p), Some(16 + 2 + 16 + 16));
    assert_eq!(program_size(&p), Some(1 + 1 + 1));
}

#[test]
fn declarations_take_the_next_slots() {
    let p = compile(vec![let_(7, num(1.0), 1), let_(8, num(2.0), 2), let_(9, var(7), 3)]);
    assert_eq!(p.main.instructions[1], Instruction::StoreLocal { slot: 0 });
    assert_eq!(p.main.instructions[4], Instruction::StoreLocal { slot: 1 });
    assert_eq!(p.main.instructions[6], Instruction::LoadLocal { slot: 0 });
    assert_eq!(p.main.instructions[7], Instruction::StoreLocal { slot: 2 });
}

#[test]
fn a_later_statement_keeps_the_earlier_code() {
    let first = vec![let_(0, num(1.0), 1), Stmt::While { condition: var(0), body: vec![Stmt::Break], line: 2 }];
    let mut both = vec![let_(0, num(1.0), 1), Stmt::While { condition: var(0), body: vec![Stmt::Break], line: 2 }];
    both.push(Stmt::While { condition: var(0), body: vec![Stmt::Continue], line: 3 });
    let a = compile(first).main.instructions;
    let b = compile(both).main.instructions;
    let n = a.len() - 1;
    assert_eq!(a[..n], b[..n]);
}

#[test]
fn function_constants_name_compiled_functions() {
    let inner = Stmt::Function { name: InternedString(1), params: vec![], body: vec![], line: 1 };
    let outer = Stmt::Function { name: InternedString(0), params: vec![], body: vec![inner], line: 1 };
    let p = compile(vec![outer]);
    assert_eq!(p.functions.len(), 2);
    let names = |vs: &Vec<Value>| -> Vec<usize> {
        vs.iter()
            .filter_map(|v| match v {
                Value::Function { name, .. } => Some(*name),
                _ => None,
            })
            .collect()
    };
    assert_eq!(names(&p.functions[1].constants), vec![0]);
    assert_eq!(names(&p.main.constants), vec![1]);
}

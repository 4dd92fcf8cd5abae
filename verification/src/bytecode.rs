//! Bytecode: the instruction set, compiled functions and programs.  The
//! compiler and the machine that produce and run them are re-exported here.
use vstd::prelude::*;
pub use crate::compiler::Compiler;
pub use crate::vm::{VirtualMachine, VmError};
use crate::ast::InternedString;
use crate::interner::StringInterner;
use crate::value::{copy_usizes, copy_values, values_view, SpecValue, Value};

verus! {

/// The operation codes of the instruction set, numbered in order from 0.
#[derive(Clone, Copy, Debug, PartialEq, Eq, Structural)]
pub enum OpCode {
    LoadConstant,
    LoadNil,
    LoadTrue,
    LoadFalse,
    LoadLocal,
    StoreLocal,
    LoadGlobal,
    StoreGlobal,
    Add,
    Subtract,
    Multiply,
    Divide,
    Modulo,
    Negate,
    Equal,
    NotEqual,
    Less,
    Greater,
    LessEqual,
    GreaterEqual,
    And,
    Or,
    Not,
    Jump,
    JumpIfFalse,
    JumpIfTrue,
    JumpBack,
    Call,
    Return,
    ReturnNil,
    NewArray,
    NewTable,
    ArrayPush,
    TableSet,
    IndexGet,
    IndexSet,
    PropertyGet,
    PropertySet,
    Break,
    Continue,
    Line,
    NullCoalesce,
    Lambda,
    NewInstance,
    This,
    Super,
    Spread,
    Match,
    Require,
    Export,
    MakeSet,
    Class,
    NewRange,
    ForInInit,
    ForInNext,
    Length,
    Stringify,
}

/// Instructions of the stack machine.  Jump offsets count instructions after
/// the one that follows the jump.
#[derive(Clone, Copy, Debug, PartialEq, Eq, Structural)]
pub enum Instruction {
    LoadConstant { index: usize },
    LoadNil,
    LoadTrue,
    LoadFalse,
    LoadLocal { slot: usize },
    StoreLocal { slot: usize },
    LoadGlobal { name: InternedString },
    StoreGlobal { name: InternedString },
    Add,
    Subtract,
    Multiply,
    Divide,
    Modulo,
    Negate,
    Equal,
    NotEqual,
    Less,
    Greater,
    LessEqual,
    GreaterEqual,
    And,
    Or,
    Not,
    Jump { offset: usize },
    JumpIfFalse { offset: usize },
    JumpIfTrue { offset: usize },
    JumpBack { offset: usize },
    Call { arg_count: usize },
    Return,
    ReturnNil,
    NewArray { capacity: usize },
    NewTable,
    ArrayPush,
    TableSet { key: InternedString },
    IndexGet,
    IndexSet,
    PropertyGet { name: InternedString },
    PropertySet { name: InternedString },
    Break,
    Continue,
    Line { line_num: usize },
    NullCoalesce,
    Lambda { param_count: usize, func_index: usize },
    NewInstance { class_name: InternedString, arg_count: usize },
    This,
    Super { method: InternedString },
    Spread,
    Match { arm_count: usize },
    Require { path: InternedString },
    Export { name: InternedString },
    MakeSet,
    Class { name: InternedString, method_count: usize },
    NewRange,
    ForInInit,
    ForInNext { var_slot: usize, end_offset: usize },
    Length,
    /// Replaces the value on top of the stack by its text, for an f-string.
    Stringify,
}

/// A compiled function.
pub struct BytecodeFunction {
    pub name: usize,
    pub params: Vec<usize>,
    pub arity: usize,
    pub instructions: Vec<Instruction>,
    pub constants: Vec<Value>,
    pub max_slots: usize,
}

/// A compiled program: the functions it declares, its main code, and the
/// strings that its imports and requires name.
pub struct BytecodeProgram {
    pub functions: Vec<BytecodeFunction>,
    pub main: BytecodeFunction,
    pub string_interner: StringInterner,
}

pub struct SpecFunction {
    pub name: usize,
    pub params: Seq<usize>,
    pub arity: usize,
    pub instructions: Seq<Instruction>,
    pub constants: Seq<SpecValue>,
    pub max_slots: usize,
}

impl View for BytecodeFunction {
    type V = SpecFunction;

    open spec fn view(&self) -> SpecFunction {
        SpecFunction {
            name: self.name,
            params: self.params@,
            arity: self.arity,
            instructions: self.instructions@,
            constants: values_view(self.constants@),
            max_slots: self.max_slots,
        }
    }
}

pub open spec fn functions_view(s: Seq<BytecodeFunction>) -> Seq<SpecFunction> {
    Seq::new(s.len(), |i: int| s[i]@)
}

pub struct SpecProgram {
    pub functions: Seq<SpecFunction>,
    pub main: SpecFunction,
    pub strings: Seq<Seq<char>>,
}

impl View for BytecodeProgram {
    type V = SpecProgram;

    open spec fn view(&self) -> SpecProgram {
        SpecProgram {
            functions: functions_view(self.functions@),
            main: self.main@,
            strings: self.string_interner@,
        }
    }
}

impl BytecodeFunction {
    /// A copy of the function.
    pub fn copy(&self) -> (r: Self)
        ensures
            r@ == self@,
    {
        let mut instructions: Vec<Instruction> = Vec::new();
        let mut i: usize = 0;
        while i < self.instructions.len()
            invariant
                i <= self.instructions@.len(),
                instructions@ == self.instructions@.take(i as int),
            decreases self.instructions.len() - i,
        {
            instructions.push(self.instructions[i]);
            proof {
                assert(self.instructions@.take(i + 1) =~= self.instructions@.take(i as int).push(self.instructions@[i as int]));
            }
            i += 1;
        }
        proof {
            assert(self.instructions@.take(self.instructions@.len() as int) =~= self.instructions@);
        }
        BytecodeFunction {
            name: self.name,
            params: copy_usizes(&self.params),
            arity: self.arity,
            instructions,
            constants: copy_values(&self.constants),
            max_slots: self.max_slots,
        }
    }
}

/// Copies of the functions.
pub fn copy_functions(v: &Vec<BytecodeFunction>) -> (r: Vec<BytecodeFunction>)
    ensures
        functions_view(r@) == functions_view(v@),
{
    let mut out: Vec<BytecodeFunction> = Vec::new();
    let mut i: usize = 0;
    while i < v.len()
        invariant
            i <= v@.len(),
            out@.len() == i,
            forall|k: int| 0 <= k < i ==> #[trigger] out@[k]@ == v@[k]@,
        decreases v.len() - i,
    {
        out.push(v[i].copy());
        i += 1;
    }
    proof {
        assert(functions_view(out@) =~= functions_view(v@));
    }
    out
}

impl OpCode {
    /// The number of the operation code, from 0 for `LoadConstant` to 56 for `Stringify`.
    pub fn code(&self) -> (r: u8)
        ensures
            r == opcode_number(*self),
    {
        match self {
            OpCode::LoadConstant => 0,
            OpCode::LoadNil => 1,
            OpCode::LoadTrue => 2,
            OpCode::LoadFalse => 3,
            OpCode::LoadLocal => 4,
            OpCode::StoreLocal => 5,
            OpCode::LoadGlobal => 6,
            OpCode::StoreGlobal => 7,
            OpCode::Add => 8,
            OpCode::Subtract => 9,
            OpCode::Multiply => 10,
            OpCode::Divide => 11,
            OpCode::Modulo => 12,
            OpCode::Negate => 13,
            OpCode::Equal => 14,
            OpCode::NotEqual => 15,
            OpCode::Less => 16,
            OpCode::Greater => 17,
            OpCode::LessEqual => 18,
            OpCode::GreaterEqual => 19,
            OpCode::And => 20,
            OpCode::Or => 21,
            OpCode::Not => 22,
            OpCode::Jump => 23,
            OpCode::JumpIfFalse => 24,
            OpCode::JumpIfTrue => 25,
            OpCode::JumpBack => 26,
            OpCode::Call => 27,
            OpCode::Return => 28,
            OpCode::ReturnNil => 29,
            OpCode::NewArray => 30,
            OpCode::NewTable => 31,
            OpCode::ArrayPush => 32,
            OpCode::TableSet => 33,
            OpCode::IndexGet => 34,
            OpCode::IndexSet => 35,
            OpCode::PropertyGet => 36,
            OpCode::PropertySet => 37,
            OpCode::Break => 38,
            OpCode::Continue => 39,
            OpCode::Line => 40,
            OpCode::NullCoalesce => 41,
            OpCode::Lambda => 42,
            OpCode::NewInstance => 43,
            OpCode::This => 44,
            OpCode::Super => 45,
            OpCode::Spread => 46,
            OpCode::Match => 47,
            OpCode::Require => 48,
            OpCode::Export => 49,
            OpCode::MakeSet => 50,
            OpCode::Class => 51,
            OpCode::NewRange => 52,
            OpCode::ForInInit => 53,
            OpCode::ForInNext => 54,
            OpCode::Length => 55,
            OpCode::Stringify => 56,
        }
    }
}

pub open spec fn opcode_number(op: OpCode) -> u8 {
    match op {
        OpCode::LoadConstant => 0,
        OpCode::LoadNil => 1,
        OpCode::LoadTrue => 2,
        OpCode::LoadFalse => 3,
        OpCode::LoadLocal => 4,
        OpCode::StoreLocal => 5,
        OpCode::LoadGlobal => 6,
        OpCode::StoreGlobal => 7,
        OpCode::Add => 8,
        OpCode::Subtract => 9,
        OpCode::Multiply => 10,
        OpCode::Divide => 11,
        OpCode::Modulo => 12,
        OpCode::Negate => 13,
        OpCode::Equal => 14,
        OpCode::NotEqual => 15,
        OpCode::Less => 16,
        OpCode::Greater => 17,
        OpCode::LessEqual => 18,
        OpCode::GreaterEqual => 19,
        OpCode::And => 20,
        OpCode::Or => 21,
        OpCode::Not => 22,
        OpCode::Jump => 23,
        OpCode::JumpIfFalse => 24,
        OpCode::JumpIfTrue => 25,
        OpCode::JumpBack => 26,
        OpCode::Call => 27,
        OpCode::Return => 28,
        OpCode::ReturnNil => 29,
        OpCode::NewArray => 30,
        OpCode::NewTable => 31,
        OpCode::ArrayPush => 32,
        OpCode::TableSet => 33,
        OpCode::IndexGet => 34,
        OpCode::IndexSet => 35,
        OpCode::PropertyGet => 36,
        OpCode::PropertySet => 37,
        OpCode::Break => 38,
        OpCode::Continue => 39,
        OpCode::Line => 40,
        OpCode::NullCoalesce => 41,
        OpCode::Lambda => 42,
        OpCode::NewInstance => 43,
        OpCode::This => 44,
        OpCode::Super => 45,
        OpCode::Spread => 46,
        OpCode::Match => 47,
        OpCode::Require => 48,
        OpCode::Export => 49,
        OpCode::MakeSet => 50,
        OpCode::Class => 51,
        OpCode::NewRange => 52,
        OpCode::ForInInit => 53,
        OpCode::ForInNext => 54,
        OpCode::Length => 55,
        OpCode::Stringify => 56,
    }
}

} // verus!

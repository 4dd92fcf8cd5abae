//! The bytecode machine.
use vstd::prelude::*;
use vstd::string::StringSliceAdditionalSpecFns;
use vstd::utf8::{
    decode_utf8, encode_utf8, encode_utf8_decode_utf8, encode_utf8_valid_utf8, is_char_boundary,
    is_char_boundary_iff_not_is_continuation_byte, is_char_boundary_start_end_of_seq, valid_utf8,
    valid_utf8_split,
};
use indexmap::IndexMap;
use crate::ast::{Expr, InternedString};
use vstd::string::StringExecFns;
use crate::bytecode::{copy_functions, functions_view, BytecodeFunction, BytecodeProgram, Instruction};
use crate::interner::StringInterner;
use crate::machine::{
    collect_methods, iter_next, decimal, module_text, string_id, this_value, cuts_character, from_len, set_table, set_index, to_index, call_value, default_value, enter, jump, jump_overflows, param_value, pop_frame, arith_value, bytes_less, ordered, string_less, truthy, values_equal, array_at, empty_machine, finishes, get_index, instantiate, load, pop, push, run, slot_overflows, step,
    step_panics, step_stringify, value_text, store_at, table_at, RunOutcome, SpecFrame, SpecIter, SpecVmError, VmState,
};
use crate::number::{apply, arith_of, arith_ok, bits_is_zero, NumOp, ZERO_BITS};
use crate::text::number_text_of;
use crate::table::{
    entry_values, insert_entry, lookup, table_clone, table_entries, table_get, table_insert,
    table_len, table_new, table_values,
};
use crate::value::{copy_values, lemma_opts_view, opts_view, values_view, SpecValue, Value};

verus! {

/// An error that stops a run.
pub enum VmError {
    /// The operands of an arithmetic instruction, named by its operator.
    InvalidOperands(char),
    DivisionByZero,
    ModuloByZero,
    CannotNegate,
    FunctionIndexOutOfBounds(usize),
    NotCallable(Value),
    InvalidIndex,
    IndexOutOfBounds(usize),
    InvalidIndexAssignment,
    PropertyOfNonTable(InternedString),
    PropertySetOnNonTable(InternedString),
    NotAClass,
    RangeBoundsNotNumbers,
    NotIterable,
    CannotGetLength,
    /// A value that an f-string cannot write as text.
    CannotInterpolate,
}

impl View for VmError {
    type V = SpecVmError;

    open spec fn view(&self) -> SpecVmError {
        match self {
            VmError::InvalidOperands(c) => SpecVmError::InvalidOperands(*c),
            VmError::DivisionByZero => SpecVmError::DivisionByZero,
            VmError::ModuloByZero => SpecVmError::ModuloByZero,
            VmError::CannotNegate => SpecVmError::CannotNegate,
            VmError::FunctionIndexOutOfBounds(i) => SpecVmError::FunctionIndexOutOfBounds(*i),
            VmError::NotCallable(v) => SpecVmError::NotCallable(v@),
            VmError::InvalidIndex => SpecVmError::InvalidIndex,
            VmError::IndexOutOfBounds(i) => SpecVmError::IndexOutOfBounds(*i),
            VmError::InvalidIndexAssignment => SpecVmError::InvalidIndexAssignment,
            VmError::PropertyOfNonTable(n) => SpecVmError::PropertyOfNonTable(*n),
            VmError::PropertySetOnNonTable(n) => SpecVmError::PropertySetOnNonTable(*n),
            VmError::NotAClass => SpecVmError::NotAClass,
            VmError::RangeBoundsNotNumbers => SpecVmError::RangeBoundsNotNumbers,
            VmError::NotIterable => SpecVmError::NotIterable,
            VmError::CannotGetLength => SpecVmError::CannotGetLength,
            VmError::CannotInterpolate => SpecVmError::CannotInterpolate,
        }
    }
}

/// The outcome of an instruction as a value of the machine's result.
pub open spec fn result_view(r: Result<(), VmError>) -> Result<(), SpecVmError> {
    match r {
        Ok(()) => Ok(()),
        Err(e) => Err(e@),
    }
}

struct CallFrame {
    function: BytecodeFunction,
    ip: usize,
    frame_start: usize,
}

impl View for CallFrame {
    type V = SpecFrame;

    closed spec fn view(&self) -> SpecFrame {
        SpecFrame { function: self.function@, ip: self.ip, frame_start: self.frame_start }
    }
}

enum IteratorState {
    Array { values: Vec<Value>, index: usize },
    Range { current: i64, end: i64 },
    Table { values: Vec<Value>, index: usize },
}

impl View for IteratorState {
    type V = SpecIter;

    closed spec fn view(&self) -> SpecIter {
        match self {
            IteratorState::Array { values, index } => SpecIter::Array { values: values_view(values@), index: *index },
            IteratorState::Range { current, end } => SpecIter::Range { current: *current, end: *end },
            IteratorState::Table { values, index } => SpecIter::Table { values: values_view(values@), index: *index },
        }
    }
}

/// The bytecode machine.
pub struct VirtualMachine {
    stack: Vec<Value>,
    globals: IndexMap<usize, Value>,
    call_frames: Vec<CallFrame>,
    interner: StringInterner,
    functions: Vec<BytecodeFunction>,
    this_stack: Vec<Value>,
    iterators: Vec<IteratorState>,
    arrays: Vec<Vec<Value>>,
    tables: Vec<IndexMap<usize, Value>>,
}

impl View for VirtualMachine {
    type V = VmState;

    closed spec fn view(&self) -> VmState {
        VmState {
            stack: values_view(self.stack@),
            globals: table_entries(self.globals),
            frames: Seq::new(self.call_frames@.len(), |i: int| self.call_frames@[i]@),
            strings: self.interner@,
            functions: functions_view(self.functions@),
            this_stack: values_view(self.this_stack@),
            iterators: Seq::new(self.iterators@.len(), |i: int| self.iterators@[i]@),
            arrays: Seq::new(self.arrays@.len(), |i: int| values_view(self.arrays@[i]@)),
            tables: Seq::new(self.tables@.len(), |i: int| table_entries(self.tables@[i])),
        }
    }
}

/// An optional value as mathematics.
pub open spec fn opt_value(o: Option<Value>) -> Option<SpecValue> {
    match o {
        Some(v) => Some(v@),
        None => None,
    }
}

impl VirtualMachine {
    /// A machine that has run nothing.
    pub fn new() -> (r: Self)
        ensures
            r@ == empty_machine(),
    {
        let r = VirtualMachine {
            stack: Vec::new(),
            globals: table_new(),
            call_frames: Vec::new(),
            interner: StringInterner::new(),
            functions: Vec::new(),
            this_stack: Vec::new(),
            iterators: Vec::new(),
            arrays: Vec::new(),
            tables: Vec::new(),
        };
        proof {
            assert(r@.stack =~= Seq::<SpecValue>::empty());
            assert(r@.frames =~= Seq::<SpecFrame>::empty());
            assert(r@.functions =~= Seq::<crate::bytecode::SpecFunction>::empty());
            assert(r@.this_stack =~= Seq::<SpecValue>::empty());
            assert(r@.iterators =~= Seq::<SpecIter>::empty());
            assert(r@.arrays =~= Seq::<Seq<SpecValue>>::empty());
            assert(r@.tables =~= Seq::<Seq<(usize, SpecValue)>>::empty());
        }
        r
    }

    fn pop_value(&mut self) -> (r: Option<Value>)
        ensures
            pop(old(self)@) == (opt_value(r), final(self)@),
    {
        let r = self.stack.pop();
        proof {
            if old(self).stack@.len() > 0 {
                assert(self@.stack =~= old(self)@.stack.drop_last());
                assert(self@ =~= pop(old(self)@).1);
            }
        }
        r
    }

    fn push_value(&mut self, v: Value)
        ensures
            final(self)@ == push(old(self)@, v@),
    {
        self.stack.push(v);
        proof {
            assert(self@.stack =~= old(self)@.stack.push(v@));
        }
    }

    /// The current frame's position on the stack of local `slot`.
    fn slot_index(&self, slot: usize) -> (r: Option<usize>)
        requires
            !slot_overflows(self@, slot),
        ensures
            match r {
                Some(i) => self@.frames.len() > 0 && i == self@.frames.last().frame_start + slot && i < usize::MAX,
                None => self@.frames.len() == 0,
            },
    {
        let n = self.call_frames.len();
        if n == 0 {
            None
        } else {
            Some(self.call_frames[n - 1].frame_start + slot)
        }
    }

    /// Pads the stack with `nil` up to position `idx` and stores `v` there.
    fn store_local(&mut self, idx: usize, v: Value)
        requires
            idx < usize::MAX,
        ensures
            final(self)@ == (VmState { stack: store_at(old(self)@.stack, idx as nat, v@), ..old(self)@ }),
    {
        let ghost s0 = self@.stack;
        while self.stack.len() <= idx
            invariant
                idx < usize::MAX,
                s0.len() <= self.stack@.len(),
                self.stack@.len() <= idx + 1 || self.stack@.len() == s0.len(),
                values_view(self.stack@) == s0 + Seq::new(
                    (self.stack@.len() - s0.len()) as nat,
                    |i: int| SpecValue::Nil,
                ),
                self@ == (VmState { stack: values_view(self.stack@), ..old(self)@ }),
            decreases idx + 1 - self.stack@.len(),
        {
            let ghost before = self.stack@;
            self.stack.push(Value::Nil);
            proof {
                assert(values_view(self.stack@) =~= values_view(before).push(SpecValue::Nil));
                assert(values_view(self.stack@) =~= s0 + Seq::new(
                    (self.stack@.len() - s0.len()) as nat,
                    |i: int| SpecValue::Nil,
                ));
            }
        }
        self.stack.set(idx, v);
        proof {
            let padded = if s0.len() <= idx {
                s0 + Seq::new((idx + 1 - s0.len()) as nat, |i: int| SpecValue::Nil)
            } else {
                s0
            };
            if s0.len() > idx {
                assert(Seq::new((old(self).stack@.len() - s0.len()) as nat, |i: int| SpecValue::Nil)
                    =~= Seq::<SpecValue>::empty());
            }
            assert(values_view(self.stack@) =~= padded.update(idx as int, v@));
        }
    }
}


/// Whether `a` comes before `b` in lexicographic order.
fn bytes_before(a: &[u8], b: &[u8]) -> (r: bool)
    ensures
        r == bytes_less(a@, b@),
{
    let mut i: usize = 0;
    proof {
        assert(a@.skip(0) =~= a@);
        assert(b@.skip(0) =~= b@);
    }
    while i < a.len() && i < b.len()
        invariant
            i <= a@.len(),
            i <= b@.len(),
            bytes_less(a@, b@) == bytes_less(a@.skip(i as int), b@.skip(i as int)),
        decreases a.len() - i,
    {
        if a[i] != b[i] {
            proof {
                assert(a@.skip(i as int)[0] == a@[i as int]);
                assert(b@.skip(i as int)[0] == b@[i as int]);
            }
            return a[i] < b[i];
        }
        proof {
            assert(a@.skip(i as int).drop_first() =~= a@.skip(i + 1));
            assert(b@.skip(i as int).drop_first() =~= b@.skip(i + 1));
            assert(a@.skip(i as int)[0] == b@.skip(i as int)[0]);
        }
        i += 1;
    }
    proof {
        if i == a@.len() {
            assert(a@.skip(i as int).len() == 0);
        } else {
            assert(b@.skip(i as int).len() == 0);
        }
    }
    i == a.len() && i < b.len()
}

/// Whether string `a` comes before string `b`.
fn string_before(a: &String, b: &String) -> (r: bool)
    ensures
        r == string_less(a@, b@),
{
    bytes_before(a.as_str().as_bytes(), b.as_str().as_bytes())
}

/// Only `nil` and `false` are false.
fn is_truthy(v: &Value) -> (r: bool)
    ensures
        r == truthy(v@),
{
    match v {
        Value::Nil => false,
        Value::Bool(b) => *b,
        _ => true,
    }
}

fn same_params(a: &Vec<usize>, b: &Vec<usize>) -> (r: bool)
    ensures
        r == (a@ == b@),
{
    if a.len() != b.len() {
        return false;
    }
    let mut i: usize = 0;
    while i < a.len()
        invariant
            i <= a@.len(),
            a@.len() == b@.len(),
            forall|j: int| 0 <= j < i ==> a@[j] == b@[j],
        decreases a.len() - i,
    {
        if a[i] != b[i] {
            return false;
        }
        i += 1;
    }
    proof {
        assert(a@ =~= b@);
    }
    true
}

fn num_equal<F: Fn(NumOp, u64, u64) -> u64>(x: u64, y: u64, arith: &F) -> (r: bool)
    requires
        arith_ok(*arith),
    ensures
        r == (arith_of(*arith)(NumOp::Equal, x, y) != 0),
{
    apply(arith, NumOp::Equal, x, y) != 0
}

/// Equality of values.
fn equal_values<F: Fn(NumOp, u64, u64) -> u64>(a: &Value, b: &Value, arith: &F) -> (r: bool)
    requires
        arith_ok(*arith),
    ensures
        r == values_equal(arith_of(*arith), a@, b@),
{
    match (a, b) {
        (Value::Nil, Value::Nil) => true,
        (Value::Bool(x), Value::Bool(y)) => *x == *y,
        (Value::Number(x), Value::Number(y)) => num_equal(*x, *y, arith),
        (Value::String(x), Value::String(y)) => *x == *y,
        (Value::Array(x), Value::Array(y)) => *x == *y,
        (Value::Table(x), Value::Table(y)) => *x == *y,
        (Value::Range { start: s1, end: e1 }, Value::Range { start: s2, end: e2 }) => num_equal(*s1, *s2, arith)
            && num_equal(*e1, *e2, arith),
        (Value::Function { name: n1, params: p1, .. }, Value::Function { name: n2, params: p2, .. }) => *n1 == *n2
            && same_params(p1, p2),
        (
            Value::AsyncFunction { name: n1, params: p1, .. },
            Value::AsyncFunction { name: n2, params: p2, .. },
        ) => *n1 == *n2 && same_params(p1, p2),
        (Value::Generator { name: n1, params: p1 }, Value::Generator { name: n2, params: p2 }) => *n1 == *n2
            && same_params(p1, p2),
        _ => false,
    }
}

/// The order comparisons.
fn compare_values<F: Fn(NumOp, u64, u64) -> u64>(ins: Instruction, a: &Value, b: &Value, arith: &F) -> (r: bool)
    requires
        arith_ok(*arith),
    ensures
        r == ordered(arith_of(*arith), ins, a@, b@),
{
    match (a, b) {
        (Value::Number(x), Value::Number(y)) => match ins {
            Instruction::Less => apply(arith, NumOp::Less, *x, *y) != 0,
            Instruction::Greater => apply(arith, NumOp::Greater, *x, *y) != 0,
            Instruction::LessEqual => apply(arith, NumOp::LessEq, *x, *y) != 0,
            _ => apply(arith, NumOp::GreaterEq, *x, *y) != 0,
        },
        (Value::String(x), Value::String(y)) => match ins {
            Instruction::Less => string_before(x, y),
            Instruction::Greater => string_before(y, x),
            Instruction::LessEqual => !string_before(y, x),
            _ => !string_before(x, y),
        },
        _ => false,
    }
}

/// The arithmetic instructions on two values.
fn arith_values<F: Fn(NumOp, u64, u64) -> u64>(ins: Instruction, l: Value, r: Value, arith: &F) -> (res: Result<Value, VmError>)
    requires
        arith_ok(*arith),
    ensures
        match res {
            Ok(v) => arith_value(arith_of(*arith), ins, l@, r@) == Ok::<SpecValue, SpecVmError>(v@),
            Err(e) => arith_value(arith_of(*arith), ins, l@, r@) == Err::<SpecValue, SpecVmError>(e@),
        },
{
    match ins {
        Instruction::Add => match (l, r) {
            (Value::Number(a), Value::Number(b)) => Ok(Value::Number(apply(arith, NumOp::Add, a, b))),
            (Value::String(a), Value::String(b)) => {
                let mut c = a;
                c.append(b.as_str());
                Ok(Value::String(c))
            },
            _ => Err(VmError::InvalidOperands('+')),
        },
        Instruction::Subtract => match (l, r) {
            (Value::Number(a), Value::Number(b)) => Ok(Value::Number(apply(arith, NumOp::Sub, a, b))),
            _ => Err(VmError::InvalidOperands('-')),
        },
        Instruction::Multiply => match (l, r) {
            (Value::Number(a), Value::Number(b)) => Ok(Value::Number(apply(arith, NumOp::Mul, a, b))),
            _ => Err(VmError::InvalidOperands('*')),
        },
        Instruction::Divide => match (l, r) {
            (Value::Number(a), Value::Number(b)) => if bits_is_zero(b) {
                Err(VmError::DivisionByZero)
            } else {
                Ok(Value::Number(apply(arith, NumOp::Div, a, b)))
            },
            _ => Err(VmError::InvalidOperands('/')),
        },
        _ => match (l, r) {
            (Value::Number(a), Value::Number(b)) => if bits_is_zero(b) {
                Err(VmError::ModuloByZero)
            } else {
                Ok(Value::Number(apply(arith, NumOp::Rem, a, b)))
            },
            _ => Err(VmError::InvalidOperands('%')),
        },
    }
}

impl VirtualMachine {
    fn exec_load_store<F: Fn(NumOp, u64, u64) -> u64>(&mut self, ins: Instruction, arith: &F) -> (r: Result<(), VmError>)
        requires
            arith_ok(*arith),
            ins is LoadConstant || ins is LoadNil || ins is LoadTrue || ins is LoadFalse || ins is LoadLocal
                || ins is StoreLocal || ins is LoadGlobal || ins is StoreGlobal,
            !step_panics(arith_of(*arith), old(self)@, ins),
        ensures
            (final(self)@, result_view(r)) == step(arith_of(*arith), old(self)@, ins),
    {
        match ins {
            Instruction::LoadConstant { index } => {
                let n = self.call_frames.len();
                if n > 0 && index < self.call_frames[n - 1].function.constants.len() {
                    let v = self.call_frames[n - 1].function.constants[index].copy();
                    self.push_value(v);
                } else {
                    self.push_value(Value::Nil);
                }
            },
            Instruction::LoadNil => self.push_value(Value::Nil),
            Instruction::LoadTrue => self.push_value(Value::Bool(true)),
            Instruction::LoadFalse => self.push_value(Value::Bool(false)),
            Instruction::LoadLocal { slot } => match self.slot_index(slot) {
                Some(idx) => {
                    if idx < self.stack.len() {
                        let v = self.stack[idx].copy();
                        self.push_value(v);
                    } else {
                        self.push_value(Value::Nil);
                    }
                },
                None => {},
            },
            Instruction::StoreLocal { slot } => match self.slot_index(slot) {
                Some(idx) => match self.pop_value() {
                    Some(v) => self.store_local(idx, v),
                    None => {},
                },
                None => {},
            },
            Instruction::LoadGlobal { name } => match table_get(&self.globals, name.id()) {
                Some(v) => self.push_value(v),
                None => self.push_value(Value::Nil),
            },
            Instruction::StoreGlobal { name } => match self.pop_value() {
                Some(v) => table_insert(&mut self.globals, name.id(), v),
                None => {},
            },
            _ => {},
        }
        Ok(())
    }

    fn exec_arith<F: Fn(NumOp, u64, u64) -> u64>(&mut self, ins: Instruction, arith: &F) -> (r: Result<(), VmError>)
        requires
            arith_ok(*arith),
            ins is Add || ins is Subtract || ins is Multiply || ins is Divide || ins is Modulo,
        ensures
            (final(self)@, result_view(r)) == step(arith_of(*arith), old(self)@, ins),
    {
        let r = self.pop_value();
        let l = self.pop_value();
        match (r, l) {
            (Some(rv), Some(lv)) => match arith_values(ins, lv, rv, arith) {
                Ok(v) => {
                    self.push_value(v);
                    Ok(())
                },
                Err(e) => Err(e),
            },
            _ => Ok(()),
        }
    }

    fn exec_compare<F: Fn(NumOp, u64, u64) -> u64>(&mut self, ins: Instruction, arith: &F) -> (r: Result<(), VmError>)
        requires
            arith_ok(*arith),
            ins is Equal || ins is NotEqual || ins is Less || ins is Greater || ins is LessEqual || ins is GreaterEqual,
        ensures
            (final(self)@, result_view(r)) == step(arith_of(*arith), old(self)@, ins),
    {
        let r = self.pop_value();
        let l = self.pop_value();
        match (r, l) {
            (Some(rv), Some(lv)) => {
                let b = match ins {
                    Instruction::Equal => equal_values(&lv, &rv, arith),
                    Instruction::NotEqual => !equal_values(&lv, &rv, arith),
                    _ => compare_values(ins, &lv, &rv, arith),
                };
                self.push_value(Value::Bool(b));
            },
            _ => {},
        }
        Ok(())
    }
}


/// The value of a default parameter.
fn default_value_of(e: &Expr) -> (r: Value)
    ensures
        r@ == default_value(e@),
{
    match e {
        Expr::Number(n) => Value::Number(*n),
        Expr::String(s) => Value::String(s.clone()),
        Expr::LiteralTrue => Value::Bool(true),
        Expr::LiteralFalse => Value::Bool(false),
        _ => Value::Nil,
    }
}

impl VirtualMachine {
    /// Moves the current frame's next instruction by `offset`.
    fn jump_by(&mut self, offset: usize)
        requires
            !jump_overflows(old(self)@, offset),
        ensures
            final(self)@ == jump(old(self)@, offset),
    {
        match self.call_frames.pop() {
            Some(f) => {
                let CallFrame { function, ip, frame_start } = f;
                self.call_frames.push(CallFrame { function, ip: ip + offset, frame_start });
                proof {
                    assert(self@.frames =~= jump(old(self)@, offset).frames);
                }
            },
            None => {},
        }
    }

    /// Ends the current frame, if any: the stack drops to where it started.
    fn end_frame(&mut self)
        ensures
            old(self)@.frames.len() > 0 ==> final(self)@ == pop_frame(old(self)@),
            old(self)@.frames.len() == 0 ==> final(self)@ == old(self)@,
    {
        match self.call_frames.pop() {
            Some(f) => {
                self.stack.truncate(f.frame_start);
                proof {
                    assert(self@.frames =~= old(self)@.frames.drop_last());
                    assert(self@.stack =~= pop_frame(old(self)@).stack);
                }
            },
            None => {},
        }
    }

    /// Enters compiled function `name` with the parameter values that
    /// `args` and `defaults` give; its other slots start as `nil`.
    fn enter_with(&mut self, name: usize, count: usize, args: &Vec<Value>, defaults: &Vec<Option<Expr>>)
        requires
            name < old(self)@.functions.len(),
        ensures
            final(self)@ == enter(
                old(self)@,
                name,
                Seq::new(count as nat, |i: int| param_value(values_view(args@), opts_view(defaults@), i)),
            ),
    {
        proof {
            lemma_opts_view(defaults@);
        }
        let ghost values = Seq::new(count as nat, |i: int| param_value(values_view(args@), opts_view(defaults@), i));
        let f = self.functions[name].copy();
        let frame_start = self.stack.len();
        let ghost s0 = self@.stack;
        let mut i: usize = 0;
        while i < count
            invariant
                i <= count,
                values == Seq::new(count as nat, |i: int| param_value(values_view(args@), opts_view(defaults@), i)),
                opts_view(defaults@).len() == defaults@.len(),
                forall|k: int| 0 <= k < defaults@.len() ==> #[trigger] opts_view(defaults@)[k] == crate::ast::opt_view(defaults@[k]),
                values_view(self.stack@) == s0 + values.take(i as int),
                self@ == (VmState { stack: values_view(self.stack@), ..old(self)@ }),
            decreases count - i,
        {
            let v = if i < args.len() {
                args[i].copy()
            } else if i < defaults.len() {
                match &defaults[i] {
                    Some(e) => default_value_of(e),
                    None => Value::Nil,
                }
            } else {
                Value::Nil
            };
            let ghost before = self.stack@;
            self.stack.push(v);
            proof {
                assert(v@ == values[i as int]);
                assert(values.take(i + 1) =~= values.take(i as int).push(values[i as int]));
                assert(values_view(self.stack@) =~= values_view(before).push(v@));
            }
            i += 1;
        }
        let ghost s1 = self@.stack;
        let mut k: usize = count;
        while k < f.max_slots
            invariant
                count <= k,
                k <= f.max_slots || k == count,
                values_view(self.stack@) == s1 + Seq::new((k - count) as nat, |j: int| SpecValue::Nil),
                self@ == (VmState { stack: values_view(self.stack@), ..old(self)@ }),
            decreases f.max_slots - k,
        {
            let ghost before = self.stack@;
            self.stack.push(Value::Nil);
            proof {
                assert(values_view(self.stack@) =~= values_view(before).push(SpecValue::Nil));
                assert(values_view(self.stack@) =~= s1 + Seq::new((k + 1 - count) as nat, |j: int| SpecValue::Nil));
            }
            k += 1;
        }
        proof {
            assert(values.take(count as int) =~= values);
            let extra: nat = if f.max_slots > count { (f.max_slots - count) as nat } else { 0 };
            assert(Seq::new((k - count) as nat, |j: int| SpecValue::Nil) =~= Seq::new(extra, |j: int| SpecValue::Nil));
        }
        self.call_frames.push(CallFrame { function: f, ip: 0, frame_start });
        proof {
            let e = enter(old(self)@, name, values);
            assert(self@.stack =~= e.stack);
            assert(self@.frames =~= e.frames);
        }
    }

    /// Calls `callee` with `args`.
    fn call_value(&mut self, callee: Value, args: Vec<Value>) -> (r: Result<(), VmError>)
        ensures
            (final(self)@, result_view(r)) == call_value(old(self)@, callee@, values_view(args@)),
    {
        let no_defaults: Vec<Option<Expr>> = Vec::new();
        proof {
            assert(opts_view(no_defaults@) =~= Seq::<Option<crate::ast::SpecExpr>>::empty());
        }
        match callee {
            Value::Function { name, params, default_params } => if name < self.functions.len() {
                self.enter_with(name, params.len(), &args, &default_params);
                Ok(())
            } else {
                Err(VmError::FunctionIndexOutOfBounds(name))
            },
            Value::AsyncFunction { name, params, .. } => if name < self.functions.len() {
                self.enter_with(name, params.len(), &args, &no_defaults);
                Ok(())
            } else {
                Err(VmError::FunctionIndexOutOfBounds(name))
            },
            Value::Generator { name, params } => if name < self.functions.len() {
                self.enter_with(name, params.len(), &args, &no_defaults);
                Ok(())
            } else {
                Err(VmError::FunctionIndexOutOfBounds(name))
            },
            _ => Err(VmError::NotCallable(callee)),
        }
    }

    fn exec_control<F: Fn(NumOp, u64, u64) -> u64>(&mut self, ins: Instruction, arith: &F) -> (r: Result<(), VmError>)
        requires
            arith_ok(*arith),
            ins is And || ins is Or || ins is Not || ins is Jump || ins is JumpIfFalse || ins is JumpIfTrue
                || ins is JumpBack || ins is Call || ins is Return || ins is ReturnNil,
            !step_panics(arith_of(*arith), old(self)@, ins),
        ensures
            (final(self)@, result_view(r)) == step(arith_of(*arith), old(self)@, ins),
    {
        match ins {
            Instruction::And => {
                match self.pop_value() {
                    Some(left) => if is_truthy(&left) {
                        match self.pop_value() {
                            Some(v) => self.push_value(v),
                            None => self.push_value(Value::Nil),
                        }
                    } else {
                        self.push_value(left);
                    },
                    None => {},
                }
                Ok(())
            },
            Instruction::Or => {
                match self.pop_value() {
                    Some(left) => if is_truthy(&left) {
                        self.push_value(left);
                    } else {
                        match self.pop_value() {
                            Some(v) => self.push_value(v),
                            None => self.push_value(Value::Nil),
                        }
                    },
                    None => {},
                }
                Ok(())
            },
            Instruction::Not => {
                match self.pop_value() {
                    Some(v) => {
                        let b = !is_truthy(&v);
                        self.push_value(Value::Bool(b));
                    },
                    None => {},
                }
                Ok(())
            },
            Instruction::Jump { offset } => {
                self.jump_by(offset);
                Ok(())
            },
            Instruction::JumpIfFalse { offset } => {
                let n = self.stack.len();
                if n > 0 && !is_truthy(&self.stack[n - 1]) {
                    self.jump_by(offset);
                }
                Ok(())
            },
            Instruction::JumpIfTrue { offset } => {
                let n = self.stack.len();
                if n > 0 && is_truthy(&self.stack[n - 1]) {
                    self.jump_by(offset);
                }
                Ok(())
            },
            Instruction::JumpBack { offset } => {
                match self.call_frames.pop() {
                    Some(f) => {
                        let CallFrame { function, ip, frame_start } = f;
                        let ip2 = if ip >= offset { ip - offset } else { ip };
                        self.call_frames.push(CallFrame { function, ip: ip2, frame_start });
                        proof {
                            assert(self@.frames =~= step(arith_of(*arith), old(self)@, ins).0.frames);
                        }
                    },
                    None => {},
                }
                Ok(())
            },
            Instruction::Call { arg_count } => match self.pop_value() {
                Some(callee) => {
                    let at = self.stack.len() - arg_count;
                    let ghost s1 = self@;
                    let args = self.stack.split_off(at);
                    proof {
                        assert(values_view(args@) =~= s1.stack.subrange(at as int, s1.stack.len() as int));
                        assert(self@.stack =~= s1.stack.take(at as int));
                        assert(self@ == (VmState { stack: s1.stack.take(at as int), ..s1 }));
                    }
                    self.call_value(callee, args)
                },
                None => Ok(()),
            },
            Instruction::Return => {
                let rv = match self.pop_value() {
                    Some(v) => v,
                    None => Value::Nil,
                };
                if self.call_frames.len() > 0 {
                    self.end_frame();
                    self.push_value(rv);
                }
                Ok(())
            },
            Instruction::ReturnNil => {
                if self.call_frames.len() > 1 {
                    self.end_frame();
                    self.push_value(Value::Nil);
                }
                Ok(())
            },
            _ => Ok(()),
        }
    }
}


/// A byte of a valid UTF-8 text that starts and ends a character can be
/// split off the rest.
proof fn lemma_one_byte_slice(bytes: Seq<u8>, idx: int)
    requires
        valid_utf8(bytes),
        0 <= idx < bytes.len(),
        is_char_boundary(bytes, idx),
        is_char_boundary(bytes, idx + 1),
    ensures
        valid_utf8(bytes.subrange(idx, bytes.len() as int)),
        is_char_boundary(bytes.subrange(idx, bytes.len() as int), 1),
{
    let rest = bytes.subrange(idx, bytes.len() as int);
    valid_utf8_split(bytes, idx);
    if idx + 1 == bytes.len() {
        is_char_boundary_start_end_of_seq(rest);
    } else {
        is_char_boundary_iff_not_is_continuation_byte(bytes, idx + 1);
        is_char_boundary_iff_not_is_continuation_byte(rest, 1);
        assert(rest[1] == bytes[idx + 1]);
    }
}

/// Byte `idx` of `s`, which starts and ends a character, as a string.
fn byte_string(s: &String, idx: usize) -> (r: String)
    requires
        idx < encode_utf8(s@).len(),
        is_char_boundary(encode_utf8(s@), idx as int),
        is_char_boundary(encode_utf8(s@), idx + 1),
    ensures
        r@ == decode_utf8(encode_utf8(s@).subrange(idx as int, idx + 1)),
{
    let text = s.as_str();
    proof {
        encode_utf8_valid_utf8(s@);
        lemma_one_byte_slice(encode_utf8(s@), idx as int);
    }
    let (_, rest) = text.split_at(idx);
    let (one, _) = rest.split_at(1);
    proof {
        encode_utf8_decode_utf8(one@);
        assert(one.spec_bytes() =~= encode_utf8(s@).subrange(idx as int, idx + 1));
    }
    one.to_owned()
}

/// A double converted to an index.
fn index_of<F: Fn(NumOp, u64, u64) -> u64>(n: u64, arith: &F) -> (r: usize)
    requires
        arith_ok(*arith),
    ensures
        r == to_index(arith_of(*arith), n),
{
    apply(arith, NumOp::ToUsize, n, ZERO_BITS) as usize
}

/// A length converted to a double.
fn len_number<F: Fn(NumOp, u64, u64) -> u64>(n: usize, arith: &F) -> (r: u64)
    requires
        arith_ok(*arith),
    ensures
        r == from_len(arith_of(*arith), n as nat),
{
    apply(arith, NumOp::FromUsize, n as u64, ZERO_BITS)
}

impl VirtualMachine {
    /// Reading `object[index]`.
    fn get_index<F: Fn(NumOp, u64, u64) -> u64>(&self, object: &Value, index: &Value, arith: &F) -> (r: Result<Value, VmError>)
        requires
            arith_ok(*arith),
            !cuts_character(arith_of(*arith), object@, index@),
        ensures
            match r {
                Ok(v) => get_index(arith_of(*arith), self@, object@, index@) == Ok::<SpecValue, SpecVmError>(v@),
                Err(e) => get_index(arith_of(*arith), self@, object@, index@) == Err::<SpecValue, SpecVmError>(e@),
            },
    {
        match (object, index) {
            (Value::Array(h), Value::Number(i)) => {
                let idx = index_of(*i, arith);
                if *h < self.arrays.len() && idx < self.arrays[*h].len() {
                    proof {
                        assert(array_at(self@, *h) == values_view(self.arrays@[*h as int]@));
                    }
                    Ok(self.arrays[*h][idx].copy())
                } else {
                    Ok(Value::Nil)
                }
            },
            (Value::Table(h), Value::Number(i)) => {
                let idx = index_of(*i, arith);
                if *h < self.tables.len() {
                    proof {
                        assert(table_at(self@, *h) == table_entries(self.tables@[*h as int]));
                    }
                    match table_get(&self.tables[*h], idx) {
                        Some(v) => Ok(v),
                        None => Ok(Value::Nil),
                    }
                } else {
                    proof {
                        assert(lookup(table_at(self@, *h), idx) is None);
                    }
                    Ok(Value::Nil)
                }
            },
            (Value::String(s), Value::Number(i)) => {
                let idx = index_of(*i, arith);
                if idx < s.as_str().as_bytes().len() {
                    Ok(Value::String(byte_string(s, idx)))
                } else {
                    Ok(Value::Nil)
                }
            },
            _ => Err(VmError::InvalidIndex),
        }
    }

    /// Writing `object[index] = value`.
    fn set_index<F: Fn(NumOp, u64, u64) -> u64>(&mut self, object: Value, index: Value, value: Value, arith: &F) -> (r: Result<(), VmError>)
        requires
            arith_ok(*arith),
        ensures
            (final(self)@, result_view(r)) == set_index(arith_of(*arith), old(self)@, object@, index@, value@),
    {
        match (object, index) {
            (Value::Array(h), Value::Number(i)) => {
                let idx = index_of(i, arith);
                if h < self.arrays.len() && idx < self.arrays[h].len() {
                    let ghost a0 = self.arrays@[h as int];
                    self.arrays[h].set(idx, value);
                    proof {
                        assert(values_view(self.arrays@[h as int]@) =~= values_view(a0@).update(idx as int, value@));
                        assert(self@.arrays =~= old(self)@.arrays.update(h as int, values_view(a0@).update(idx as int, value@)));
                    }
                    Ok(())
                } else {
                    Err(VmError::IndexOutOfBounds(idx))
                }
            },
            (Value::Table(h), Value::Number(i)) => {
                let idx = index_of(i, arith);
                if h < self.tables.len() {
                    table_insert(&mut self.tables[h], idx, value);
                    proof {
                        assert(self@.tables =~= set_table(old(self)@, h, insert_entry(table_at(old(self)@, h), idx, value@)).tables);
                    }
                }
                Ok(())
            },
            _ => Err(VmError::InvalidIndexAssignment),
        }
    }

    fn exec_data<F: Fn(NumOp, u64, u64) -> u64>(&mut self, ins: Instruction, arith: &F) -> (r: Result<(), VmError>)
        requires
            arith_ok(*arith),
            ins is NewArray || ins is NewTable || ins is ArrayPush || ins is TableSet || ins is IndexGet
                || ins is IndexSet || ins is PropertyGet || ins is PropertySet || ins is NullCoalesce || ins is Spread
                || ins is Length,
            !step_panics(arith_of(*arith), old(self)@, ins),
        ensures
            (final(self)@, result_view(r)) == step(arith_of(*arith), old(self)@, ins),
    {
        match ins {
            Instruction::NewArray { .. } => {
                let h = self.arrays.len();
                let empty: Vec<Value> = Vec::new();
                proof {
                    assert(values_view(empty@) =~= Seq::<SpecValue>::empty());
                }
                self.arrays.push(empty);
                proof {
                    assert(self@.arrays =~= old(self)@.arrays.push(Seq::empty()));
                }
                self.push_value(Value::Array(h));
                Ok(())
            },
            Instruction::NewTable => {
                let h = self.tables.len();
                self.tables.push(table_new());
                proof {
                    assert(self@.tables =~= old(self)@.tables.push(Seq::empty()));
                }
                self.push_value(Value::Table(h));
                Ok(())
            },
            Instruction::ArrayPush => {
                let v = self.pop_value();
                let a = self.pop_value();
                match (v, a) {
                    (Some(value), Some(Value::Array(h))) => {
                        if h < self.arrays.len() {
                            let ghost a0 = self.arrays@[h as int];
                            self.arrays[h].push(value);
                            proof {
                                assert(values_view(self.arrays@[h as int]@) =~= values_view(a0@).push(value@));
                                assert(self@.arrays =~= old(self)@.arrays.update(h as int, values_view(a0@).push(value@)));
                            }
                        }
                        self.push_value(Value::Array(h));
                    },
                    _ => {},
                }
                Ok(())
            },
            Instruction::TableSet { key } => {
                let v = self.pop_value();
                let t = self.pop_value();
                match (v, t) {
                    (Some(value), Some(Value::Table(h))) => {
                        if h < self.tables.len() {
                            let ghost s2 = self@;
                            table_insert(&mut self.tables[h], key.id(), value);
                            proof {
                                assert(self@.tables =~= set_table(s2, h, insert_entry(table_at(s2, h), key.0, value@)).tables);
                            }
                        }
                        self.push_value(Value::Table(h));
                    },
                    _ => {},
                }
                Ok(())
            },
            Instruction::IndexGet => {
                let i = self.pop_value();
                let o = self.pop_value();
                match (i, o) {
                    (Some(index), Some(object)) => match self.get_index(&object, &index, arith) {
                        Ok(v) => {
                            self.push_value(v);
                            Ok(())
                        },
                        Err(e) => Err(e),
                    },
                    _ => Ok(()),
                }
            },
            Instruction::IndexSet => {
                let v = self.pop_value();
                let i = self.pop_value();
                let o = self.pop_value();
                match (v, i, o) {
                    (Some(value), Some(index), Some(object)) => self.set_index(object, index, value, arith),
                    _ => Ok(()),
                }
            },
            Instruction::PropertyGet { name } => match self.pop_value() {
                Some(Value::Table(h)) => {
                    let found = if h < self.tables.len() {
                        table_get(&self.tables[h], name.id())
                    } else {
                        None
                    };
                    match found {
                        Some(v) => self.push_value(v),
                        None => self.push_value(Value::Nil),
                    }
                    Ok(())
                },
                Some(_) => Err(VmError::PropertyOfNonTable(name)),
                None => Ok(()),
            },
            Instruction::PropertySet { name } => {
                let v = self.pop_value();
                let o = self.pop_value();
                match (v, o) {
                    (Some(value), Some(Value::Table(h))) => {
                        if h < self.tables.len() {
                            let ghost s2 = self@;
                            table_insert(&mut self.tables[h], name.id(), value);
                            proof {
                                assert(self@.tables =~= set_table(s2, h, insert_entry(table_at(s2, h), name.0, value@)).tables);
                            }
                        }
                        Ok(())
                    },
                    (Some(_), Some(_)) => Err(VmError::PropertySetOnNonTable(name)),
                    _ => Ok(()),
                }
            },
            Instruction::NullCoalesce => {
                let r = self.pop_value();
                let l = self.pop_value();
                match (r, l) {
                    (Some(right), Some(left)) => {
                        let v = match left {
                            Value::Nil => right,
                            _ => left,
                        };
                        self.push_value(v);
                    },
                    _ => {},
                }
                Ok(())
            },
            Instruction::Spread => {
                match self.pop_value() {
                    Some(Value::Array(h)) => {
                        if h < self.arrays.len() {
                            let ghost s1 = self@;
                            let items = copy_values(&self.arrays[h]);
                            let mut k: usize = 0;
                            while k < items.len()
                                invariant
                                    k <= items@.len(),
                                    values_view(items@) == array_at(s1, h),
                                    values_view(self.stack@) == s1.stack + values_view(items@).take(k as int),
                                    self@ == (VmState { stack: values_view(self.stack@), ..s1 }),
                                decreases items.len() - k,
                            {
                                let ghost before = self.stack@;
                                let c = items[k].copy();
                                self.stack.push(c);
                                proof {
                                    assert(values_view(self.stack@) =~= values_view(before).push(c@));
                                    assert(values_view(items@).take(k + 1) =~= values_view(items@).take(k as int).push(
                                        c@,
                                    ));
                                }
                                k += 1;
                            }
                            proof {
                                assert(values_view(items@).take(items@.len() as int) =~= values_view(items@));
                            }
                        }
                    },
                    _ => {},
                }
                Ok(())
            },
            Instruction::Length => match self.pop_value() {
                Some(v) => match &v {
                    Value::Array(h) => {
                        let n = if *h < self.arrays.len() {
                            self.arrays[*h].len()
                        } else {
                            0
                        };
                        self.push_value(Value::Number(len_number(n, arith)));
                        Ok(())
                    },
                    Value::String(x) => {
                        let n = x.as_str().as_bytes().len();
                        self.push_value(Value::Number(len_number(n, arith)));
                        Ok(())
                    },
                    Value::Table(h) => {
                        let n = if *h < self.tables.len() {
                            table_len(&self.tables[*h])
                        } else {
                            0
                        };
                        self.push_value(Value::Number(len_number(n, arith)));
                        Ok(())
                    },
                    _ => Err(VmError::CannotGetLength),
                },
                None => Ok(()),
            },
            _ => Ok(()),
        }
    }
}


/// The decimal digit `d` as text.
fn digit_text(d: usize) -> (r: &'static str)
    requires
        d < 10,
    ensures
        r@ == seq![((d + 48) as char)],
{
    proof {
        reveal_strlit("0");
        reveal_strlit("1");
        reveal_strlit("2");
        reveal_strlit("3");
        reveal_strlit("4");
        reveal_strlit("5");
        reveal_strlit("6");
        reveal_strlit("7");
        reveal_strlit("8");
        reveal_strlit("9");
    }
    if d == 0 {
        "0"
    } else if d == 1 {
        "1"
    } else if d == 2 {
        "2"
    } else if d == 3 {
        "3"
    } else if d == 4 {
        "4"
    } else if d == 5 {
        "5"
    } else if d == 6 {
        "6"
    } else if d == 7 {
        "7"
    } else if d == 8 {
        "8"
    } else {
        "9"
    }
}

/// The decimal digits of `n`.
pub(crate) fn decimal_text(n: usize) -> (r: String)
    ensures
        r@ == decimal(n as nat),
    decreases n,
{
    if n < 10 {
        String::from_str(digit_text(n))
    } else {
        let mut s = decimal_text(n / 10);
        s.append(digit_text(n % 10));
        s
    }
}

/// The text that a `require` of `path` evaluates to.
fn module_text_of(path: InternedString) -> (r: String)
    ensures
        r@ == module_text(path),
{
    let mut s = String::from_str("<module InternedString(");
    let digits = decimal_text(path.id());
    s.append(digits.as_str());
    s.append(")>");
    s
}

impl VirtualMachine {
    /// The number the interner gave `s`, or the largest index if none.
    fn string_id(&self, s: &str) -> (r: usize)
        ensures
            r == string_id(self@, s@),
    {
        match self.interner.get_id(s) {
            Some(i) => i,
            None => usize::MAX,
        }
    }

    /// Makes an instance of `class`, calling its constructor with `args`.
    fn instantiate(&mut self, class: Value, args: Vec<Value>) -> (r: Result<Value, VmError>)
        ensures
            match r {
                Ok(v) => instantiate(old(self)@, class@, values_view(args@)) == (final(self)@, Ok::<SpecValue, SpecVmError>(v@)),
                Err(e) => instantiate(old(self)@, class@, values_view(args@)) == (final(self)@, Err::<SpecValue, SpecVmError>(e@)),
            },
    {
        match class {
            Value::Table(h) => {
                let entries = if h < self.tables.len() {
                    table_clone(&self.tables[h])
                } else {
                    table_new()
                };
                let init_id = self.string_id("init");
                let ctor = table_get(&entries, init_id);
                let instance_h = self.tables.len();
                self.tables.push(entries);
                proof {
                    assert(self@.tables =~= old(self)@.tables.push(table_at(old(self)@, h)));
                }
                match ctor {
                    Some(c) => {
                        self.this_stack.push(Value::Table(instance_h));
                        proof {
                            assert(self@.this_stack =~= old(self)@.this_stack.push(SpecValue::Table(instance_h)));
                        }
                        let r = self.call_value(c, args);
                        let ghost s3 = self@;
                        self.this_stack.pop();
                        proof {
                            assert(self@.this_stack =~= s3.this_stack.drop_last());
                        }
                        match r {
                            Ok(()) => Ok(Value::Table(instance_h)),
                            Err(e) => Err(e),
                        }
                    },
                    None => Ok(Value::Table(instance_h)),
                }
            },
            _ => Err(VmError::NotAClass),
        }
    }

    #[verifier::rlimit(40)]
    fn exec_objects<F: Fn(NumOp, u64, u64) -> u64>(&mut self, ins: Instruction, arith: &F) -> (r: Result<(), VmError>)
        requires
            arith_ok(*arith),
            ins is Negate || ins is Lambda || ins is NewInstance || ins is This || ins is Super || ins is Match
                || ins is Require || ins is Export || ins is MakeSet || ins is Break || ins is Continue
                || ins is Line,
            !step_panics(arith_of(*arith), old(self)@, ins),
        ensures
            (final(self)@, result_view(r)) == step(arith_of(*arith), old(self)@, ins),
    {
        match ins {
            Instruction::Negate => match self.pop_value() {
                Some(Value::Number(n)) => {
                    let m = apply(arith, NumOp::Neg, n, ZERO_BITS);
                    self.push_value(Value::Number(m));
                    Ok(())
                },
                Some(_) => Err(VmError::CannotNegate),
                None => Ok(()),
            },
            Instruction::Lambda { func_index, .. } => {
                if func_index < self.functions.len() {
                    let params = crate::value::copy_usizes(&self.functions[func_index].params);
                    let no_defaults: Vec<Option<Expr>> = Vec::new();
                    proof {
                        assert(opts_view(no_defaults@) =~= Seq::<Option<crate::ast::SpecExpr>>::empty());
                    }
                    self.push_value(Value::Function { name: func_index, params, default_params: no_defaults });
                }
                Ok(())
            },
            Instruction::NewInstance { arg_count, .. } => {
                let at = self.stack.len() - arg_count;
                let ghost s0 = self@;
                let args = self.stack.split_off(at);
                proof {
                    assert(values_view(args@) =~= s0.stack.subrange(at as int, s0.stack.len() as int));
                    assert(self@.stack =~= s0.stack.take(at as int));
                    assert(self@ == (VmState { stack: s0.stack.take(at as int), ..s0 }));
                }
                match self.pop_value() {
                    Some(class) => match self.instantiate(class, args) {
                        Ok(instance) => {
                            self.push_value(instance);
                            Ok(())
                        },
                        Err(e) => Err(e),
                    },
                    None => Ok(()),
                }
            },
            Instruction::This => {
                let v = self.this_value();
                self.push_value(v);
                Ok(())
            },
            Instruction::Super { method } => {
                let this = self.this_value();
                let mut found: Option<Value> = None;
                match this {
                    Value::Table(h) => {
                        if h < self.tables.len() {
                            let key = self.string_id("__superclass__");
                            match table_get(&self.tables[h], key) {
                                Some(Value::Table(sh)) => {
                                    if sh < self.tables.len() {
                                        found = table_get(&self.tables[sh], method.id());
                                    } else {
                                        proof {
                                            assert(lookup(table_at(self@, sh), method.0) is None);
                                        }
                                    }
                                },
                                _ => {},
                            }
                        } else {
                            proof {
                                assert(lookup(table_at(self@, h), string_id(self@, "__superclass__"@)) is None);
                            }
                        }
                    },
                    _ => {},
                }
                match found {
                    Some(v) => self.push_value(v),
                    None => self.push_value(Value::Nil),
                }
                Ok(())
            },
            Instruction::Match { .. } => {
                match self.pop_value() {
                    Some(v) => self.push_value(v),
                    None => self.push_value(Value::Nil),
                }
                Ok(())
            },
            Instruction::Require { path } => {
                let text = module_text_of(path);
                self.push_value(Value::String(text));
                Ok(())
            },
            Instruction::Export { name } => {
                match self.pop_value() {
                    Some(v) => {
                        let c = v.copy();
                        table_insert(&mut self.globals, name.id(), c);
                        self.push_value(v);
                    },
                    None => {},
                }
                Ok(())
            },
            _ => Ok(()),
        }
    }

    /// The value of `this`.
    fn this_value(&self) -> (r: Value)
        ensures
            r@ == this_value(self@),
    {
        let n = self.this_stack.len();
        if n > 0 {
            self.this_stack[n - 1].copy()
        } else {
            Value::Nil
        }
    }
}


/// The next value of a `for .. in` loop, and the loop's state after it.
fn next_of<F: Fn(NumOp, u64, u64) -> u64>(it: IteratorState, arith: &F) -> (r: (Option<Value>, IteratorState))
    requires
        arith_ok(*arith),
    ensures
        match iter_next(arith_of(*arith), it@) {
            Some((v, it2)) => opt_value(r.0) == Some(v) && r.1@ == it2,
            None => r.0 is None,
        },
{
    match it {
        IteratorState::Array { values, index } => if index < values.len() {
            let v = values[index].copy();
            (Some(v), IteratorState::Array { values, index: index + 1 })
        } else {
            (None, IteratorState::Array { values, index })
        },
        IteratorState::Range { current, end } => if current < end {
            let n = apply(arith, NumOp::FromI64, current as u64, ZERO_BITS);
            (Some(Value::Number(n)), IteratorState::Range { current: current + 1, end })
        } else {
            (None, IteratorState::Range { current, end })
        },
        IteratorState::Table { values, index } => if index < values.len() {
            let v = values[index].copy();
            (Some(v), IteratorState::Table { values, index: index + 1 })
        } else {
            (None, IteratorState::Table { values, index })
        },
    }
}

impl VirtualMachine {
    fn exec_loops<F: Fn(NumOp, u64, u64) -> u64>(&mut self, ins: Instruction, arith: &F) -> (r: Result<(), VmError>)
        requires
            arith_ok(*arith),
            ins is Class || ins is NewRange || ins is ForInInit || ins is ForInNext,
            !step_panics(arith_of(*arith), old(self)@, ins),
        ensures
            (final(self)@, result_view(r)) == step(arith_of(*arith), old(self)@, ins),
    {
        let ghost ar = arith_of(*arith);
        match ins {
            Instruction::Class { name, method_count } => {
                let mut methods = table_new();
                let ghost s0 = self@;
                let ghost goal = collect_methods(ar, s0.stack, Seq::empty(), method_count as nat);
                let mut k: usize = 0;
                while k < method_count
                    invariant
                        arith_ok(*arith),
                        ar == arith_of(*arith),
                        k <= method_count,
                        goal == collect_methods(ar, s0.stack, Seq::empty(), method_count as nat),
                        collect_methods(ar, self@.stack, table_entries(methods), (method_count - k) as nat) == goal,
                        self@ == (VmState { stack: self@.stack, ..s0 }),
                    decreases method_count - k,
                {
                    let ghost st = self@.stack;
                    let ghost en = table_entries(methods);
                    match self.pop_value() {
                        Some(method) => match self.pop_value() {
                            Some(Value::Number(id)) => {
                                let key = index_of(id, arith);
                                table_insert(&mut methods, key, method);
                            },
                            _ => {},
                        },
                        None => {},
                    }
                    proof {
                        let n = (method_count - k) as nat;
                        assert(collect_methods(ar, st, en, n) == collect_methods(
                            ar,
                            self@.stack,
                            table_entries(methods),
                            (n - 1) as nat,
                        ));
                    }
                    k += 1;
                }
                let h = self.tables.len();
                self.tables.push(methods);
                let class = Value::Table(h);
                table_insert(&mut self.globals, name.id(), Value::Table(h));
                proof {
                    assert(self@.tables =~= s0.tables.push(goal.1));
                }
                self.push_value(class);
                Ok(())
            },
            Instruction::NewRange => {
                let e = self.pop_value();
                let s = self.pop_value();
                match (e, s) {
                    (Some(Value::Number(end)), Some(Value::Number(start))) => {
                        self.push_value(Value::Range { start, end });
                        Ok(())
                    },
                    (Some(_), Some(_)) => Err(VmError::RangeBoundsNotNumbers),
                    _ => Ok(()),
                }
            },
            Instruction::ForInInit => {
                let v = match self.pop_value() {
                    Some(v) => v,
                    None => Value::Nil,
                };
                let ghost s1 = self@;
                let it = match v {
                    Value::Array(h) => {
                        let values = if h < self.arrays.len() {
                            copy_values(&self.arrays[h])
                        } else {
                            let e: Vec<Value> = Vec::new();
                            proof {
                                assert(values_view(e@) =~= Seq::<SpecValue>::empty());
                            }
                            e
                        };
                        IteratorState::Array { values, index: 0 }
                    },
                    Value::Range { start, end } => {
                        let a = apply(arith, NumOp::ToI64, start, ZERO_BITS) as i64;
                        let b = apply(arith, NumOp::ToI64, end, ZERO_BITS) as i64;
                        IteratorState::Range { current: a, end: b }
                    },
                    Value::Table(h) => {
                        let values = if h < self.tables.len() {
                            table_values(&self.tables[h])
                        } else {
                            let e: Vec<Value> = Vec::new();
                            proof {
                                assert(values_view(e@) =~= entry_values(Seq::empty()));
                            }
                            e
                        };
                        IteratorState::Table { values, index: 0 }
                    },
                    _ => {
                        return Err(VmError::NotIterable);
                    },
                };
                self.iterators.push(it);
                proof {
                    assert(self@.iterators =~= s1.iterators.push(it@));
                }
                Ok(())
            },
            Instruction::ForInNext { var_slot, end_offset } => {
                match self.iterators.pop() {
                    Some(it) => {
                        let ghost s0 = old(self)@;
                        let (next, it2) = next_of(it, arith);
                        match next {
                            Some(v) => {
                                self.iterators.push(it2);
                                proof {
                                    assert(self@.iterators =~= s0.iterators.update(s0.iterators.len() - 1, it2@));
                                }
                                match self.slot_index(var_slot) {
                                    Some(idx) => self.store_local(idx, v),
                                    None => {},
                                }
                            },
                            None => {
                                proof {
                                    assert(self@.iterators =~= s0.iterators.drop_last());
                                }
                                self.jump_by(end_offset);
                            },
                        }
                    },
                    None => {},
                }
                Ok(())
            },
            _ => Ok(()),
        }
    }
}


/// Whether a `for .. in` loop has a next value.
fn has_next(it: &IteratorState) -> (r: bool)
    ensures
        forall|ar: crate::number::Arith| r == (iter_next(ar, it@) is Some),
{
    match it {
        IteratorState::Array { values, index } => *index < values.len(),
        IteratorState::Range { current, end } => *current < *end,
        IteratorState::Table { values, index } => *index < values.len(),
    }
}

/// The outcome of the run from `st`, where it finishes.
pub open spec fn outcome(ar: crate::number::Arith, st: VmState) -> RunOutcome {
    run(ar, st, choose|n: nat| #[trigger] run(ar, st, n) is Finished)
}

impl VirtualMachine {
    fn slot_would_overflow(&self, slot: usize) -> (r: bool)
        ensures
            r == slot_overflows(self@, slot),
    {
        let n = self.call_frames.len();
        n > 0 && self.call_frames[n - 1].frame_start >= usize::MAX - slot
    }

    fn jump_would_overflow(&self, offset: usize) -> (r: bool)
        ensures
            r == jump_overflows(self@, offset),
    {
        let n = self.call_frames.len();
        n > 0 && self.call_frames[n - 1].ip > usize::MAX - offset
    }

    /// Whether the instruction would make the machine panic.
    fn would_panic<F: Fn(NumOp, u64, u64) -> u64>(&self, ins: Instruction, arith: &F) -> (r: bool)
        requires
            arith_ok(*arith),
        ensures
            r == step_panics(arith_of(*arith), self@, ins),
    {
        let n = self.stack.len();
        match ins {
            Instruction::LoadLocal { slot } => self.slot_would_overflow(slot),
            Instruction::StoreLocal { slot } => self.slot_would_overflow(slot),
            Instruction::Jump { offset } => self.jump_would_overflow(offset),
            Instruction::JumpIfFalse { offset } => n > 0 && !is_truthy(&self.stack[n - 1])
                && self.jump_would_overflow(offset),
            Instruction::JumpIfTrue { offset } => n > 0 && is_truthy(&self.stack[n - 1]) && self.jump_would_overflow(
                offset,
            ),
            Instruction::Call { arg_count } => n > 0 && arg_count > n - 1,
            Instruction::NewInstance { arg_count, .. } => arg_count > n,
            Instruction::IndexGet => n >= 2 && match (&self.stack[n - 2], &self.stack[n - 1]) {
                (Value::String(s), Value::Number(i)) => {
                    let k = index_of(*i, arith);
                    let t = s.as_str();
                    k < t.as_bytes().len() && !(t.is_char_boundary(k) && t.is_char_boundary(k + 1))
                },
                _ => false,
            },
            Instruction::ForInNext { var_slot, end_offset } => {
                let m = self.iterators.len();
                if m == 0 {
                    false
                } else if has_next(&self.iterators[m - 1]) {
                    self.slot_would_overflow(var_slot)
                } else {
                    self.jump_would_overflow(end_offset)
                }
            },
            _ => false,
        }
    }

    /// Executes one instruction.
    fn execute_instruction<F: Fn(NumOp, u64, u64) -> u64>(&mut self, ins: Instruction, arith: &F) -> (r: Result<(), VmError>)
        requires
            arith_ok(*arith),
            !step_panics(arith_of(*arith), old(self)@, ins),
        ensures
            (final(self)@, result_view(r)) == step(arith_of(*arith), old(self)@, ins),
    {
        match ins {
            Instruction::LoadConstant { .. } | Instruction::LoadNil | Instruction::LoadTrue | Instruction::LoadFalse
            | Instruction::LoadLocal { .. } | Instruction::StoreLocal { .. } | Instruction::LoadGlobal { .. }
            | Instruction::StoreGlobal { .. } => self.exec_load_store(ins, arith),
            Instruction::Add | Instruction::Subtract | Instruction::Multiply | Instruction::Divide
            | Instruction::Modulo => self.exec_arith(ins, arith),
            Instruction::Equal | Instruction::NotEqual | Instruction::Less | Instruction::Greater
            | Instruction::LessEqual | Instruction::GreaterEqual => self.exec_compare(ins, arith),
            Instruction::And | Instruction::Or | Instruction::Not | Instruction::Jump { .. }
            | Instruction::JumpIfFalse { .. } | Instruction::JumpIfTrue { .. } | Instruction::JumpBack { .. }
            | Instruction::Call { .. } | Instruction::Return | Instruction::ReturnNil => self.exec_control(ins, arith),
            Instruction::NewArray { .. } | Instruction::NewTable | Instruction::ArrayPush
            | Instruction::TableSet { .. } | Instruction::IndexGet | Instruction::IndexSet
            | Instruction::PropertyGet { .. } | Instruction::PropertySet { .. } | Instruction::NullCoalesce
            | Instruction::Spread | Instruction::Length => self.exec_data(ins, arith),
            Instruction::Stringify => self.exec_stringify(arith),
            Instruction::Class { .. } | Instruction::NewRange | Instruction::ForInInit
            | Instruction::ForInNext { .. } => self.exec_loops(ins, arith),
            _ => self.exec_objects(ins, arith),
        }
    }

    /// Replaces the value on top of the stack by its text.
    fn exec_stringify<F: Fn(NumOp, u64, u64) -> u64>(&mut self, arith: &F) -> (r: Result<(), VmError>)
        requires
            arith_ok(*arith),
        ensures
            (final(self)@, result_view(r)) == step_stringify(arith_of(*arith), old(self)@),
    {
        proof {
            reveal_strlit("true");
            reveal_strlit("false");
            reveal_strlit("nil");
        }
        match self.pop_value() {
            Some(v) => {
                let text = match &v {
                    Value::String(s) => {
                        let mut t = String::new();
                        t.append(s.as_str());
                        Some(t)
                    },
                    Value::Number(n) => Some(number_text_of(*n, arith)),
                    Value::Bool(b) => Some(String::from_str(if *b { "true" } else { "false" })),
                    Value::Nil => Some(String::from_str("nil")),
                    _ => None,
                };
                match text {
                    Some(t) => {
                        self.push_value(Value::String(t));
                        Ok(())
                    },
                    None => Err(VmError::CannotInterpolate),
                }
            },
            None => Ok(()),
        }
    }

    /// Loads a program: its strings and functions replace the machine's,
    /// and a call of its main code begins.
    fn load_program(&mut self, program: &BytecodeProgram)
        ensures
            final(self)@ == load(old(self)@, program@),
    {
        self.interner = program.string_interner.copy();
        self.functions = copy_functions(&program.functions);
        let main = program.main.copy();
        self.call_frames.push(CallFrame { function: main, ip: 0, frame_start: 0 });
        proof {
            assert(self@.frames =~= load(old(self)@, program@).frames);
        }
    }

    /// Ends the innermost call, whose code is exhausted.
    fn drop_frame(&mut self)
        requires
            old(self)@.frames.len() > 0,
        ensures
            final(self)@ == (VmState { frames: old(self)@.frames.drop_last(), ..old(self)@ }),
    {
        self.call_frames.pop();
        proof {
            assert(self@.frames =~= old(self)@.frames.drop_last());
        }
    }

    /// Takes the innermost call's next instruction and moves past it.
    fn fetch(&mut self) -> (r: Instruction)
        requires
            old(self)@.frames.len() > 0,
            old(self)@.frames.last().ip < old(self)@.frames.last().function.instructions.len(),
        ensures
            ({
                let f = old(self)@.frames.last();
                &&& r == f.function.instructions[f.ip as int]
                &&& final(self)@ == (VmState {
                    frames: old(self)@.frames.update(
                        old(self)@.frames.len() - 1,
                        SpecFrame { ip: (f.ip + 1) as usize, ..f },
                    ),
                    ..old(self)@
                })
            }),
    {
        match self.call_frames.pop() {
            Some(f) => {
                let CallFrame { function, ip, frame_start } = f;
                let len = function.instructions.len();
                proof {
                    assert(ip < len);
                }
                let ins = function.instructions[ip];
                self.call_frames.push(CallFrame { function, ip: ip + 1, frame_start });
                proof {
                    let g = old(self)@.frames.last();
                    assert(self@.frames =~= old(self)@.frames.update(
                        old(self)@.frames.len() - 1,
                        SpecFrame { ip: (g.ip + 1) as usize, ..g },
                    ));
                }
                ins
            },
            None => Instruction::LoadNil,
        }
    }

    /// Whether the innermost call's code is exhausted.
    fn at_end(&self) -> (r: bool)
        requires
            self@.frames.len() > 0,
        ensures
            r == (self@.frames.last().ip >= self@.frames.last().function.instructions.len()),
    {
        let n = self.call_frames.len();
        self.call_frames[n - 1].ip >= self.call_frames[n - 1].function.instructions.len()
    }

    /// Runs `program` until its last call ends or an instruction fails.
    /// `arith` is the arithmetic on numbers.  The run must end, and no
    /// instruction on the way may be one that panics.
    pub fn execute<F: Fn(NumOp, u64, u64) -> u64>(&mut self, program: &BytecodeProgram, arith: &F) -> (r: Result<(), VmError>)
        requires
            arith_ok(*arith),
            finishes(arith_of(*arith), load(old(self)@, program@)),
        ensures
            outcome(arith_of(*arith), load(old(self)@, program@)) == RunOutcome::Finished(final(self)@, result_view(r)),
    {
        let ghost ar = arith_of(*arith);
        self.load_program(program);
        let ghost st0 = self@;
        let ghost n0: nat = choose|n: nat| #[trigger] run(ar, st0, n) is Finished;
        let ghost goal = run(ar, st0, n0);
        let ghost mut fuel: nat = n0;
        loop
            invariant
                arith_ok(*arith),
                ar == arith_of(*arith),
                goal == outcome(ar, load(old(self)@, program@)),
                goal is Finished,
                run(ar, self@, fuel) == goal,
            decreases fuel,
        {
            if self.call_frames.len() == 0 {
                return Ok(());
            }
            if self.at_end() {
                self.drop_frame();
                proof {
                    fuel = (fuel - 1) as nat;
                }
            } else {
                let ins = self.fetch();
                match self.execute_instruction(ins, arith) {
                    Ok(()) => {
                        proof {
                            fuel = (fuel - 1) as nat;
                        }
                    },
                    Err(e) => {
                        return Err(e);
                    },
                }
            }
        }
    }

    /// Runs `program` for at most `max_steps` steps (a step ends an
    /// exhausted call or executes an instruction).  `None` where the steps
    /// ran out or the next instruction would panic.
    pub fn execute_bounded<F: Fn(NumOp, u64, u64) -> u64>(
        &mut self,
        program: &BytecodeProgram,
        arith: &F,
        max_steps: usize,
    ) -> (r: Option<Result<(), VmError>>)
        requires
            arith_ok(*arith),
        ensures
            match run(arith_of(*arith), load(old(self)@, program@), max_steps as nat) {
                RunOutcome::Finished(st, res) => final(self)@ == st && match r {
                    Some(x) => result_view(x) == res,
                    None => false,
                },
                _ => r is None,
            },
    {
        let ghost ar = arith_of(*arith);
        self.load_program(program);
        let ghost st0 = self@;
        let mut left: usize = max_steps;
        loop
            invariant
                arith_ok(*arith),
                ar == arith_of(*arith),
                st0 == load(old(self)@, program@),
                run(ar, self@, left as nat) == run(ar, st0, max_steps as nat),
            decreases left,
        {
            if self.call_frames.len() == 0 {
                return Some(Ok(()));
            }
            if left == 0 {
                return None;
            }
            if self.at_end() {
                self.drop_frame();
            } else {
                let ghost before = self@;
                let ins = self.fetch();
                if self.would_panic(ins, arith) {
                    return None;
                }
                match self.execute_instruction(ins, arith) {
                    Ok(()) => {},
                    Err(e) => {
                        return Some(Err(e));
                    },
                }
            }
            left = left - 1;
        }
    }
}

impl Default for VirtualMachine {
    fn default() -> (r: Self)
        ensures
            r@ == empty_machine(),
    {
        Self::new()
    }
}

} // verus!

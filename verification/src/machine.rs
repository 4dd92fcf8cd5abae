//! The bytecode machine as mathematics: its state, what one instruction does
//! to it, and what running a program does.
use vstd::prelude::*;
use vstd::utf8::{decode_utf8, encode_utf8, is_char_boundary};
use crate::ast::{InternedString, SpecExpr};
use crate::bytecode::{Instruction, SpecFunction, SpecProgram};
use crate::interner::first_index;
use crate::number::{is_zero, Arith, NumOp, ZERO_BITS};
use crate::table::{entry_index, entry_values, insert_entry, lemma_entry_index, lookup};
use crate::value::SpecValue;
use crate::text::number_text;

verus! {

/// A call in progress: the function, the position of its next instruction,
/// and where its locals start on the stack.
pub struct SpecFrame {
    pub function: SpecFunction,
    pub ip: usize,
    pub frame_start: usize,
}

/// The state of a `for .. in` loop.
pub enum SpecIter {
    Array { values: Seq<SpecValue>, index: usize },
    Range { current: i64, end: i64 },
    Table { values: Seq<SpecValue>, index: usize },
}

/// The machine's state.  Arrays and tables live in `arrays` and `tables`;
/// a value refers to one by its position there.
pub struct VmState {
    pub stack: Seq<SpecValue>,
    pub globals: Seq<(usize, SpecValue)>,
    pub frames: Seq<SpecFrame>,
    pub strings: Seq<Seq<char>>,
    pub functions: Seq<SpecFunction>,
    pub this_stack: Seq<SpecValue>,
    pub iterators: Seq<SpecIter>,
    pub arrays: Seq<Seq<SpecValue>>,
    pub tables: Seq<Seq<(usize, SpecValue)>>,
}

/// The errors that stop a run.
pub enum SpecVmError {
    InvalidOperands(char),
    DivisionByZero,
    ModuloByZero,
    CannotNegate,
    FunctionIndexOutOfBounds(usize),
    NotCallable(SpecValue),
    InvalidIndex,
    IndexOutOfBounds(usize),
    InvalidIndexAssignment,
    PropertyOfNonTable(InternedString),
    PropertySetOnNonTable(InternedString),
    NotAClass,
    RangeBoundsNotNumbers,
    NotIterable,
    CannotGetLength,
    CannotInterpolate,
}

/// The outcome of an instruction: the state after it, and the error that
/// stops the run, if any.
pub type StepResult = (VmState, Result<(), SpecVmError>);

/// The state of a machine that has run nothing.
pub open spec fn empty_machine() -> VmState {
    VmState {
        stack: Seq::empty(),
        globals: Seq::empty(),
        frames: Seq::empty(),
        strings: Seq::empty(),
        functions: Seq::empty(),
        this_stack: Seq::empty(),
        iterators: Seq::empty(),
        arrays: Seq::empty(),
        tables: Seq::empty(),
    }
}

// ---------------------------------------------------------------------------
// Values
// ---------------------------------------------------------------------------

/// Only `nil` and `false` are false.
pub open spec fn truthy(v: SpecValue) -> bool {
    !(v is Nil || v == SpecValue::Bool(false))
}

/// Equality of values: numbers as doubles, strings by their characters,
/// arrays and tables by identity, ranges by their bounds, functions by the
/// compiled function and its parameters.
pub open spec fn values_equal(ar: Arith, a: SpecValue, b: SpecValue) -> bool {
    match (a, b) {
        (SpecValue::Nil, SpecValue::Nil) => true,
        (SpecValue::Bool(x), SpecValue::Bool(y)) => x == y,
        (SpecValue::Number(x), SpecValue::Number(y)) => ar(NumOp::Equal, x, y) != 0,
        (SpecValue::String(x), SpecValue::String(y)) => x == y,
        (SpecValue::Array(x), SpecValue::Array(y)) => x == y,
        (SpecValue::Table(x), SpecValue::Table(y)) => x == y,
        (SpecValue::Range { start: s1, end: e1 }, SpecValue::Range { start: s2, end: e2 }) => ar(
            NumOp::Equal,
            s1,
            s2,
        ) != 0 && ar(NumOp::Equal, e1, e2) != 0,
        (SpecValue::Function { name: n1, params: p1, .. }, SpecValue::Function { name: n2, params: p2, .. }) => n1
            == n2 && p1 == p2,
        (
            SpecValue::AsyncFunction { name: n1, params: p1, .. },
            SpecValue::AsyncFunction { name: n2, params: p2, .. },
        ) => n1 == n2 && p1 == p2,
        (SpecValue::Generator { name: n1, params: p1 }, SpecValue::Generator { name: n2, params: p2 }) => n1 == n2
            && p1 == p2,
        _ => false,
    }
}

/// Byte strings in lexicographic order: `a` comes before `b`.
pub open spec fn bytes_less(a: Seq<u8>, b: Seq<u8>) -> bool
    decreases a.len(),
{
    if a.len() == 0 {
        b.len() > 0
    } else if b.len() == 0 {
        false
    } else if a[0] == b[0] {
        bytes_less(a.drop_first(), b.drop_first())
    } else {
        a[0] < b[0]
    }
}

/// Strings are ordered by their UTF-8 bytes.
pub open spec fn string_less(a: Seq<char>, b: Seq<char>) -> bool {
    bytes_less(encode_utf8(a), encode_utf8(b))
}

/// The order comparisons: numbers as doubles, strings by their bytes,
/// anything else is not ordered.
pub open spec fn ordered(ar: Arith, ins: Instruction, a: SpecValue, b: SpecValue) -> bool {
    match (a, b) {
        (SpecValue::Number(x), SpecValue::Number(y)) => match ins {
            Instruction::Less => ar(NumOp::Less, x, y) != 0,
            Instruction::Greater => ar(NumOp::Greater, x, y) != 0,
            Instruction::LessEqual => ar(NumOp::LessEq, x, y) != 0,
            _ => ar(NumOp::GreaterEq, x, y) != 0,
        },
        (SpecValue::String(x), SpecValue::String(y)) => match ins {
            Instruction::Less => string_less(x, y),
            Instruction::Greater => string_less(y, x),
            Instruction::LessEqual => !string_less(y, x),
            _ => !string_less(x, y),
        },
        _ => false,
    }
}

/// The arithmetic instructions on two values.
pub open spec fn arith_value(ar: Arith, ins: Instruction, l: SpecValue, r: SpecValue) -> Result<SpecValue, SpecVmError> {
    match ins {
        Instruction::Add => match (l, r) {
            (SpecValue::Number(a), SpecValue::Number(b)) => Ok(SpecValue::Number(ar(NumOp::Add, a, b))),
            (SpecValue::String(a), SpecValue::String(b)) => Ok(SpecValue::String(a + b)),
            _ => Err(SpecVmError::InvalidOperands('+')),
        },
        Instruction::Subtract => match (l, r) {
            (SpecValue::Number(a), SpecValue::Number(b)) => Ok(SpecValue::Number(ar(NumOp::Sub, a, b))),
            _ => Err(SpecVmError::InvalidOperands('-')),
        },
        Instruction::Multiply => match (l, r) {
            (SpecValue::Number(a), SpecValue::Number(b)) => Ok(SpecValue::Number(ar(NumOp::Mul, a, b))),
            _ => Err(SpecVmError::InvalidOperands('*')),
        },
        Instruction::Divide => match (l, r) {
            (SpecValue::Number(a), SpecValue::Number(b)) => if is_zero(b) {
                Err(SpecVmError::DivisionByZero)
            } else {
                Ok(SpecValue::Number(ar(NumOp::Div, a, b)))
            },
            _ => Err(SpecVmError::InvalidOperands('/')),
        },
        _ => match (l, r) {
            (SpecValue::Number(a), SpecValue::Number(b)) => if is_zero(b) {
                Err(SpecVmError::ModuloByZero)
            } else {
                Ok(SpecValue::Number(ar(NumOp::Rem, a, b)))
            },
            _ => Err(SpecVmError::InvalidOperands('%')),
        },
    }
}

/// A double converted to an index (`as usize`).
pub open spec fn to_index(ar: Arith, n: u64) -> usize {
    ar(NumOp::ToUsize, n, ZERO_BITS) as usize
}

/// The decimal digits of `n`.
pub open spec fn decimal(n: nat) -> Seq<char>
    decreases n,
{
    let d = ((n % 10) + 48) as char;
    if n < 10 {
        seq![d]
    } else {
        decimal(n / 10).push(d)
    }
}

/// The text that a `require` of `path` evaluates to.
pub open spec fn module_text(path: InternedString) -> Seq<char> {
    "<module InternedString("@ + decimal(path.0 as nat) + ")>"@
}

/// The value of a default parameter: literals evaluate to themselves,
/// anything else to `nil`.
pub open spec fn default_value(e: SpecExpr) -> SpecValue {
    match e {
        SpecExpr::Number(n) => SpecValue::Number(n),
        SpecExpr::String(s) => SpecValue::String(s),
        SpecExpr::LiteralTrue => SpecValue::Bool(true),
        SpecExpr::LiteralFalse => SpecValue::Bool(false),
        _ => SpecValue::Nil,
    }
}

// ---------------------------------------------------------------------------
// Small steps on the state
// ---------------------------------------------------------------------------

/// Takes the top of the stack, if any.
pub open spec fn pop(st: VmState) -> (Option<SpecValue>, VmState) {
    if st.stack.len() == 0 {
        (None, st)
    } else {
        (Some(st.stack.last()), VmState { stack: st.stack.drop_last(), ..st })
    }
}

pub open spec fn push(st: VmState, v: SpecValue) -> VmState {
    VmState { stack: st.stack.push(v), ..st }
}

/// The array at position `h`; there is none past the heap's end (which no
/// value refers to: see the heap invariant).
pub open spec fn array_at(st: VmState, h: usize) -> Seq<SpecValue> {
    if h < st.arrays.len() {
        st.arrays[h as int]
    } else {
        Seq::empty()
    }
}

/// The table at position `h`; there is none past the heap's end (which no
/// value refers to: see the heap invariant).
pub open spec fn table_at(st: VmState, h: usize) -> Seq<(usize, SpecValue)> {
    if h < st.tables.len() {
        st.tables[h as int]
    } else {
        Seq::empty()
    }
}

/// Sets the table at `h`, if there is one.
pub open spec fn set_table(st: VmState, h: usize, t: Seq<(usize, SpecValue)>) -> VmState {
    if h < st.tables.len() {
        VmState { tables: st.tables.update(h as int, t), ..st }
    } else {
        st
    }
}

/// Sets the array at `h`, if there is one.
pub open spec fn set_array(st: VmState, h: usize, a: Seq<SpecValue>) -> VmState {
    if h < st.arrays.len() {
        VmState { arrays: st.arrays.update(h as int, a), ..st }
    } else {
        st
    }
}

/// Pads the stack with `nil` up to position `idx` and stores `v` there.
pub open spec fn store_at(stack: Seq<SpecValue>, idx: nat, v: SpecValue) -> Seq<SpecValue> {
    let padded = if stack.len() <= idx {
        stack + Seq::new((idx + 1 - stack.len()) as nat, |i: int| SpecValue::Nil)
    } else {
        stack
    };
    padded.update(idx as int, v)
}

/// Moves the current frame's next instruction by `offset`.
pub open spec fn jump(st: VmState, offset: usize) -> VmState {
    if st.frames.len() == 0 {
        st
    } else {
        let f = st.frames.last();
        VmState {
            frames: st.frames.update(st.frames.len() - 1, SpecFrame { ip: (f.ip + offset) as usize, ..f }),
            ..st
        }
    }
}

/// A jump forward by `offset` overflows the instruction position.
pub open spec fn jump_overflows(st: VmState, offset: usize) -> bool {
    st.frames.len() > 0 && st.frames.last().ip + offset > usize::MAX
}

/// The position on the stack of local `slot` of the current frame, which
/// must not overflow (nor be the last position, which no stack can reach).
pub open spec fn slot_overflows(st: VmState, slot: usize) -> bool {
    st.frames.len() > 0 && st.frames.last().frame_start + slot >= usize::MAX
}

/// Ends the current frame: the stack drops to where it started.
pub open spec fn pop_frame(st: VmState) -> VmState {
    let f = st.frames.last();
    VmState {
        frames: st.frames.drop_last(),
        stack: if f.frame_start < st.stack.len() {
            st.stack.take(f.frame_start as int)
        } else {
            st.stack
        },
        ..st
    }
}

/// The value of parameter `i` of a call with `args`, given the defaults.
pub open spec fn param_value(args: Seq<SpecValue>, defaults: Seq<Option<SpecExpr>>, i: int) -> SpecValue {
    if i < args.len() {
        args[i]
    } else if i < defaults.len() {
        match defaults[i] {
            Some(e) => default_value(e),
            None => SpecValue::Nil,
        }
    } else {
        SpecValue::Nil
    }
}

/// Enters compiled function `index` with parameter values `values`; its
/// other slots start as `nil`.
pub open spec fn enter(st: VmState, index: usize, values: Seq<SpecValue>) -> VmState {
    let f = st.functions[index as int];
    let extra = if f.max_slots > values.len() {
        (f.max_slots - values.len()) as nat
    } else {
        0
    };
    VmState {
        stack: st.stack + values + Seq::new(extra, |i: int| SpecValue::Nil),
        frames: st.frames.push(SpecFrame { function: f, ip: 0, frame_start: st.stack.len() as usize }),
        ..st
    }
}

/// Calling `callee` with `args`.
pub open spec fn call_value(st: VmState, callee: SpecValue, args: Seq<SpecValue>) -> StepResult {
    match callee {
        SpecValue::Function { name, params, default_params } => if name < st.functions.len() {
            (enter(st, name, Seq::new(params.len(), |i: int| param_value(args, default_params, i))), Ok(()))
        } else {
            (st, Err(SpecVmError::FunctionIndexOutOfBounds(name)))
        },
        SpecValue::AsyncFunction { name, params, .. } => if name < st.functions.len() {
            (enter(st, name, Seq::new(params.len(), |i: int| param_value(args, Seq::empty(), i))), Ok(()))
        } else {
            (st, Err(SpecVmError::FunctionIndexOutOfBounds(name)))
        },
        SpecValue::Generator { name, params } => if name < st.functions.len() {
            (enter(st, name, Seq::new(params.len(), |i: int| param_value(args, Seq::empty(), i))), Ok(()))
        } else {
            (st, Err(SpecVmError::FunctionIndexOutOfBounds(name)))
        },
        _ => (st, Err(SpecVmError::NotCallable(callee))),
    }
}

/// The number the interner gave `s`, or the largest index if none.
pub open spec fn string_id(st: VmState, s: Seq<char>) -> usize {
    match first_index(st.strings, s) {
        Some(i) => i as usize,
        None => usize::MAX,
    }
}

/// Making an instance of `class` with constructor arguments `args`: the
/// instance is a new table with the class's entries; a constructor `init`
/// is called with the instance as `this`, and `this` is restored whether
/// the call succeeds or fails.  The instance is the value.
pub open spec fn instantiate(st: VmState, class: SpecValue, args: Seq<SpecValue>) -> (VmState, Result<SpecValue, SpecVmError>) {
    match class {
        SpecValue::Table(h) => {
            let entries = table_at(st, h);
            let instance = SpecValue::Table(st.tables.len() as usize);
            let s1 = VmState { tables: st.tables.push(entries), ..st };
            match lookup(entries, string_id(st, "init"@)) {
                Some(ctor) => {
                    let s2 = VmState { this_stack: s1.this_stack.push(instance), ..s1 };
                    let (s3, r) = call_value(s2, ctor, args);
                    let s4 = VmState { this_stack: s3.this_stack.drop_last(), ..s3 };
                    match r {
                        Ok(_) => (s4, Ok(instance)),
                        Err(e) => (s4, Err(e)),
                    }
                },
                None => (s1, Ok(instance)),
            }
        },
        _ => (st, Err(SpecVmError::NotAClass)),
    }
}

/// Reading `object[index]`.
pub open spec fn get_index(ar: Arith, st: VmState, object: SpecValue, index: SpecValue) -> Result<SpecValue, SpecVmError> {
    match (object, index) {
        (SpecValue::Array(h), SpecValue::Number(i)) => {
            let idx = to_index(ar, i);
            if idx < array_at(st, h).len() {
                Ok(array_at(st, h)[idx as int])
            } else {
                Ok(SpecValue::Nil)
            }
        },
        (SpecValue::Table(h), SpecValue::Number(i)) => match lookup(table_at(st, h), to_index(ar, i)) {
            Some(v) => Ok(v),
            None => Ok(SpecValue::Nil),
        },
        (SpecValue::String(s), SpecValue::Number(i)) => {
            let idx = to_index(ar, i);
            let bytes = encode_utf8(s);
            if idx < bytes.len() {
                Ok(SpecValue::String(decode_utf8(bytes.subrange(idx as int, idx + 1))))
            } else {
                Ok(SpecValue::Nil)
            }
        },
        _ => Err(SpecVmError::InvalidIndex),
    }
}

/// Reading byte `idx` of `s` as a one-byte string, where `idx` or the next
/// position is not a character boundary, cuts a character in two.
pub open spec fn cuts_character(ar: Arith, object: SpecValue, index: SpecValue) -> bool {
    match (object, index) {
        (SpecValue::String(s), SpecValue::Number(i)) => {
            let idx = to_index(ar, i);
            let bytes = encode_utf8(s);
            idx < bytes.len() && !(is_char_boundary(bytes, idx as int) && is_char_boundary(bytes, idx + 1))
        },
        _ => false,
    }
}

/// Writing `object[index] = value`.
pub open spec fn set_index(ar: Arith, st: VmState, object: SpecValue, index: SpecValue, value: SpecValue) -> StepResult {
    match (object, index) {
        (SpecValue::Array(h), SpecValue::Number(i)) => {
            let idx = to_index(ar, i);
            if idx < array_at(st, h).len() {
                (set_array(st, h, array_at(st, h).update(idx as int, value)), Ok(()))
            } else {
                (st, Err(SpecVmError::IndexOutOfBounds(idx)))
            }
        },
        (SpecValue::Table(h), SpecValue::Number(i)) => (
            set_table(st, h, insert_entry(table_at(st, h), to_index(ar, i), value)),
            Ok(()),
        ),
        _ => (st, Err(SpecVmError::InvalidIndexAssignment)),
    }
}

/// Collects the methods of a class from the stack: `n` times, a method and
/// below it its name, a number.
pub open spec fn collect_methods(ar: Arith, stack: Seq<SpecValue>, entries: Seq<(usize, SpecValue)>, n: nat) -> (
    Seq<SpecValue>,
    Seq<(usize, SpecValue)>,
)
    decreases n,
{
    if n == 0 {
        (stack, entries)
    } else {
        let (s1, e1) = if stack.len() == 0 {
            (stack, entries)
        } else {
            let method = stack.last();
            let s = stack.drop_last();
            if s.len() == 0 {
                (s, entries)
            } else {
                match s.last() {
                    SpecValue::Number(id) => (s.drop_last(), insert_entry(entries, to_index(ar, id), method)),
                    _ => (s.drop_last(), entries),
                }
            }
        };
        collect_methods(ar, s1, e1, (n - 1) as nat)
    }
}

/// The next value of a `for .. in` loop, and the loop's state after it.
pub open spec fn iter_next(ar: Arith, it: SpecIter) -> Option<(SpecValue, SpecIter)> {
    match it {
        SpecIter::Array { values, index } => if index < values.len() {
            Some((values[index as int], SpecIter::Array { values, index: (index + 1) as usize }))
        } else {
            None
        },
        SpecIter::Range { current, end } => if current < end {
            Some((
                SpecValue::Number(ar(NumOp::FromI64, current as u64, ZERO_BITS)),
                SpecIter::Range { current: (current + 1) as i64, end },
            ))
        } else {
            None
        },
        SpecIter::Table { values, index } => if index < values.len() {
            Some((values[index as int], SpecIter::Table { values, index: (index + 1) as usize }))
        } else {
            None
        },
    }
}

// ---------------------------------------------------------------------------
// One instruction
// ---------------------------------------------------------------------------

/// The instruction would make the machine panic: an overflowing position,
/// more arguments than the stack holds, or a string index that cuts a
/// character in two.
pub open spec fn step_panics(ar: Arith, st: VmState, ins: Instruction) -> bool {
    match ins {
        Instruction::LoadLocal { slot } => slot_overflows(st, slot),
        Instruction::StoreLocal { slot } => slot_overflows(st, slot),
        Instruction::Jump { offset } => jump_overflows(st, offset),
        Instruction::JumpIfFalse { offset } => st.stack.len() > 0 && !truthy(st.stack.last()) && jump_overflows(
            st,
            offset,
        ),
        Instruction::JumpIfTrue { offset } => st.stack.len() > 0 && truthy(st.stack.last()) && jump_overflows(
            st,
            offset,
        ),
        Instruction::Call { arg_count } => st.stack.len() > 0 && arg_count > st.stack.len() - 1,
        Instruction::NewInstance { arg_count, .. } => arg_count > st.stack.len(),
        Instruction::IndexGet => st.stack.len() >= 2 && cuts_character(
            ar,
            st.stack[st.stack.len() - 2],
            st.stack.last(),
        ),
        Instruction::ForInNext { var_slot, end_offset } => st.iterators.len() > 0 && match iter_next(
            ar,
            st.iterators.last(),
        ) {
            Some(_) => slot_overflows(st, var_slot),
            None => jump_overflows(st, end_offset),
        },
        _ => false,
    }
}

/// Two pops, then the arithmetic.
pub open spec fn step_arith(ar: Arith, st: VmState, ins: Instruction) -> StepResult {
    let (r, s1) = pop(st);
    let (l, s2) = pop(s1);
    match (r, l) {
        (Some(rv), Some(lv)) => match arith_value(ar, ins, lv, rv) {
            Ok(v) => (push(s2, v), Ok(())),
            Err(e) => (s2, Err(e)),
        },
        _ => (s2, Ok(())),
    }
}

/// Two pops, then the comparison.
pub open spec fn step_compare(ar: Arith, st: VmState, ins: Instruction) -> StepResult {
    let (r, s1) = pop(st);
    let (l, s2) = pop(s1);
    match (r, l) {
        (Some(rv), Some(lv)) => {
            let b = match ins {
                Instruction::Equal => values_equal(ar, lv, rv),
                Instruction::NotEqual => !values_equal(ar, lv, rv),
                _ => ordered(ar, ins, lv, rv),
            };
            (push(s2, SpecValue::Bool(b)), Ok(()))
        },
        _ => (s2, Ok(())),
    }
}

/// Loading, storing, constants and globals.
pub open spec fn step_load_store(st: VmState, ins: Instruction) -> StepResult {
    match ins {
        Instruction::LoadConstant { index } => if st.frames.len() > 0 && index < st.frames.last().function.constants.len() {
            (push(st, st.frames.last().function.constants[index as int]), Ok(()))
        } else {
            (push(st, SpecValue::Nil), Ok(()))
        },
        Instruction::LoadNil => (push(st, SpecValue::Nil), Ok(())),
        Instruction::LoadTrue => (push(st, SpecValue::Bool(true)), Ok(())),
        Instruction::LoadFalse => (push(st, SpecValue::Bool(false)), Ok(())),
        Instruction::LoadLocal { slot } => if st.frames.len() > 0 {
            let idx = st.frames.last().frame_start + slot;
            if idx < st.stack.len() {
                (push(st, st.stack[idx]), Ok(()))
            } else {
                (push(st, SpecValue::Nil), Ok(()))
            }
        } else {
            (st, Ok(()))
        },
        Instruction::StoreLocal { slot } => if st.frames.len() > 0 {
            let idx = st.frames.last().frame_start + slot;
            match pop(st) {
                (Some(v), s1) => (VmState { stack: store_at(s1.stack, idx as nat, v), ..s1 }, Ok(())),
                (None, s1) => (s1, Ok(())),
            }
        } else {
            (st, Ok(()))
        },
        Instruction::LoadGlobal { name } => match lookup(st.globals, name.0) {
            Some(v) => (push(st, v), Ok(())),
            None => (push(st, SpecValue::Nil), Ok(())),
        },
        Instruction::StoreGlobal { name } => match pop(st) {
            (Some(v), s1) => (VmState { globals: insert_entry(s1.globals, name.0, v), ..s1 }, Ok(())),
            (None, s1) => (s1, Ok(())),
        },
        _ => (st, Ok(())),
    }
}

/// Logic, jumps, calls and returns.
pub open spec fn step_control(st: VmState, ins: Instruction) -> StepResult {
    match ins {
        Instruction::And => match pop(st) {
            (Some(left), s1) => if truthy(left) {
                match pop(s1) {
                    (Some(v), s2) => (push(s2, v), Ok(())),
                    (None, s2) => (push(s2, SpecValue::Nil), Ok(())),
                }
            } else {
                (push(s1, left), Ok(()))
            },
            (None, s1) => (s1, Ok(())),
        },
        Instruction::Or => match pop(st) {
            (Some(left), s1) => if truthy(left) {
                (push(s1, left), Ok(()))
            } else {
                match pop(s1) {
                    (Some(v), s2) => (push(s2, v), Ok(())),
                    (None, s2) => (push(s2, SpecValue::Nil), Ok(())),
                }
            },
            (None, s1) => (s1, Ok(())),
        },
        Instruction::Not => match pop(st) {
            (Some(v), s1) => (push(s1, SpecValue::Bool(!truthy(v))), Ok(())),
            (None, s1) => (s1, Ok(())),
        },
        Instruction::Jump { offset } => (jump(st, offset), Ok(())),
        Instruction::JumpIfFalse { offset } => if st.stack.len() > 0 && !truthy(st.stack.last()) {
            (jump(st, offset), Ok(()))
        } else {
            (st, Ok(()))
        },
        Instruction::JumpIfTrue { offset } => if st.stack.len() > 0 && truthy(st.stack.last()) {
            (jump(st, offset), Ok(()))
        } else {
            (st, Ok(()))
        },
        Instruction::JumpBack { offset } => if st.frames.len() > 0 && st.frames.last().ip >= offset {
            let f = st.frames.last();
            (
                VmState {
                    frames: st.frames.update(st.frames.len() - 1, SpecFrame { ip: (f.ip - offset) as usize, ..f }),
                    ..st
                },
                Ok(()),
            )
        } else {
            (st, Ok(()))
        },
        Instruction::Call { arg_count } => match pop(st) {
            (Some(callee), s1) => {
                let at = s1.stack.len() - arg_count;
                let args = s1.stack.subrange(at, s1.stack.len() as int);
                call_value(VmState { stack: s1.stack.take(at), ..s1 }, callee, args)
            },
            (None, s1) => (s1, Ok(())),
        },
        Instruction::Return => {
            let (rv, s1) = match pop(st) {
                (Some(v), s) => (v, s),
                (None, s) => (SpecValue::Nil, s),
            };
            if s1.frames.len() > 0 {
                (push(pop_frame(s1), rv), Ok(()))
            } else {
                (s1, Ok(()))
            }
        },
        Instruction::ReturnNil => if st.frames.len() > 1 {
            (push(pop_frame(st), SpecValue::Nil), Ok(()))
        } else {
            (st, Ok(()))
        },
        _ => (st, Ok(())),
    }
}

/// Arrays, tables, indexing and properties.
pub open spec fn step_data(ar: Arith, st: VmState, ins: Instruction) -> StepResult {
    match ins {
        Instruction::NewArray { .. } => (
            push(VmState { arrays: st.arrays.push(Seq::empty()), ..st }, SpecValue::Array(st.arrays.len() as usize)),
            Ok(()),
        ),
        Instruction::NewTable => (
            push(VmState { tables: st.tables.push(Seq::empty()), ..st }, SpecValue::Table(st.tables.len() as usize)),
            Ok(()),
        ),
        Instruction::ArrayPush => {
            let (v, s1) = pop(st);
            let (a, s2) = pop(s1);
            match (v, a) {
                (Some(value), Some(SpecValue::Array(h))) => (
                    push(set_array(s2, h, array_at(s2, h).push(value)), SpecValue::Array(h)),
                    Ok(()),
                ),
                _ => (s2, Ok(())),
            }
        },
        Instruction::TableSet { key } => {
            let (v, s1) = pop(st);
            let (t, s2) = pop(s1);
            match (v, t) {
                (Some(value), Some(SpecValue::Table(h))) => (
                    push(set_table(s2, h, insert_entry(table_at(s2, h), key.0, value)), SpecValue::Table(h)),
                    Ok(()),
                ),
                _ => (s2, Ok(())),
            }
        },
        Instruction::IndexGet => {
            let (i, s1) = pop(st);
            let (o, s2) = pop(s1);
            match (i, o) {
                (Some(index), Some(object)) => match get_index(ar, s2, object, index) {
                    Ok(v) => (push(s2, v), Ok(())),
                    Err(e) => (s2, Err(e)),
                },
                _ => (s2, Ok(())),
            }
        },
        Instruction::IndexSet => {
            let (v, s1) = pop(st);
            let (i, s2) = pop(s1);
            let (o, s3) = pop(s2);
            match (v, i, o) {
                (Some(value), Some(index), Some(object)) => set_index(ar, s3, object, index, value),
                _ => (s3, Ok(())),
            }
        },
        Instruction::PropertyGet { name } => match pop(st) {
            (Some(SpecValue::Table(h)), s1) => match lookup(table_at(s1, h), name.0) {
                Some(v) => (push(s1, v), Ok(())),
                None => (push(s1, SpecValue::Nil), Ok(())),
            },
            (Some(_), s1) => (s1, Err(SpecVmError::PropertyOfNonTable(name))),
            (None, s1) => (s1, Ok(())),
        },
        Instruction::PropertySet { name } => {
            let (v, s1) = pop(st);
            let (o, s2) = pop(s1);
            match (v, o) {
                (Some(value), Some(SpecValue::Table(h))) => (
                    set_table(s2, h, insert_entry(table_at(s2, h), name.0, value)),
                    Ok(()),
                ),
                (Some(_), Some(_)) => (s2, Err(SpecVmError::PropertySetOnNonTable(name))),
                _ => (s2, Ok(())),
            }
        },
        Instruction::NullCoalesce => {
            let (r, s1) = pop(st);
            let (l, s2) = pop(s1);
            match (r, l) {
                (Some(right), Some(left)) => (push(s2, if left is Nil { right } else { left }), Ok(())),
                _ => (s2, Ok(())),
            }
        },
        Instruction::Spread => match pop(st) {
            (Some(SpecValue::Array(h)), s1) => (VmState { stack: s1.stack + array_at(s1, h), ..s1 }, Ok(())),
            (_, s1) => (s1, Ok(())),
        },
        Instruction::Length => match pop(st) {
            (Some(v), s1) => match v {
                SpecValue::Array(h) => (push(s1, SpecValue::Number(from_len(ar, array_at(s1, h).len()))), Ok(())),
                SpecValue::String(x) => (push(s1, SpecValue::Number(from_len(ar, encode_utf8(x).len()))), Ok(())),
                SpecValue::Table(h) => (push(s1, SpecValue::Number(from_len(ar, table_at(s1, h).len()))), Ok(())),
                _ => (s1, Err(SpecVmError::CannotGetLength)),
            },
            (None, s1) => (s1, Ok(())),
        },
        _ => (st, Ok(())),
    }
}

/// A length as a double.
pub open spec fn from_len(ar: Arith, n: nat) -> u64 {
    ar(NumOp::FromUsize, n as u64, ZERO_BITS)
}

/// Functions, classes, modules, ranges and loops over collections.
/// The text of a value inside an f-string: a string as it is, a number as
/// the arithmetic writes it, `true`, `false` and `nil`; other values have
/// none.
pub open spec fn value_text(ar: Arith, v: SpecValue) -> Option<Seq<char>> {
    match v {
        SpecValue::String(s) => Some(s),
        SpecValue::Number(n) => Some(number_text(ar, n)),
        SpecValue::Bool(b) => Some(
            if b {
                "true"@
            } else {
                "false"@
            },
        ),
        SpecValue::Nil => Some("nil"@),
        _ => None,
    }
}

/// Replacing the value on top of the stack by its text.
pub open spec fn step_stringify(ar: Arith, st: VmState) -> StepResult {
    match pop(st) {
        (Some(v), s1) => match value_text(ar, v) {
            Some(t) => (push(s1, SpecValue::String(t)), Ok(())),
            None => (s1, Err(SpecVmError::CannotInterpolate)),
        },
        (None, s1) => (s1, Ok(())),
    }
}

pub open spec fn step_objects(ar: Arith, st: VmState, ins: Instruction) -> StepResult {
    match ins {
        Instruction::Negate => match pop(st) {
            (Some(SpecValue::Number(n)), s1) => (push(s1, SpecValue::Number(ar(NumOp::Neg, n, ZERO_BITS))), Ok(())),
            (Some(_), s1) => (s1, Err(SpecVmError::CannotNegate)),
            (None, s1) => (s1, Ok(())),
        },
        Instruction::Lambda { func_index, .. } => if func_index < st.functions.len() {
            (
                push(
                    st,
                    SpecValue::Function {
                        name: func_index,
                        params: st.functions[func_index as int].params,
                        default_params: Seq::empty(),
                    },
                ),
                Ok(()),
            )
        } else {
            (st, Ok(()))
        },
        Instruction::NewInstance { arg_count, .. } => {
            let at = st.stack.len() - arg_count;
            let args = st.stack.subrange(at, st.stack.len() as int);
            match pop(VmState { stack: st.stack.take(at), ..st }) {
                (Some(class), s1) => {
                    let (s2, r) = instantiate(s1, class, args);
                    match r {
                        Ok(instance) => (push(s2, instance), Ok(())),
                        Err(e) => (s2, Err(e)),
                    }
                },
                (None, s1) => (s1, Ok(())),
            }
        },
        Instruction::This => (push(st, this_value(st)), Ok(())),
        Instruction::Super { method } => {
            let found = match this_value(st) {
                SpecValue::Table(h) => match lookup(table_at(st, h), string_id(st, "__superclass__"@)) {
                    Some(SpecValue::Table(sh)) => lookup(table_at(st, sh), method.0),
                    _ => None,
                },
                _ => None,
            };
            match found {
                Some(v) => (push(st, v), Ok(())),
                None => (push(st, SpecValue::Nil), Ok(())),
            }
        },
        Instruction::Match { .. } => match pop(st) {
            (Some(v), s1) => (push(s1, v), Ok(())),
            (None, s1) => (push(s1, SpecValue::Nil), Ok(())),
        },
        Instruction::Require { path } => (push(st, SpecValue::String(module_text(path))), Ok(())),
        Instruction::Export { name } => match pop(st) {
            (Some(v), s1) => (push(VmState { globals: insert_entry(s1.globals, name.0, v), ..s1 }, v), Ok(())),
            (None, s1) => (s1, Ok(())),
        },
        Instruction::Class { name, method_count } => {
            let (stack, entries) = collect_methods(ar, st.stack, Seq::empty(), method_count as nat);
            let class = SpecValue::Table(st.tables.len() as usize);
            (
                push(
                    VmState {
                        stack,
                        tables: st.tables.push(entries),
                        globals: insert_entry(st.globals, name.0, class),
                        ..st
                    },
                    class,
                ),
                Ok(()),
            )
        },
        Instruction::NewRange => {
            let (e, s1) = pop(st);
            let (s, s2) = pop(s1);
            match (e, s) {
                (Some(SpecValue::Number(end)), Some(SpecValue::Number(start))) => (
                    push(s2, SpecValue::Range { start, end }),
                    Ok(()),
                ),
                (Some(_), Some(_)) => (s2, Err(SpecVmError::RangeBoundsNotNumbers)),
                _ => (s2, Ok(())),
            }
        },
        Instruction::ForInInit => {
            let (v, s1) = match pop(st) {
                (Some(v), s) => (v, s),
                (None, s) => (SpecValue::Nil, s),
            };
            match v {
                SpecValue::Array(h) => (
                    VmState { iterators: s1.iterators.push(SpecIter::Array { values: array_at(s1, h), index: 0 }), ..s1 },
                    Ok(()),
                ),
                SpecValue::Range { start, end } => (
                    VmState {
                        iterators: s1.iterators.push(
                            SpecIter::Range {
                                current: ar(NumOp::ToI64, start, ZERO_BITS) as i64,
                                end: ar(NumOp::ToI64, end, ZERO_BITS) as i64,
                            },
                        ),
                        ..s1
                    },
                    Ok(()),
                ),
                SpecValue::Table(h) => (
                    VmState {
                        iterators: s1.iterators.push(
                            SpecIter::Table { values: entry_values(table_at(s1, h)), index: 0 },
                        ),
                        ..s1
                    },
                    Ok(()),
                ),
                _ => (s1, Err(SpecVmError::NotIterable)),
            }
        },
        Instruction::ForInNext { var_slot, end_offset } => if st.iterators.len() > 0 {
            match iter_next(ar, st.iterators.last()) {
                Some((v, it)) => {
                    let s1 = VmState { iterators: st.iterators.update(st.iterators.len() - 1, it), ..st };
                    if s1.frames.len() > 0 {
                        let idx = s1.frames.last().frame_start + var_slot;
                        (VmState { stack: store_at(s1.stack, idx as nat, v), ..s1 }, Ok(()))
                    } else {
                        (s1, Ok(()))
                    }
                },
                None => (jump(VmState { iterators: st.iterators.drop_last(), ..st }, end_offset), Ok(())),
            }
        } else {
            (st, Ok(()))
        },
        _ => (st, Ok(())),
    }
}

/// The value of `this`: the innermost instance being constructed, or `nil`.
pub open spec fn this_value(st: VmState) -> SpecValue {
    if st.this_stack.len() > 0 {
        st.this_stack.last()
    } else {
        SpecValue::Nil
    }
}

/// What one instruction does.
pub open spec fn step(ar: Arith, st: VmState, ins: Instruction) -> StepResult {
    match ins {
        Instruction::LoadConstant { .. } | Instruction::LoadNil | Instruction::LoadTrue | Instruction::LoadFalse
        | Instruction::LoadLocal { .. } | Instruction::StoreLocal { .. } | Instruction::LoadGlobal { .. }
        | Instruction::StoreGlobal { .. } => step_load_store(st, ins),
        Instruction::Add | Instruction::Subtract | Instruction::Multiply | Instruction::Divide
        | Instruction::Modulo => step_arith(ar, st, ins),
        Instruction::Equal | Instruction::NotEqual | Instruction::Less | Instruction::Greater
        | Instruction::LessEqual | Instruction::GreaterEqual => step_compare(ar, st, ins),
        Instruction::And | Instruction::Or | Instruction::Not | Instruction::Jump { .. }
        | Instruction::JumpIfFalse { .. } | Instruction::JumpIfTrue { .. } | Instruction::JumpBack { .. }
        | Instruction::Call { .. } | Instruction::Return | Instruction::ReturnNil => step_control(st, ins),
        Instruction::NewArray { .. } | Instruction::NewTable | Instruction::ArrayPush | Instruction::TableSet { .. }
        | Instruction::IndexGet | Instruction::IndexSet | Instruction::PropertyGet { .. }
        | Instruction::PropertySet { .. } | Instruction::NullCoalesce | Instruction::Spread
        | Instruction::Length => step_data(ar, st, ins),
        Instruction::Stringify => step_stringify(ar, st),
        _ => step_objects(ar, st, ins),
    }
}

// ---------------------------------------------------------------------------
// Runs
// ---------------------------------------------------------------------------

/// The machine about to run `p`: its strings and functions are the
/// program's, and a call of its main code is in progress.
pub open spec fn load(st: VmState, p: SpecProgram) -> VmState {
    VmState {
        strings: p.strings,
        functions: p.functions,
        frames: st.frames.push(SpecFrame { function: p.main, ip: 0, frame_start: 0 }),
        ..st
    }
}

/// How a run ends.
pub enum RunOutcome {
    /// The last call ended, or an instruction failed.
    Finished(VmState, Result<(), SpecVmError>),
    /// An instruction would panic.
    Panicked,
    /// The steps given ran out first.
    OutOfSteps,
}

/// Running with at most `fuel` steps: a step ends a call whose code is
/// exhausted, or executes the next instruction of the innermost call.
pub open spec fn run(ar: Arith, st: VmState, fuel: nat) -> RunOutcome
    decreases fuel,
{
    if st.frames.len() == 0 {
        RunOutcome::Finished(st, Ok(()))
    } else if fuel == 0 {
        RunOutcome::OutOfSteps
    } else {
        let f = st.frames.last();
        if f.ip >= f.function.instructions.len() {
            run(ar, VmState { frames: st.frames.drop_last(), ..st }, (fuel - 1) as nat)
        } else {
            let ins = f.function.instructions[f.ip as int];
            let s1 = VmState {
                frames: st.frames.update(st.frames.len() - 1, SpecFrame { ip: (f.ip + 1) as usize, ..f }),
                ..st
            };
            if step_panics(ar, s1, ins) {
                RunOutcome::Panicked
            } else {
                match step(ar, s1, ins) {
                    (s2, Ok(())) => run(ar, s2, (fuel - 1) as nat),
                    (s2, Err(e)) => RunOutcome::Finished(s2, Err(e)),
                }
            }
        }
    }
}

/// The run from `st` ends, without a panic, within some number of steps.
pub open spec fn finishes(ar: Arith, st: VmState) -> bool {
    exists|n: nat| #[trigger] run(ar, st, n) is Finished
}


// ---------------------------------------------------------------------------
// Laws
// ---------------------------------------------------------------------------

/// After inserting `k` with `v`, looking `k` up finds `v`.
pub proof fn lemma_lookup_insert(entries: Seq<(usize, SpecValue)>, k: usize, v: SpecValue)
    ensures
        lookup(insert_entry(entries, k, v), k) == Some(v),
{
    lemma_entry_index(entries, k);
    let e2 = insert_entry(entries, k, v);
    lemma_entry_index(e2, k);
    match entry_index(entries, k) {
        Some(i) => {
            match entry_index(e2, k) {
                Some(j) => {
                    if j < i {
                        assert(e2[j] == entries[j]);
                    }
                    if j > i {
                        assert(e2[i].0 == k);
                    }
                },
                None => {
                    assert(e2[i].0 == k);
                },
            }
        },
        None => {
            let n = entries.len() as int;
            assert(e2[n].0 == k);
            match entry_index(e2, k) {
                Some(j) => {
                    if j < n {
                        assert(e2[j] == entries[j]);
                    }
                },
                None => {},
            }
        },
    }
}

/// A global that was stored is read back: storing the top of the stack in
/// global `name` and then loading `name` leaves that value on the stack.
pub proof fn law_global_read_after_write(ar: Arith, st: VmState, name: InternedString, v: SpecValue)
    ensures
        ({
            let (s1, r1) = step(ar, push(st, v), Instruction::StoreGlobal { name });
            let (s2, r2) = step(ar, s1, Instruction::LoadGlobal { name });
            &&& r1 is Ok && r2 is Ok
            &&& s2.stack == st.stack.push(v)
            &&& s2.globals == insert_entry(st.globals, name.0, v)
        }),
{
    lemma_lookup_insert(st.globals, name.0, v);
    assert(push(st, v).stack.drop_last() =~= st.stack);
}

/// A property that was set is read back: setting property `name` of table
/// `h` to `v` and then reading it gives `v`.
pub proof fn law_property_read_after_write(ar: Arith, st: VmState, h: usize, name: InternedString, v: SpecValue)
    requires
        h < st.tables.len(),
    ensures
        ({
            let s0 = push(push(st, SpecValue::Table(h)), v);
            let (s1, r1) = step(ar, s0, Instruction::PropertySet { name });
            let (s2, r2) = step(ar, push(s1, SpecValue::Table(h)), Instruction::PropertyGet { name });
            &&& r1 is Ok && r2 is Ok
            &&& s2.stack == st.stack.push(v)
        }),
{
    lemma_lookup_insert(st.tables[h as int], name.0, v);
    let s0 = push(push(st, SpecValue::Table(h)), v);
    assert(s0.stack.drop_last().drop_last() =~= st.stack);
    let (s1, r1) = step(ar, s0, Instruction::PropertySet { name });
    assert(s1.stack =~= st.stack);
    assert(push(s1, SpecValue::Table(h)).stack.drop_last() =~= st.stack);
}

/// An array element that was set is read back: `a[i] = v` then `a[i]`
/// gives `v`, for an index inside the array.
pub proof fn law_index_read_after_write(ar: Arith, st: VmState, h: usize, i: u64, v: SpecValue)
    requires
        h < st.arrays.len(),
        to_index(ar, i) < st.arrays[h as int].len(),
    ensures
        ({
            let s0 = push(push(push(st, SpecValue::Array(h)), SpecValue::Number(i)), v);
            let (s1, r1) = step(ar, s0, Instruction::IndexSet);
            let s2 = push(push(s1, SpecValue::Array(h)), SpecValue::Number(i));
            let (s3, r3) = step(ar, s2, Instruction::IndexGet);
            &&& r1 is Ok && r3 is Ok
            &&& s3.stack == st.stack.push(v)
        }),
{
    let s0 = push(push(push(st, SpecValue::Array(h)), SpecValue::Number(i)), v);
    assert(s0.stack.drop_last().drop_last().drop_last() =~= st.stack);
    let (s1, r1) = step(ar, s0, Instruction::IndexSet);
    assert(s1.stack =~= st.stack);
    let s2 = push(push(s1, SpecValue::Array(h)), SpecValue::Number(i));
    assert(s2.stack.drop_last().drop_last() =~= st.stack);
}

/// `==` and `!=` give opposite answers on the same two values.
pub proof fn law_equal_not_equal(ar: Arith, st: VmState)
    requires
        st.stack.len() >= 2,
    ensures
        ({
            let (s1, _) = step(ar, st, Instruction::Equal);
            let (s2, _) = step(ar, st, Instruction::NotEqual);
            &&& s1.stack.len() == s2.stack.len()
            &&& s1.stack.last() matches SpecValue::Bool(a) && s2.stack.last() == SpecValue::Bool(!a)
        }),
{
}

/// A run that ends without an error has ended every call.
pub proof fn law_success_ends_all_calls(ar: Arith, st: VmState, fuel: nat)
    ensures
        match run(ar, st, fuel) {
            RunOutcome::Finished(s, r) => r is Ok ==> s.frames.len() == 0,
            _ => true,
        },
    decreases fuel,
{
    if st.frames.len() > 0 && fuel > 0 {
        let f = st.frames.last();
        if f.ip >= f.function.instructions.len() {
            law_success_ends_all_calls(ar, VmState { frames: st.frames.drop_last(), ..st }, (fuel - 1) as nat);
        } else {
            let ins = f.function.instructions[f.ip as int];
            let s1 = VmState {
                frames: st.frames.update(st.frames.len() - 1, SpecFrame { ip: (f.ip + 1) as usize, ..f }),
                ..st
            };
            let (s2, r) = step(ar, s1, ins);
            law_success_ends_all_calls(ar, s2, (fuel - 1) as nat);
        }
    }
}

/// More steps do not change how a finished run ends.
pub proof fn law_outcome_stable(ar: Arith, st: VmState, n: nat, m: nat)
    requires
        run(ar, st, n) is Finished,
        n <= m,
    ensures
        run(ar, st, m) == run(ar, st, n),
    decreases n,
{
    if st.frames.len() > 0 && n > 0 {
        let f = st.frames.last();
        if f.ip >= f.function.instructions.len() {
            law_outcome_stable(ar, VmState { frames: st.frames.drop_last(), ..st }, (n - 1) as nat, (m - 1) as nat);
        } else {
            let ins = f.function.instructions[f.ip as int];
            let s1 = VmState {
                frames: st.frames.update(st.frames.len() - 1, SpecFrame { ip: (f.ip + 1) as usize, ..f }),
                ..st
            };
            let (s2, r) = step(ar, s1, ins);
            if r is Ok {
                law_outcome_stable(ar, s2, (n - 1) as nat, (m - 1) as nat);
            }
        }
    }
}

/// No instruction changes the program's functions or strings, and the heap
/// of arrays and tables never shrinks.
pub proof fn law_step_keeps_program_and_heap(ar: Arith, st: VmState, ins: Instruction)
    ensures
        ({
            let s1 = step(ar, st, ins).0;
            &&& s1.functions == st.functions
            &&& s1.strings == st.strings
            &&& s1.arrays.len() >= st.arrays.len()
            &&& s1.tables.len() >= st.tables.len()
        }),
{
}

/// A table entry that was set through an index is read back: `t[i] = v`
/// then `t[i]` gives `v`.
pub proof fn law_table_index_read_after_write(ar: Arith, st: VmState, h: usize, i: u64, v: SpecValue)
    requires
        h < st.tables.len(),
    ensures
        ({
            let s0 = push(push(push(st, SpecValue::Table(h)), SpecValue::Number(i)), v);
            let (s1, r1) = step(ar, s0, Instruction::IndexSet);
            let s2 = push(push(s1, SpecValue::Table(h)), SpecValue::Number(i));
            let (s3, r3) = step(ar, s2, Instruction::IndexGet);
            &&& r1 is Ok && r3 is Ok
            &&& s3.stack == st.stack.push(v)
        }),
{
    lemma_lookup_insert(st.tables[h as int], to_index(ar, i), v);
    let s0 = push(push(push(st, SpecValue::Table(h)), SpecValue::Number(i)), v);
    assert(s0.stack.drop_last().drop_last().drop_last() =~= st.stack);
    let (s1, r1) = step(ar, s0, Instruction::IndexSet);
    assert(s1.stack =~= st.stack);
    let s2 = push(push(s1, SpecValue::Table(h)), SpecValue::Number(i));
    assert(s2.stack.drop_last().drop_last() =~= st.stack);
}

/// A local that was stored is read back: `StoreLocal { slot }` of `v` puts
/// `v` at the slot's place in the stack, which grows to reach it if it must,
/// and a following `LoadLocal { slot }` pushes `v`.
pub proof fn law_local_read_after_write(ar: Arith, st: VmState, slot: usize, v: SpecValue)
    requires
        st.frames.len() > 0,
    ensures
        ({
            let k = st.frames.last().frame_start + slot;
            let (s1, r1) = step(ar, push(st, v), Instruction::StoreLocal { slot });
            let (s2, r2) = step(ar, s1, Instruction::LoadLocal { slot });
            &&& r1 is Ok && r2 is Ok
            &&& s1.stack[k] == v
            &&& s1.stack.len() == if st.stack.len() > k { st.stack.len() as int } else { k + 1 }
            &&& s2.stack == s1.stack.push(v)
        }),
{
    assert(push(st, v).stack.drop_last() =~= st.stack);
}

/// Reading a property of a value that is not a table is an error, and the
/// value is taken off the stack.
pub proof fn law_property_of_non_table(ar: Arith, st: VmState, name: InternedString, v: SpecValue)
    requires
        !(v is Table),
    ensures
        step(ar, push(st, v), Instruction::PropertyGet { name }) == (st, Err::<(), SpecVmError>(SpecVmError::PropertyOfNonTable(name))),
{
    assert(push(st, v).stack.drop_last() =~= st.stack);
}

/// A run stops at the first instruction that fails and returns its error:
/// no later instruction executes.
pub proof fn law_run_stops_at_first_error(ar: Arith, st: VmState, fuel: nat)
    requires
        fuel > 0,
        st.frames.len() > 0,
        st.frames.last().ip < st.frames.last().function.instructions.len(),
        ({
            let f = st.frames.last();
            let s1 = VmState {
                frames: st.frames.update(st.frames.len() - 1, SpecFrame { ip: (f.ip + 1) as usize, ..f }),
                ..st
            };
            let ins = f.function.instructions[f.ip as int];
            !step_panics(ar, s1, ins) && step(ar, s1, ins).1 is Err
        }),
    ensures
        ({
            let f = st.frames.last();
            let s1 = VmState {
                frames: st.frames.update(st.frames.len() - 1, SpecFrame { ip: (f.ip + 1) as usize, ..f }),
                ..st
            };
            let (s2, r) = step(ar, s1, f.function.instructions[f.ip as int]);
            run(ar, st, fuel) == RunOutcome::Finished(s2, r)
        }),
{
}

/// Interpolating a value into an f-string appends its text: with the text
/// so far below the value, `Stringify` then `Add` leave one string, the text
/// followed by the value's text.
pub proof fn law_interpolation_appends_text(ar: Arith, st: VmState, acc: Seq<char>, v: SpecValue)
    requires
        value_text(ar, v) is Some,
    ensures
        ({
            let (s1, r1) = step(ar, push(push(st, SpecValue::String(acc)), v), Instruction::Stringify);
            let (s2, r2) = step(ar, s1, Instruction::Add);
            &&& r1 is Ok && r2 is Ok
            &&& s2.stack == st.stack.push(SpecValue::String(acc + value_text(ar, v)->0))
        }),
{
    let s0 = push(push(st, SpecValue::String(acc)), v);
    assert(s0.stack.drop_last().drop_last() =~= st.stack);
    let (s1, r1) = step(ar, s0, Instruction::Stringify);
    assert(s1.stack.drop_last().drop_last() =~= st.stack);
}

/// A call binds its arguments to the parameters in order: with the
/// arguments pushed in source order and the function on top, `Call` enters
/// the function so that parameter `i` reads the `i`-th argument, for every
/// argument that has a parameter; a parameter past the arguments reads its
/// default, or `nil`.
pub proof fn law_call_binds_arguments_in_order(
    ar: Arith,
    st: VmState,
    name: usize,
    params: Seq<usize>,
    defaults: Seq<Option<SpecExpr>>,
    args: Seq<SpecValue>,
    i: int,
)
    requires
        name < st.functions.len(),
        args.len() <= usize::MAX,
        st.stack.len() <= usize::MAX,
        0 <= i < params.len(),
        i <= usize::MAX,
    ensures
        ({
            let f = SpecValue::Function { name, params, default_params: defaults };
            let s0 = push(VmState { stack: st.stack + args, ..st }, f);
            let (s1, r1) = step(ar, s0, Instruction::Call { arg_count: args.len() as usize });
            let (s2, r2) = step(ar, s1, Instruction::LoadLocal { slot: i as usize });
            &&& r1 is Ok && r2 is Ok
            &&& s2.stack.last() == if i < args.len() {
                args[i]
            } else if i < defaults.len() && defaults[i] is Some {
                default_value(defaults[i]->0)
            } else {
                SpecValue::Nil
            }
        }),
{
    let f = SpecValue::Function { name, params, default_params: defaults };
    let s0 = push(VmState { stack: st.stack + args, ..st }, f);
    let (c, s1) = pop(s0);
    assert(s1.stack =~= st.stack + args);
    let at = s1.stack.len() - args.len();
    assert(s1.stack.subrange(at, s1.stack.len() as int) =~= args);
    assert(s1.stack.take(at) =~= st.stack);
    let values = Seq::new(params.len(), |k: int| param_value(args, defaults, k));
    let e = enter(VmState { stack: s1.stack.take(at), ..s1 }, name, values);
    assert(step(ar, s0, Instruction::Call { arg_count: args.len() as usize }) == (e, Ok::<(), SpecVmError>(())));
    assert(e.frames.last().frame_start == st.stack.len());
    assert(e.stack[st.stack.len() + i] == values[i]);
    assert(values[i] == param_value(args, defaults, i));
}

/// The values a loop takes from iterator `it` after `k` of them.
pub open spec fn advance(ar: Arith, it: SpecIter, k: nat) -> Option<SpecIter>
    decreases k,
{
    if k == 0 {
        Some(it)
    } else {
        match advance(ar, it, (k - 1) as nat) {
            Some(i) => match iter_next(ar, i) {
                Some((_, n)) => Some(n),
                None => None,
            },
            None => None,
        }
    }
}

proof fn lemma_advance_array(ar: Arith, values: Seq<SpecValue>, k: nat)
    requires
        k <= values.len(),
        values.len() <= usize::MAX,
    ensures
        advance(ar, SpecIter::Array { values, index: 0 }, k) == Some(SpecIter::Array { values, index: k as usize }),
    decreases k,
{
    if k > 0 {
        lemma_advance_array(ar, values, (k - 1) as nat);
    }
}

/// A for-in loop over an array visits its elements in order: after
/// `ForInInit` on the array, the `k`-th value the loop's iterator gives is
/// element `k`, for each element, and after the last one it gives none.
pub proof fn law_for_in_visits_array_in_order(ar: Arith, st: VmState, h: usize, k: int)
    requires
        h < st.arrays.len(),
        st.arrays[h as int].len() <= usize::MAX,
        0 <= k <= st.arrays[h as int].len(),
    ensures
        ({
            let a = st.arrays[h as int];
            let (s1, r1) = step(ar, push(st, SpecValue::Array(h)), Instruction::ForInInit);
            let it = advance(ar, s1.iterators.last(), k as nat);
            &&& r1 is Ok
            &&& it is Some
            &&& if k < a.len() {
                iter_next(ar, it->0) matches Some((v, _)) && v == a[k]
            } else {
                iter_next(ar, it->0) is None
            }
        }),
{
    let a = st.arrays[h as int];
    assert(push(st, SpecValue::Array(h)).stack.drop_last() =~= st.stack);
    lemma_advance_array(ar, a, k as nat);
}

/// The state after the innermost call executes its next instruction.
pub open spec fn exec_next(ar: Arith, st: VmState) -> VmState {
    let f = st.frames.last();
    let s1 = VmState {
        frames: st.frames.update(st.frames.len() - 1, SpecFrame { ip: (f.ip + 1) as usize, ..f }),
        ..st
    };
    step(ar, s1, f.function.instructions[f.ip as int]).0
}

/// A call of an async function or a generator binds its arguments to the
/// parameters in order, as a call of a function does: parameter `i` reads
/// the `i`-th argument, and a parameter past the arguments reads `nil`.
pub proof fn law_call_binds_arguments_in_order_async_and_generator(
    ar: Arith,
    st: VmState,
    f: SpecValue,
    args: Seq<SpecValue>,
    i: int,
)
    requires
        f is AsyncFunction || f is Generator,
        f is AsyncFunction ==> f->AsyncFunction_name < st.functions.len() && 0 <= i < f->AsyncFunction_params.len(),
        f is Generator ==> f->Generator_name < st.functions.len() && 0 <= i < f->Generator_params.len(),
        args.len() <= usize::MAX,
        st.stack.len() <= usize::MAX,
        0 <= i <= usize::MAX,
    ensures
        ({
            let s0 = push(VmState { stack: st.stack + args, ..st }, f);
            let (s1, r1) = step(ar, s0, Instruction::Call { arg_count: args.len() as usize });
            let (s2, r2) = step(ar, s1, Instruction::LoadLocal { slot: i as usize });
            &&& r1 is Ok && r2 is Ok
            &&& s2.stack.last() == if i < args.len() {
                args[i]
            } else {
                SpecValue::Nil
            }
        }),
{
    let s0 = push(VmState { stack: st.stack + args, ..st }, f);
    let (c, s1) = pop(s0);
    assert(s1.stack =~= st.stack + args);
    let at = s1.stack.len() - args.len();
    assert(s1.stack.subrange(at, s1.stack.len() as int) =~= args);
    assert(s1.stack.take(at) =~= st.stack);
    let (name, n) = match f {
        SpecValue::AsyncFunction { name, params, .. } => (name, params.len()),
        SpecValue::Generator { name, params } => (name, params.len()),
        _ => (0usize, 0nat),
    };
    let values = Seq::new(n, |k: int| param_value(args, Seq::empty(), k));
    let e = enter(VmState { stack: s1.stack.take(at), ..s1 }, name, values);
    assert(step(ar, s0, Instruction::Call { arg_count: args.len() as usize }) == (e, Ok::<(), SpecVmError>(())));
    assert(e.frames.last().frame_start == st.stack.len());
    assert(e.stack[st.stack.len() + i] == values[i]);
    assert(values[i] == param_value(args, Seq::empty(), i));
}

proof fn lemma_advance_table(ar: Arith, values: Seq<SpecValue>, k: nat)
    requires
        k <= values.len(),
        values.len() <= usize::MAX,
    ensures
        advance(ar, SpecIter::Table { values, index: 0 }, k) == Some(SpecIter::Table { values, index: k as usize }),
    decreases k,
{
    if k > 0 {
        lemma_advance_table(ar, values, (k - 1) as nat);
    }
}

/// A for-in loop over a table visits its values in the order of its
/// entries: after `ForInInit` on the table, the `k`-th value the loop's
/// iterator gives is the value of entry `k`, and after the last none.
pub proof fn law_for_in_visits_table_in_order(ar: Arith, st: VmState, h: usize, k: int)
    requires
        h < st.tables.len(),
        st.tables[h as int].len() <= usize::MAX,
        0 <= k <= st.tables[h as int].len(),
    ensures
        ({
            let t = st.tables[h as int];
            let (s1, r1) = step(ar, push(st, SpecValue::Table(h)), Instruction::ForInInit);
            let it = advance(ar, s1.iterators.last(), k as nat);
            &&& r1 is Ok
            &&& it is Some
            &&& if k < t.len() {
                iter_next(ar, it->0) matches Some((v, _)) && v == t[k].1
            } else {
                iter_next(ar, it->0) is None
            }
        }),
{
    let t = st.tables[h as int];
    assert(push(st, SpecValue::Table(h)).stack.drop_last() =~= st.stack);
    lemma_advance_table(ar, entry_values(t), k as nat);
}

} // verus!

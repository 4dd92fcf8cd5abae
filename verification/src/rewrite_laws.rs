//! Laws tying the optimizer's rewrites to the machine: a folded or reduced
//! expression has the value that the machine computes for the expression it
//! replaces.
use vstd::prelude::*;
use crate::ast::{SpecExpr, TokenKind};
use crate::bytecode::Instruction;
use crate::compiler::{binary_instruction, unary_instruction};
use crate::machine::{empty_machine, push, step, VmState};
use crate::number::{is_one, is_two, is_zero, Arith, NumOp, ZERO_BITS};
use crate::optimizer::{fold_binary, fold_length, fold_numbers, fold_unary, strength_reduce, OptState};
use crate::value::SpecValue;

verus! {

/// What the machine's instruction `ins` leaves on the stack for operands
/// `l` and `r`, if it succeeds.
pub open spec fn machine_binary(ar: Arith, ins: Instruction, l: SpecValue, r: SpecValue) -> Option<SpecValue> {
    let s0 = push(push(empty_machine(), l), r);
    match step(ar, s0, ins) {
        (s1, Ok(())) => if s1.stack.len() > 0 {
            Some(s1.stack.last())
        } else {
            None
        },
        _ => None,
    }
}

/// What the machine's instruction `ins` leaves on the stack for operand
/// `v`, if it succeeds.
pub open spec fn machine_unary(ar: Arith, ins: Instruction, v: SpecValue) -> Option<SpecValue> {
    match step(ar, push(empty_machine(), v), ins) {
        (s1, Ok(())) => if s1.stack.len() > 0 {
            Some(s1.stack.last())
        } else {
            None
        },
        _ => None,
    }
}

/// The value of an expression made of literals, variables (given by `env`)
/// unary and binary operators and lengths, each operator computed as the machine's instruction
/// for it computes it; `None` where it has no value.
pub open spec fn eval(ar: Arith, env: Map<usize, SpecValue>, e: SpecExpr) -> Option<SpecValue>
    decreases e,
{
    match e {
        SpecExpr::Number(n) => Some(SpecValue::Number(n)),
        SpecExpr::String(s) => Some(SpecValue::String(s)),
        SpecExpr::LiteralTrue => Some(SpecValue::Bool(true)),
        SpecExpr::LiteralFalse => Some(SpecValue::Bool(false)),
        SpecExpr::LiteralNil => Some(SpecValue::Nil),
        SpecExpr::Identifier(x) => if env.contains_key(x.0) {
            Some(env[x.0])
        } else {
            None
        },
        SpecExpr::Binary { left, op, right, .. } => match (eval(ar, env, *left), eval(ar, env, *right), binary_instruction(op)) {
            (Some(a), Some(b), Some(ins)) => machine_binary(ar, ins, a, b),
            _ => None,
        },
        SpecExpr::Unary { op, expr, .. } => match (eval(ar, env, *expr), unary_instruction(op)) {
            (Some(v), Some(ins)) => machine_unary(ar, ins, v),
            _ => None,
        },
        SpecExpr::Length { expr, .. } => match eval(ar, env, *expr) {
            Some(v) => machine_unary(ar, Instruction::Length, v),
            None => None,
        },
        _ => None,
    }
}

/// Folding two number literals keeps the value: where `a op b` folds, the
/// literal it folds to has the value that the machine's instruction for
/// `op` computes on `a` and `b`.
pub proof fn law_folding_keeps_value(ar: Arith, env: Map<usize, SpecValue>, a: u64, op: TokenKind, b: u64, line: usize)
    requires
        fold_numbers(ar, a, op, b) is Some,
    ensures
        eval(ar, env, fold_numbers(ar, a, op, b)->0) == eval(
            ar,
            env,
            SpecExpr::Binary { left: Box::new(SpecExpr::Number(a)), op, right: Box::new(SpecExpr::Number(b)), line },
        ),
{
    let s0 = push(push(empty_machine(), SpecValue::Number(a)), SpecValue::Number(b));
    assert(s0.stack.drop_last() =~= seq![SpecValue::Number(a)]);
    assert(s0.stack.drop_last().drop_last() =~= Seq::<SpecValue>::empty());
    let e = SpecExpr::Binary { left: Box::new(SpecExpr::Number(a)), op, right: Box::new(SpecExpr::Number(b)), line };
    let ins = binary_instruction(op)->0;
    assert(eval(ar, env, SpecExpr::Number(a)) == Some(SpecValue::Number(a)));
    assert(eval(ar, env, SpecExpr::Number(b)) == Some(SpecValue::Number(b)));
    assert(binary_instruction(op) is Some);
    assert(eval(ar, env, e) == machine_binary(ar, ins, SpecValue::Number(a), SpecValue::Number(b)));
    let (s1, r) = step(ar, s0, ins);
    assert(r is Ok);
    assert(s1.stack.len() > 0);
}

/// The identities that strength reduction relies on, at operands `x` and
/// `y`: multiplying by 1 and 0, doubling as adding a number to itself,
/// adding or subtracting 0, dividing by 1.
pub open spec fn identities_hold(ar: Arith, x: u64, y: u64) -> bool {
    &&& is_one(y) ==> ar(NumOp::Mul, x, y) == x && ar(NumOp::Div, x, y) == x
    &&& is_one(x) ==> ar(NumOp::Mul, x, y) == y
    &&& is_two(y) ==> ar(NumOp::Mul, x, y) == ar(NumOp::Add, x, x)
    &&& is_two(x) ==> ar(NumOp::Mul, x, y) == ar(NumOp::Add, y, y)
    &&& is_zero(x) || is_zero(y) ==> ar(NumOp::Mul, x, y) == ZERO_BITS
    &&& is_zero(y) ==> ar(NumOp::Add, x, y) == x && ar(NumOp::Sub, x, y) == x
    &&& is_zero(x) ==> ar(NumOp::Add, x, y) == y
}

/// Strength reduction keeps the value: for numbers `x` and `y` as the
/// values of the operands, and an arithmetic with the identities it relies
/// on, the reduced expression has the value that the machine computes for
/// the original one.
pub proof fn law_strength_reduction_keeps_value(
    ar: Arith,
    env: Map<usize, SpecValue>,
    left: SpecExpr,
    op: TokenKind,
    right: SpecExpr,
    line: usize,
    x: u64,
    y: u64,
)
    requires
        eval(ar, env, left) == Some(SpecValue::Number(x)),
        eval(ar, env, right) == Some(SpecValue::Number(y)),
        identities_hold(ar, x, y),
        strength_reduce(left, op, right, line) is Some,
    ensures
        eval(ar, env, strength_reduce(left, op, right, line)->0) == eval(
            ar,
            env,
            SpecExpr::Binary { left: Box::new(left), op, right: Box::new(right), line },
        ),
{
    let s0 = push(push(empty_machine(), SpecValue::Number(x)), SpecValue::Number(y));
    assert(s0.stack.drop_last() =~= seq![SpecValue::Number(x)]);
    assert(s0.stack.drop_last().drop_last() =~= Seq::<SpecValue>::empty());
    let sx = push(push(empty_machine(), SpecValue::Number(x)), SpecValue::Number(x));
    assert(sx.stack.drop_last() =~= seq![SpecValue::Number(x)]);
    assert(sx.stack.drop_last().drop_last() =~= Seq::<SpecValue>::empty());
    let sy = push(push(empty_machine(), SpecValue::Number(y)), SpecValue::Number(y));
    assert(sy.stack.drop_last() =~= seq![SpecValue::Number(y)]);
    assert(sy.stack.drop_last().drop_last() =~= Seq::<SpecValue>::empty());
}


/// Folding a whole binary operation keeps the value, where the operands
/// are numbers and the arithmetic has the identities strength reduction
/// relies on: what `fold_binary` leaves has the value the machine computes
/// for the operation.
pub proof fn law_binary_folding_keeps_value(
    ar: Arith,
    env: Map<usize, SpecValue>,
    st: OptState,
    left: SpecExpr,
    op: TokenKind,
    right: SpecExpr,
    line: usize,
    x: u64,
    y: u64,
)
    requires
        eval(ar, env, left) == Some(SpecValue::Number(x)),
        eval(ar, env, right) == Some(SpecValue::Number(y)),
        identities_hold(ar, x, y),
    ensures
        eval(ar, env, fold_binary(ar, st, left, op, right, line).1) == eval(
            ar,
            env,
            SpecExpr::Binary { left: Box::new(left), op, right: Box::new(right), line },
        ),
{
    match (left, right) {
        (SpecExpr::Number(a), SpecExpr::Number(b)) => if fold_numbers(ar, a, op, b) is Some {
            law_folding_keeps_value(ar, env, a, op, b, line);
            return;
        },
        _ => {},
    }
    if strength_reduce(left, op, right, line) is Some {
        law_strength_reduction_keeps_value(ar, env, left, op, right, line, x, y);
    }
}

/// Joining two string literals keeps the value: the joined literal is what
/// the machine's `+` gives on the two strings.
pub proof fn law_string_folding_keeps_value(
    ar: Arith,
    env: Map<usize, SpecValue>,
    st: OptState,
    a: Seq<char>,
    b: Seq<char>,
    line: usize,
)
    ensures
        ({
            let (l, r) = (SpecExpr::String(a), SpecExpr::String(b));
            eval(ar, env, fold_binary(ar, st, l, TokenKind::Plus, r, line).1) == eval(
                ar,
                env,
                SpecExpr::Binary { left: Box::new(l), op: TokenKind::Plus, right: Box::new(r), line },
            )
        }),
{
    let s0 = push(push(empty_machine(), SpecValue::String(a)), SpecValue::String(b));
    assert(s0.stack.drop_last() =~= seq![SpecValue::String(a)]);
    assert(s0.stack.drop_last().drop_last() =~= Seq::<SpecValue>::empty());
    assert(eval(ar, env, SpecExpr::String(a)) == Some(SpecValue::String(a)));
    assert(eval(ar, env, SpecExpr::String(b)) == Some(SpecValue::String(b)));
}

/// Folding a negation or a `not` keeps the value: what `fold_unary` leaves
/// has the value the machine computes for the operation.
pub proof fn law_unary_folding_keeps_value(
    ar: Arith,
    env: Map<usize, SpecValue>,
    st: OptState,
    op: TokenKind,
    x: SpecExpr,
    line: usize,
)
    ensures
        eval(ar, env, fold_unary(ar, st, op, x, line).1) == eval(
            ar,
            env,
            SpecExpr::Unary { op, expr: Box::new(x), line },
        ),
{
    let v = eval(ar, env, x);
    if v is Some {
        let s0 = push(empty_machine(), v->0);
        assert(s0.stack.drop_last() =~= Seq::<SpecValue>::empty());
    }
}

/// Folding the length of a string literal keeps the value: the number is
/// what the machine's `Length` gives on the string.
pub proof fn law_string_length_folding_keeps_value(
    ar: Arith,
    env: Map<usize, SpecValue>,
    st: OptState,
    s: Seq<char>,
    line: usize,
)
    requires
        vstd::utf8::encode_utf8(s).len() <= usize::MAX,
    ensures
        eval(ar, env, fold_length(ar, st, SpecExpr::String(s), line).1) == eval(
            ar,
            env,
            SpecExpr::Length { expr: Box::new(SpecExpr::String(s)), line },
        ),
{
    let s0 = push(empty_machine(), SpecValue::String(s));
    assert(s0.stack.drop_last() =~= Seq::<SpecValue>::empty());
    assert(eval(ar, env, SpecExpr::String(s)) == Some(SpecValue::String(s)));
}

/// Folding the length of an array literal gives the number that the
/// machine's `Length` gives on an array of as many elements.
pub proof fn law_array_length_folding_keeps_value(
    ar: Arith,
    st: OptState,
    items: Seq<SpecExpr>,
    line: usize,
    m: VmState,
    h: usize,
)
    requires
        h < m.arrays.len(),
        m.arrays[h as int].len() == items.len(),
        items.len() <= usize::MAX,
    ensures
        ({
            let (m1, r) = step(ar, push(m, SpecValue::Array(h)), Instruction::Length);
            &&& r is Ok
            &&& m1.stack.last() == SpecValue::Number(
                fold_length(ar, st, SpecExpr::Array { items, line }, line).1->Number_0,
            )
            &&& fold_length(ar, st, SpecExpr::Array { items, line }, line).1 is Number
        }),
{
    assert(push(m, SpecValue::Array(h)).stack.drop_last() =~= m.stack);
}

} // verus!

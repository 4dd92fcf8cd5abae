//! The compiler from syntax trees to bytecode.
use vstd::prelude::*;
use indexmap::IndexMap;
use crate::ast::{
    expr_view, exprs_view, entries_view, opt_view, opt_box_view, params_view, parts_view,
    stmts_view, Expr, InternedString, Program, SpecExpr, SpecStmt, Stmt, TokenKind,
};
use crate::bytecode::{functions_view, BytecodeFunction, BytecodeProgram, Instruction, SpecFunction, SpecProgram};
use crate::interner::{intern_spec, StringInterner};
use crate::number::{apply, arith_of, arith_ok, Arith, NumOp, ZERO_BITS};
use crate::slots::{slot_map, slots_clone, slots_get, slots_insert, slots_new};
use crate::value::{copy_usizes, lemma_opts_view, opts_view, values_view, SpecValue, Value};

verus! {

/// The compiler's state as mathematics.
pub struct CompState {
    pub functions: Seq<SpecFunction>,
    pub constants: Seq<SpecValue>,
    pub strings: Seq<Seq<char>>,
    pub locals: Map<usize, usize>,
    pub slot_count: nat,
    pub max_slots: nat,
    /// For each enclosing loop, innermost last, the positions of the jumps
    /// that its `break` statements left to be patched.
    pub breaks: Seq<Seq<usize>>,
    /// The same for `continue` statements.
    pub continues: Seq<Seq<usize>>,
}

// ---------------------------------------------------------------------------
// Costs: a bound on the growth of slots and instructions that compiling a
// node causes, so that counters and offsets stay within `usize`.
// ---------------------------------------------------------------------------

pub open spec fn cexpr(e: SpecExpr) -> nat
    decreases e,
{
    16 + match e {
        SpecExpr::Binary { left, right, .. } => cexpr(*left) + cexpr(*right),
        SpecExpr::Unary { expr, .. } => cexpr(*expr),
        SpecExpr::NullCoalesce { left, right, .. } => cexpr(*left) + cexpr(*right),
        SpecExpr::Call { callee, arguments, .. } => cexpr(*callee) + (match *callee {
            SpecExpr::Get { object, .. } => cexpr(*object),
            _ => 0,
        }) + cexprs(arguments) + arguments.len(),
        SpecExpr::Table { entries, .. } => centries(entries),
        SpecExpr::Array { items, .. } => cexprs(items),
        SpecExpr::Index { object, index, .. } => cexpr(*object) + cexpr(*index),
        SpecExpr::SetIndex { object, index, value, .. } => cexpr(*object) + cexpr(*index) + cexpr(*value),
        SpecExpr::Get { object, .. } => cexpr(*object),
        SpecExpr::SetProperty { object, value, .. } => cexpr(*object) + cexpr(*value),
        SpecExpr::SafeGet { object, .. } => cexpr(*object),
        SpecExpr::Range { start, end, .. } => cexpr(*start) + cexpr(*end),
        SpecExpr::Length { expr, .. } => cexpr(*expr),
        SpecExpr::Throw { expr, .. } => cexpr(*expr),
        SpecExpr::FunctionLiteral { params, body, .. } => params.len() + cstmts(body),
        SpecExpr::Lambda { params, body, .. } => params.len() + 16 + cexpr(*body),
        SpecExpr::Spread { expr, .. } => cexpr(*expr),
        SpecExpr::Match { value, .. } => cexpr(*value),
        SpecExpr::Export { value, .. } => cexpr(*value),
        SpecExpr::Class { methods, .. } => centries(methods),
        SpecExpr::NewInstance { arguments, .. } => cexprs(arguments),
        SpecExpr::FString { parts, .. } => cparts(parts),
        SpecExpr::SetLiteral { items, .. } => cexprs(items),
        SpecExpr::AsyncFunctionLiteral { params, body, .. } => params.len() + cstmts(body),
        SpecExpr::GeneratorLiteral { params, body, .. } => params.len() + cstmts(body),
        SpecExpr::Await { future, .. } => cexpr(*future),
        SpecExpr::Yield { value, .. } => match value {
            Some(v) => cexpr(*v),
            None => 0,
        },
        _ => 0,
    }
}

pub open spec fn cexprs(s: Seq<SpecExpr>) -> nat
    decreases s,
{
    if s.len() == 0 {
        0
    } else {
        cexprs(s.drop_last()) + cexpr(s.last()) + 16
    }
}

pub open spec fn centries(s: Seq<(InternedString, SpecExpr)>) -> nat
    decreases s,
{
    if s.len() == 0 {
        0
    } else {
        centries(s.drop_last()) + cexpr(s.last().1) + 16
    }
}

pub open spec fn cparts(s: Seq<(Seq<char>, Option<SpecExpr>)>) -> nat
    decreases s,
{
    if s.len() == 0 {
        0
    } else {
        cparts(s.drop_last()) + match s.last().1 {
            Some(e) => cexpr(e),
            None => 0,
        } + 16
    }
}

pub open spec fn copt(o: Option<SpecExpr>) -> nat
    decreases o,
{
    match o {
        Some(e) => cexpr(e),
        None => 0,
    }
}

pub open spec fn copt_box(o: Option<Box<SpecExpr>>) -> nat
    decreases o,
{
    match o {
        Some(e) => cexpr(*e),
        None => 0,
    }
}

pub open spec fn cstmt(s: SpecStmt) -> nat
    decreases s,
{
    16 + match s {
        SpecStmt::Declaration { initializer, .. } => copt(initializer),
        SpecStmt::Assignment { value, .. } => cexpr(value),
        SpecStmt::Expression(e) => cexpr(e),
        SpecStmt::If { condition, then_branch, else_branch, .. } => cexpr(condition) + cstmts(then_branch) + (
        match else_branch {
            Some(b) => cstmts(b),
            None => 0,
        }),
        SpecStmt::While { condition, body, .. } => cexpr(condition) + cstmts(body),
        SpecStmt::For { initializer, condition, increment, body, .. } => copt_box(initializer) + cexpr(*condition)
            + copt_box(increment) + cstmts(body),
        SpecStmt::ForIn { iterable, body, .. } => cexpr(iterable) + cstmts(body),
        SpecStmt::Function { params, body, .. } => params.len() + cstmts(body),
        SpecStmt::AsyncFunction { params, body, .. } => params.len() + cstmts(body),
        SpecStmt::Generator { params, body, .. } => params.len() + cstmts(body),
        SpecStmt::Return(e) => copt(e),
        SpecStmt::ReturnMulti(v) => cexprs(v),
        SpecStmt::Block(v) => cstmts(v),
        SpecStmt::Destructure { names, initializer, .. } => cexpr(initializer) + 16 * names.len(),
        SpecStmt::Throw { value, .. } => cexpr(value),
        SpecStmt::Try { body, catch_body, .. } => cstmts(body) + cstmts(catch_body),
        SpecStmt::Class { methods, .. } => centries(methods),
        SpecStmt::Export { value, .. } => cexpr(value),
        SpecStmt::PropertySet { object, value, .. } => cexpr(*object) + cexpr(value),
        SpecStmt::NullCoalesceAssign { value, .. } => cexpr(value),
        _ => 0,
    }
}

pub open spec fn cstmts(s: Seq<SpecStmt>) -> nat
    decreases s,
{
    if s.len() == 0 {
        0
    } else {
        cstmts(s.drop_last()) + cstmt(s.last())
    }
}

// ---------------------------------------------------------------------------
// Small steps
// ---------------------------------------------------------------------------

pub open spec fn sat_sub(a: int, b: int) -> usize {
    if a >= b {
        (a - b) as usize
    } else {
        0
    }
}

/// Sets the offset of the jump at `idx`, if the instruction there is a `Jump`.
pub open spec fn set_jump(ins: Seq<Instruction>, idx: int, off: usize) -> Seq<Instruction> {
    match ins[idx] {
        Instruction::Jump { .. } => ins.update(idx, Instruction::Jump { offset: off }),
        _ => ins,
    }
}

pub open spec fn set_jump_if_false(ins: Seq<Instruction>, idx: int, off: usize) -> Seq<Instruction> {
    match ins[idx] {
        Instruction::JumpIfFalse { .. } => ins.update(idx, Instruction::JumpIfFalse { offset: off }),
        _ => ins,
    }
}

pub open spec fn set_jump_if_true(ins: Seq<Instruction>, idx: int, off: usize) -> Seq<Instruction> {
    match ins[idx] {
        Instruction::JumpIfTrue { .. } => ins.update(idx, Instruction::JumpIfTrue { offset: off }),
        _ => ins,
    }
}

pub open spec fn set_for_in_end(ins: Seq<Instruction>, idx: int, off: usize) -> Seq<Instruction> {
    match ins[idx] {
        Instruction::ForInNext { var_slot, .. } => ins.update(
            idx,
            Instruction::ForInNext { var_slot, end_offset: off },
        ),
        _ => ins,
    }
}

/// Points the pending jump at `idx` to `target`: a `Jump` forward, or, for
/// a target at or before it (a `continue` that goes back to its loop's
/// test), a `JumpBack`.
pub open spec fn point_jump(ins: Seq<Instruction>, idx: int, target: int) -> Seq<Instruction> {
    if target >= idx + 1 {
        set_jump(ins, idx, (target - (idx + 1)) as usize)
    } else {
        match ins[idx] {
            Instruction::Jump { .. } => ins.update(idx, Instruction::JumpBack { offset: (idx + 1 - target) as usize }),
            _ => ins,
        }
    }
}

/// Points every jump at the positions `idxs` to `target`, first to last.
pub open spec fn patch_all(ins: Seq<Instruction>, idxs: Seq<usize>, target: int) -> Seq<Instruction>
    decreases idxs.len(),
{
    if idxs.len() == 0 {
        ins
    } else {
        let p = patch_all(ins, idxs.drop_last(), target);
        point_jump(p, idxs.last() as int, target)
    }
}

/// Pops the innermost list of pending `break` jumps and points them to `target`.
pub open spec fn patch_breaks(st: CompState, ins: Seq<Instruction>, target: int) -> (CompState, Seq<Instruction>) {
    if st.breaks.len() == 0 {
        (st, ins)
    } else {
        (CompState { breaks: st.breaks.drop_last(), ..st }, patch_all(ins, st.breaks.last(), target))
    }
}

/// Pops the innermost list of pending `continue` jumps and points them to `target`.
pub open spec fn patch_continues(st: CompState, ins: Seq<Instruction>, target: int) -> (CompState, Seq<Instruction>) {
    if st.continues.len() == 0 {
        (st, ins)
    } else {
        (CompState { continues: st.continues.drop_last(), ..st }, patch_all(ins, st.continues.last(), target))
    }
}

pub open spec fn enter_loop(st: CompState) -> CompState {
    CompState { breaks: st.breaks.push(Seq::empty()), continues: st.continues.push(Seq::empty()), ..st }
}

pub open spec fn add_constant(st: CompState, v: SpecValue) -> (CompState, usize) {
    (CompState { constants: st.constants.push(v), ..st }, st.constants.len() as usize)
}

/// Takes the next slot, bound to no name.
pub open spec fn take_slot(st: CompState) -> (CompState, usize) {
    let count = st.slot_count + 1;
    (
        CompState {
            slot_count: count,
            max_slots: if count > st.max_slots {
                count
            } else {
                st.max_slots
            },
            ..st
        },
        st.slot_count as usize,
    )
}

/// Takes the next slot and binds `name` to it.
pub open spec fn bind_new_slot(st: CompState, name: usize) -> (CompState, usize) {
    let slot = st.slot_count;
    let count = st.slot_count + 1;
    (
        CompState {
            slot_count: count,
            max_slots: if count > st.max_slots {
                count
            } else {
                st.max_slots
            },
            locals: st.locals.insert(name, slot as usize),
            ..st
        },
        slot as usize,
    )
}

pub open spec fn binary_instruction(op: TokenKind) -> Option<Instruction> {
    match op {
        TokenKind::Plus => Some(Instruction::Add),
        TokenKind::Minus => Some(Instruction::Subtract),
        TokenKind::Star => Some(Instruction::Multiply),
        TokenKind::Slash => Some(Instruction::Divide),
        TokenKind::Percent => Some(Instruction::Modulo),
        TokenKind::EqualEqual => Some(Instruction::Equal),
        TokenKind::NotEqual => Some(Instruction::NotEqual),
        TokenKind::Less => Some(Instruction::Less),
        TokenKind::Greater => Some(Instruction::Greater),
        TokenKind::LessEqual => Some(Instruction::LessEqual),
        TokenKind::GreaterEqual => Some(Instruction::GreaterEqual),
        TokenKind::And => Some(Instruction::And),
        TokenKind::Or => Some(Instruction::Or),
        _ => None,
    }
}

pub open spec fn unary_instruction(op: TokenKind) -> Option<Instruction> {
    match op {
        TokenKind::Minus => Some(Instruction::Negate),
        TokenKind::Not => Some(Instruction::Not),
        _ => None,
    }
}

pub open spec fn push_opt(ins: Seq<Instruction>, i: Option<Instruction>) -> Seq<Instruction> {
    match i {
        Some(x) => ins.push(x),
        None => ins,
    }
}

pub open spec fn param_ids(params: Seq<(InternedString, Option<SpecExpr>)>) -> Seq<usize> {
    Seq::new(params.len(), |i: int| params[i].0.0)
}

pub open spec fn param_defaults(params: Seq<(InternedString, Option<SpecExpr>)>) -> Seq<Option<SpecExpr>> {
    Seq::new(params.len(), |i: int| params[i].1)
}

/// The literal text of an interpolated string: its parts without the
/// interpolated expressions.
/// The locals of a fresh function: each parameter bound to its position,
/// a later parameter of the same name replacing an earlier one.
pub open spec fn param_locals(params: Seq<usize>) -> Map<usize, usize>
    decreases params.len(),
{
    if params.len() == 0 {
        Map::empty()
    } else {
        param_locals(params.drop_last()).insert(params.last(), (params.len() - 1) as usize)
    }
}

// ---------------------------------------------------------------------------
// Compilation
// ---------------------------------------------------------------------------

/// Compiling a function: the compiler's state after it, and the function.
/// Only the functions and strings collected on the way remain in the state.
pub open spec fn comp_function(ar: Arith, st: CompState, name: usize, params: Seq<usize>, body: Seq<SpecStmt>) -> (
    CompState,
    SpecFunction,
)
    decreases body, 1nat,
{
    let fresh = CompState {
        locals: param_locals(params),
        slot_count: params.len(),
        max_slots: 0,
        constants: Seq::empty(),
        breaks: Seq::empty(),
        continues: Seq::empty(),
        ..st
    };
    let (s1, ins) = comp_stmts(ar, fresh, Seq::empty(), body);
    let f = SpecFunction {
        name,
        params,
        arity: params.len() as usize,
        instructions: ins.push(Instruction::ReturnNil),
        constants: s1.constants,
        max_slots: s1.max_slots as usize,
    };
    (
        CompState {
            locals: st.locals,
            slot_count: st.slot_count,
            max_slots: st.max_slots,
            constants: st.constants,
            breaks: st.breaks,
            continues: st.continues,
            ..s1
        },
        f,
    )
}

/// Compiling a function whose body is `return body`.
pub open spec fn comp_function_returning(ar: Arith, st: CompState, name: usize, params: Seq<usize>, body: SpecExpr) -> (
    CompState,
    SpecFunction,
)
    decreases body, 1nat,
{
    let fresh = CompState {
        locals: param_locals(params),
        slot_count: params.len(),
        max_slots: 0,
        constants: Seq::empty(),
        breaks: Seq::empty(),
        continues: Seq::empty(),
        ..st
    };
    let (s1, ins) = comp_expr(ar, fresh, Seq::empty(), body);
    let f = SpecFunction {
        name,
        params,
        arity: params.len() as usize,
        instructions: ins.push(Instruction::Return).push(Instruction::ReturnNil),
        constants: s1.constants,
        max_slots: s1.max_slots as usize,
    };
    (
        CompState {
            locals: st.locals,
            slot_count: st.slot_count,
            max_slots: st.max_slots,
            constants: st.constants,
            breaks: st.breaks,
            continues: st.continues,
            ..s1
        },
        f,
    )
}

/// A function whose body is `return body` compiles as that one statement.
pub proof fn law_lambda_compiles_as_return(ar: Arith, st: CompState, name: usize, params: Seq<usize>, body: SpecExpr)
    ensures
        comp_function_returning(ar, st, name, params, body) == comp_function(
            ar,
            st,
            name,
            params,
            seq![SpecStmt::Return(Some(body))],
        ),
{
    let s = seq![SpecStmt::Return(Some(body))];
    assert(s.drop_last() =~= Seq::<SpecStmt>::empty());
    assert(s.last() == SpecStmt::Return(Some(body)));
}

/// Registers a compiled function, adds `v(index)` to the constants and loads it.
pub open spec fn emit_function_value(st: CompState, ins: Seq<Instruction>, f: SpecFunction, v: SpecValue) -> (
    CompState,
    Seq<Instruction>,
) {
    let s1 = CompState { functions: st.functions.push(f), ..st };
    let (s2, ci) = add_constant(s1, v);
    (s2, ins.push(Instruction::LoadConstant { index: ci }))
}

pub open spec fn comp_expr(ar: Arith, st: CompState, ins: Seq<Instruction>, e: SpecExpr) -> (CompState, Seq<Instruction>)
    decreases e, 0nat,
{
    match e {
        SpecExpr::Number(n) => {
            let (s1, i) = add_constant(st, SpecValue::Number(n));
            (s1, ins.push(Instruction::LoadConstant { index: i }))
        },
        SpecExpr::String(s) => {
            let (s1, i) = add_constant(st, SpecValue::String(s));
            (s1, ins.push(Instruction::LoadConstant { index: i }))
        },
        SpecExpr::LiteralTrue => (st, ins.push(Instruction::LoadTrue)),
        SpecExpr::LiteralFalse => (st, ins.push(Instruction::LoadFalse)),
        SpecExpr::LiteralNil => (st, ins.push(Instruction::LoadNil)),
        SpecExpr::Identifier(name) => if st.locals.contains_key(name.0) {
            (st, ins.push(Instruction::LoadLocal { slot: st.locals[name.0] }))
        } else {
            (st, ins.push(Instruction::LoadGlobal { name }))
        },
        SpecExpr::Binary { left, op, right, .. } => {
            let (s1, i1) = comp_expr(ar, st, ins, *left);
            let (s2, i2) = comp_expr(ar, s1, i1, *right);
            (s2, push_opt(i2, binary_instruction(op)))
        },
        SpecExpr::Unary { op, expr, .. } => {
            let (s1, i1) = comp_expr(ar, st, ins, *expr);
            (s1, push_opt(i1, unary_instruction(op)))
        },
        SpecExpr::Call { callee, arguments, .. } => match *callee {
            SpecExpr::Get { object, .. } => {
                let (s1, i1) = comp_expr(ar, st, ins, *object);
                let (s2, i2) = comp_exprs(ar, s1, i1.push(Instruction::This), arguments);
                let (s3, i3) = comp_expr(ar, s2, i2, *callee);
                (s3, i3.push(Instruction::Call { arg_count: (arguments.len() + 1) as usize }))
            },
            _ => {
                let (s1, i1) = comp_exprs(ar, st, ins, arguments);
                let (s2, i2) = comp_expr(ar, s1, i1, *callee);
                (s2, i2.push(Instruction::Call { arg_count: arguments.len() as usize }))
            },
        },
        SpecExpr::Table { entries, .. } => comp_table_entries(ar, st, ins.push(Instruction::NewTable), entries),
        SpecExpr::Array { items, .. } => comp_pushed_items(
            ar,
            st,
            ins.push(Instruction::NewArray { capacity: items.len() as usize }),
            items,
        ),
        SpecExpr::Index { object, index, .. } => {
            let (s1, i1) = comp_expr(ar, st, ins, *object);
            let (s2, i2) = comp_expr(ar, s1, i1, *index);
            (s2, i2.push(Instruction::IndexGet))
        },
        SpecExpr::SetIndex { object, index, value, .. } => {
            let (s1, i1) = comp_expr(ar, st, ins, *object);
            let (s2, i2) = comp_expr(ar, s1, i1, *index);
            let (s3, i3) = comp_expr(ar, s2, i2, *value);
            (s3, i3.push(Instruction::IndexSet))
        },
        SpecExpr::Get { object, name, .. } => {
            let (s1, i1) = comp_expr(ar, st, ins, *object);
            (s1, i1.push(Instruction::PropertyGet { name }))
        },
        SpecExpr::SetProperty { object, name, value, .. } => {
            let (s1, i1) = comp_expr(ar, st, ins, *object);
            let (s2, i2) = comp_expr(ar, s1, i1, *value);
            (s2, i2.push(Instruction::PropertySet { name }))
        },
        SpecExpr::SafeGet { object, name, .. } => {
            // `object?.name` reads the property of `object ?? {}`: nil where
            // the object is nil.
            let (s1, i1) = comp_expr(ar, st, ins, *object);
            (
                s1,
                i1.push(Instruction::NewTable).push(Instruction::NullCoalesce).push(Instruction::PropertyGet { name }),
            )
        },
        SpecExpr::Range { start, end, .. } => {
            let (s1, i1) = comp_expr(ar, st, ins, *start);
            let (s2, i2) = comp_expr(ar, s1, i1, *end);
            (s2, i2.push(Instruction::NewRange))
        },
        SpecExpr::Length { expr, .. } => {
            let (s1, i1) = comp_expr(ar, st, ins, *expr);
            (s1, i1.push(Instruction::Length))
        },
        SpecExpr::Throw { expr, .. } => comp_expr(ar, st, ins, *expr),
        SpecExpr::FunctionLiteral { params, body, .. } => {
            let ids = param_ids(params);
            let (s1, f) = comp_function(ar, st, 0, ids, body);
            emit_function_value(
                s1,
                ins,
                f,
                SpecValue::Function {
                    name: s1.functions.len() as usize,
                    params: ids,
                    default_params: param_defaults(params),
                },
            )
        },
        SpecExpr::Lambda { params, body, .. } => {
            let ids = param_ids(params);
            let (s1, f) = comp_function_returning(ar, st, 0, ids, *body);
            emit_function_value(
                s1,
                ins,
                f,
                SpecValue::Function { name: s1.functions.len() as usize, params: ids, default_params: Seq::empty() },
            )
        },
        SpecExpr::Spread { expr, .. } => {
            let (s1, i1) = comp_expr(ar, st, ins, *expr);
            (s1, i1.push(Instruction::Spread))
        },
        SpecExpr::NullCoalesce { left, right, .. } => {
            let (s1, i1) = comp_expr(ar, st, ins, *left);
            let (s2, i2) = comp_expr(ar, s1, i1, *right);
            (s2, i2.push(Instruction::NullCoalesce))
        },
        SpecExpr::Match { value, arms, .. } => {
            let (s1, i1) = comp_expr(ar, st, ins, *value);
            (s1, i1.push(Instruction::Match { arm_count: arms.len() as usize }))
        },
        SpecExpr::Require { path, .. } => {
            let (strings, id) = intern_spec(st.strings, path);
            (
                CompState { strings, ..st },
                ins.push(Instruction::Require { path: InternedString(id as usize) }),
            )
        },
        SpecExpr::Export { name, value, .. } => {
            let (s1, i1) = comp_expr(ar, st, ins, *value);
            (s1, i1.push(Instruction::Export { name }))
        },
        SpecExpr::Class { name, methods, .. } => {
            let (s1, i1) = comp_methods(ar, st, ins, methods);
            (s1, i1.push(Instruction::Class { name, method_count: methods.len() as usize }))
        },
        SpecExpr::NewInstance { class_name, arguments, .. } => {
            let (s1, i1) = comp_exprs(ar, st, ins, arguments);
            (s1, i1.push(Instruction::NewInstance { class_name, arg_count: arguments.len() as usize }))
        },
        SpecExpr::FString { parts, .. } => {
            let (s1, ci) = add_constant(st, SpecValue::String(Seq::empty()));
            comp_parts(ar, s1, ins.push(Instruction::LoadConstant { index: ci }), parts)
        },
        SpecExpr::This { .. } => (st, ins.push(Instruction::This)),
        SpecExpr::Super { method, .. } => (st, ins.push(Instruction::Super { method })),
        SpecExpr::SetLiteral { items, .. } => {
            let (s1, i1) = comp_pushed_items(ar, st, ins.push(Instruction::NewTable), items);
            (s1, i1.push(Instruction::MakeSet))
        },
        SpecExpr::AsyncFunctionLiteral { params, body, .. } => {
            let ids = param_ids(params);
            let (s1, f) = comp_function(ar, st, 0, ids, body);
            emit_function_value(
                s1,
                ins,
                f,
                SpecValue::AsyncFunction {
                    name: s1.functions.len() as usize,
                    params: ids,
                    default_params: param_defaults(params),
                },
            )
        },
        SpecExpr::GeneratorLiteral { params, body, .. } => {
            let ids = param_ids(params);
            let (s1, f) = comp_function(ar, st, 0, ids, body);
            emit_function_value(s1, ins, f, SpecValue::Generator { name: s1.functions.len() as usize, params: ids })
        },
        SpecExpr::Await { future, .. } => comp_expr(ar, st, ins, *future),
        SpecExpr::Yield { value, .. } => match value {
            Some(v) => {
                let (s1, i1) = comp_expr(ar, st, ins, *v);
                (s1, i1.push(Instruction::Return))
            },
            None => (st, ins.push(Instruction::LoadNil).push(Instruction::Return)),
        },
    }
}

/// Compiles expressions from first to last.
pub open spec fn comp_exprs(ar: Arith, st: CompState, ins: Seq<Instruction>, s: Seq<SpecExpr>) -> (
    CompState,
    Seq<Instruction>,
)
    decreases s, 0nat,
{
    if s.len() == 0 {
        (st, ins)
    } else {
        let (s1, i1) = comp_exprs(ar, st, ins, s.drop_last());
        comp_expr(ar, s1, i1, s.last())
    }
}

/// Compiles expressions from first to last, each followed by `ArrayPush`.
pub open spec fn comp_pushed_items(ar: Arith, st: CompState, ins: Seq<Instruction>, s: Seq<SpecExpr>) -> (
    CompState,
    Seq<Instruction>,
)
    decreases s, 0nat,
{
    if s.len() == 0 {
        (st, ins)
    } else {
        let (s1, i1) = comp_pushed_items(ar, st, ins, s.drop_last());
        let (s2, i2) = comp_expr(ar, s1, i1, s.last());
        (s2, i2.push(Instruction::ArrayPush))
    }
}

/// Compiles table entries from first to last, each value followed by `TableSet`.
pub open spec fn comp_table_entries(
    ar: Arith,
    st: CompState,
    ins: Seq<Instruction>,
    s: Seq<(InternedString, SpecExpr)>,
) -> (CompState, Seq<Instruction>)
    decreases s, 0nat,
{
    if s.len() == 0 {
        (st, ins)
    } else {
        let (s1, i1) = comp_table_entries(ar, st, ins, s.drop_last());
        let (s2, i2) = comp_expr(ar, s1, i1, s.last().1);
        (s2, i2.push(Instruction::TableSet { key: s.last().0 }))
    }
}

/// Compiles class methods from first to last: the method's number as a
/// constant, then the method.
pub open spec fn comp_methods(
    ar: Arith,
    st: CompState,
    ins: Seq<Instruction>,
    s: Seq<(InternedString, SpecExpr)>,
) -> (CompState, Seq<Instruction>)
    decreases s, 0nat,
{
    if s.len() == 0 {
        (st, ins)
    } else {
        let (s1, i1) = comp_methods(ar, st, ins, s.drop_last());
        let (s2, ci) = add_constant(s1, SpecValue::Number(ar(NumOp::FromUsize, s.last().0.0 as u64, ZERO_BITS)));
        comp_expr(ar, s2, i1.push(Instruction::LoadConstant { index: ci }), s.last().1)
    }
}

/// Compiles the interpolated expressions of a string, first to last.
/// The parts of an f-string, appended by `+` to the string below them on
/// the stack: the text of each part, then the value it interpolates,
/// written as text.
pub open spec fn comp_parts(ar: Arith, st: CompState, ins: Seq<Instruction>, s: Seq<(Seq<char>, Option<SpecExpr>)>) -> (
    CompState,
    Seq<Instruction>,
)
    decreases s, 0nat,
{
    if s.len() == 0 {
        (st, ins)
    } else {
        let (s1, i1) = comp_parts(ar, st, ins, s.drop_last());
        let (s2, ci) = add_constant(s1, SpecValue::String(s.last().0));
        let i2 = i1.push(Instruction::LoadConstant { index: ci }).push(Instruction::Add);
        match s.last().1 {
            Some(e) => {
                let (s3, i3) = comp_expr(ar, s2, i2, e);
                (s3, i3.push(Instruction::Stringify).push(Instruction::Add))
            },
            None => (s2, i2),
        }
    }
}

/// The code that stores each element of the destructured array, from the
/// first name to the last.
/// Binds each of `names` to the element at its position of the array held
/// in slot `src`.
pub open spec fn comp_destructure(
    ar: Arith,
    st: CompState,
    ins: Seq<Instruction>,
    names: Seq<InternedString>,
    src: usize,
) -> (CompState, Seq<Instruction>)
    decreases names.len(),
{
    if names.len() == 0 {
        (st, ins)
    } else {
        let (s1, i1) = comp_destructure(ar, st, ins, names.drop_last(), src);
        let (s2, slot) = bind_new_slot(s1, names.last().0);
        let (s3, ci) = add_constant(
            s2,
            SpecValue::Number(ar(NumOp::FromUsize, (names.len() - 1) as u64, ZERO_BITS)),
        );
        (
            s3,
            i1.push(Instruction::LoadLocal { slot: src }).push(Instruction::LoadConstant { index: ci }).push(
                Instruction::IndexGet,
            ).push(Instruction::StoreLocal { slot }),
        )
    }
}

/// Declares a compiled function: registers it, loads its value and stores it
/// in a new slot bound to `name`.
pub open spec fn declare_function(st: CompState, ins: Seq<Instruction>, f: SpecFunction, v: SpecValue, name: usize, line: usize) -> (
    CompState,
    Seq<Instruction>,
) {
    let (s1, i1) = emit_function_value(st, ins, f, v);
    let (s2, slot) = bind_new_slot(s1, name);
    (s2, i1.push(Instruction::StoreLocal { slot }).push(Instruction::Line { line_num: line }))
}

pub open spec fn comp_stmt(ar: Arith, st: CompState, ins: Seq<Instruction>, s: SpecStmt) -> (CompState, Seq<Instruction>)
    decreases s, 0nat,
{
    match s {
        SpecStmt::Declaration { name, initializer, line, .. } => {
            let (s1, i1) = match initializer {
                Some(e) => comp_expr(ar, st, ins, e),
                None => (st, ins.push(Instruction::LoadNil)),
            };
            let (s2, slot) = bind_new_slot(s1, name.0);
            (s2, i1.push(Instruction::StoreLocal { slot }).push(Instruction::Line { line_num: line }))
        },
        SpecStmt::Assignment { name, value, line, .. } => {
            let (s1, i1) = comp_expr(ar, st, ins, value);
            let store = if s1.locals.contains_key(name.0) {
                Instruction::StoreLocal { slot: s1.locals[name.0] }
            } else {
                Instruction::StoreGlobal { name }
            };
            (s1, i1.push(store).push(Instruction::Line { line_num: line }))
        },
        SpecStmt::Expression(e) => {
            comp_expr(ar, st, ins, e)
        },
        SpecStmt::If { condition, then_branch, else_branch, line } => {
            let (s1, i1) = comp_expr(ar, st, ins, condition);
            let else_jump = i1.len();
            let (s2, i3) = comp_stmts(ar, s1, i1.push(Instruction::JumpIfFalse { offset: 0 }), then_branch);
            match else_branch {
                Some(es) => {
                    let end_jump = i3.len();
                    let i4 = i3.push(Instruction::Jump { offset: 0 });
                    let i5 = set_jump_if_false(i4, else_jump as int, sat_sub(i4.len() as int, (else_jump + 1) as int));
                    let (s3, i6) = comp_stmts(ar, s2, i5, es);
                    let i7 = set_jump(i6, end_jump as int, sat_sub(i6.len() as int, (end_jump + 1) as int));
                    (s3, i7.push(Instruction::Line { line_num: line }))
                },
                None => {
                    let i4 = set_jump_if_false(i3, else_jump as int, sat_sub(i3.len() as int, (else_jump + 1) as int));
                    (s2, i4.push(Instruction::Line { line_num: line }))
                },
            }
        },
        SpecStmt::While { condition, body, line } => {
            let s0 = enter_loop(st);
            let loop_start = ins.len();
            let (s1, i1) = comp_expr(ar, s0, ins, condition);
            let exit_jump = i1.len();
            let (s2, i3) = comp_stmts(ar, s1, i1.push(Instruction::JumpIfFalse { offset: 0 }), body);
            let i4 = i3.push(Instruction::JumpBack { offset: (i3.len() - loop_start + 1) as usize });
            let loop_end = i4.len();
            let i5 = set_jump_if_false(i4, exit_jump as int, sat_sub(loop_end as int, (exit_jump + 1) as int));
            let (s3, i6) = patch_breaks(s2, i5, loop_end as int);
            let (s4, i7) = patch_continues(s3, i6, loop_start as int);
            (s4, i7.push(Instruction::Line { line_num: line }))
        },
        SpecStmt::For { initializer, condition, increment, body, line } => {
            let s0 = enter_loop(st);
            let (s1, i1) = match initializer {
                Some(e) => comp_expr(ar, s0, ins, *e),
                None => (s0, ins),
            };
            let loop_start = i1.len();
            let (s2, i2) = comp_expr(ar, s1, i1, *condition);
            let exit_jump = i2.len();
            let (s3, i4) = comp_stmts(ar, s2, i2.push(Instruction::JumpIfFalse { offset: 0 }), body);
            let continue_target = i4.len();
            let (s4, i5) = match increment {
                Some(e) => comp_expr(ar, s3, i4, *e),
                None => (s3, i4),
            };
            let i6 = i5.push(Instruction::JumpBack { offset: (i5.len() - loop_start + 1) as usize });
            let loop_end = i6.len();
            let i7 = set_jump_if_false(i6, exit_jump as int, sat_sub(loop_end as int, (exit_jump + 1) as int));
            let (s5, i8) = patch_breaks(s4, i7, loop_end as int);
            let (s6, i9) = patch_continues(s5, i8, continue_target as int);
            (s6, i9.push(Instruction::Line { line_num: line }))
        },
        SpecStmt::ForIn { variable, iterable, body, line } => {
            let s0 = enter_loop(st);
            let (s1, i1) = comp_expr(ar, s0, ins, iterable);
            let i2 = i1.push(Instruction::ForInInit);
            let (s2, var_slot) = bind_new_slot(s1, variable.0);
            let loop_start = i2.len();
            let (s3, i4) = comp_stmts(ar, s2, i2.push(Instruction::ForInNext { var_slot, end_offset: 0 }), body);
            let i5 = i4.push(Instruction::JumpBack { offset: (i4.len() - loop_start + 1) as usize });
            let loop_end = i5.len();
            let i6 = set_for_in_end(i5, loop_start as int, sat_sub(loop_end as int, (loop_start + 1) as int));
            let (s4, i7) = patch_breaks(s3, i6, loop_end as int);
            let (s5, i8) = patch_continues(s4, i7, loop_start as int);
            (s5, i8.push(Instruction::Line { line_num: line }))
        },
        SpecStmt::Function { name, params, body, line } => {
            let ids = param_ids(params);
            let (s1, f) = comp_function(ar, st, name.0, ids, body);
            declare_function(
                s1,
                ins,
                f,
                SpecValue::Function {
                    name: s1.functions.len() as usize,
                    params: ids,
                    default_params: param_defaults(params),
                },
                name.0,
                line,
            )
        },
        SpecStmt::AsyncFunction { name, params, body, line } => {
            let ids = param_ids(params);
            let (s1, f) = comp_function(ar, st, name.0, ids, body);
            declare_function(
                s1,
                ins,
                f,
                SpecValue::AsyncFunction {
                    name: s1.functions.len() as usize,
                    params: ids,
                    default_params: param_defaults(params),
                },
                name.0,
                line,
            )
        },
        SpecStmt::Generator { name, params, body, line } => {
            let ids = param_ids(params);
            let (s1, f) = comp_function(ar, st, name.0, ids, body);
            declare_function(
                s1,
                ins,
                f,
                SpecValue::Generator { name: s1.functions.len() as usize, params: ids },
                name.0,
                line,
            )
        },
        SpecStmt::Return(e) => match e {
            Some(x) => {
                let (s1, i1) = comp_expr(ar, st, ins, x);
                (s1, i1.push(Instruction::Return))
            },
            None => (st, ins.push(Instruction::ReturnNil)),
        },
        SpecStmt::ReturnMulti(values) => {
            let (s1, i1) = comp_pushed_items(
                ar,
                st,
                ins.push(Instruction::NewArray { capacity: values.len() as usize }),
                values,
            );
            (s1, i1.push(Instruction::Return))
        },
        SpecStmt::Block(stmts) => comp_stmts(ar, st, ins, stmts),
        SpecStmt::Destructure { names, initializer, line } => {
            let (s1, i1) = comp_expr(ar, st, ins, initializer);
            let (s2, tmp) = take_slot(s1);
            let (s3, i3) = comp_destructure(ar, s2, i1.push(Instruction::StoreLocal { slot: tmp }), names, tmp);
            (s3, i3.push(Instruction::Line { line_num: line }))
        },
        SpecStmt::Import { path, alias, line } => {
            let (strings, id) = intern_spec(st.strings, path);
            let s1 = CompState { strings, ..st };
            let i1 = ins.push(Instruction::LoadGlobal { name: InternedString(id as usize) });
            match alias {
                Some(a) => {
                    let (s2, slot) = bind_new_slot(s1, a.0);
                    (s2, i1.push(Instruction::StoreLocal { slot }).push(Instruction::Line { line_num: line }))
                },
                None => (s1, i1.push(Instruction::Line { line_num: line })),
            }
        },
        SpecStmt::Throw { value, line } => {
            let (s1, i1) = comp_expr(ar, st, ins, value);
            (s1, i1.push(Instruction::Line { line_num: line }))
        },
        SpecStmt::Try { body, catch_body, line, .. } => {
            let (s1, i1) = comp_stmts(ar, st, ins, body);
            let end_jump = i1.len();
            let i2 = i1.push(Instruction::Jump { offset: 0 });
            let i3 = set_jump(i2, end_jump as int, sat_sub(i2.len() as int, (end_jump + 1) as int));
            let (s2, i4) = comp_stmts(ar, s1, i3, catch_body);
            (s2, i4.push(Instruction::Line { line_num: line }))
        },
        SpecStmt::Break => {
            let idx = ins.len() as usize;
            (
                if st.breaks.len() == 0 {
                    st
                } else {
                    CompState { breaks: st.breaks.drop_last().push(st.breaks.last().push(idx)), ..st }
                },
                ins.push(Instruction::Jump { offset: 0 }),
            )
        },
        SpecStmt::Continue => {
            let idx = ins.len() as usize;
            (
                if st.continues.len() == 0 {
                    st
                } else {
                    CompState { continues: st.continues.drop_last().push(st.continues.last().push(idx)), ..st }
                },
                ins.push(Instruction::Jump { offset: 0 }),
            )
        },
        SpecStmt::Class { name, methods, line, .. } => {
            let (s1, i1) = comp_methods(ar, st, ins, methods);
            let i2 = i1.push(Instruction::Class { name, method_count: methods.len() as usize });
            let (s2, slot) = bind_new_slot(s1, name.0);
            (s2, i2.push(Instruction::StoreLocal { slot }).push(Instruction::Line { line_num: line }))
        },
        SpecStmt::Export { name, value, line } => {
            let (s1, i1) = comp_expr(ar, st, ins, value);
            let i2 = i1.push(Instruction::Export { name });
            let (s2, slot) = bind_new_slot(s1, name.0);
            (s2, i2.push(Instruction::StoreLocal { slot }).push(Instruction::Line { line_num: line }))
        },
        SpecStmt::PropertySet { object, name, value, line } => {
            let (s1, i1) = comp_expr(ar, st, ins, *object);
            let (s2, i2) = comp_expr(ar, s1, i1, value);
            (s2, i2.push(Instruction::PropertySet { name }).push(Instruction::Line { line_num: line }))
        },
        SpecStmt::NullCoalesceAssign { name, value, line } => {
            if st.locals.contains_key(name.0) {
                let slot = st.locals[name.0];
                let i1 = ins.push(Instruction::LoadLocal { slot }).push(Instruction::LoadNil).push(
                    Instruction::NotEqual,
                );
                let skip = i1.len();
                let (s1, i2) = comp_expr(ar, st, i1.push(Instruction::JumpIfTrue { offset: 0 }), value);
                let i3 = i2.push(Instruction::StoreLocal { slot });
                let i4 = set_jump_if_true(i3, skip as int, sat_sub(i3.len() as int, (skip + 1) as int));
                (s1, i4.push(Instruction::Line { line_num: line }))
            } else {
                (st, ins.push(Instruction::Line { line_num: line }))
            }
        },
    }
}

/// Compiles statements from first to last.
pub open spec fn comp_stmts(ar: Arith, st: CompState, ins: Seq<Instruction>, s: Seq<SpecStmt>) -> (
    CompState,
    Seq<Instruction>,
)
    decreases s, 0nat,
{
    if s.len() == 0 {
        (st, ins)
    } else {
        let (s1, i1) = comp_stmts(ar, st, ins, s.drop_last());
        comp_stmt(ar, s1, i1, s.last())
    }
}

/// The state of a compiler that has compiled nothing.
pub open spec fn initial_state() -> CompState {
    CompState {
        functions: Seq::empty(),
        constants: Seq::empty(),
        strings: Seq::empty(),
        locals: Map::empty(),
        slot_count: 0,
        max_slots: 0,
        breaks: Seq::empty(),
        continues: Seq::empty(),
    }
}

/// Compiling a program: the main function, named 0, takes its top-level
/// statements; the functions and strings collected on the way go with it.
pub open spec fn compile_program(ar: Arith, st: CompState, program: Seq<SpecStmt>) -> SpecProgram {
    let (s1, main) = comp_function(ar, st, 0, Seq::empty(), program);
    SpecProgram { functions: s1.functions, main, strings: s1.strings }
}

// ---------------------------------------------------------------------------
// Lemmas
// ---------------------------------------------------------------------------

pub proof fn lemma_params_view(p: Seq<(InternedString, Option<Expr>)>)
    ensures
        params_view(p).len() == p.len(),
        forall|i: int| 0 <= i < p.len() ==> #[trigger] params_view(p)[i] == (p[i].0, opt_view(p[i].1)),
    decreases p.len(),
{
    if p.len() > 0 {
        lemma_params_view(p.drop_last());
    }
}

pub proof fn lemma_entries_view(p: Seq<(InternedString, Expr)>)
    ensures
        entries_view(p).len() == p.len(),
        forall|i: int| 0 <= i < p.len() ==> #[trigger] entries_view(p)[i] == (p[i].0, expr_view(p[i].1)),
    decreases p.len(),
{
    if p.len() > 0 {
        lemma_entries_view(p.drop_last());
    }
}

pub proof fn lemma_cexprs_take(v: Seq<Expr>, i: int)
    requires
        0 <= i <= v.len(),
    ensures
        cexprs(exprs_view(v.take(i))) <= cexprs(exprs_view(v)),
    decreases v.len(),
{
    if i < v.len() {
        lemma_cexprs_take(v.drop_last(), i);
        assert(v.take(i) =~= v.drop_last().take(i));
        assert(exprs_view(v).drop_last() =~= exprs_view(v.drop_last()));
    } else {
        assert(v.take(i) =~= v);
    }
}

pub proof fn lemma_centries_take(v: Seq<(InternedString, Expr)>, i: int)
    requires
        0 <= i <= v.len(),
    ensures
        centries(entries_view(v.take(i))) <= centries(entries_view(v)),
    decreases v.len(),
{
    if i < v.len() {
        lemma_centries_take(v.drop_last(), i);
        assert(v.take(i) =~= v.drop_last().take(i));
        assert(entries_view(v).drop_last() =~= entries_view(v.drop_last()));
    } else {
        assert(v.take(i) =~= v);
    }
}

pub proof fn lemma_cparts_take(v: Seq<(String, Option<Box<Expr>>)>, i: int)
    requires
        0 <= i <= v.len(),
    ensures
        cparts(parts_view(v.take(i))) <= cparts(parts_view(v)),
    decreases v.len(),
{
    if i < v.len() {
        lemma_cparts_take(v.drop_last(), i);
        assert(v.take(i) =~= v.drop_last().take(i));
        assert(parts_view(v).drop_last() =~= parts_view(v.drop_last()));
    } else {
        assert(v.take(i) =~= v);
    }
}

pub proof fn lemma_cstmts_take(v: Seq<Stmt>, i: int)
    requires
        0 <= i <= v.len(),
    ensures
        cstmts(stmts_view(v.take(i))) <= cstmts(stmts_view(v)),
    decreases v.len(),
{
    if i < v.len() {
        lemma_cstmts_take(v.drop_last(), i);
        assert(v.take(i) =~= v.drop_last().take(i));
        assert(stmts_view(v).drop_last() =~= stmts_view(v.drop_last()));
    } else {
        assert(v.take(i) =~= v);
    }
}

// ---------------------------------------------------------------------------
// The compiler
// ---------------------------------------------------------------------------

/// Every pending break and continue jump lies below `len`.
pub open spec fn patches_below(st: CompState, len: nat) -> bool {
    &&& forall|i: int, j: int|
        0 <= i < st.breaks.len() && 0 <= j < st.breaks[i].len() ==> #[trigger] st.breaks[i][j] < len
    &&& forall|i: int, j: int|
        0 <= i < st.continues.len() && 0 <= j < st.continues[i].len() ==> #[trigger] st.continues[i][j] < len
}

pub open spec fn nested_view(v: Seq<Vec<usize>>) -> Seq<Seq<usize>> {
    Seq::new(v.len(), |i: int| v[i]@)
}

/// Compiler from syntax trees to bytecode.
pub struct Compiler {
    functions: Vec<BytecodeFunction>,
    constants: Vec<Value>,
    string_interner: StringInterner,
    locals: IndexMap<usize, usize>,
    slot_count: usize,
    max_slots: usize,
    break_patches: Vec<Vec<usize>>,
    continue_patches: Vec<Vec<usize>>,
}

impl View for Compiler {
    type V = CompState;

    closed spec fn view(&self) -> CompState {
        CompState {
            functions: functions_view(self.functions@),
            constants: values_view(self.constants@),
            strings: self.string_interner@,
            locals: slot_map(self.locals),
            slot_count: self.slot_count as nat,
            max_slots: self.max_slots as nat,
            breaks: nested_view(self.break_patches@),
            continues: nested_view(self.continue_patches@),
        }
    }
}

impl Compiler {
    /// A compiler that has compiled nothing.
    pub fn new() -> (r: Self)
        ensures
            r@ == initial_state(),
    {
        let r = Compiler {
            functions: Vec::new(),
            constants: Vec::new(),
            string_interner: StringInterner::with_capacity(256),
            locals: slots_new(),
            slot_count: 0,
            max_slots: 0,
            break_patches: Vec::new(),
            continue_patches: Vec::new(),
        };
        proof {
            assert(r@.functions =~= Seq::<SpecFunction>::empty());
            assert(r@.constants =~= Seq::<SpecValue>::empty());
            assert(r@.breaks =~= Seq::<Seq<usize>>::empty());
            assert(r@.continues =~= Seq::<Seq<usize>>::empty());
            assert(r@.locals =~= Map::<usize, usize>::empty());
        }
        r
    }

    /// The number of the next constant, after adding it.
    fn add_constant(&mut self, value: Value) -> (r: usize)
        ensures
            (final(self)@, r) == add_constant(old(self)@, value@),
    {
        let index = self.constants.len();
        self.constants.push(value);
        proof {
            assert(self@.constants =~= old(self)@.constants.push(value@));
        }
        index
    }

    /// Takes the next slot, bound to no name.
    fn take_slot(&mut self) -> (r: usize)
        requires
            old(self)@.slot_count < usize::MAX,
        ensures
            (final(self)@, r) == take_slot(old(self)@),
    {
        let slot = self.slot_count;
        self.slot_count = self.slot_count + 1;
        if self.slot_count > self.max_slots {
            self.max_slots = self.slot_count;
        }
        slot
    }

    /// Takes the next slot and binds `name` to it.
    fn bind_new_slot(&mut self, name: usize) -> (r: usize)
        requires
            old(self)@.slot_count < usize::MAX,
        ensures
            (final(self)@, r) == bind_new_slot(old(self)@, name),
    {
        let slot = self.slot_count;
        self.slot_count = self.slot_count + 1;
        if self.slot_count > self.max_slots {
            self.max_slots = self.slot_count;
        }
        slots_insert(&mut self.locals, name, slot);
        slot
    }

    /// The slot that `name` is bound to, if any.
    fn local(&self, name: usize) -> (r: Option<usize>)
        ensures
            match r {
                Some(v) => self@.locals.contains_key(name) && self@.locals[name] == v,
                None => !self@.locals.contains_key(name),
            },
    {
        slots_get(&self.locals, name)
    }

    fn enter_loop(&mut self)
        ensures
            final(self)@ == enter_loop(old(self)@),
    {
        self.break_patches.push(Vec::new());
        self.continue_patches.push(Vec::new());
        proof {
            assert(self@.breaks =~= old(self)@.breaks.push(Seq::empty()));
            assert(self@.continues =~= old(self)@.continues.push(Seq::empty()));
        }
    }

    /// Points every jump at the positions `idxs` to `target`.
    fn patch_jumps(instructions: &mut Vec<Instruction>, idxs: &Vec<usize>, target: usize)
        requires
            forall|j: int| 0 <= j < idxs@.len() ==> #[trigger] idxs@[j] < old(instructions)@.len(),
        ensures
            final(instructions)@ == patch_all(old(instructions)@, idxs@, target as int),
            final(instructions)@.len() == old(instructions)@.len(),
    {
        let mut k: usize = 0;
        proof {
            assert(idxs@.take(0) =~= Seq::<usize>::empty());
        }
        while k < idxs.len()
            invariant
                k <= idxs@.len(),
                instructions@.len() == old(instructions)@.len(),
                forall|j: int| 0 <= j < idxs@.len() ==> #[trigger] idxs@[j] < old(instructions)@.len(),
                instructions@ == patch_all(old(instructions)@, idxs@.take(k as int), target as int),
            decreases idxs.len() - k,
        {
            let idx = idxs[k];
            proof {
                assert(instructions.len() <= usize::MAX);
                assert(idxs@.take(k + 1).drop_last() =~= idxs@.take(k as int));
            }
            match instructions[idx] {
                Instruction::Jump { .. } => {
                    if target >= idx + 1 {
                        instructions.set(idx, Instruction::Jump { offset: target - (idx + 1) });
                    } else {
                        instructions.set(idx, Instruction::JumpBack { offset: idx + 1 - target });
                    }
                },
                _ => {},
            }
            k += 1;
        }
        proof {
            assert(idxs@.take(idxs@.len() as int) =~= idxs@);
        }
    }

    fn patch_breaks(&mut self, instructions: &mut Vec<Instruction>, target: usize)
        requires
            patches_below(old(self)@, old(instructions)@.len()),
        ensures
            (final(self)@, final(instructions)@) == patch_breaks(old(self)@, old(instructions)@, target as int),
            patches_below(final(self)@, final(instructions)@.len()),
            final(instructions)@.len() == old(instructions)@.len(),
    {
        proof {
            assert(self.break_patches@.len() == self@.breaks.len());
        }
        if let Some(patches) = self.break_patches.pop() {
            proof {
                assert(patches@ == old(self)@.breaks.last());
                assert(self@.breaks =~= old(self)@.breaks.drop_last());
                assert forall|j: int| 0 <= j < patches@.len() implies #[trigger] patches@[j] < instructions@.len() by {
                    assert(old(self)@.breaks[old(self)@.breaks.len() - 1][j] < instructions@.len());
                }
            }
            Self::patch_jumps(instructions, &patches, target);
        }
    }

    fn patch_continues(&mut self, instructions: &mut Vec<Instruction>, target: usize)
        requires
            patches_below(old(self)@, old(instructions)@.len()),
        ensures
            (final(self)@, final(instructions)@) == patch_continues(old(self)@, old(instructions)@, target as int),
            patches_below(final(self)@, final(instructions)@.len()),
            final(instructions)@.len() == old(instructions)@.len(),
    {
        proof {
            assert(self.continue_patches@.len() == self@.continues.len());
        }
        if let Some(patches) = self.continue_patches.pop() {
            proof {
                assert(patches@ == old(self)@.continues.last());
                assert(self@.continues =~= old(self)@.continues.drop_last());
                assert forall|j: int| 0 <= j < patches@.len() implies #[trigger] patches@[j] < instructions@.len() by {
                    assert(old(self)@.continues[old(self)@.continues.len() - 1][j] < instructions@.len());
                }
            }
            Self::patch_jumps(instructions, &patches, target);
        }
    }
}

impl Compiler {

    fn compile_exprs<F: Fn(NumOp, u64, u64) -> u64>(&mut self, instructions: &mut Vec<Instruction>, v: &Vec<Expr>, arith: &F)
        requires
            arith_ok(*arith),
            patches_below(old(self)@, old(instructions)@.len()),
            old(self)@.slot_count + old(instructions)@.len() + cexprs(exprs_view(v@)) <= usize::MAX,
        ensures
            (final(self)@, final(instructions)@) == comp_exprs(arith_of(*arith), old(self)@, old(instructions)@, exprs_view(v@)),
            patches_below(final(self)@, final(instructions)@.len()),
            final(instructions)@.len() >= old(instructions)@.len(),
            final(self)@.slot_count + final(instructions)@.len() <= old(self)@.slot_count + old(instructions)@.len() + cexprs(exprs_view(v@)),
        decreases v, 1nat,
    {
        let ghost st0 = self@;
        let ghost ins0 = instructions@;
        let ghost ar = arith_of(*arith);
        let mut i: usize = 0;
        proof {
            assert(v@.take(0) =~= Seq::<Expr>::empty());
        }
        #[verifier::loop_isolation(false)]
        while i < v.len()
            invariant
                i <= v.len(),
                (self@, instructions@) == comp_exprs(ar, st0, ins0, exprs_view(v@.take(i as int))),
                patches_below(self@, instructions@.len()),
                instructions@.len() >= ins0.len(),
                self@.slot_count + instructions@.len() <= st0.slot_count + ins0.len() + cexprs(exprs_view(v@.take(i as int))),
            decreases v.len() - i,
        {
            proof {
                assert(decreases_to!(*v => v@));
                assert(decreases_to!(v@ => v@[i as int]));
                assert(v@.take(i + 1).drop_last() =~= v@.take(i as int));
                assert(exprs_view(v@.take(i + 1)).drop_last() =~= exprs_view(v@.take(i as int)));
                lemma_cexprs_take(v@, i + 1);
            }
            self.compile_expr(instructions, &v[i], arith);
            i += 1;
        }
        proof {
            assert(v@.take(v.len() as int) =~= v@);
        }
    }

    fn compile_pushed_items<F: Fn(NumOp, u64, u64) -> u64>(&mut self, instructions: &mut Vec<Instruction>, v: &Vec<Expr>, arith: &F)
        requires
            arith_ok(*arith),
            patches_below(old(self)@, old(instructions)@.len()),
            old(self)@.slot_count + old(instructions)@.len() + cexprs(exprs_view(v@)) <= usize::MAX,
        ensures
            (final(self)@, final(instructions)@) == comp_pushed_items(arith_of(*arith), old(self)@, old(instructions)@, exprs_view(v@)),
            patches_below(final(self)@, final(instructions)@.len()),
            final(instructions)@.len() >= old(instructions)@.len(),
            final(self)@.slot_count + final(instructions)@.len() <= old(self)@.slot_count + old(instructions)@.len() + cexprs(exprs_view(v@)),
        decreases v, 1nat,
    {
        let ghost st0 = self@;
        let ghost ins0 = instructions@;
        let ghost ar = arith_of(*arith);
        let mut i: usize = 0;
        proof {
            assert(v@.take(0) =~= Seq::<Expr>::empty());
        }
        #[verifier::loop_isolation(false)]
        while i < v.len()
            invariant
                i <= v.len(),
                (self@, instructions@) == comp_pushed_items(ar, st0, ins0, exprs_view(v@.take(i as int))),
                patches_below(self@, instructions@.len()),
                instructions@.len() >= ins0.len(),
                self@.slot_count + instructions@.len() <= st0.slot_count + ins0.len() + cexprs(exprs_view(v@.take(i as int))),
            decreases v.len() - i,
        {
            proof {
                assert(decreases_to!(*v => v@));
                assert(decreases_to!(v@ => v@[i as int]));
                assert(v@.take(i + 1).drop_last() =~= v@.take(i as int));
                assert(exprs_view(v@.take(i + 1)).drop_last() =~= exprs_view(v@.take(i as int)));
                lemma_cexprs_take(v@, i + 1);
            }
            self.compile_expr(instructions, &v[i], arith);
            instructions.push(Instruction::ArrayPush);
            i += 1;
        }
        proof {
            assert(v@.take(v.len() as int) =~= v@);
        }
    }

    fn compile_table_entries<F: Fn(NumOp, u64, u64) -> u64>(&mut self, instructions: &mut Vec<Instruction>, v: &Vec<(InternedString, Expr)>, arith: &F)
        requires
            arith_ok(*arith),
            patches_below(old(self)@, old(instructions)@.len()),
            old(self)@.slot_count + old(instructions)@.len() + centries(entries_view(v@)) <= usize::MAX,
        ensures
            (final(self)@, final(instructions)@) == comp_table_entries(arith_of(*arith), old(self)@, old(instructions)@, entries_view(v@)),
            patches_below(final(self)@, final(instructions)@.len()),
            final(instructions)@.len() >= old(instructions)@.len(),
            final(self)@.slot_count + final(instructions)@.len() <= old(self)@.slot_count + old(instructions)@.len() + centries(entries_view(v@)),
        decreases v, 1nat,
    {
        let ghost st0 = self@;
        let ghost ins0 = instructions@;
        let ghost ar = arith_of(*arith);
        let mut i: usize = 0;
        proof {
            assert(v@.take(0) =~= Seq::<(InternedString, Expr)>::empty());
        }
        #[verifier::loop_isolation(false)]
        while i < v.len()
            invariant
                i <= v.len(),
                (self@, instructions@) == comp_table_entries(ar, st0, ins0, entries_view(v@.take(i as int))),
                patches_below(self@, instructions@.len()),
                instructions@.len() >= ins0.len(),
                self@.slot_count + instructions@.len() <= st0.slot_count + ins0.len() + centries(entries_view(v@.take(i as int))),
            decreases v.len() - i,
        {
            proof {
                assert(decreases_to!(*v => v@));
                assert(decreases_to!(v@ => v@[i as int]));
                assert(decreases_to!(v@[i as int] => v@[i as int].1));
                assert(v@.take(i + 1).drop_last() =~= v@.take(i as int));
                assert(entries_view(v@.take(i + 1)).drop_last() =~= entries_view(v@.take(i as int)));
                lemma_centries_take(v@, i + 1);
            }
            self.compile_expr(instructions, &v[i].1, arith);
            instructions.push(Instruction::TableSet { key: v[i].0 });
            i += 1;
        }
        proof {
            assert(v@.take(v.len() as int) =~= v@);
        }
    }

    fn compile_methods<F: Fn(NumOp, u64, u64) -> u64>(&mut self, instructions: &mut Vec<Instruction>, v: &Vec<(InternedString, Expr)>, arith: &F)
        requires
            arith_ok(*arith),
            patches_below(old(self)@, old(instructions)@.len()),
            old(self)@.slot_count + old(instructions)@.len() + centries(entries_view(v@)) <= usize::MAX,
        ensures
            (final(self)@, final(instructions)@) == comp_methods(arith_of(*arith), old(self)@, old(instructions)@, entries_view(v@)),
            patches_below(final(self)@, final(instructions)@.len()),
            final(instructions)@.len() >= old(instructions)@.len(),
            final(self)@.slot_count + final(instructions)@.len() <= old(self)@.slot_count + old(instructions)@.len() + centries(entries_view(v@)),
        decreases v, 1nat,
    {
        let ghost st0 = self@;
        let ghost ins0 = instructions@;
        let ghost ar = arith_of(*arith);
        let mut i: usize = 0;
        proof {
            assert(v@.take(0) =~= Seq::<(InternedString, Expr)>::empty());
        }
        #[verifier::loop_isolation(false)]
        while i < v.len()
            invariant
                i <= v.len(),
                (self@, instructions@) == comp_methods(ar, st0, ins0, entries_view(v@.take(i as int))),
                patches_below(self@, instructions@.len()),
                instructions@.len() >= ins0.len(),
                self@.slot_count + instructions@.len() <= st0.slot_count + ins0.len() + centries(entries_view(v@.take(i as int))),
            decreases v.len() - i,
        {
            proof {
                assert(decreases_to!(*v => v@));
                assert(decreases_to!(v@ => v@[i as int]));
                assert(decreases_to!(v@[i as int] => v@[i as int].1));
                assert(v@.take(i + 1).drop_last() =~= v@.take(i as int));
                assert(entries_view(v@.take(i + 1)).drop_last() =~= entries_view(v@.take(i as int)));
                lemma_centries_take(v@, i + 1);
            }
            let n = apply(arith, NumOp::FromUsize, v[i].0.id() as u64, ZERO_BITS);
            let ci = self.add_constant(Value::Number(n));
            instructions.push(Instruction::LoadConstant { index: ci });
            self.compile_expr(instructions, &v[i].1, arith);
            i += 1;
        }
        proof {
            assert(v@.take(v.len() as int) =~= v@);
        }
    }

    fn compile_parts<F: Fn(NumOp, u64, u64) -> u64>(&mut self, instructions: &mut Vec<Instruction>, v: &Vec<(String, Option<Box<Expr>>)>, arith: &F)
        requires
            arith_ok(*arith),
            patches_below(old(self)@, old(instructions)@.len()),
            old(self)@.slot_count + old(instructions)@.len() + cparts(parts_view(v@)) <= usize::MAX,
        ensures
            (final(self)@, final(instructions)@) == comp_parts(arith_of(*arith), old(self)@, old(instructions)@, parts_view(v@)),
            patches_below(final(self)@, final(instructions)@.len()),
            final(instructions)@.len() >= old(instructions)@.len(),
            final(self)@.slot_count + final(instructions)@.len() <= old(self)@.slot_count + old(instructions)@.len() + cparts(parts_view(v@)),
        decreases v, 1nat,
    {
        let ghost st0 = self@;
        let ghost ins0 = instructions@;
        let ghost ar = arith_of(*arith);
        let mut i: usize = 0;
        proof {
            assert(v@.take(0) =~= Seq::<(String, Option<Box<Expr>>)>::empty());
        }
        #[verifier::loop_isolation(false)]
        while i < v.len()
            invariant
                i <= v.len(),
                (self@, instructions@) == comp_parts(ar, st0, ins0, parts_view(v@.take(i as int))),
                patches_below(self@, instructions@.len()),
                instructions@.len() >= ins0.len(),
                self@.slot_count + instructions@.len() <= st0.slot_count + ins0.len() + cparts(parts_view(v@.take(i as int))),
            decreases v.len() - i,
        {
            proof {
                assert(decreases_to!(*v => v@));
                assert(decreases_to!(v@ => v@[i as int]));
                assert(v@.take(i + 1).drop_last() =~= v@.take(i as int));
                assert(parts_view(v@.take(i + 1)).drop_last() =~= parts_view(v@.take(i as int)));
                lemma_cparts_take(v@, i + 1);
            }
            let mut text = String::new();
            text.append(v[i].0.as_str());
            let ci = self.add_constant(Value::String(text));
            instructions.push(Instruction::LoadConstant { index: ci });
            instructions.push(Instruction::Add);
            match &v[i].1 {
                Some(e) => {
                    proof {
                        assert(decreases_to!(v@[i as int] => v@[i as int].1));
                    }
                    self.compile_expr(instructions, &**e, arith);
                    instructions.push(Instruction::Stringify);
                    instructions.push(Instruction::Add);
                },
                None => {},
            }
            i += 1;
        }
        proof {
            assert(v@.take(v.len() as int) =~= v@);
        }
    }

    fn compile_stmts<F: Fn(NumOp, u64, u64) -> u64>(&mut self, instructions: &mut Vec<Instruction>, v: &Vec<Stmt>, arith: &F)
        requires
            arith_ok(*arith),
            patches_below(old(self)@, old(instructions)@.len()),
            old(self)@.slot_count + old(instructions)@.len() + cstmts(stmts_view(v@)) <= usize::MAX,
        ensures
            (final(self)@, final(instructions)@) == comp_stmts(arith_of(*arith), old(self)@, old(instructions)@, stmts_view(v@)),
            patches_below(final(self)@, final(instructions)@.len()),
            final(instructions)@.len() >= old(instructions)@.len(),
            final(self)@.slot_count + final(instructions)@.len() <= old(self)@.slot_count + old(instructions)@.len() + cstmts(stmts_view(v@)),
        decreases v, 1nat,
    {
        let ghost st0 = self@;
        let ghost ins0 = instructions@;
        let ghost ar = arith_of(*arith);
        let mut i: usize = 0;
        proof {
            assert(v@.take(0) =~= Seq::<Stmt>::empty());
        }
        #[verifier::loop_isolation(false)]
        while i < v.len()
            invariant
                i <= v.len(),
                (self@, instructions@) == comp_stmts(ar, st0, ins0, stmts_view(v@.take(i as int))),
                patches_below(self@, instructions@.len()),
                instructions@.len() >= ins0.len(),
                self@.slot_count + instructions@.len() <= st0.slot_count + ins0.len() + cstmts(stmts_view(v@.take(i as int))),
            decreases v.len() - i,
        {
            proof {
                assert(decreases_to!(*v => v@));
                assert(decreases_to!(v@ => v@[i as int]));
                assert(v@.take(i + 1).drop_last() =~= v@.take(i as int));
                assert(stmts_view(v@.take(i + 1)).drop_last() =~= stmts_view(v@.take(i as int)));
                lemma_cstmts_take(v@, i + 1);
            }
            self.compile_stmt(instructions, &v[i], arith);
            i += 1;
        }
        proof {
            assert(v@.take(v.len() as int) =~= v@);
        }
    }
}

impl Compiler {
    fn param_ids(params: &Vec<(InternedString, Option<Expr>)>) -> (r: Vec<usize>)
        ensures
            r@ == param_ids(params_view(params@)),
    {
        proof {
            lemma_params_view(params@);
        }
        let mut out: Vec<usize> = Vec::new();
        let mut i: usize = 0;
        while i < params.len()
            invariant
                i <= params@.len(),
                out@.len() == i,
                forall|k: int| 0 <= k < i ==> #[trigger] out@[k] == params@[k].0.0,
            decreases params.len() - i,
        {
            out.push(params[i].0.id());
            i += 1;
        }
        proof {
            assert(out@ =~= param_ids(params_view(params@)));
        }
        out
    }

    fn param_defaults(params: &Vec<(InternedString, Option<Expr>)>) -> (r: Vec<Option<Expr>>)
        ensures
            opts_view(r@) == param_defaults(params_view(params@)),
    {
        proof {
            lemma_params_view(params@);
        }
        let mut out: Vec<Option<Expr>> = Vec::new();
        let mut i: usize = 0;
        while i < params.len()
            invariant
                i <= params@.len(),
                out@.len() == i,
                forall|k: int| 0 <= k < i ==> #[trigger] opt_view(out@[k]) == opt_view(params@[k].1),
            decreases params.len() - i,
        {
            out.push(crate::ast::copy_opt(&params[i].1));
            i += 1;
        }
        proof {
            lemma_opts_view(out@);
            assert(opts_view(out@) =~= param_defaults(params_view(params@)));
        }
        out
    }

    /// The locals of a fresh function: each parameter bound to its position.
    fn param_slots(params: &Vec<usize>) -> (r: IndexMap<usize, usize>)
        ensures
            slot_map(r) == param_locals(params@),
    {
        let mut locals = slots_new();
        let mut k: usize = 0;
        proof {
            assert(params@.take(0) =~= Seq::<usize>::empty());
        }
        while k < params.len()
            invariant
                k <= params@.len(),
                slot_map(locals) == param_locals(params@.take(k as int)),
            decreases params.len() - k,
        {
            slots_insert(&mut locals, params[k], k);
            proof {
                assert(params@.take(k + 1).drop_last() =~= params@.take(k as int));
            }
            k += 1;
        }
        proof {
            assert(params@.take(params@.len() as int) =~= params@);
        }
        locals
    }

    /// Registers a compiled function, adds `v` to the constants and loads it.
    fn emit_function_value(&mut self, instructions: &mut Vec<Instruction>, f: BytecodeFunction, v: Value)
        ensures
            (final(self)@, final(instructions)@) == emit_function_value(old(self)@, old(instructions)@, f@, v@),
    {
        self.functions.push(f);
        proof {
            assert(self@.functions =~= old(self)@.functions.push(f@));
        }
        let ci = self.add_constant(v);
        instructions.push(Instruction::LoadConstant { index: ci });
    }

    /// Compiles the body of a function with a fresh set of locals, slots,
    /// constants and pending jumps, and restores the enclosing ones.
    fn compile_function<F: Fn(NumOp, u64, u64) -> u64>(&mut self, name: usize, params: Vec<usize>, statements: &Vec<Stmt>, arith: &F) -> (r: BytecodeFunction)
        requires
            arith_ok(*arith),
            params@.len() + cstmts(stmts_view(statements@)) < usize::MAX,
        ensures
            (final(self)@, r@) == comp_function(arith_of(*arith), old(self)@, name, params@, stmts_view(statements@)),
        decreases statements, 2nat,
    {
        let ghost st0 = self@;
        let old_locals = slots_clone(&self.locals);
        let old_slot_count = self.slot_count;
        let old_max_slots = self.max_slots;
        let mut old_constants: Vec<Value> = Vec::new();
        std::mem::swap(&mut old_constants, &mut self.constants);
        let mut old_break: Vec<Vec<usize>> = Vec::new();
        std::mem::swap(&mut old_break, &mut self.break_patches);
        let mut old_continue: Vec<Vec<usize>> = Vec::new();
        std::mem::swap(&mut old_continue, &mut self.continue_patches);
        self.locals = Self::param_slots(&params);
        self.slot_count = params.len();
        self.max_slots = 0;
        proof {
            assert(self@.constants =~= Seq::<SpecValue>::empty());
            assert(self@.breaks =~= Seq::<Seq<usize>>::empty());
            assert(self@.continues =~= Seq::<Seq<usize>>::empty());
        }
        let mut instructions: Vec<Instruction> = Vec::new();
        self.compile_stmts(&mut instructions, statements, arith);
        instructions.push(Instruction::ReturnNil);
        let arity = params.len();
        let max_slots = self.max_slots;
        let mut constants: Vec<Value> = old_constants;
        std::mem::swap(&mut constants, &mut self.constants);
        self.locals = old_locals;
        self.slot_count = old_slot_count;
        self.max_slots = old_max_slots;
        self.break_patches = old_break;
        self.continue_patches = old_continue;
        BytecodeFunction { name, params, arity, instructions, constants, max_slots }
    }

    /// Compiles a function whose body is `return body`.
    fn compile_function_returning<F: Fn(NumOp, u64, u64) -> u64>(&mut self, name: usize, params: Vec<usize>, body: &Expr, arith: &F) -> (r: BytecodeFunction)
        requires
            arith_ok(*arith),
            params@.len() + cexpr(body@) < usize::MAX,
        ensures
            (final(self)@, r@) == comp_function_returning(arith_of(*arith), old(self)@, name, params@, body@),
        decreases body, 2nat,
    {
        let old_locals = slots_clone(&self.locals);
        let old_slot_count = self.slot_count;
        let old_max_slots = self.max_slots;
        let mut old_constants: Vec<Value> = Vec::new();
        std::mem::swap(&mut old_constants, &mut self.constants);
        let mut old_break: Vec<Vec<usize>> = Vec::new();
        std::mem::swap(&mut old_break, &mut self.break_patches);
        let mut old_continue: Vec<Vec<usize>> = Vec::new();
        std::mem::swap(&mut old_continue, &mut self.continue_patches);
        self.locals = Self::param_slots(&params);
        self.slot_count = params.len();
        self.max_slots = 0;
        proof {
            assert(self@.constants =~= Seq::<SpecValue>::empty());
            assert(self@.breaks =~= Seq::<Seq<usize>>::empty());
            assert(self@.continues =~= Seq::<Seq<usize>>::empty());
        }
        let mut instructions: Vec<Instruction> = Vec::new();
        self.compile_expr(&mut instructions, body, arith);
        instructions.push(Instruction::Return);
        instructions.push(Instruction::ReturnNil);
        let arity = params.len();
        let max_slots = self.max_slots;
        let mut constants: Vec<Value> = old_constants;
        std::mem::swap(&mut constants, &mut self.constants);
        self.locals = old_locals;
        self.slot_count = old_slot_count;
        self.max_slots = old_max_slots;
        self.break_patches = old_break;
        self.continue_patches = old_continue;
        BytecodeFunction { name, params, arity, instructions, constants, max_slots }
    }

    /// Compiles an expression, appending its code to `instructions`.
    fn compile_expr<F: Fn(NumOp, u64, u64) -> u64>(&mut self, instructions: &mut Vec<Instruction>, e: &Expr, arith: &F)
        requires
            arith_ok(*arith),
            patches_below(old(self)@, old(instructions)@.len()),
            old(self)@.slot_count + old(instructions)@.len() + cexpr(e@) <= usize::MAX,
        ensures
            (final(self)@, final(instructions)@) == comp_expr(arith_of(*arith), old(self)@, old(instructions)@, e@),
            patches_below(final(self)@, final(instructions)@.len()),
            final(instructions)@.len() >= old(instructions)@.len(),
            final(self)@.slot_count + final(instructions)@.len() <= old(self)@.slot_count + old(instructions)@.len() + cexpr(e@),
        decreases e, 1nat,
    {
        match e {
            Expr::Number(n) => {
                let index = self.add_constant(Value::Number(*n));
                instructions.push(Instruction::LoadConstant { index });
            },
            Expr::String(s) => {
                let index = self.add_constant(Value::String(s.clone()));
                instructions.push(Instruction::LoadConstant { index });
            },
            Expr::LiteralTrue => {
                instructions.push(Instruction::LoadTrue);
            },
            Expr::LiteralFalse => {
                instructions.push(Instruction::LoadFalse);
            },
            Expr::LiteralNil => {
                instructions.push(Instruction::LoadNil);
            },
            Expr::Identifier(name) => {
                match self.local(name.id()) {
                    Some(slot) => instructions.push(Instruction::LoadLocal { slot }),
                    None => instructions.push(Instruction::LoadGlobal { name: *name }),
                }
            },
            Expr::Binary { left, op, right, .. } => {
                self.compile_expr(instructions, &**left, arith);
                self.compile_expr(instructions, &**right, arith);
                match op {
                    TokenKind::Plus => instructions.push(Instruction::Add),
                    TokenKind::Minus => instructions.push(Instruction::Subtract),
                    TokenKind::Star => instructions.push(Instruction::Multiply),
                    TokenKind::Slash => instructions.push(Instruction::Divide),
                    TokenKind::Percent => instructions.push(Instruction::Modulo),
                    TokenKind::EqualEqual => instructions.push(Instruction::Equal),
                    TokenKind::NotEqual => instructions.push(Instruction::NotEqual),
                    TokenKind::Less => instructions.push(Instruction::Less),
                    TokenKind::Greater => instructions.push(Instruction::Greater),
                    TokenKind::LessEqual => instructions.push(Instruction::LessEqual),
                    TokenKind::GreaterEqual => instructions.push(Instruction::GreaterEqual),
                    TokenKind::And => instructions.push(Instruction::And),
                    TokenKind::Or => instructions.push(Instruction::Or),
                    _ => {},
                }
            },
            Expr::Unary { op, expr, .. } => {
                self.compile_expr(instructions, &**expr, arith);
                match op {
                    TokenKind::Minus => instructions.push(Instruction::Negate),
                    TokenKind::Not => instructions.push(Instruction::Not),
                    _ => {},
                }
            },
            Expr::Call { .. } => self.compile_call(instructions, e, arith),
            Expr::Table { .. } => self.compile_table(instructions, e, arith),
            Expr::Array { .. } => self.compile_array(instructions, e, arith),
            Expr::Index { object, index, .. } => {
                self.compile_expr(instructions, &**object, arith);
                self.compile_expr(instructions, &**index, arith);
                instructions.push(Instruction::IndexGet);
            },
            Expr::SetIndex { object, index, value, .. } => {
                self.compile_expr(instructions, &**object, arith);
                self.compile_expr(instructions, &**index, arith);
                self.compile_expr(instructions, &**value, arith);
                instructions.push(Instruction::IndexSet);
            },
            Expr::Get { object, name, .. } => {
                self.compile_expr(instructions, &**object, arith);
                instructions.push(Instruction::PropertyGet { name: *name });
            },
            Expr::SetProperty { object, name, value, .. } => {
                self.compile_expr(instructions, &**object, arith);
                self.compile_expr(instructions, &**value, arith);
                instructions.push(Instruction::PropertySet { name: *name });
            },
            Expr::SafeGet { object, name, .. } => {
                self.compile_expr(instructions, &**object, arith);
                instructions.push(Instruction::NewTable);
                instructions.push(Instruction::NullCoalesce);
                instructions.push(Instruction::PropertyGet { name: *name });
            },
            Expr::Range { start, end, .. } => {
                self.compile_expr(instructions, &**start, arith);
                self.compile_expr(instructions, &**end, arith);
                instructions.push(Instruction::NewRange);
            },
            Expr::Length { expr, .. } => {
                self.compile_expr(instructions, &**expr, arith);
                instructions.push(Instruction::Length);
            },
            Expr::Throw { expr, .. } => {
                self.compile_expr(instructions, &**expr, arith);
            },
            Expr::FunctionLiteral { .. } => self.compile_function_literal(instructions, e, arith),
            Expr::Lambda { .. } => self.compile_function_literal(instructions, e, arith),
            Expr::Spread { expr, .. } => {
                self.compile_expr(instructions, &**expr, arith);
                instructions.push(Instruction::Spread);
            },
            Expr::NullCoalesce { left, right, .. } => {
                self.compile_expr(instructions, &**left, arith);
                self.compile_expr(instructions, &**right, arith);
                instructions.push(Instruction::NullCoalesce);
            },
            Expr::Match { .. } => self.compile_match(instructions, e, arith),
            Expr::Require { .. } => self.compile_require(instructions, e, arith),
            Expr::Export { name, value, .. } => {
                self.compile_expr(instructions, &**value, arith);
                instructions.push(Instruction::Export { name: *name });
            },
            Expr::Class { .. } => self.compile_class(instructions, e, arith),
            Expr::NewInstance { .. } => self.compile_new_instance(instructions, e, arith),
            Expr::FString { .. } => self.compile_f_string(instructions, e, arith),
            Expr::This { .. } => {
                instructions.push(Instruction::This);
            },
            Expr::Super { method, .. } => {
                instructions.push(Instruction::Super { method: *method });
            },
            Expr::SetLiteral { .. } => self.compile_set_literal(instructions, e, arith),
            Expr::AsyncFunctionLiteral { .. } => self.compile_function_literal(instructions, e, arith),
            Expr::GeneratorLiteral { .. } => self.compile_function_literal(instructions, e, arith),
            Expr::Await { future, .. } => {
                self.compile_expr(instructions, &**future, arith);
            },
            Expr::Yield { value, .. } => {
                match value {
                    Some(v) => {
                        proof {
                            assert(opt_box_view(*value) == Some(Box::new((**v)@)));
                        }
                        self.compile_expr(instructions, &**v, arith);
                    },
                    None => instructions.push(Instruction::LoadNil),
                }
                instructions.push(Instruction::Return);
            },
        }
    }

    fn compile_call<F: Fn(NumOp, u64, u64) -> u64>(&mut self, instructions: &mut Vec<Instruction>, e: &Expr, arith: &F)
        requires
            e is Call,
            arith_ok(*arith),
            expr_ready(old(self)@, old(instructions)@, e@),
        ensures
            expr_compiled(arith_of(*arith), old(self)@, old(instructions)@, e@, final(self)@, final(instructions)@),
        decreases e, 0nat,
    {
        match e {
            Expr::Call { callee, arguments, .. } => {
                proof {
                    crate::ast::lemma_exprs_view_len(arguments@);
                }
                match &**callee {
                    Expr::Get { object, name, line } => {
                        proof {
                            assert((**callee)@ == SpecExpr::Get { object: Box::new((**object)@), name: *name, line: *line });
                        }
                        self.compile_expr(instructions, &**object, arith);
                        instructions.push(Instruction::This);
                        self.compile_exprs(instructions, arguments, arith);
                        self.compile_expr(instructions, &**callee, arith);
                        instructions.push(Instruction::Call { arg_count: arguments.len() + 1 });
                    },
                    _ => {
                        self.compile_exprs(instructions, arguments, arith);
                        self.compile_expr(instructions, &**callee, arith);
                        instructions.push(Instruction::Call { arg_count: arguments.len() });
                    },
                }
            },
            _ => {},
        }
    }

    fn compile_function_literal<F: Fn(NumOp, u64, u64) -> u64>(&mut self, instructions: &mut Vec<Instruction>, e: &Expr, arith: &F)
        requires
            (e is FunctionLiteral || e is Lambda || e is AsyncFunctionLiteral || e is GeneratorLiteral),
            arith_ok(*arith),
            expr_ready(old(self)@, old(instructions)@, e@),
        ensures
            expr_compiled(arith_of(*arith), old(self)@, old(instructions)@, e@, final(self)@, final(instructions)@),
        decreases e, 0nat,
    {
        match e {
            Expr::FunctionLiteral { params, body, .. } => {
                proof {
                    lemma_params_view(params@);
                }
                let ids = Self::param_ids(params);
                let defaults = Self::param_defaults(params);
                let f = self.compile_function(0, copy_usizes(&ids), body, arith);
                let idx = self.functions.len();
                self.emit_function_value(instructions, f, Value::Function { name: idx, params: ids, default_params: defaults });
            },
            Expr::Lambda { params, body, .. } => {
                proof {
                    lemma_params_view(params@);
                }
                let ids = Self::param_ids(params);
                let f = self.compile_function_returning(0, copy_usizes(&ids), &**body, arith);
                let idx = self.functions.len();
                self.emit_function_value(instructions, f, Value::Function { name: idx, params: ids, default_params: Vec::new() });
                proof {
                    assert(opts_view(Seq::<Option<Expr>>::empty()) =~= Seq::<Option<SpecExpr>>::empty());
                }
            },
            Expr::AsyncFunctionLiteral { params, body, .. } => {
                proof {
                    lemma_params_view(params@);
                }
                let ids = Self::param_ids(params);
                let defaults = Self::param_defaults(params);
                let f = self.compile_function(0, copy_usizes(&ids), body, arith);
                let idx = self.functions.len();
                self.emit_function_value(instructions, f, Value::AsyncFunction { name: idx, params: ids, default_params: defaults });
            },
            Expr::GeneratorLiteral { params, body, .. } => {
                proof {
                    lemma_params_view(params@);
                }
                let ids = Self::param_ids(params);
                let f = self.compile_function(0, copy_usizes(&ids), body, arith);
                let idx = self.functions.len();
                self.emit_function_value(instructions, f, Value::Generator { name: idx, params: ids });
            },
            _ => {},
        }
    }

    fn compile_table<F: Fn(NumOp, u64, u64) -> u64>(&mut self, instructions: &mut Vec<Instruction>, e: &Expr, arith: &F)
        requires
            e is Table,
            arith_ok(*arith),
            expr_ready(old(self)@, old(instructions)@, e@),
        ensures
            expr_compiled(arith_of(*arith), old(self)@, old(instructions)@, e@, final(self)@, final(instructions)@),
        decreases e, 0nat,
    {
        match e {
            Expr::Table { entries, .. } => {
                instructions.push(Instruction::NewTable);
                self.compile_table_entries(instructions, entries, arith);
            },
            _ => {},
        }
    }

    fn compile_array<F: Fn(NumOp, u64, u64) -> u64>(&mut self, instructions: &mut Vec<Instruction>, e: &Expr, arith: &F)
        requires
            e is Array,
            arith_ok(*arith),
            expr_ready(old(self)@, old(instructions)@, e@),
        ensures
            expr_compiled(arith_of(*arith), old(self)@, old(instructions)@, e@, final(self)@, final(instructions)@),
        decreases e, 0nat,
    {
        match e {
            Expr::Array { items, .. } => {
                proof {
                    crate::ast::lemma_exprs_view_len(items@);
                }
                instructions.push(Instruction::NewArray { capacity: items.len() });
                self.compile_pushed_items(instructions, items, arith);
            },
            _ => {},
        }
    }

    fn compile_set_literal<F: Fn(NumOp, u64, u64) -> u64>(&mut self, instructions: &mut Vec<Instruction>, e: &Expr, arith: &F)
        requires
            e is SetLiteral,
            arith_ok(*arith),
            expr_ready(old(self)@, old(instructions)@, e@),
        ensures
            expr_compiled(arith_of(*arith), old(self)@, old(instructions)@, e@, final(self)@, final(instructions)@),
        decreases e, 0nat,
    {
        match e {
            Expr::SetLiteral { items, .. } => {
                instructions.push(Instruction::NewTable);
                self.compile_pushed_items(instructions, items, arith);
                instructions.push(Instruction::MakeSet);
            },
            _ => {},
        }
    }

    fn compile_class<F: Fn(NumOp, u64, u64) -> u64>(&mut self, instructions: &mut Vec<Instruction>, e: &Expr, arith: &F)
        requires
            e is Class,
            arith_ok(*arith),
            expr_ready(old(self)@, old(instructions)@, e@),
        ensures
            expr_compiled(arith_of(*arith), old(self)@, old(instructions)@, e@, final(self)@, final(instructions)@),
        decreases e, 0nat,
    {
        match e {
            Expr::Class { name, methods, .. } => {
                self.compile_methods(instructions, methods, arith);
                proof {
                    lemma_entries_view(methods@);
                }
                instructions.push(Instruction::Class { name: *name, method_count: methods.len() });
            },
            _ => {},
        }
    }

    fn compile_new_instance<F: Fn(NumOp, u64, u64) -> u64>(&mut self, instructions: &mut Vec<Instruction>, e: &Expr, arith: &F)
        requires
            e is NewInstance,
            arith_ok(*arith),
            expr_ready(old(self)@, old(instructions)@, e@),
        ensures
            expr_compiled(arith_of(*arith), old(self)@, old(instructions)@, e@, final(self)@, final(instructions)@),
        decreases e, 0nat,
    {
        match e {
            Expr::NewInstance { class_name, arguments, .. } => {
                self.compile_exprs(instructions, arguments, arith);
                proof {
                    crate::ast::lemma_exprs_view_len(arguments@);
                }
                instructions.push(Instruction::NewInstance { class_name: *class_name, arg_count: arguments.len() });
            },
            _ => {},
        }
    }

    fn compile_f_string<F: Fn(NumOp, u64, u64) -> u64>(&mut self, instructions: &mut Vec<Instruction>, e: &Expr, arith: &F)
        requires
            e is FString,
            arith_ok(*arith),
            expr_ready(old(self)@, old(instructions)@, e@),
        ensures
            expr_compiled(arith_of(*arith), old(self)@, old(instructions)@, e@, final(self)@, final(instructions)@),
        decreases e, 0nat,
    {
        match e {
            Expr::FString { parts, .. } => {
                let index = self.add_constant(Value::String(String::new()));
                instructions.push(Instruction::LoadConstant { index });
                self.compile_parts(instructions, parts, arith);
            },
            _ => {},
        }
    }

    fn compile_match<F: Fn(NumOp, u64, u64) -> u64>(&mut self, instructions: &mut Vec<Instruction>, e: &Expr, arith: &F)
        requires
            e is Match,
            arith_ok(*arith),
            expr_ready(old(self)@, old(instructions)@, e@),
        ensures
            expr_compiled(arith_of(*arith), old(self)@, old(instructions)@, e@, final(self)@, final(instructions)@),
        decreases e, 0nat,
    {
        match e {
            Expr::Match { value, arms, .. } => {
                self.compile_expr(instructions, &**value, arith);
                proof {
                    crate::ast::lemma_arms_view_len(arms@);
                }
                instructions.push(Instruction::Match { arm_count: arms.len() });
            },
            _ => {},
        }
    }

    fn compile_require<F: Fn(NumOp, u64, u64) -> u64>(&mut self, instructions: &mut Vec<Instruction>, e: &Expr, arith: &F)
        requires
            e is Require,
            arith_ok(*arith),
            expr_ready(old(self)@, old(instructions)@, e@),
        ensures
            expr_compiled(arith_of(*arith), old(self)@, old(instructions)@, e@, final(self)@, final(instructions)@),
        decreases e, 0nat,
    {
        match e {
            Expr::Require { path, .. } => {
                let interned = self.string_interner.intern(path.as_str());
                instructions.push(Instruction::Require { path: InternedString(interned) });
            },
            _ => {},
        }
    }
}

/// What compiling expression `e` from state `st0` and code `ins0` leaves:
/// the state and code that `comp_expr` gives, no pending jump past the code,
/// and growth within the expression's cost.
pub open spec fn expr_compiled(
    ar: Arith,
    st0: CompState,
    ins0: Seq<Instruction>,
    e: SpecExpr,
    st1: CompState,
    ins1: Seq<Instruction>,
) -> bool {
    &&& (st1, ins1) == comp_expr(ar, st0, ins0, e)
    &&& patches_below(st1, ins1.len())
    &&& ins1.len() >= ins0.len()
    &&& st1.slot_count + ins1.len() <= st0.slot_count + ins0.len() + cexpr(e)
}

/// What an expression needs before it is compiled.
pub open spec fn expr_ready(st: CompState, ins: Seq<Instruction>, e: SpecExpr) -> bool {
    &&& patches_below(st, ins.len())
    &&& st.slot_count + ins.len() + cexpr(e) <= usize::MAX
}

/// What compiling statement `s` from state `st0` and code `ins0` leaves:
/// the state and code that `comp_stmt` gives, no pending jump past the code,
/// and growth within the statement's cost.
pub open spec fn stmt_compiled(
    ar: Arith,
    st0: CompState,
    ins0: Seq<Instruction>,
    s: SpecStmt,
    st1: CompState,
    ins1: Seq<Instruction>,
) -> bool {
    &&& (st1, ins1) == comp_stmt(ar, st0, ins0, s)
    &&& patches_below(st1, ins1.len())
    &&& ins1.len() >= ins0.len()
    &&& st1.slot_count + ins1.len() <= st0.slot_count + ins0.len() + cstmt(s)
}

/// What a statement needs before it is compiled.
pub open spec fn stmt_ready(st: CompState, ins: Seq<Instruction>, s: SpecStmt) -> bool {
    &&& patches_below(st, ins.len())
    &&& st.slot_count + ins.len() + cstmt(s) <= usize::MAX
}

pub proof fn lemma_enter_loop_below(st: CompState, len: nat)
    requires
        patches_below(st, len),
    ensures
        patches_below(enter_loop(st), len),
{
    let e = enter_loop(st);
    assert forall|i: int, j: int| 0 <= i < e.breaks.len() && 0 <= j < e.breaks[i].len() implies #[trigger] e.breaks[i][j]
        < len by {
        if i < st.breaks.len() {
            assert(e.breaks[i] == st.breaks[i]);
        }
    }
    assert forall|i: int, j: int|
        0 <= i < e.continues.len() && 0 <= j < e.continues[i].len() implies #[trigger] e.continues[i][j] < len by {
        if i < st.continues.len() {
            assert(e.continues[i] == st.continues[i]);
        }
    }
}

impl Compiler {
    fn set_jump(instructions: &mut Vec<Instruction>, idx: usize, off: usize)
        requires
            idx < old(instructions)@.len(),
        ensures
            final(instructions)@ == set_jump(old(instructions)@, idx as int, off),
    {
        match instructions[idx] {
            Instruction::Jump { .. } => instructions.set(idx, Instruction::Jump { offset: off }),
            _ => {},
        }
    }

    fn set_jump_if_false(instructions: &mut Vec<Instruction>, idx: usize, off: usize)
        requires
            idx < old(instructions)@.len(),
        ensures
            final(instructions)@ == set_jump_if_false(old(instructions)@, idx as int, off),
    {
        match instructions[idx] {
            Instruction::JumpIfFalse { .. } => instructions.set(idx, Instruction::JumpIfFalse { offset: off }),
            _ => {},
        }
    }

    fn set_jump_if_true(instructions: &mut Vec<Instruction>, idx: usize, off: usize)
        requires
            idx < old(instructions)@.len(),
        ensures
            final(instructions)@ == set_jump_if_true(old(instructions)@, idx as int, off),
    {
        match instructions[idx] {
            Instruction::JumpIfTrue { .. } => instructions.set(idx, Instruction::JumpIfTrue { offset: off }),
            _ => {},
        }
    }

    fn set_for_in_end(instructions: &mut Vec<Instruction>, idx: usize, off: usize)
        requires
            idx < old(instructions)@.len(),
        ensures
            final(instructions)@ == set_for_in_end(old(instructions)@, idx as int, off),
    {
        match instructions[idx] {
            Instruction::ForInNext { var_slot, .. } => instructions.set(
                idx,
                Instruction::ForInNext { var_slot, end_offset: off },
            ),
            _ => {},
        }
    }

    fn compile_if<F: Fn(NumOp, u64, u64) -> u64>(&mut self, instructions: &mut Vec<Instruction>, s: &Stmt, arith: &F)
        requires
            s is If,
            arith_ok(*arith),
            stmt_ready(old(self)@, old(instructions)@, s@),
        ensures
            stmt_compiled(arith_of(*arith), old(self)@, old(instructions)@, s@, final(self)@, final(instructions)@),
        decreases s, 0nat,
    {
        match s {
            Stmt::If { condition, then_branch, else_branch, line } => {
                self.compile_expr(instructions, condition, arith);
                let else_jump = instructions.len();
                instructions.push(Instruction::JumpIfFalse { offset: 0 });
                self.compile_stmts(instructions, then_branch, arith);
                match else_branch {
                    Some(es) => {
                        let end_jump = instructions.len();
                        instructions.push(Instruction::Jump { offset: 0 });
                        let off = instructions.len().saturating_sub(else_jump + 1);
                        Self::set_jump_if_false(instructions, else_jump, off);
                        self.compile_stmts(instructions, es, arith);
                        let off2 = instructions.len().saturating_sub(end_jump + 1);
                        Self::set_jump(instructions, end_jump, off2);
                    },
                    None => {
                        let off = instructions.len().saturating_sub(else_jump + 1);
                        Self::set_jump_if_false(instructions, else_jump, off);
                    },
                }
                instructions.push(Instruction::Line { line_num: *line });
            },
            _ => {},
        }
    }
}


impl Compiler {
    fn compile_while<F: Fn(NumOp, u64, u64) -> u64>(&mut self, instructions: &mut Vec<Instruction>, s: &Stmt, arith: &F)
        requires
            s is While,
            arith_ok(*arith),
            stmt_ready(old(self)@, old(instructions)@, s@),
        ensures
            stmt_compiled(arith_of(*arith), old(self)@, old(instructions)@, s@, final(self)@, final(instructions)@),
        decreases s, 0nat,
    {
        match s {
            Stmt::While { condition, body, line } => {
                proof {
                    lemma_enter_loop_below(self@, instructions@.len());
                }
                self.enter_loop();
                let loop_start = instructions.len();
                self.compile_expr(instructions, condition, arith);
                let exit_jump = instructions.len();
                instructions.push(Instruction::JumpIfFalse { offset: 0 });
                self.compile_stmts(instructions, body, arith);
                let back = instructions.len() - loop_start + 1;
                instructions.push(Instruction::JumpBack { offset: back });
                let loop_end = instructions.len();
                Self::set_jump_if_false(instructions, exit_jump, loop_end.saturating_sub(exit_jump + 1));
                self.patch_breaks(instructions, loop_end);
                self.patch_continues(instructions, loop_start);
                instructions.push(Instruction::Line { line_num: *line });
            },
            _ => {},
        }
    }

    fn compile_for<F: Fn(NumOp, u64, u64) -> u64>(&mut self, instructions: &mut Vec<Instruction>, s: &Stmt, arith: &F)
        requires
            s is For,
            arith_ok(*arith),
            stmt_ready(old(self)@, old(instructions)@, s@),
        ensures
            stmt_compiled(arith_of(*arith), old(self)@, old(instructions)@, s@, final(self)@, final(instructions)@),
        decreases s, 0nat,
    {
        match s {
            Stmt::For { initializer, condition, increment, body, line } => {
                proof {
                    lemma_enter_loop_below(self@, instructions@.len());
                }
                self.enter_loop();
                match initializer {
                    Some(init) => {
                        proof {
                            assert(opt_box_view(*initializer) == Some(Box::new((**init)@)));
                        }
                        self.compile_expr(instructions, &**init, arith);
                    },
                    None => {},
                }
                let loop_start = instructions.len();
                self.compile_expr(instructions, &**condition, arith);
                let exit_jump = instructions.len();
                instructions.push(Instruction::JumpIfFalse { offset: 0 });
                self.compile_stmts(instructions, body, arith);
                let continue_target = instructions.len();
                match increment {
                    Some(inc) => {
                        proof {
                            assert(opt_box_view(*increment) == Some(Box::new((**inc)@)));
                        }
                        self.compile_expr(instructions, &**inc, arith);
                    },
                    None => {},
                }
                let back = instructions.len() - loop_start + 1;
                instructions.push(Instruction::JumpBack { offset: back });
                let loop_end = instructions.len();
                Self::set_jump_if_false(instructions, exit_jump, loop_end.saturating_sub(exit_jump + 1));
                self.patch_breaks(instructions, loop_end);
                self.patch_continues(instructions, continue_target);
                instructions.push(Instruction::Line { line_num: *line });
            },
            _ => {},
        }
    }

    fn compile_for_in<F: Fn(NumOp, u64, u64) -> u64>(&mut self, instructions: &mut Vec<Instruction>, s: &Stmt, arith: &F)
        requires
            s is ForIn,
            arith_ok(*arith),
            stmt_ready(old(self)@, old(instructions)@, s@),
        ensures
            stmt_compiled(arith_of(*arith), old(self)@, old(instructions)@, s@, final(self)@, final(instructions)@),
        decreases s, 0nat,
    {
        match s {
            Stmt::ForIn { variable, iterable, body, line } => {
                proof {
                    lemma_enter_loop_below(self@, instructions@.len());
                }
                self.enter_loop();
                self.compile_expr(instructions, iterable, arith);
                instructions.push(Instruction::ForInInit);
                let var_slot = self.bind_new_slot(variable.id());
                let loop_start = instructions.len();
                instructions.push(Instruction::ForInNext { var_slot, end_offset: 0 });
                self.compile_stmts(instructions, body, arith);
                let back = instructions.len() - loop_start + 1;
                instructions.push(Instruction::JumpBack { offset: back });
                let loop_end = instructions.len();
                Self::set_for_in_end(instructions, loop_start, loop_end.saturating_sub(loop_start + 1));
                self.patch_breaks(instructions, loop_end);
                self.patch_continues(instructions, loop_start);
                instructions.push(Instruction::Line { line_num: *line });
            },
            _ => {},
        }
    }

    fn compile_function_decl<F: Fn(NumOp, u64, u64) -> u64>(&mut self, instructions: &mut Vec<Instruction>, s: &Stmt, arith: &F)
        requires
            (s is Function || s is AsyncFunction || s is Generator),
            arith_ok(*arith),
            stmt_ready(old(self)@, old(instructions)@, s@),
        ensures
            stmt_compiled(arith_of(*arith), old(self)@, old(instructions)@, s@, final(self)@, final(instructions)@),
        decreases s, 0nat,
    {
        match s {
            Stmt::Function { name, params, body, line } => {
                proof {
                    lemma_params_view(params@);
                }
                let ids = Self::param_ids(params);
                let defaults = Self::param_defaults(params);
                let f = self.compile_function(name.id(), copy_usizes(&ids), body, arith);
                let idx = self.functions.len();
                self.emit_function_value(instructions, f, Value::Function { name: idx, params: ids, default_params: defaults });
                let slot = self.bind_new_slot(name.id());
                instructions.push(Instruction::StoreLocal { slot });
                instructions.push(Instruction::Line { line_num: *line });
            },
            Stmt::AsyncFunction { name, params, body, line } => {
                proof {
                    lemma_params_view(params@);
                }
                let ids = Self::param_ids(params);
                let defaults = Self::param_defaults(params);
                let f = self.compile_function(name.id(), copy_usizes(&ids), body, arith);
                let idx = self.functions.len();
                self.emit_function_value(
                    instructions,
                    f,
                    Value::AsyncFunction { name: idx, params: ids, default_params: defaults },
                );
                let slot = self.bind_new_slot(name.id());
                instructions.push(Instruction::StoreLocal { slot });
                instructions.push(Instruction::Line { line_num: *line });
            },
            Stmt::Generator { name, params, body, line } => {
                proof {
                    lemma_params_view(params@);
                }
                let ids = Self::param_ids(params);
                let f = self.compile_function(name.id(), copy_usizes(&ids), body, arith);
                let idx = self.functions.len();
                self.emit_function_value(instructions, f, Value::Generator { name: idx, params: ids });
                let slot = self.bind_new_slot(name.id());
                instructions.push(Instruction::StoreLocal { slot });
                instructions.push(Instruction::Line { line_num: *line });
            },
            _ => {},
        }
    }

    fn compile_destructure<F: Fn(NumOp, u64, u64) -> u64>(&mut self, instructions: &mut Vec<Instruction>, s: &Stmt, arith: &F)
        requires
            s is Destructure,
            arith_ok(*arith),
            stmt_ready(old(self)@, old(instructions)@, s@),
        ensures
            stmt_compiled(arith_of(*arith), old(self)@, old(instructions)@, s@, final(self)@, final(instructions)@),
        decreases s, 0nat,
    {
        match s {
            Stmt::Destructure { names, initializer, line } => {
                self.compile_expr(instructions, initializer, arith);
                let tmp = self.take_slot();
                instructions.push(Instruction::StoreLocal { slot: tmp });
                let ghost st1 = self@;
                let ghost ins1 = instructions@;
                let ghost ar = arith_of(*arith);
                let mut i: usize = 0;
                proof {
                    assert(names@.take(0) =~= Seq::<InternedString>::empty());
                }
                while i < names.len()
                    invariant
                        i <= names@.len(),
                        arith_ok(*arith),
                        ar == arith_of(*arith),
                        (self@, instructions@) == comp_destructure(ar, st1, ins1, names@.take(i as int), tmp),
                        patches_below(self@, instructions@.len()),
                        instructions@.len() >= ins1.len(),
                        self@.slot_count + instructions@.len() <= st1.slot_count + ins1.len() + 5 * i,
                        st1.slot_count + ins1.len() + 16 * names@.len() + 14 <= usize::MAX,
                    decreases names.len() - i,
                {
                    proof {
                        assert(names@.take(i + 1).drop_last() =~= names@.take(i as int));
                    }
                    let slot = self.bind_new_slot(names[i].id());
                    instructions.push(Instruction::LoadLocal { slot: tmp });
                    let n = apply(arith, NumOp::FromUsize, i as u64, ZERO_BITS);
                    let ci = self.add_constant(Value::Number(n));
                    instructions.push(Instruction::LoadConstant { index: ci });
                    instructions.push(Instruction::IndexGet);
                    instructions.push(Instruction::StoreLocal { slot });
                    i += 1;
                }
                proof {
                    assert(names@.take(names@.len() as int) =~= names@);
                }
                instructions.push(Instruction::Line { line_num: *line });
            },
            _ => {},
        }
    }

    fn compile_import<F: Fn(NumOp, u64, u64) -> u64>(&mut self, instructions: &mut Vec<Instruction>, s: &Stmt, arith: &F)
        requires
            s is Import,
            arith_ok(*arith),
            stmt_ready(old(self)@, old(instructions)@, s@),
        ensures
            stmt_compiled(arith_of(*arith), old(self)@, old(instructions)@, s@, final(self)@, final(instructions)@),
        decreases s, 0nat,
    {
        match s {
            Stmt::Import { path, alias, line } => {
                let interned = self.string_interner.intern(path.as_str());
                instructions.push(Instruction::LoadGlobal { name: InternedString(interned) });
                match alias {
                    Some(a) => {
                        let slot = self.bind_new_slot(a.id());
                        instructions.push(Instruction::StoreLocal { slot });
                    },
                    None => {},
                }
                instructions.push(Instruction::Line { line_num: *line });
            },
            _ => {},
        }
    }

    fn compile_try<F: Fn(NumOp, u64, u64) -> u64>(&mut self, instructions: &mut Vec<Instruction>, s: &Stmt, arith: &F)
        requires
            s is Try,
            arith_ok(*arith),
            stmt_ready(old(self)@, old(instructions)@, s@),
        ensures
            stmt_compiled(arith_of(*arith), old(self)@, old(instructions)@, s@, final(self)@, final(instructions)@),
        decreases s, 0nat,
    {
        match s {
            Stmt::Try { body, catch_body, line, .. } => {
                self.compile_stmts(instructions, body, arith);
                let end_jump = instructions.len();
                instructions.push(Instruction::Jump { offset: 0 });
                let catch_start = instructions.len();
                Self::set_jump(instructions, end_jump, catch_start.saturating_sub(end_jump + 1));
                self.compile_stmts(instructions, catch_body, arith);
                instructions.push(Instruction::Line { line_num: *line });
            },
            _ => {},
        }
    }

    fn compile_jump_out<F: Fn(NumOp, u64, u64) -> u64>(&mut self, instructions: &mut Vec<Instruction>, s: &Stmt, arith: &F)
        requires
            (s is Break || s is Continue),
            arith_ok(*arith),
            stmt_ready(old(self)@, old(instructions)@, s@),
        ensures
            stmt_compiled(arith_of(*arith), old(self)@, old(instructions)@, s@, final(self)@, final(instructions)@),
        decreases s, 0nat,
    {
        match s {
            Stmt::Break => {
                let idx = instructions.len();
                instructions.push(Instruction::Jump { offset: 0 });
                match self.break_patches.pop() {
                    Some(mut patches) => {
                        patches.push(idx);
                        self.break_patches.push(patches);
                        proof {
                            assert(self@.breaks =~= old(self)@.breaks.drop_last().push(old(self)@.breaks.last().push(idx)));
                        }
                    },
                    None => {},
                }
            },
            Stmt::Continue => {
                let idx = instructions.len();
                instructions.push(Instruction::Jump { offset: 0 });
                match self.continue_patches.pop() {
                    Some(mut patches) => {
                        patches.push(idx);
                        self.continue_patches.push(patches);
                        proof {
                            assert(self@.continues =~= old(self)@.continues.drop_last().push(
                                old(self)@.continues.last().push(idx),
                            ));
                        }
                    },
                    None => {},
                }
            },
            _ => {},
        }
    }

    fn compile_class_decl<F: Fn(NumOp, u64, u64) -> u64>(&mut self, instructions: &mut Vec<Instruction>, s: &Stmt, arith: &F)
        requires
            s is Class,
            arith_ok(*arith),
            stmt_ready(old(self)@, old(instructions)@, s@),
        ensures
            stmt_compiled(arith_of(*arith), old(self)@, old(instructions)@, s@, final(self)@, final(instructions)@),
        decreases s, 0nat,
    {
        match s {
            Stmt::Class { name, methods, line, .. } => {
                self.compile_methods(instructions, methods, arith);
                proof {
                    lemma_entries_view(methods@);
                }
                instructions.push(Instruction::Class { name: *name, method_count: methods.len() });
                let slot = self.bind_new_slot(name.id());
                instructions.push(Instruction::StoreLocal { slot });
                instructions.push(Instruction::Line { line_num: *line });
            },
            _ => {},
        }
    }

    fn compile_null_coalesce_assign<F: Fn(NumOp, u64, u64) -> u64>(&mut self, instructions: &mut Vec<Instruction>, s: &Stmt, arith: &F)
        requires
            s is NullCoalesceAssign,
            arith_ok(*arith),
            stmt_ready(old(self)@, old(instructions)@, s@),
        ensures
            stmt_compiled(arith_of(*arith), old(self)@, old(instructions)@, s@, final(self)@, final(instructions)@),
        decreases s, 0nat,
    {
        match s {
            Stmt::NullCoalesceAssign { name, value, line } => {
                match self.local(name.id()) {
                    Some(slot) => {
                        instructions.push(Instruction::LoadLocal { slot });
                        instructions.push(Instruction::LoadNil);
                        instructions.push(Instruction::NotEqual);
                        let skip = instructions.len();
                        instructions.push(Instruction::JumpIfTrue { offset: 0 });
                        self.compile_expr(instructions, value, arith);
                        instructions.push(Instruction::StoreLocal { slot });
                        let end = instructions.len();
                        Self::set_jump_if_true(instructions, skip, end.saturating_sub(skip + 1));
                    },
                    None => {},
                }
                instructions.push(Instruction::Line { line_num: *line });
            },
            _ => {},
        }
    }

    /// Compiles a statement, appending its code to `instructions`.
    fn compile_stmt<F: Fn(NumOp, u64, u64) -> u64>(&mut self, instructions: &mut Vec<Instruction>, s: &Stmt, arith: &F)
        requires
            arith_ok(*arith),
            patches_below(old(self)@, old(instructions)@.len()),
            old(self)@.slot_count + old(instructions)@.len() + cstmt(s@) <= usize::MAX,
        ensures
            (final(self)@, final(instructions)@) == comp_stmt(arith_of(*arith), old(self)@, old(instructions)@, s@),
            patches_below(final(self)@, final(instructions)@.len()),
            final(instructions)@.len() >= old(instructions)@.len(),
            final(self)@.slot_count + final(instructions)@.len() <= old(self)@.slot_count + old(instructions)@.len() + cstmt(s@),
        decreases s, 1nat,
    {
        match s {
            Stmt::Declaration { name, initializer, line, .. } => {
                match initializer {
                    Some(e) => self.compile_expr(instructions, e, arith),
                    None => instructions.push(Instruction::LoadNil),
                }
                let slot = self.bind_new_slot(name.id());
                instructions.push(Instruction::StoreLocal { slot });
                instructions.push(Instruction::Line { line_num: *line });
            },
            Stmt::Assignment { name, value, line, .. } => {
                self.compile_expr(instructions, value, arith);
                match self.local(name.id()) {
                    Some(slot) => instructions.push(Instruction::StoreLocal { slot }),
                    None => instructions.push(Instruction::StoreGlobal { name: *name }),
                }
                instructions.push(Instruction::Line { line_num: *line });
            },
            Stmt::Expression(e) => {
                self.compile_expr(instructions, e, arith);
            },
            Stmt::If { .. } => self.compile_if(instructions, s, arith),
            Stmt::While { .. } => self.compile_while(instructions, s, arith),
            Stmt::For { .. } => self.compile_for(instructions, s, arith),
            Stmt::ForIn { .. } => self.compile_for_in(instructions, s, arith),
            Stmt::Function { .. } => self.compile_function_decl(instructions, s, arith),
            Stmt::AsyncFunction { .. } => self.compile_function_decl(instructions, s, arith),
            Stmt::Generator { .. } => self.compile_function_decl(instructions, s, arith),
            Stmt::Return(e) => {
                match e {
                    Some(x) => {
                        self.compile_expr(instructions, x, arith);
                        instructions.push(Instruction::Return);
                    },
                    None => instructions.push(Instruction::ReturnNil),
                }
            },
            Stmt::ReturnMulti(values) => {
                proof {
                    crate::ast::lemma_exprs_view_len(values@);
                }
                instructions.push(Instruction::NewArray { capacity: values.len() });
                self.compile_pushed_items(instructions, values, arith);
                instructions.push(Instruction::Return);
            },
            Stmt::Block(stmts) => self.compile_stmts(instructions, stmts, arith),
            Stmt::Destructure { .. } => self.compile_destructure(instructions, s, arith),
            Stmt::Import { .. } => self.compile_import(instructions, s, arith),
            Stmt::Throw { value, line } => {
                self.compile_expr(instructions, value, arith);
                instructions.push(Instruction::Line { line_num: *line });
            },
            Stmt::Try { .. } => self.compile_try(instructions, s, arith),
            Stmt::Break => self.compile_jump_out(instructions, s, arith),
            Stmt::Continue => self.compile_jump_out(instructions, s, arith),
            Stmt::Class { .. } => self.compile_class_decl(instructions, s, arith),
            Stmt::Export { name, value, line } => {
                self.compile_expr(instructions, value, arith);
                instructions.push(Instruction::Export { name: *name });
                let slot = self.bind_new_slot(name.id());
                instructions.push(Instruction::StoreLocal { slot });
                instructions.push(Instruction::Line { line_num: *line });
            },
            Stmt::PropertySet { object, name, value, line } => {
                self.compile_expr(instructions, &**object, arith);
                self.compile_expr(instructions, value, arith);
                instructions.push(Instruction::PropertySet { name: *name });
                instructions.push(Instruction::Line { line_num: *line });
            },
            Stmt::NullCoalesceAssign { .. } => self.compile_null_coalesce_assign(instructions, s, arith),
        }
    }
}

impl Compiler {
    /// Compiles a program: its top-level statements become the main
    /// function, named 0, which the program holds together with every
    /// function compiled on the way and the interned strings.  `arith` is
    /// the arithmetic on numbers (it converts destructuring positions to
    /// numbers).
    pub fn compile<F: Fn(NumOp, u64, u64) -> u64>(self, program: Program, arith: &F) -> (r: BytecodeProgram)
        requires
            arith_ok(*arith),
            cstmts(program@) < usize::MAX,
        ensures
            r@ == compile_program(arith_of(*arith), self@, program@),
    {
        let mut this = self;
        let main_name: usize = 0;
        let no_params: Vec<usize> = Vec::new();
        proof {
            assert(no_params@ =~= Seq::<usize>::empty());
        }
        let main = this.compile_function(main_name, no_params, &program.statements, arith);
        BytecodeProgram { functions: this.functions, main, string_interner: this.string_interner }
    }
}

impl Default for Compiler {
    fn default() -> (r: Self)
        ensures
            r@ == initial_state(),
    {
        Self::new()
    }
}

} // verus!

//! Laws of the compiler: compiling never changes a function compiled
//! before, and every function it compiles is well formed: its code ends
//! with `ReturnNil`, loads only constants that the function has, every jump
//! lands inside it, and every function value among its constants names a
//! function compiled before it.  A statement leaves the code before it
//! unchanged and adds only pending jumps of its own; a declaration binds its
//! name to the next free slot.
use vstd::prelude::*;
use crate::ast::{InternedString, SpecExpr, SpecStmt};
use crate::bytecode::{Instruction, SpecFunction};
use crate::compiler::{
    patch_all, point_jump, patch_breaks, patch_continues, patches_below, sat_sub, set_for_in_end, set_jump, set_jump_if_false,
    set_jump_if_true, lemma_enter_loop_below, add_constant, bind_new_slot, take_slot, comp_destructure, comp_expr, comp_exprs, comp_function, comp_function_returning, comp_methods,
    comp_parts, comp_pushed_items, comp_stmt, comp_stmts, comp_table_entries, compile_program, enter_loop,
    param_ids, CompState,
};
use crate::heap_laws::values_ok;
use crate::number::Arith;
use crate::value::SpecValue;
use crate::machine::{exec_next, values_equal, VmState};

verus! {

/// The function's code ends with `ReturnNil`.
pub open spec fn ends_with_return(f: SpecFunction) -> bool {
    f.instructions.len() > 0 && f.instructions.last() == Instruction::ReturnNil
}

/// Every `LoadConstant` of the code names one of the first `n` constants.
pub open spec fn constants_in_range(ins: Seq<Instruction>, n: nat) -> bool {
    forall|i: int| 0 <= i < ins.len() ==> (#[trigger] ins[i] matches Instruction::LoadConstant { index } ==> index < n)
}

/// The instruction at position `i` of code of length `len`, if it jumps,
/// lands inside the code: at most at its end.
pub open spec fn jump_lands(x: Instruction, i: int, len: int) -> bool {
    match x {
        Instruction::Jump { offset } => i + 1 + offset <= len,
        Instruction::JumpIfFalse { offset } => i + 1 + offset <= len,
        Instruction::JumpIfTrue { offset } => i + 1 + offset <= len,
        Instruction::ForInNext { end_offset, .. } => i + 1 + end_offset <= len,
        Instruction::JumpBack { offset } => offset <= i + 1,
        _ => true,
    }
}

/// Every jump of the code lands inside it.
pub open spec fn jumps_in_range(ins: Seq<Instruction>) -> bool {
    forall|i: int| #![trigger ins[i]] 0 <= i < ins.len() ==> jump_lands(ins[i], i, ins.len() as int)
}

/// A compiled function ends with `ReturnNil`, loads only constants that it
/// has, its jumps land inside its code, and none of its constants is an
/// array or a table.
pub open spec fn well_formed_function(f: SpecFunction) -> bool {
    &&& ends_with_return(f)
    &&& constants_in_range(f.instructions, f.constants.len())
    &&& jumps_in_range(f.instructions)
    &&& values_ok(0, 0, f.constants)
}

/// A function value names one of the first `n` functions; any other value
/// names none.
pub open spec fn names_function_below(n: nat, v: SpecValue) -> bool {
    match v {
        SpecValue::Function { name, .. } => name < n,
        SpecValue::AsyncFunction { name, .. } => name < n,
        SpecValue::Generator { name, .. } => name < n,
        _ => true,
    }
}

/// Every function value among `vs` names one of the first `n` functions.
pub open spec fn constants_name_functions(n: nat, vs: Seq<SpecValue>) -> bool {
    forall|i: int| 0 <= i < vs.len() ==> names_function_below(n, #[trigger] vs[i])
}

/// `b` holds the functions of `a` unchanged, followed only by well-formed
/// functions whose function constants name functions before them.
pub open spec fn keeps_functions(a: Seq<SpecFunction>, b: Seq<SpecFunction>) -> bool {
    &&& a.len() <= b.len()
    &&& forall|i: int| 0 <= i < a.len() ==> #[trigger] b[i] == a[i]
    &&& forall|i: int| a.len() <= i < b.len() ==> well_formed_function(#[trigger] b[i])
    &&& forall|i: int| a.len() <= i < b.len() ==> constants_name_functions(i as nat, (#[trigger] b[i]).constants)
}

/// The code of the function being compiled loads only constants that it
/// has, and its pending jumps lie in the code.
pub open spec fn code_ok(st: CompState, ins: Seq<Instruction>) -> bool {
    &&& patches_below(st, ins.len())
    &&& constants_in_range(ins, st.constants.len())
    &&& jumps_in_range(ins)
    &&& values_ok(0, 0, st.constants)
    &&& constants_name_functions(st.functions.len(), st.constants)
}

/// `ins2` begins with `ins`, unchanged.
pub open spec fn extends(ins: Seq<Instruction>, ins2: Seq<Instruction>) -> bool {
    &&& ins.len() <= ins2.len()
    &&& forall|i: int| 0 <= i < ins.len() ==> #[trigger] ins2[i] == ins[i]
}

/// The list `b` of pending jumps is `a` followed by jumps at or after `n`.
pub open spec fn grows_from(a: Seq<usize>, b: Seq<usize>, n: nat) -> bool {
    &&& a.len() <= b.len()
    &&& forall|j: int| 0 <= j < a.len() ==> #[trigger] b[j] == a[j]
    &&& forall|j: int| a.len() <= j < b.len() ==> #[trigger] b[j] >= n
}

/// The pending jumps of `st2` are those of `st`, in as many lists, each
/// extended only by jumps at or after `n`.
pub open spec fn pending_grow(st: CompState, st2: CompState, n: nat) -> bool {
    &&& st2.breaks.len() == st.breaks.len()
    &&& st2.continues.len() == st.continues.len()
    &&& forall|k: int| 0 <= k < st.breaks.len() ==> #[trigger] grows_from(st.breaks[k], st2.breaks[k], n)
    &&& forall|k: int| 0 <= k < st.continues.len() ==> #[trigger] grows_from(st.continues[k], st2.continues[k], n)
}

/// A compilation step from `(st, ins)` to `(st2, ins2)` keeps the earlier
/// functions, adds only well-formed ones, keeps the code well-formed, only
/// extends it and the constants, and, where the code's positions fit in a
/// `usize`, leaves the code before it unchanged and adds to the pending
/// jumps only jumps of its own.
pub open spec fn step_ok(st: CompState, ins: Seq<Instruction>, st2: CompState, ins2: Seq<Instruction>) -> bool {
    &&& keeps_functions(st.functions, st2.functions)
    &&& code_ok(st2, ins2)
    &&& ins2.len() >= ins.len()
    &&& st2.constants.len() >= st.constants.len()
    &&& ins2.len() <= usize::MAX ==> extends(ins, ins2) && pending_grow(st, st2, ins.len())
}

proof fn lemma_keeps_trans(a: Seq<SpecFunction>, b: Seq<SpecFunction>, c: Seq<SpecFunction>)
    requires
        keeps_functions(a, b),
        keeps_functions(b, c),
    ensures
        keeps_functions(a, c),
{
    assert forall|i: int| a.len() <= i < c.len() implies well_formed_function(#[trigger] c[i]) by {
        if i < b.len() {
            assert(c[i] == b[i]);
        }
    }
    assert forall|i: int| a.len() <= i < c.len() implies constants_name_functions(i as nat, (#[trigger] c[i]).constants) by {
        if i < b.len() {
            assert(c[i] == b[i]);
        }
    }
    assert forall|i: int| 0 <= i < a.len() implies #[trigger] c[i] == a[i] by {
        assert(c[i] == b[i]);
    }
}

proof fn lemma_step_trans(
    st: CompState,
    ins: Seq<Instruction>,
    st2: CompState,
    ins2: Seq<Instruction>,
    st3: CompState,
    ins3: Seq<Instruction>,
)
    requires
        step_ok(st, ins, st2, ins2),
        step_ok(st2, ins2, st3, ins3),
    ensures
        step_ok(st, ins, st3, ins3),
{
    lemma_keeps_trans(st.functions, st2.functions, st3.functions);
    if ins3.len() > usize::MAX {
        return;
    }
    assert forall|k: int| 0 <= k < st.breaks.len() implies #[trigger] grows_from(st.breaks[k], st3.breaks[k], ins.len()) by {
        assert(grows_from(st.breaks[k], st2.breaks[k], ins.len()));
        assert(grows_from(st2.breaks[k], st3.breaks[k], ins2.len()));
        let (a, b, c) = (st.breaks[k], st2.breaks[k], st3.breaks[k]);
        assert forall|j: int| a.len() <= j < c.len() implies #[trigger] c[j] >= ins.len() by {
            if j < b.len() {
                assert(c[j] == b[j]);
            }
        }
        assert forall|j: int| 0 <= j < a.len() implies #[trigger] c[j] == a[j] by {
            assert(c[j] == b[j]);
        }
    }
    assert forall|k: int| 0 <= k < st.continues.len() implies #[trigger] grows_from(
        st.continues[k],
        st3.continues[k],
        ins.len(),
    ) by {
        assert(grows_from(st.continues[k], st2.continues[k], ins.len()));
        assert(grows_from(st2.continues[k], st3.continues[k], ins2.len()));
        let (a, b, c) = (st.continues[k], st2.continues[k], st3.continues[k]);
        assert forall|j: int| a.len() <= j < c.len() implies #[trigger] c[j] >= ins.len() by {
            if j < b.len() {
                assert(c[j] == b[j]);
            }
        }
        assert forall|j: int| 0 <= j < a.len() implies #[trigger] c[j] == a[j] by {
            assert(c[j] == b[j]);
        }
    }
    assert forall|i: int| 0 <= i < ins.len() implies #[trigger] ins3[i] == ins[i] by {
        assert(ins3[i] == ins2[i]);
    }
}

/// Unchanged pending jumps grow from themselves.
proof fn lemma_same_pending(st: CompState, st2: CompState, n: nat)
    requires
        st2.breaks == st.breaks,
        st2.continues == st.continues,
    ensures
        pending_grow(st, st2, n),
{
    assert forall|k: int| 0 <= k < st.breaks.len() implies #[trigger] grows_from(st.breaks[k], st2.breaks[k], n) by {}
    assert forall|k: int| 0 <= k < st.continues.len() implies #[trigger] grows_from(st.continues[k], st2.continues[k], n) by {}
}

/// Adding a pending jump at `idx`, at or after `n`, to the innermost list.
proof fn lemma_add_pending(lists: Seq<Seq<usize>>, idx: usize, n: nat)
    requires
        lists.len() > 0,
        idx >= n,
    ensures
        forall|k: int|
            0 <= k < lists.len() ==> #[trigger] grows_from(lists[k], lists.drop_last().push(lists.last().push(idx))[k], n),
{
    let l2 = lists.drop_last().push(lists.last().push(idx));
    assert forall|k: int| 0 <= k < lists.len() implies #[trigger] grows_from(lists[k], l2[k], n) by {
        if k < lists.len() - 1 {
            assert(l2[k] == lists[k]);
        } else {
            assert(l2[k] == lists.last().push(idx));
        }
    }
}

/// Patching jumps at positions at or after `ins.len()` leaves `ins` in place.
proof fn lemma_patch_all_extends(ins: Seq<Instruction>, ins2: Seq<Instruction>, idxs: Seq<usize>, target: int)
    requires
        extends(ins, ins2),
        forall|j: int| 0 <= j < idxs.len() ==> ins.len() <= #[trigger] idxs[j] < ins2.len(),
    ensures
        extends(ins, patch_all(ins2, idxs, target)),
        patch_all(ins2, idxs, target).len() == ins2.len(),
    decreases idxs.len(),
{
    if idxs.len() > 0 {
        let d = idxs.drop_last();
        assert forall|j: int| 0 <= j < d.len() implies ins.len() <= #[trigger] d[j] < ins2.len() by {
            assert(d[j] == idxs[j]);
        }
        lemma_patch_all_extends(ins, ins2, d, target);
        let p = patch_all(ins2, d, target);
        let last = idxs[idxs.len() - 1] as int;
        let q = point_jump(p, last, target);
        assert forall|i: int| 0 <= i < ins.len() implies #[trigger] q[i] == ins[i] by {
            assert(q[i] == p[i]);
        }
    }
}

/// Closing a loop opened on `(st0, ins0)`: patching the loop's own pending
/// jumps, all at or after `ins0.len()`, leaves `ins0` in place, and the
/// pending jumps are again those of `st0`, extended by later jumps only.
proof fn lemma_close_loop(st0: CompState, ins0: Seq<Instruction>, st: CompState, ins: Seq<Instruction>, end: int, start: int)
    requires
        pending_grow(enter_loop(st0), st, ins0.len()),
        extends(ins0, ins),
        patches_below(st, ins.len()),
    ensures
        ({
            let (s1, i1) = patch_breaks(st, ins, end);
            let (s2, i2) = patch_continues(s1, i1, start);
            &&& extends(ins0, i2)
            &&& pending_grow(st0, s2, ins0.len())
        }),
{
    let e = enter_loop(st0);
    let nb = st0.breaks.len() as int;
    let nc = st0.continues.len() as int;
    assert(grows_from(e.breaks[nb], st.breaks[nb], ins0.len()));
    assert(grows_from(e.continues[nc], st.continues[nc], ins0.len()));
    let b = st.breaks.last();
    assert forall|j: int| 0 <= j < b.len() implies ins0.len() <= #[trigger] b[j] < ins.len() by {
        assert(st.breaks[st.breaks.len() - 1][j] < ins.len());
    }
    lemma_patch_all_extends(ins0, ins, b, end);
    let (s1, i1) = patch_breaks(st, ins, end);
    let c = s1.continues.last();
    assert forall|j: int| 0 <= j < c.len() implies ins0.len() <= #[trigger] c[j] < i1.len() by {
        assert(st.continues[st.continues.len() - 1][j] < ins.len());
    }
    lemma_patch_all_extends(ins0, i1, c, start);
    let (s2, i2) = patch_continues(s1, i1, start);
    assert forall|k: int| 0 <= k < st0.breaks.len() implies #[trigger] grows_from(st0.breaks[k], s2.breaks[k], ins0.len()) by {
        assert(e.breaks[k] == st0.breaks[k]);
        assert(grows_from(e.breaks[k], st.breaks[k], ins0.len()));
        assert(s2.breaks[k] == st.breaks[k]);
    }
    assert forall|k: int| 0 <= k < st0.continues.len() implies #[trigger] grows_from(
        st0.continues[k],
        s2.continues[k],
        ins0.len(),
    ) by {
        assert(e.continues[k] == st0.continues[k]);
        assert(grows_from(e.continues[k], st.continues[k], ins0.len()));
        assert(s2.continues[k] == st.continues[k]);
    }
}

/// Pointing a jump at `target`, inside the code, keeps the code well-formed.
proof fn lemma_set_jumps(ins: Seq<Instruction>, idx: int, target: int, n: nat)
    requires
        constants_in_range(ins, n),
        jumps_in_range(ins),
        0 <= idx < ins.len(),
        target <= ins.len(),
    ensures
        ({
            let off = sat_sub(target, idx + 1);
            &&& constants_in_range(set_jump(ins, idx, off), n)
            &&& constants_in_range(set_jump_if_false(ins, idx, off), n)
            &&& constants_in_range(set_jump_if_true(ins, idx, off), n)
            &&& constants_in_range(set_for_in_end(ins, idx, off), n)
            &&& jumps_in_range(set_jump(ins, idx, off))
            &&& jumps_in_range(set_jump_if_false(ins, idx, off))
            &&& jumps_in_range(set_jump_if_true(ins, idx, off))
            &&& jumps_in_range(set_for_in_end(ins, idx, off))
            &&& set_jump(ins, idx, off).len() == ins.len()
            &&& set_jump_if_false(ins, idx, off).len() == ins.len()
            &&& set_jump_if_true(ins, idx, off).len() == ins.len()
            &&& set_for_in_end(ins, idx, off).len() == ins.len()
        }),
{
    let off = sat_sub(target, idx + 1);
    assert(idx + 1 + off <= ins.len());
}

/// Pointing a pending jump at `target`, inside the code, forward or back,
/// keeps the code well-formed.
proof fn lemma_point_jump(ins: Seq<Instruction>, idx: int, target: int, n: nat)
    requires
        constants_in_range(ins, n),
        jumps_in_range(ins),
        0 <= idx < ins.len(),
        0 <= target <= ins.len(),
    ensures
        constants_in_range(point_jump(ins, idx, target), n),
        jumps_in_range(point_jump(ins, idx, target)),
        point_jump(ins, idx, target).len() == ins.len(),
{
    if target >= idx + 1 {
        assert(sat_sub(target, idx + 1) == (target - (idx + 1)) as usize);
        lemma_set_jumps(ins, idx, target, n);
    } else {
        let p = point_jump(ins, idx, target);
        assert forall|i: int| #![trigger p[i]] 0 <= i < p.len() implies jump_lands(p[i], i, p.len() as int) by {
            if i != idx {
                assert(p[i] == ins[i]);
            }
        }
        assert forall|i: int| 0 <= i < p.len() implies (#[trigger] p[i] matches Instruction::LoadConstant { index } ==> index < n) by {
            if i != idx {
                assert(p[i] == ins[i]);
            }
        }
    }
}

/// Patching pending jumps to `target`, inside the code, keeps the code
/// well-formed.
proof fn lemma_patch_all(ins: Seq<Instruction>, idxs: Seq<usize>, target: int, n: nat)
    requires
        constants_in_range(ins, n),
        jumps_in_range(ins),
        0 <= target <= ins.len(),
        forall|j: int| 0 <= j < idxs.len() ==> #[trigger] idxs[j] < ins.len(),
    ensures
        constants_in_range(patch_all(ins, idxs, target), n),
        jumps_in_range(patch_all(ins, idxs, target)),
        patch_all(ins, idxs, target).len() == ins.len(),
    decreases idxs.len(),
{
    if idxs.len() > 0 {
        let d = idxs.drop_last();
        assert forall|j: int| 0 <= j < d.len() implies #[trigger] d[j] < ins.len() by {
            assert(d[j] == idxs[j]);
        }
        lemma_patch_all(ins, d, target, n);
        let last = idxs[idxs.len() - 1];
        lemma_point_jump(patch_all(ins, d, target), last as int, target, n);
    }
}

/// Ending a loop: its pending jumps are patched and dropped.
proof fn lemma_end_loop(st: CompState, ins: Seq<Instruction>, end: int, start: int)
    requires
        code_ok(st, ins),
        0 <= end <= ins.len(),
        0 <= start <= ins.len(),
    ensures
        ({
            let (s1, i1) = patch_breaks(st, ins, end);
            let (s2, i2) = patch_continues(s1, i1, start);
            &&& code_ok(s2, i2)
            &&& i2.len() == ins.len()
            &&& s2.functions == st.functions
            &&& s2.constants == st.constants
        }),
{
    let (s1, i1) = patch_breaks(st, ins, end);
    if st.breaks.len() > 0 {
        let b = st.breaks.last();
        assert forall|j: int| 0 <= j < b.len() implies #[trigger] b[j] < ins.len() by {
            assert(st.breaks[st.breaks.len() - 1][j] < ins.len());
        }
        lemma_patch_all(ins, b, end, st.constants.len());
        assert forall|i: int, j: int| 0 <= i < s1.breaks.len() && 0 <= j < s1.breaks[i].len() implies #[trigger] s1.breaks[i][j]
            < i1.len() by {
            assert(s1.breaks[i] == st.breaks[i]);
        }
    }
    if s1.continues.len() > 0 {
        let c = s1.continues.last();
        assert forall|j: int| 0 <= j < c.len() implies #[trigger] c[j] < i1.len() by {
            assert(s1.continues[s1.continues.len() - 1][j] < i1.len());
        }
        lemma_patch_all(i1, c, start, st.constants.len());
        let (s2, i2) = patch_continues(s1, i1, start);
        assert forall|i: int, j: int|
            0 <= i < s2.continues.len() && 0 <= j < s2.continues[i].len() implies #[trigger] s2.continues[i][j]
            < i2.len() by {
            assert(s2.continues[i] == s1.continues[i]);
        }
    }
}

proof fn lemma_function(ar: Arith, st: CompState, name: usize, params: Seq<usize>, body: Seq<SpecStmt>)
    ensures
        keeps_functions(st.functions, comp_function(ar, st, name, params, body).0.functions),
        well_formed_function(comp_function(ar, st, name, params, body).1),
        constants_name_functions(
            comp_function(ar, st, name, params, body).0.functions.len(),
            comp_function(ar, st, name, params, body).1.constants,
        ),
    decreases body, 1nat,
{
    let fresh = CompState {
        locals: crate::compiler::param_locals(params),
        slot_count: params.len(),
        max_slots: 0,
        constants: Seq::empty(),
        breaks: Seq::empty(),
        continues: Seq::empty(),
        ..st
    };
    lemma_stmts(ar, fresh, Seq::empty(), body);
}

proof fn lemma_function_returning(ar: Arith, st: CompState, name: usize, params: Seq<usize>, body: SpecExpr)
    ensures
        keeps_functions(st.functions, comp_function_returning(ar, st, name, params, body).0.functions),
        well_formed_function(comp_function_returning(ar, st, name, params, body).1),
        constants_name_functions(
            comp_function_returning(ar, st, name, params, body).0.functions.len(),
            comp_function_returning(ar, st, name, params, body).1.constants,
        ),
    decreases body, 1nat,
{
    let fresh = CompState {
        locals: crate::compiler::param_locals(params),
        slot_count: params.len(),
        max_slots: 0,
        constants: Seq::empty(),
        breaks: Seq::empty(),
        continues: Seq::empty(),
        ..st
    };
    lemma_expr(ar, fresh, Seq::empty(), body);
}

/// A function literal: the function is compiled, then registered last.
proof fn lemma_literal(
    ar: Arith,
    st: CompState,
    name: usize,
    params: Seq<(InternedString, Option<SpecExpr>)>,
    body: Seq<SpecStmt>,
)
    ensures
        ({
            let (s1, f) = comp_function(ar, st, name, param_ids(params), body);
            &&& keeps_functions(st.functions, s1.functions.push(f))
            &&& s1.constants == st.constants
            &&& s1.breaks == st.breaks
            &&& s1.continues == st.continues
        }),
    decreases body, 2nat,
{
    let (s1, f) = comp_function(ar, st, name, param_ids(params), body);
    lemma_function(ar, st, name, param_ids(params), body);
    lemma_keeps_trans(st.functions, s1.functions, s1.functions.push(f));
}

proof fn lemma_expr(ar: Arith, st: CompState, ins: Seq<Instruction>, e: SpecExpr)
    requires
        code_ok(st, ins),
    ensures
        step_ok(st, ins, comp_expr(ar, st, ins, e).0, comp_expr(ar, st, ins, e).1),
    decreases e, 0nat,
{
    match e {
        SpecExpr::Binary { left, right, .. } => {
            let (s1, i1) = comp_expr(ar, st, ins, *left);
            lemma_expr(ar, st, ins, *left);
            lemma_expr(ar, s1, i1, *right);
            let (s2, i2) = comp_expr(ar, s1, i1, *right);
            lemma_step_trans(st, ins, s1, i1, s2, i2);
        },
        SpecExpr::Unary { expr, .. } => lemma_expr(ar, st, ins, *expr),
        SpecExpr::Call { callee, arguments, .. } => match *callee {
            SpecExpr::Get { object, .. } => {
                let (s1, i1) = comp_expr(ar, st, ins, *object);
                lemma_expr(ar, st, ins, *object);
                let i1t = i1.push(Instruction::This);
                let (s2, i2) = comp_exprs(ar, s1, i1t, arguments);
                lemma_exprs(ar, s1, i1t, arguments);
                lemma_step_trans(st, ins, s1, i1t, s2, i2);
                lemma_expr(ar, s2, i2, *callee);
                let (s3, i3) = comp_expr(ar, s2, i2, *callee);
                lemma_step_trans(st, ins, s2, i2, s3, i3);
            },
            _ => {
                let (s1, i1) = comp_exprs(ar, st, ins, arguments);
                lemma_exprs(ar, st, ins, arguments);
                lemma_expr(ar, s1, i1, *callee);
                let (s2, i2) = comp_expr(ar, s1, i1, *callee);
                lemma_step_trans(st, ins, s1, i1, s2, i2);
            },
        },
        SpecExpr::Table { entries, .. } => {
            let i1 = ins.push(Instruction::NewTable);
            lemma_table_entries(ar, st, i1, entries);
            assert(step_ok(st, ins, st, i1));
            let (s2, i2) = comp_table_entries(ar, st, i1, entries);
            lemma_step_trans(st, ins, st, i1, s2, i2);
        },
        SpecExpr::Array { items, .. } => {
            let i1 = ins.push(Instruction::NewArray { capacity: items.len() as usize });
            lemma_pushed_items(ar, st, i1, items);
            assert(step_ok(st, ins, st, i1));
            let (s2, i2) = comp_pushed_items(ar, st, i1, items);
            lemma_step_trans(st, ins, st, i1, s2, i2);
        },
        SpecExpr::Index { object, index, .. } => {
            let (s1, i1) = comp_expr(ar, st, ins, *object);
            lemma_expr(ar, st, ins, *object);
            lemma_expr(ar, s1, i1, *index);
            let (s2, i2) = comp_expr(ar, s1, i1, *index);
            lemma_step_trans(st, ins, s1, i1, s2, i2);
        },
        SpecExpr::SetIndex { object, index, value, .. } => {
            let (s1, i1) = comp_expr(ar, st, ins, *object);
            let (s2, i2) = comp_expr(ar, s1, i1, *index);
            let (s3, i3) = comp_expr(ar, s2, i2, *value);
            lemma_expr(ar, st, ins, *object);
            lemma_expr(ar, s1, i1, *index);
            lemma_expr(ar, s2, i2, *value);
            lemma_step_trans(st, ins, s1, i1, s2, i2);
            lemma_step_trans(st, ins, s2, i2, s3, i3);
        },
        SpecExpr::Get { object, .. } => lemma_expr(ar, st, ins, *object),
        SpecExpr::SetProperty { object, value, .. } => {
            let (s1, i1) = comp_expr(ar, st, ins, *object);
            lemma_expr(ar, st, ins, *object);
            lemma_expr(ar, s1, i1, *value);
            let (s2, i2) = comp_expr(ar, s1, i1, *value);
            lemma_step_trans(st, ins, s1, i1, s2, i2);
        },
        SpecExpr::SafeGet { object, .. } => lemma_expr(ar, st, ins, *object),
        SpecExpr::Range { start, end, .. } => {
            let (s1, i1) = comp_expr(ar, st, ins, *start);
            lemma_expr(ar, st, ins, *start);
            lemma_expr(ar, s1, i1, *end);
            let (s2, i2) = comp_expr(ar, s1, i1, *end);
            lemma_step_trans(st, ins, s1, i1, s2, i2);
        },
        SpecExpr::Length { expr, .. } => lemma_expr(ar, st, ins, *expr),
        SpecExpr::Throw { expr, .. } => lemma_expr(ar, st, ins, *expr),
        SpecExpr::FunctionLiteral { params, body, .. } => lemma_literal(ar, st, 0, params, body),
        SpecExpr::Lambda { params, body, .. } => {
            let (s1, f) = comp_function_returning(ar, st, 0, param_ids(params), *body);
            lemma_function_returning(ar, st, 0, param_ids(params), *body);
            lemma_keeps_trans(st.functions, s1.functions, s1.functions.push(f));
            assert(s1.breaks == st.breaks && s1.continues == st.continues);
        },
        SpecExpr::Spread { expr, .. } => lemma_expr(ar, st, ins, *expr),
        SpecExpr::NullCoalesce { left, right, .. } => {
            let (s1, i1) = comp_expr(ar, st, ins, *left);
            lemma_expr(ar, st, ins, *left);
            lemma_expr(ar, s1, i1, *right);
            let (s2, i2) = comp_expr(ar, s1, i1, *right);
            lemma_step_trans(st, ins, s1, i1, s2, i2);
        },
        SpecExpr::Match { value, .. } => lemma_expr(ar, st, ins, *value),
        SpecExpr::Export { value, .. } => lemma_expr(ar, st, ins, *value),
        SpecExpr::Class { methods, .. } => lemma_methods(ar, st, ins, methods),
        SpecExpr::NewInstance { arguments, .. } => lemma_exprs(ar, st, ins, arguments),
        SpecExpr::FString { parts, .. } => {
            let (s1, ci) = add_constant(st, SpecValue::String(Seq::empty()));
            let i1 = ins.push(Instruction::LoadConstant { index: ci });
            assert(step_ok(st, ins, s1, i1));
            lemma_parts(ar, s1, i1, parts);
            let (s2, i2) = comp_parts(ar, s1, i1, parts);
            lemma_step_trans(st, ins, s1, i1, s2, i2);
        },
        SpecExpr::SetLiteral { items, .. } => {
            let i1 = ins.push(Instruction::NewTable);
            lemma_pushed_items(ar, st, i1, items);
            assert(step_ok(st, ins, st, i1));
            let (s2, i2) = comp_pushed_items(ar, st, i1, items);
            lemma_step_trans(st, ins, st, i1, s2, i2);
        },
        SpecExpr::AsyncFunctionLiteral { params, body, .. } => lemma_literal(ar, st, 0, params, body),
        SpecExpr::GeneratorLiteral { params, body, .. } => lemma_literal(ar, st, 0, params, body),
        SpecExpr::Await { future, .. } => lemma_expr(ar, st, ins, *future),
        SpecExpr::Yield { value, .. } => match value {
            Some(v) => lemma_expr(ar, st, ins, *v),
            None => {},
        },
        _ => {},
    }
    let (sr, ir) = comp_expr(ar, st, ins, e);
    if sr.breaks == st.breaks && sr.continues == st.continues {
        lemma_same_pending(st, sr, ins.len());
    }
}

proof fn lemma_exprs(ar: Arith, st: CompState, ins: Seq<Instruction>, s: Seq<SpecExpr>)
    requires
        code_ok(st, ins),
    ensures
        step_ok(st, ins, comp_exprs(ar, st, ins, s).0, comp_exprs(ar, st, ins, s).1),
    decreases s, 0nat,
{
    if s.len() > 0 {
        let (s1, i1) = comp_exprs(ar, st, ins, s.drop_last());
        lemma_exprs(ar, st, ins, s.drop_last());
        lemma_expr(ar, s1, i1, s.last());
        let (s2, i2) = comp_expr(ar, s1, i1, s.last());
        lemma_step_trans(st, ins, s1, i1, s2, i2);
    }
}

proof fn lemma_pushed_items(ar: Arith, st: CompState, ins: Seq<Instruction>, s: Seq<SpecExpr>)
    requires
        code_ok(st, ins),
    ensures
        step_ok(st, ins, comp_pushed_items(ar, st, ins, s).0, comp_pushed_items(ar, st, ins, s).1),
    decreases s, 0nat,
{
    if s.len() > 0 {
        let (s1, i1) = comp_pushed_items(ar, st, ins, s.drop_last());
        lemma_pushed_items(ar, st, ins, s.drop_last());
        lemma_expr(ar, s1, i1, s.last());
        let (s2, i2) = comp_expr(ar, s1, i1, s.last());
        lemma_step_trans(st, ins, s1, i1, s2, i2);
    }
}

proof fn lemma_table_entries(ar: Arith, st: CompState, ins: Seq<Instruction>, s: Seq<(InternedString, SpecExpr)>)
    requires
        code_ok(st, ins),
    ensures
        step_ok(st, ins, comp_table_entries(ar, st, ins, s).0, comp_table_entries(ar, st, ins, s).1),
    decreases s, 0nat,
{
    if s.len() > 0 {
        let (s1, i1) = comp_table_entries(ar, st, ins, s.drop_last());
        lemma_table_entries(ar, st, ins, s.drop_last());
        lemma_expr(ar, s1, i1, s.last().1);
        let (s2, i2) = comp_expr(ar, s1, i1, s.last().1);
        lemma_step_trans(st, ins, s1, i1, s2, i2);
    }
}

proof fn lemma_methods(ar: Arith, st: CompState, ins: Seq<Instruction>, s: Seq<(InternedString, SpecExpr)>)
    requires
        code_ok(st, ins),
    ensures
        step_ok(st, ins, comp_methods(ar, st, ins, s).0, comp_methods(ar, st, ins, s).1),
    decreases s, 0nat,
{
    if s.len() > 0 {
        let (s1, i1) = comp_methods(ar, st, ins, s.drop_last());
        lemma_methods(ar, st, ins, s.drop_last());
        let (s2, ci) = crate::compiler::add_constant(
            s1,
            crate::value::SpecValue::Number(
                ar(crate::number::NumOp::FromUsize, s.last().0.0 as u64, crate::number::ZERO_BITS),
            ),
        );
        let i2 = i1.push(Instruction::LoadConstant { index: ci });
        assert(step_ok(st, ins, s2, i2));
        lemma_expr(ar, s2, i2, s.last().1);
        let (s3, i3) = comp_expr(ar, s2, i2, s.last().1);
        lemma_step_trans(st, ins, s2, i2, s3, i3);
    }
}

proof fn lemma_parts(ar: Arith, st: CompState, ins: Seq<Instruction>, s: Seq<(Seq<char>, Option<SpecExpr>)>)
    requires
        code_ok(st, ins),
    ensures
        step_ok(st, ins, comp_parts(ar, st, ins, s).0, comp_parts(ar, st, ins, s).1),
    decreases s, 0nat,
{
    if s.len() > 0 {
        let (s1, i1) = comp_parts(ar, st, ins, s.drop_last());
        lemma_parts(ar, st, ins, s.drop_last());
        let (s2, ci) = add_constant(s1, SpecValue::String(s.last().0));
        let i2 = i1.push(Instruction::LoadConstant { index: ci }).push(Instruction::Add);
        assert(step_ok(s1, i1, s2, i2));
        lemma_step_trans(st, ins, s1, i1, s2, i2);
        match s.last().1 {
            Some(e) => {
                lemma_expr(ar, s2, i2, e);
                let (s3, i3) = comp_expr(ar, s2, i2, e);
                lemma_step_trans(st, ins, s2, i2, s3, i3);
                let i4 = i3.push(Instruction::Stringify).push(Instruction::Add);
                assert(step_ok(s3, i3, s3, i4));
                lemma_step_trans(st, ins, s3, i3, s3, i4);
            },
            None => {},
        }
    }
}

proof fn lemma_destructure(ar: Arith, st: CompState, ins: Seq<Instruction>, names: Seq<InternedString>, src: usize)
    requires
        code_ok(st, ins),
    ensures
        step_ok(st, ins, comp_destructure(ar, st, ins, names, src).0, comp_destructure(ar, st, ins, names, src).1),
        comp_destructure(ar, st, ins, names, src).0.functions == st.functions,
        comp_destructure(ar, st, ins, names, src).0.breaks == st.breaks,
        comp_destructure(ar, st, ins, names, src).0.continues == st.continues,
    decreases names.len(),
{
    if names.len() > 0 {
        lemma_destructure(ar, st, ins, names.drop_last(), src);
    }
}

proof fn lemma_stmts(ar: Arith, st: CompState, ins: Seq<Instruction>, s: Seq<SpecStmt>)
    requires
        code_ok(st, ins),
    ensures
        step_ok(st, ins, comp_stmts(ar, st, ins, s).0, comp_stmts(ar, st, ins, s).1),
    decreases s, 0nat,
{
    if s.len() > 0 {
        let (s1, i1) = comp_stmts(ar, st, ins, s.drop_last());
        lemma_stmts(ar, st, ins, s.drop_last());
        lemma_stmt(ar, s1, i1, s.last());
        let (s2, i2) = comp_stmt(ar, s1, i1, s.last());
        lemma_step_trans(st, ins, s1, i1, s2, i2);
    }
}

proof fn lemma_stmt(ar: Arith, st: CompState, ins: Seq<Instruction>, s: SpecStmt)
    requires
        code_ok(st, ins),
    ensures
        step_ok(st, ins, comp_stmt(ar, st, ins, s).0, comp_stmt(ar, st, ins, s).1),
    decreases s, 1nat,
{
    match s {
        SpecStmt::Declaration { initializer, .. } => match initializer {
            Some(e) => lemma_expr(ar, st, ins, e),
            None => {},
        },
        SpecStmt::Assignment { value, .. } => lemma_expr(ar, st, ins, value),
        SpecStmt::Expression(e) => lemma_expr(ar, st, ins, e),
        SpecStmt::If { .. } => lemma_if(ar, st, ins, s),
        SpecStmt::While { .. } => lemma_while(ar, st, ins, s),
        SpecStmt::For { .. } => lemma_for(ar, st, ins, s),
        SpecStmt::ForIn { .. } => lemma_for_in(ar, st, ins, s),
        SpecStmt::Function { .. } => lemma_named_function(ar, st, ins, s),
        SpecStmt::AsyncFunction { .. } => lemma_named_function(ar, st, ins, s),
        SpecStmt::Generator { .. } => lemma_named_function(ar, st, ins, s),
        SpecStmt::Return(e) => match e {
            Some(x) => lemma_expr(ar, st, ins, x),
            None => {},
        },
        SpecStmt::ReturnMulti(values) => {
            let i1 = ins.push(Instruction::NewArray { capacity: values.len() as usize });
            lemma_pushed_items(ar, st, i1, values);
            assert(step_ok(st, ins, st, i1));
            let (s2, i2) = comp_pushed_items(ar, st, i1, values);
            lemma_step_trans(st, ins, st, i1, s2, i2);
        },
        SpecStmt::Block(stmts) => lemma_stmts(ar, st, ins, stmts),
        SpecStmt::Destructure { names, initializer, .. } => {
            let (s1, i1) = comp_expr(ar, st, ins, initializer);
            lemma_expr(ar, st, ins, initializer);
            let (s2, tmp) = take_slot(s1);
            let i2 = i1.push(Instruction::StoreLocal { slot: tmp });
            assert(step_ok(s1, i1, s2, i2));
            lemma_step_trans(st, ins, s1, i1, s2, i2);
            lemma_destructure(ar, s2, i2, names, tmp);
            let (s3, i3) = comp_destructure(ar, s2, i2, names, tmp);
            lemma_step_trans(st, ins, s2, i2, s3, i3);
        },
        SpecStmt::Throw { value, .. } => lemma_expr(ar, st, ins, value),
        SpecStmt::Try { .. } => lemma_try(ar, st, ins, s),
        SpecStmt::Class { methods, .. } => lemma_methods(ar, st, ins, methods),
        SpecStmt::Export { value, .. } => lemma_expr(ar, st, ins, value),
        SpecStmt::PropertySet { object, value, .. } => {
            let (s1, i1) = comp_expr(ar, st, ins, *object);
            lemma_expr(ar, st, ins, *object);
            lemma_expr(ar, s1, i1, value);
            let (s2, i2) = comp_expr(ar, s1, i1, value);
            lemma_step_trans(st, ins, s1, i1, s2, i2);
        },
        SpecStmt::Break => {
            if st.breaks.len() == 0 {
                lemma_same_pending(st, st, ins.len());
            }
            if st.breaks.len() > 0 && ins.len() < usize::MAX {
                lemma_add_pending(st.breaks, ins.len() as usize, ins.len());
            }
        },
        SpecStmt::Continue => {
            if st.continues.len() == 0 {
                lemma_same_pending(st, st, ins.len());
            }
            if st.continues.len() > 0 && ins.len() < usize::MAX {
                lemma_add_pending(st.continues, ins.len() as usize, ins.len());
            }
        },
        SpecStmt::NullCoalesceAssign { name, value, .. } => {
            if st.locals.contains_key(name.0) {
                let slot = st.locals[name.0];
                let i1 = ins.push(Instruction::LoadLocal { slot }).push(Instruction::LoadNil).push(
                    Instruction::NotEqual,
                );
                let i2 = i1.push(Instruction::JumpIfTrue { offset: 0 });
                lemma_expr(ar, st, i2, value);
                let (s1, i3) = comp_expr(ar, st, i2, value);
                let i4 = i3.push(Instruction::StoreLocal { slot });
                lemma_set_jumps(i4, i1.len() as int, i4.len() as int, s1.constants.len());
                if i4.len() < usize::MAX {
                    let i5 = set_jump_if_true(i4, i1.len() as int, sat_sub(i4.len() as int, (i1.len() + 1) as int));
                    assert forall|i: int| 0 <= i < ins.len() implies #[trigger] i5[i] == ins[i] by {
                        assert(i5[i] == i4[i]);
                        assert(i4[i] == i3[i]);
                        assert(i3[i] == i2[i]);
                    }
                    assert(pending_grow(st, s1, i2.len()));
                    assert forall|k: int| 0 <= k < st.breaks.len() implies #[trigger] grows_from(
                        st.breaks[k],
                        s1.breaks[k],
                        ins.len(),
                    ) by {
                        assert(grows_from(st.breaks[k], s1.breaks[k], i2.len()));
                    }
                    assert forall|k: int| 0 <= k < st.continues.len() implies #[trigger] grows_from(
                        st.continues[k],
                        s1.continues[k],
                        ins.len(),
                    ) by {
                        assert(grows_from(st.continues[k], s1.continues[k], i2.len()));
                    }
                }
            } else {
                lemma_same_pending(st, st, ins.len());
            }
        },
        _ => {},
    }
}

proof fn lemma_if(ar: Arith, st: CompState, ins: Seq<Instruction>, s: SpecStmt)
    requires
        code_ok(st, ins),
        s is If,
    ensures
        step_ok(st, ins, comp_stmt(ar, st, ins, s).0, comp_stmt(ar, st, ins, s).1),
    decreases s, 0nat,
{
    match s {
        SpecStmt::If { condition, then_branch, else_branch, .. } => {
            let (s1, i1) = comp_expr(ar, st, ins, condition);
            lemma_expr(ar, st, ins, condition);
            let i2 = i1.push(Instruction::JumpIfFalse { offset: 0 });
            let (s2, i3) = comp_stmts(ar, s1, i2, then_branch);
            lemma_stmts(ar, s1, i2, then_branch);
            lemma_step_trans(st, ins, s1, i2, s2, i3);
            let else_jump = i1.len();
            match else_branch {
                Some(es) => {
                    let end_jump = i3.len();
                    let i4 = i3.push(Instruction::Jump { offset: 0 });
                    let i5 = set_jump_if_false(i4, else_jump as int, sat_sub(i4.len() as int, (else_jump + 1) as int));
                    lemma_set_jumps(i4, else_jump as int, i4.len() as int, s2.constants.len());
                    assert(step_ok(st, ins, s2, i5));
                    let (s3, i6) = comp_stmts(ar, s2, i5, es);
                    lemma_stmts(ar, s2, i5, es);
                    lemma_step_trans(st, ins, s2, i5, s3, i6);
                    lemma_set_jumps(i6, end_jump as int, i6.len() as int, s3.constants.len());
                },
                None => {
                    lemma_set_jumps(i3, else_jump as int, i3.len() as int, s2.constants.len());
                },
            }
        },
        _ => {},
    }
}

proof fn lemma_while(ar: Arith, st: CompState, ins: Seq<Instruction>, s: SpecStmt)
    requires
        code_ok(st, ins),
        s is While,
    ensures
        step_ok(st, ins, comp_stmt(ar, st, ins, s).0, comp_stmt(ar, st, ins, s).1),
    decreases s, 0nat,
{
    match s {
        SpecStmt::While { condition, body, .. } => {
            let s0 = enter_loop(st);
            lemma_enter_loop_below(st, ins.len());
            let loop_start = ins.len();
            let (s1, i1) = comp_expr(ar, s0, ins, condition);
            lemma_expr(ar, s0, ins, condition);
            let exit_jump = i1.len();
            let i2 = i1.push(Instruction::JumpIfFalse { offset: 0 });
            let (s2, i3) = comp_stmts(ar, s1, i2, body);
            lemma_stmts(ar, s1, i2, body);
            lemma_step_trans(s0, ins, s1, i2, s2, i3);
            let i4 = i3.push(Instruction::JumpBack { offset: (i3.len() - loop_start + 1) as usize });
            let loop_end = i4.len();
            let i5 = set_jump_if_false(i4, exit_jump as int, sat_sub(loop_end as int, (exit_jump + 1) as int));
            lemma_set_jumps(i4, exit_jump as int, loop_end as int, s2.constants.len());
            lemma_end_loop(s2, i5, loop_end as int, loop_start as int);
            if i5.len() <= usize::MAX {
                assert(extends(ins, i5)) by {
                    assert forall|i: int| 0 <= i < ins.len() implies #[trigger] i5[i] == ins[i] by {
                        assert(i5[i] == i4[i]);
                        assert(i4[i] == i3[i]);
                    }
                }
                lemma_close_loop(st, ins, s2, i5, loop_end as int, loop_start as int);
            }
        },
        _ => {},
    }
}

proof fn lemma_for(ar: Arith, st: CompState, ins: Seq<Instruction>, s: SpecStmt)
    requires
        code_ok(st, ins),
        s is For,
    ensures
        step_ok(st, ins, comp_stmt(ar, st, ins, s).0, comp_stmt(ar, st, ins, s).1),
    decreases s, 0nat,
{
    match s {
        SpecStmt::For { initializer, condition, increment, body, .. } => {
            let s0 = enter_loop(st);
            lemma_enter_loop_below(st, ins.len());
            let (s1, i1) = match initializer {
                Some(e) => comp_expr(ar, s0, ins, *e),
                None => (s0, ins),
            };
            match initializer {
                Some(e) => lemma_expr(ar, s0, ins, *e),
                None => {},
            }
            assert(step_ok(s0, ins, s1, i1));
            let loop_start = i1.len();
            let (s2, i2) = comp_expr(ar, s1, i1, *condition);
            lemma_expr(ar, s1, i1, *condition);
            lemma_step_trans(s0, ins, s1, i1, s2, i2);
            let exit_jump = i2.len();
            let i3 = i2.push(Instruction::JumpIfFalse { offset: 0 });
            let (s3, i4) = comp_stmts(ar, s2, i3, body);
            lemma_stmts(ar, s2, i3, body);
            lemma_step_trans(s0, ins, s2, i3, s3, i4);
            let continue_target = i4.len();
            let (s4, i5) = match increment {
                Some(e) => comp_expr(ar, s3, i4, *e),
                None => (s3, i4),
            };
            match increment {
                Some(e) => lemma_expr(ar, s3, i4, *e),
                None => {},
            }
            assert(step_ok(s3, i4, s4, i5));
            lemma_step_trans(s0, ins, s3, i4, s4, i5);
            let i6 = i5.push(Instruction::JumpBack { offset: (i5.len() - loop_start + 1) as usize });
            let loop_end = i6.len();
            let i7 = set_jump_if_false(i6, exit_jump as int, sat_sub(loop_end as int, (exit_jump + 1) as int));
            lemma_set_jumps(i6, exit_jump as int, loop_end as int, s4.constants.len());
            lemma_end_loop(s4, i7, loop_end as int, continue_target as int);
            if i7.len() <= usize::MAX {
                assert(extends(ins, i7)) by {
                    assert forall|i: int| 0 <= i < ins.len() implies #[trigger] i7[i] == ins[i] by {
                        assert(i7[i] == i6[i]);
                        assert(i6[i] == i5[i]);
                    }
                }
                lemma_close_loop(st, ins, s4, i7, loop_end as int, continue_target as int);
            }
        },
        _ => {},
    }
}

proof fn lemma_for_in(ar: Arith, st: CompState, ins: Seq<Instruction>, s: SpecStmt)
    requires
        code_ok(st, ins),
        s is ForIn,
    ensures
        step_ok(st, ins, comp_stmt(ar, st, ins, s).0, comp_stmt(ar, st, ins, s).1),
    decreases s, 0nat,
{
    match s {
        SpecStmt::ForIn { variable, iterable, body, .. } => {
            let s0 = enter_loop(st);
            lemma_enter_loop_below(st, ins.len());
            let (s1, i1) = comp_expr(ar, s0, ins, iterable);
            lemma_expr(ar, s0, ins, iterable);
            let i2 = i1.push(Instruction::ForInInit);
            let (s2, var_slot) = bind_new_slot(s1, variable.0);
            let loop_start = i2.len();
            let i3 = i2.push(Instruction::ForInNext { var_slot, end_offset: 0 });
            assert(step_ok(s0, ins, s2, i3));
            let (s3, i4) = comp_stmts(ar, s2, i3, body);
            lemma_stmts(ar, s2, i3, body);
            lemma_step_trans(s0, ins, s2, i3, s3, i4);
            let i5 = i4.push(Instruction::JumpBack { offset: (i4.len() - loop_start + 1) as usize });
            let loop_end = i5.len();
            let i6 = set_for_in_end(i5, loop_start as int, sat_sub(loop_end as int, (loop_start + 1) as int));
            lemma_set_jumps(i5, loop_start as int, loop_end as int, s3.constants.len());
            lemma_end_loop(s3, i6, loop_end as int, loop_start as int);
            if i6.len() <= usize::MAX {
                assert(extends(ins, i6)) by {
                    assert forall|i: int| 0 <= i < ins.len() implies #[trigger] i6[i] == ins[i] by {
                        assert(i6[i] == i5[i]);
                        assert(i5[i] == i4[i]);
                    }
                }
                lemma_close_loop(st, ins, s3, i6, loop_end as int, loop_start as int);
            }
        },
        _ => {},
    }
}

proof fn lemma_try(ar: Arith, st: CompState, ins: Seq<Instruction>, s: SpecStmt)
    requires
        code_ok(st, ins),
        s is Try,
    ensures
        step_ok(st, ins, comp_stmt(ar, st, ins, s).0, comp_stmt(ar, st, ins, s).1),
    decreases s, 0nat,
{
    match s {
        SpecStmt::Try { body, catch_body, .. } => {
            let (s1, i1) = comp_stmts(ar, st, ins, body);
            lemma_stmts(ar, st, ins, body);
            let end_jump = i1.len();
            let i2 = i1.push(Instruction::Jump { offset: 0 });
            let i3 = set_jump(i2, end_jump as int, sat_sub(i2.len() as int, (end_jump + 1) as int));
            lemma_set_jumps(i2, end_jump as int, i2.len() as int, s1.constants.len());
            assert(step_ok(st, ins, s1, i3));
            let (s2, i4) = comp_stmts(ar, s1, i3, catch_body);
            lemma_stmts(ar, s1, i3, catch_body);
            lemma_step_trans(st, ins, s1, i3, s2, i4);
        },
        _ => {},
    }
}

/// A declared function, plain, async or generator, is registered last.
proof fn lemma_named_function(ar: Arith, st: CompState, ins: Seq<Instruction>, s: SpecStmt)
    requires
        code_ok(st, ins),
        s is Function || s is AsyncFunction || s is Generator,
    ensures
        step_ok(st, ins, comp_stmt(ar, st, ins, s).0, comp_stmt(ar, st, ins, s).1),
    decreases s, 0nat,
{
    match s {
        SpecStmt::Function { name, params, body, .. } => lemma_literal(ar, st, name.0, params, body),
        SpecStmt::AsyncFunction { name, params, body, .. } => lemma_literal(ar, st, name.0, params, body),
        SpecStmt::Generator { name, params, body, .. } => lemma_literal(ar, st, name.0, params, body),
        _ => {},
    }
}

/// Compiling a program never changes a function compiled before, and every
/// function it compiles, the main function among them, is well formed: its
/// code ends with `ReturnNil`, loads only constants that it has, and every
/// jump lands inside the code.
pub proof fn law_compiled_functions_well_formed(ar: Arith, st: CompState, program: Seq<SpecStmt>)
    ensures
        ({
            let p = compile_program(ar, st, program);
            &&& keeps_functions(st.functions, p.functions)
            &&& well_formed_function(p.main)
        }),
{
    lemma_function(ar, st, 0, Seq::empty(), program);
}

/// Compiling a function leaves the enclosing code's locals, slots,
/// constants and pending jumps as they were.
pub proof fn law_function_scope_restored(
    ar: Arith,
    st: CompState,
    name: usize,
    params: Seq<usize>,
    body: Seq<SpecStmt>,
)
    ensures
        ({
            let s1 = comp_function(ar, st, name, params, body).0;
            &&& s1.locals == st.locals
            &&& s1.slot_count == st.slot_count
            &&& s1.max_slots == st.max_slots
            &&& s1.constants == st.constants
            &&& s1.breaks == st.breaks
            &&& s1.continues == st.continues
        }),
{
}

/// Compiling a function keeps every function compiled before it, unchanged
/// and in place, and adds only well-formed ones; the function it makes is
/// well formed too.
pub proof fn law_compile_function_keeps_functions(
    ar: Arith,
    st: CompState,
    name: usize,
    params: Seq<usize>,
    body: Seq<SpecStmt>,
)
    ensures
        keeps_functions(st.functions, comp_function(ar, st, name, params, body).0.functions),
        well_formed_function(comp_function(ar, st, name, params, body).1),
{
    lemma_function(ar, st, name, params, body);
}

/// A declaration binds its name to the next free slot (the one after what
/// its initializer took) and stores the value there.
pub proof fn law_declaration_binds_next_slot(
    ar: Arith,
    st: CompState,
    ins: Seq<Instruction>,
    name: InternedString,
    initializer: Option<SpecExpr>,
    line: usize,
    is_const: bool,
)
    ensures
        ({
            let (s1, i1) = match initializer {
                Some(e) => comp_expr(ar, st, ins, e),
                None => (st, ins.push(Instruction::LoadNil)),
            };
            let (s2, i2) = comp_stmt(ar, st, ins, SpecStmt::Declaration { name, initializer, line, is_const });
            &&& s2.locals == s1.locals.insert(name.0, s1.slot_count as usize)
            &&& s2.slot_count == s1.slot_count + 1
            &&& i2 == i1.push(Instruction::StoreLocal { slot: s1.slot_count as usize }).push(
                Instruction::Line { line_num: line },
            )
        }),
{
}

/// A name bound to a slot is read from that slot; any other name is read as
/// a global.
pub proof fn law_lookup_loads_bound_slot(ar: Arith, st: CompState, ins: Seq<Instruction>, name: InternedString)
    ensures
        comp_expr(ar, st, ins, SpecExpr::Identifier(name)) == (st, ins.push(
            if st.locals.contains_key(name.0) {
                Instruction::LoadLocal { slot: st.locals[name.0] }
            } else {
                Instruction::LoadGlobal { name }
            },
        )),
{
}

/// Every function value among the constants of a compiled program names a
/// function of the program: the main function's constants name any of them,
/// and each function compiled names only functions compiled before it.
pub proof fn law_function_constants_name_functions(ar: Arith, st: CompState, program: Seq<SpecStmt>)
    ensures
        ({
            let p = compile_program(ar, st, program);
            &&& constants_name_functions(p.functions.len(), p.main.constants)
            &&& forall|i: int|
                st.functions.len() <= i < p.functions.len() ==> constants_name_functions(
                    i as nat,
                    (#[trigger] p.functions[i]).constants,
                )
        }),
{
    lemma_function(ar, st, 0, Seq::empty(), program);
}

/// Compiling a statement leaves the code before it unchanged, and the
/// pending `break` and `continue` jumps it leaves are those it found, each
/// list extended only by jumps inside the statement's own code (wherever the
/// code's positions fit in a `usize`).
pub proof fn law_statement_keeps_earlier_code(ar: Arith, st: CompState, ins: Seq<Instruction>, s: SpecStmt)
    requires
        code_ok(st, ins),
        comp_stmt(ar, st, ins, s).1.len() <= usize::MAX,
    ensures
        extends(ins, comp_stmt(ar, st, ins, s).1),
        pending_grow(st, comp_stmt(ar, st, ins, s).0, ins.len()),
{
    lemma_stmt(ar, st, ins, s);
}

/// `x ??= v` on a local `x` stores only into a `nil` `x`: run from the start
/// of its code, its first four instructions leave `x` as it is and jump past
/// the store into `x`'s slot exactly when `x` holds a value other than `nil`;
/// when `x` is `nil` they go on to the code of `v`, which ends by storing
/// into `x`'s slot.
pub proof fn law_null_coalesce_assign_stores_only_into_nil(
    ar: Arith,
    cs: CompState,
    ins: Seq<Instruction>,
    name: InternedString,
    value: SpecExpr,
    line: usize,
    m: VmState,
)
    requires
        code_ok(cs, ins),
        cs.locals.contains_key(name.0),
        comp_stmt(ar, cs, ins, SpecStmt::NullCoalesceAssign { name, value, line }).1.len() < usize::MAX,
        m.frames.len() > 0,
        m.frames.last().function.instructions == comp_stmt(
            ar,
            cs,
            ins,
            SpecStmt::NullCoalesceAssign { name, value, line },
        ).1,
        m.frames.last().ip == ins.len(),
        m.frames.last().frame_start + cs.locals[name.0] < m.stack.len(),
    ensures
        ({
            let out = comp_stmt(ar, cs, ins, SpecStmt::NullCoalesceAssign { name, value, line }).1;
            let slot = cs.locals[name.0];
            let k = m.frames.last().frame_start + slot;
            let m4 = exec_next(ar, exec_next(ar, exec_next(ar, exec_next(ar, m))));
            &&& out[out.len() - 2] == Instruction::StoreLocal { slot }
            &&& m4.frames.len() == m.frames.len()
            &&& m4.stack[k] == m.stack[k]
            &&& if m.stack[k] is Nil {
                m4.frames.last().ip == ins.len() + 4
            } else {
                m4.frames.last().ip == out.len() - 1
            }
        }),
{
    let slot = cs.locals[name.0];
    let n: int = ins.len() as int;
    let i1 = ins.push(Instruction::LoadLocal { slot }).push(Instruction::LoadNil).push(Instruction::NotEqual);
    let i1j = i1.push(Instruction::JumpIfTrue { offset: 0 });
    lemma_expr(ar, cs, i1j, value);
    let (s1, i2) = comp_expr(ar, cs, i1j, value);
    let i3 = i2.push(Instruction::StoreLocal { slot });
    let off = sat_sub(i3.len() as int, n + 4);
    let i4 = set_jump_if_true(i3, n + 3, off);
    let out = i4.push(Instruction::Line { line_num: line });
    assert(comp_stmt(ar, cs, ins, SpecStmt::NullCoalesceAssign { name, value, line }).1 == out);
    assert(extends(i1j, i2));
    assert(i3[n] == Instruction::LoadLocal { slot });
    assert(i3[n + 1] == Instruction::LoadNil);
    assert(i3[n + 2] == Instruction::NotEqual);
    assert(i3[n + 3] == Instruction::JumpIfTrue { offset: 0 });
    assert(out[n] == Instruction::LoadLocal { slot });
    assert(out[n + 1] == Instruction::LoadNil);
    assert(out[n + 2] == Instruction::NotEqual);
    assert(out[n + 3] == Instruction::JumpIfTrue { offset: off });
    assert(out[out.len() - 2] == Instruction::StoreLocal { slot });
    let k = m.frames.last().frame_start + slot;
    let u = m.stack[k];
    let m1 = exec_next(ar, m);
    assert(m1.stack == m.stack.push(u));
    assert(m1.frames.last().ip == n + 1);
    let m2 = exec_next(ar, m1);
    assert(m2.stack == m.stack.push(u).push(SpecValue::Nil));
    assert(m2.frames.last().ip == n + 2);
    let m3 = exec_next(ar, m2);
    assert(m2.stack.drop_last() =~= m.stack.push(u));
    assert(m2.stack.drop_last().drop_last() =~= m.stack);
    assert(values_equal(ar, u, SpecValue::Nil) == (u is Nil));
    assert(m3.stack == m.stack.push(SpecValue::Bool(!(u is Nil))));
    assert(m3.frames.last().ip == n + 3);
    let m4 = exec_next(ar, m3);
    assert(m4.stack == m3.stack);
    assert(m4.stack[k] == u);
}

} // verus!

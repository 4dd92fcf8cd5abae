//! The machine's heap invariant: every array or table that a value of the
//! machine refers to exists.  Each instruction keeps it, and so does a run.
use vstd::prelude::*;
use crate::ast::SpecStmt;
use crate::bytecode::{Instruction, SpecProgram};
use crate::compile_laws::{law_compiled_functions_well_formed, well_formed_function};
use crate::compiler::{compile_program, CompState};
use crate::machine::{
    array_at, call_value, collect_methods, enter, instantiate, iter_next, load, param_value,
    pop, pop_frame, push, run, step, step_panics, store_at, table_at, this_value, RunOutcome, SpecIter,
    VmState,
};
use crate::number::Arith;
use crate::table::{entry_index, entry_values, insert_entry, lemma_entry_index, lookup};
use crate::value::SpecValue;

verus! {

/// The value refers to no array or table past the heap's `na` arrays and
/// `nt` tables.
pub open spec fn ref_ok(na: nat, nt: nat, v: SpecValue) -> bool {
    match v {
        SpecValue::Array(h) => h < na,
        SpecValue::Table(h) => h < nt,
        _ => true,
    }
}

pub open spec fn values_ok(na: nat, nt: nat, vs: Seq<SpecValue>) -> bool {
    forall|i: int| 0 <= i < vs.len() ==> ref_ok(na, nt, #[trigger] vs[i])
}

pub open spec fn entries_ok(na: nat, nt: nat, es: Seq<(usize, SpecValue)>) -> bool {
    forall|i: int| 0 <= i < es.len() ==> ref_ok(na, nt, (#[trigger] es[i]).1)
}

pub open spec fn iter_ok(na: nat, nt: nat, it: SpecIter) -> bool {
    match it {
        SpecIter::Array { values, .. } => values_ok(na, nt, values),
        SpecIter::Table { values, .. } => values_ok(na, nt, values),
        SpecIter::Range { .. } => true,
    }
}

/// Every array or table that a value of the machine refers to exists: the
/// values on the stacks, in the globals, among the constants of the
/// functions and of the calls in progress, in the loops, and in the arrays
/// and tables themselves.
pub open spec fn heap_ok(st: VmState) -> bool {
    let na = st.arrays.len();
    let nt = st.tables.len();
    &&& values_ok(na, nt, st.stack)
    &&& entries_ok(na, nt, st.globals)
    &&& forall|i: int| 0 <= i < st.functions.len() ==> values_ok(na, nt, (#[trigger] st.functions[i]).constants)
    &&& forall|i: int| 0 <= i < st.frames.len() ==> values_ok(na, nt, (#[trigger] st.frames[i]).function.constants)
    &&& values_ok(na, nt, st.this_stack)
    &&& forall|i: int| 0 <= i < st.iterators.len() ==> iter_ok(na, nt, #[trigger] st.iterators[i])
    &&& forall|i: int| 0 <= i < st.arrays.len() ==> values_ok(na, nt, #[trigger] st.arrays[i])
    &&& forall|i: int| 0 <= i < st.tables.len() ==> entries_ok(na, nt, #[trigger] st.tables[i])
}

proof fn lemma_lookup_ok(na: nat, nt: nat, es: Seq<(usize, SpecValue)>, k: usize)
    requires
        entries_ok(na, nt, es),
    ensures
        lookup(es, k) matches Some(v) ==> ref_ok(na, nt, v),
{
    lemma_entry_index(es, k);
    match entry_index(es, k) {
        Some(i) => {
            assert(ref_ok(na, nt, es[i].1));
        },
        None => {},
    }
}

proof fn lemma_insert_ok(na: nat, nt: nat, es: Seq<(usize, SpecValue)>, k: usize, v: SpecValue)
    requires
        entries_ok(na, nt, es),
        ref_ok(na, nt, v),
    ensures
        entries_ok(na, nt, insert_entry(es, k, v)),
{
    lemma_entry_index(es, k);
}

proof fn lemma_store_at_ok(na: nat, nt: nat, stack: Seq<SpecValue>, idx: nat, v: SpecValue)
    requires
        values_ok(na, nt, stack),
        ref_ok(na, nt, v),
    ensures
        values_ok(na, nt, store_at(stack, idx, v)),
{
    let padded = if stack.len() <= idx {
        stack + Seq::new((idx + 1 - stack.len()) as nat, |i: int| SpecValue::Nil)
    } else {
        stack
    };
    assert forall|i: int| 0 <= i < padded.len() implies ref_ok(na, nt, #[trigger] padded[i]) by {
        if i < stack.len() {
            assert(padded[i] == stack[i]);
        }
    }
}

proof fn lemma_collect_methods_ok(
    ar: Arith,
    na: nat,
    nt: nat,
    stack: Seq<SpecValue>,
    entries: Seq<(usize, SpecValue)>,
    n: nat,
)
    requires
        values_ok(na, nt, stack),
        entries_ok(na, nt, entries),
    ensures
        values_ok(na, nt, collect_methods(ar, stack, entries, n).0),
        entries_ok(na, nt, collect_methods(ar, stack, entries, n).1),
    decreases n,
{
    if n > 0 {
        if stack.len() == 0 {
            lemma_collect_methods_ok(ar, na, nt, stack, entries, (n - 1) as nat);
        } else {
            let method = stack.last();
            let s = stack.drop_last();
            assert(ref_ok(na, nt, stack[stack.len() - 1]));
            if s.len() == 0 {
                lemma_collect_methods_ok(ar, na, nt, s, entries, (n - 1) as nat);
            } else {
                match s.last() {
                    SpecValue::Number(id) => {
                        let e1 = insert_entry(entries, crate::machine::to_index(ar, id), method);
                        lemma_insert_ok(na, nt, entries, crate::machine::to_index(ar, id), method);
                        lemma_collect_methods_ok(ar, na, nt, s.drop_last(), e1, (n - 1) as nat);
                    },
                    _ => {
                        lemma_collect_methods_ok(ar, na, nt, s.drop_last(), entries, (n - 1) as nat);
                    },
                }
            }
        }
    }
}

/// Popping keeps the invariant, and the value popped refers to what exists.
proof fn lemma_pop_ok(st: VmState)
    requires
        heap_ok(st),
    ensures
        heap_ok(pop(st).1),
        pop(st).0 matches Some(v) ==> ref_ok(st.arrays.len(), st.tables.len(), v),
{
    if st.stack.len() > 0 {
        assert(ref_ok(st.arrays.len(), st.tables.len(), st.stack[st.stack.len() - 1]));
    }
}

/// Calls keep the invariant.
proof fn lemma_call_ok(st: VmState, callee: SpecValue, args: Seq<SpecValue>)
    requires
        heap_ok(st),
        values_ok(st.arrays.len(), st.tables.len(), args),
    ensures
        heap_ok(call_value(st, callee, args).0),
{
    let na = st.arrays.len();
    let nt = st.tables.len();
    match callee {
        SpecValue::Function { name, params, default_params } => if name < st.functions.len() {
            let values = Seq::new(params.len(), |i: int| param_value(args, default_params, i));
            assert forall|i: int| 0 <= i < values.len() implies ref_ok(na, nt, #[trigger] values[i]) by {
                if i < args.len() {
                    assert(ref_ok(na, nt, args[i]));
                }
            }
            lemma_enter_ok(st, name, values);
        },
        SpecValue::AsyncFunction { name, params, .. } => if name < st.functions.len() {
            let values = Seq::new(params.len(), |i: int| param_value(args, Seq::empty(), i));
            assert forall|i: int| 0 <= i < values.len() implies ref_ok(na, nt, #[trigger] values[i]) by {
                if i < args.len() {
                    assert(ref_ok(na, nt, args[i]));
                }
            }
            lemma_enter_ok(st, name, values);
        },
        SpecValue::Generator { name, params } => if name < st.functions.len() {
            let values = Seq::new(params.len(), |i: int| param_value(args, Seq::empty(), i));
            assert forall|i: int| 0 <= i < values.len() implies ref_ok(na, nt, #[trigger] values[i]) by {
                if i < args.len() {
                    assert(ref_ok(na, nt, args[i]));
                }
            }
            lemma_enter_ok(st, name, values);
        },
        _ => {},
    }
}

proof fn lemma_enter_ok(st: VmState, name: usize, values: Seq<SpecValue>)
    requires
        heap_ok(st),
        name < st.functions.len(),
        values_ok(st.arrays.len(), st.tables.len(), values),
    ensures
        heap_ok(enter(st, name, values)),
{
    let na = st.arrays.len();
    let nt = st.tables.len();
    let e = enter(st, name, values);
    let f = st.functions[name as int];
    assert(values_ok(na, nt, f.constants));
    assert forall|i: int| 0 <= i < e.stack.len() implies ref_ok(na, nt, #[trigger] e.stack[i]) by {
        if i < st.stack.len() {
            assert(e.stack[i] == st.stack[i]);
        } else if i < st.stack.len() + values.len() {
            assert(e.stack[i] == values[i - st.stack.len()]);
        }
    }
    assert forall|i: int| 0 <= i < e.frames.len() implies values_ok(na, nt, (#[trigger] e.frames[i]).function.constants) by {
        if i < st.frames.len() {
            assert(e.frames[i] == st.frames[i]);
        }
    }
}

/// Ending a call keeps the invariant.
proof fn lemma_pop_frame_ok(st: VmState)
    requires
        heap_ok(st),
        st.frames.len() > 0,
    ensures
        heap_ok(pop_frame(st)),
        heap_ok(VmState { frames: st.frames.drop_last(), ..st }),
{
    let s1 = pop_frame(st);
    assert forall|i: int| 0 <= i < s1.frames.len() implies values_ok(
        st.arrays.len(),
        st.tables.len(),
        (#[trigger] s1.frames[i]).function.constants,
    ) by {
        assert(s1.frames[i] == st.frames[i]);
    }
}

proof fn lemma_load_store_ok(ar: Arith, st: VmState, ins: Instruction)
    requires
        heap_ok(st),
        ins is LoadConstant || ins is LoadNil || ins is LoadTrue || ins is LoadFalse || ins is LoadLocal
            || ins is StoreLocal || ins is LoadGlobal || ins is StoreGlobal,
    ensures
        heap_ok(step(ar, st, ins).0),
{
    let na = st.arrays.len();
    let nt = st.tables.len();
    lemma_pop_ok(st);
    match ins {
        Instruction::LoadConstant { index } => {
            if st.frames.len() > 0 && index < st.frames.last().function.constants.len() {
                assert(values_ok(na, nt, st.frames[st.frames.len() - 1].function.constants));
                assert(ref_ok(na, nt, st.frames.last().function.constants[index as int]));
            }
        },
        Instruction::LoadLocal { slot } => {
            if st.frames.len() > 0 {
                let idx = st.frames.last().frame_start + slot;
                if idx < st.stack.len() {
                    assert(ref_ok(na, nt, st.stack[idx]));
                }
            }
        },
        Instruction::StoreLocal { slot } => {
            if st.frames.len() > 0 {
                match pop(st) {
                    (Some(v), s1) => lemma_store_at_ok(na, nt, s1.stack, (st.frames.last().frame_start + slot) as nat, v),
                    _ => {},
                }
            }
        },
        Instruction::LoadGlobal { name } => lemma_lookup_ok(na, nt, st.globals, name.0),
        Instruction::StoreGlobal { name } => match pop(st) {
            (Some(v), s1) => lemma_insert_ok(na, nt, s1.globals, name.0, v),
            _ => {},
        },
        _ => {},
    }
}

proof fn lemma_control_ok(ar: Arith, st: VmState, ins: Instruction)
    requires
        heap_ok(st),
        ins is And || ins is Or || ins is Not || ins is Jump || ins is JumpIfFalse || ins is JumpIfTrue
            || ins is JumpBack || ins is Call || ins is Return || ins is ReturnNil,
        !step_panics(ar, st, ins),
    ensures
        heap_ok(step(ar, st, ins).0),
{
    let na = st.arrays.len();
    let nt = st.tables.len();
    lemma_pop_ok(st);
    let (a, s1) = pop(st);
    lemma_pop_ok(s1);
    match ins {
        Instruction::Jump { .. } | Instruction::JumpIfFalse { .. } | Instruction::JumpIfTrue { .. }
        | Instruction::JumpBack { .. } => {
            let s = step(ar, st, ins).0;
            assert forall|i: int| 0 <= i < s.frames.len() implies values_ok(
                na,
                nt,
                (#[trigger] s.frames[i]).function.constants,
            ) by {
                assert(s.frames[i].function == st.frames[i].function);
            }
        },
        Instruction::Call { arg_count } => match a {
            Some(callee) => {
                let at = s1.stack.len() - arg_count;
                let args = s1.stack.subrange(at, s1.stack.len() as int);
                let s2 = VmState { stack: s1.stack.take(at), ..s1 };
                assert forall|i: int| 0 <= i < args.len() implies ref_ok(na, nt, #[trigger] args[i]) by {
                    assert(args[i] == s1.stack[at + i]);
                }
                assert forall|i: int| 0 <= i < s2.stack.len() implies ref_ok(na, nt, #[trigger] s2.stack[i]) by {
                    assert(s2.stack[i] == s1.stack[i]);
                }
                lemma_call_ok(s2, callee, args);
            },
            None => {},
        },
        Instruction::Return => {
            if s1.frames.len() > 0 {
                lemma_pop_frame_ok(s1);
                let rv = match a {
                    Some(v) => v,
                    None => SpecValue::Nil,
                };
                let s3 = pop_frame(s1);
                assert forall|i: int| 0 <= i < s3.stack.len() implies ref_ok(na, nt, #[trigger] s3.stack[i]) by {
                    assert(s3.stack[i] == s1.stack[i]);
                }
            }
        },
        Instruction::ReturnNil => {
            if st.frames.len() > 1 {
                lemma_pop_frame_ok(st);
                let s3 = pop_frame(st);
                assert forall|i: int| 0 <= i < s3.stack.len() implies ref_ok(na, nt, #[trigger] s3.stack[i]) by {
                    assert(s3.stack[i] == st.stack[i]);
                }
            }
        },
        _ => {},
    }
}


/// What a heap array or table holds refers to what exists.
proof fn lemma_heap_items_ok(st: VmState, h: usize)
    requires
        heap_ok(st),
    ensures
        values_ok(st.arrays.len(), st.tables.len(), array_at(st, h)),
        entries_ok(st.arrays.len(), st.tables.len(), table_at(st, h)),
{
    if h < st.arrays.len() {
        assert(values_ok(st.arrays.len(), st.tables.len(), st.arrays[h as int]));
    }
    if h < st.tables.len() {
        assert(entries_ok(st.arrays.len(), st.tables.len(), st.tables[h as int]));
    }
}

/// Replacing the array at `h` by one whose values refer to what exists
/// keeps the invariant.
proof fn lemma_set_array_ok(st: VmState, h: usize, a: Seq<SpecValue>)
    requires
        heap_ok(st),
        values_ok(st.arrays.len(), st.tables.len(), a),
    ensures
        heap_ok(crate::machine::set_array(st, h, a)),
{
}

/// Replacing the table at `h` by one whose values refer to what exists
/// keeps the invariant.
proof fn lemma_set_table_ok(st: VmState, h: usize, t: Seq<(usize, SpecValue)>)
    requires
        heap_ok(st),
        entries_ok(st.arrays.len(), st.tables.len(), t),
    ensures
        heap_ok(crate::machine::set_table(st, h, t)),
{
}

proof fn lemma_data_ok(ar: Arith, st: VmState, ins: Instruction)
    requires
        heap_ok(st),
        ins is NewArray || ins is NewTable || ins is ArrayPush || ins is TableSet || ins is IndexGet
            || ins is IndexSet || ins is PropertyGet || ins is PropertySet || ins is NullCoalesce || ins is Spread
            || ins is Length,
    ensures
        heap_ok(step(ar, st, ins).0),
{
    let na = st.arrays.len();
    let nt = st.tables.len();
    lemma_pop_ok(st);
    let (a, s1) = pop(st);
    lemma_pop_ok(s1);
    let (b, s2) = pop(s1);
    lemma_pop_ok(s2);
    let (c, s3) = pop(s2);
    match ins {
        Instruction::NewArray { .. } => {
            let g = VmState { arrays: st.arrays.push(Seq::empty()), ..st };
            assert forall|i: int| 0 <= i < g.arrays.len() implies values_ok(na + 1, nt, #[trigger] g.arrays[i]) by {
                if i < na {
                    assert(g.arrays[i] == st.arrays[i]);
                }
            }
            assert(heap_ok(g));
        },
        Instruction::NewTable => {
            let g = VmState { tables: st.tables.push(Seq::empty()), ..st };
            assert forall|i: int| 0 <= i < g.tables.len() implies entries_ok(na, nt + 1, #[trigger] g.tables[i]) by {
                if i < nt {
                    assert(g.tables[i] == st.tables[i]);
                }
            }
            assert(heap_ok(g));
        },
        Instruction::ArrayPush => match (a, b) {
            (Some(value), Some(SpecValue::Array(h))) => {
                lemma_heap_items_ok(s2, h);
                let arr = array_at(s2, h).push(value);
                assert forall|i: int| 0 <= i < arr.len() implies ref_ok(na, nt, #[trigger] arr[i]) by {
                    if i < array_at(s2, h).len() {
                        assert(arr[i] == array_at(s2, h)[i]);
                    }
                }
                lemma_set_array_ok(s2, h, arr);
            },
            _ => {},
        },
        Instruction::TableSet { key } => match (a, b) {
            (Some(value), Some(SpecValue::Table(h))) => {
                lemma_heap_items_ok(s2, h);
                lemma_insert_ok(na, nt, table_at(s2, h), key.0, value);
                lemma_set_table_ok(s2, h, insert_entry(table_at(s2, h), key.0, value));
            },
            _ => {},
        },
        Instruction::IndexGet => match (a, b) {
            (Some(index), Some(object)) => match (object, index) {
                (SpecValue::Array(h), SpecValue::Number(i)) => {
                    lemma_heap_items_ok(s2, h);
                    let idx = crate::machine::to_index(ar, i);
                    if idx < array_at(s2, h).len() {
                        assert(ref_ok(na, nt, array_at(s2, h)[idx as int]));
                    }
                },
                (SpecValue::Table(h), SpecValue::Number(i)) => {
                    lemma_heap_items_ok(s2, h);
                    lemma_lookup_ok(na, nt, table_at(s2, h), crate::machine::to_index(ar, i));
                },
                _ => {},
            },
            _ => {},
        },
        Instruction::IndexSet => match (a, b, c) {
            (Some(value), Some(index), Some(object)) => match (object, index) {
                (SpecValue::Array(h), SpecValue::Number(i)) => {
                    lemma_heap_items_ok(s3, h);
                    let idx = crate::machine::to_index(ar, i);
                    if idx < array_at(s3, h).len() {
                        let arr = array_at(s3, h).update(idx as int, value);
                        assert forall|j: int| 0 <= j < arr.len() implies ref_ok(na, nt, #[trigger] arr[j]) by {
                            if j != idx {
                                assert(arr[j] == array_at(s3, h)[j]);
                            }
                        }
                        lemma_set_array_ok(s3, h, arr);
                    }
                },
                (SpecValue::Table(h), SpecValue::Number(i)) => {
                    lemma_heap_items_ok(s3, h);
                    let k = crate::machine::to_index(ar, i);
                    lemma_insert_ok(na, nt, table_at(s3, h), k, value);
                    lemma_set_table_ok(s3, h, insert_entry(table_at(s3, h), k, value));
                },
                _ => {},
            },
            _ => {},
        },
        Instruction::PropertyGet { name } => match a {
            Some(SpecValue::Table(h)) => {
                lemma_heap_items_ok(s1, h);
                lemma_lookup_ok(na, nt, table_at(s1, h), name.0);
            },
            _ => {},
        },
        Instruction::PropertySet { name } => match (a, b) {
            (Some(value), Some(SpecValue::Table(h))) => {
                lemma_heap_items_ok(s2, h);
                lemma_insert_ok(na, nt, table_at(s2, h), name.0, value);
                lemma_set_table_ok(s2, h, insert_entry(table_at(s2, h), name.0, value));
            },
            _ => {},
        },
        Instruction::Spread => match a {
            Some(SpecValue::Array(h)) => {
                lemma_heap_items_ok(s1, h);
                let t = s1.stack + array_at(s1, h);
                assert forall|i: int| 0 <= i < t.len() implies ref_ok(na, nt, #[trigger] t[i]) by {
                    if i < s1.stack.len() {
                        assert(t[i] == s1.stack[i]);
                    } else {
                        assert(t[i] == array_at(s1, h)[i - s1.stack.len()]);
                    }
                }
            },
            _ => {},
        },
        _ => {},
    }
}

proof fn lemma_arith_compare_ok(ar: Arith, st: VmState, ins: Instruction)
    requires
        heap_ok(st),
        ins is Add || ins is Subtract || ins is Multiply || ins is Divide || ins is Modulo || ins is Equal
            || ins is NotEqual || ins is Less || ins is Greater || ins is LessEqual || ins is GreaterEqual,
    ensures
        heap_ok(step(ar, st, ins).0),
{
    lemma_pop_ok(st);
    lemma_pop_ok(pop(st).1);
}


/// Adding a table whose values refer to what exists keeps the invariant.
proof fn lemma_grow_tables(st: VmState, t: Seq<(usize, SpecValue)>)
    requires
        heap_ok(st),
        entries_ok(st.arrays.len(), st.tables.len(), t),
    ensures
        heap_ok(VmState { tables: st.tables.push(t), ..st }),
{
    let na = st.arrays.len();
    let nt = st.tables.len();
    let g = VmState { tables: st.tables.push(t), ..st };
    assert forall|i: int| 0 <= i < g.tables.len() implies entries_ok(na, nt + 1, #[trigger] g.tables[i]) by {
        if i < nt {
            assert(g.tables[i] == st.tables[i]);
        }
    }
}

proof fn lemma_instantiate_ok(st: VmState, class: SpecValue, args: Seq<SpecValue>)
    requires
        heap_ok(st),
        values_ok(st.arrays.len(), st.tables.len(), args),
    ensures
        heap_ok(instantiate(st, class, args).0),
        instantiate(st, class, args).1 matches Ok(v) ==> ref_ok(
            instantiate(st, class, args).0.arrays.len(),
            instantiate(st, class, args).0.tables.len(),
            v,
        ),
{
    match class {
        SpecValue::Table(h) => {
            lemma_heap_items_ok(st, h);
            let entries = table_at(st, h);
            let instance = SpecValue::Table(st.tables.len() as usize);
            let s1 = VmState { tables: st.tables.push(entries), ..st };
            lemma_grow_tables(st, entries);
            lemma_lookup_ok(st.arrays.len(), st.tables.len() + 1, entries, crate::machine::string_id(st, "init"@));
            match lookup(entries, crate::machine::string_id(st, "init"@)) {
                Some(ctor) => {
                    let s2 = VmState { this_stack: s1.this_stack.push(instance), ..s1 };
                    assert(heap_ok(s2));
                    lemma_call_ok(s2, ctor, args);
                    let (s3, r) = call_value(s2, ctor, args);
                    if r is Ok {
                        let s4 = VmState { this_stack: s3.this_stack.drop_last(), ..s3 };
                        assert forall|i: int| 0 <= i < s4.this_stack.len() implies ref_ok(
                            s3.arrays.len(),
                            s3.tables.len(),
                            #[trigger] s4.this_stack[i],
                        ) by {
                            assert(s4.this_stack[i] == s3.this_stack[i]);
                        }
                    }
                },
                None => {},
            }
        },
        _ => {},
    }
}

proof fn lemma_objects_ok(ar: Arith, st: VmState, ins: Instruction)
    requires
        heap_ok(st),
        !(ins is LoadConstant || ins is LoadNil || ins is LoadTrue || ins is LoadFalse || ins is LoadLocal
            || ins is StoreLocal || ins is LoadGlobal || ins is StoreGlobal || ins is Add || ins is Subtract
            || ins is Multiply || ins is Divide || ins is Modulo || ins is Equal || ins is NotEqual || ins is Less
            || ins is Greater || ins is LessEqual || ins is GreaterEqual || ins is And || ins is Or || ins is Not
            || ins is Jump || ins is JumpIfFalse || ins is JumpIfTrue || ins is JumpBack || ins is Call
            || ins is Return || ins is ReturnNil || ins is NewArray || ins is NewTable || ins is ArrayPush
            || ins is TableSet || ins is IndexGet || ins is IndexSet || ins is PropertyGet || ins is PropertySet
            || ins is NullCoalesce || ins is Spread || ins is Length || ins is Class || ins is ForInInit
            || ins is ForInNext),
        !step_panics(ar, st, ins),
    ensures
        heap_ok(step(ar, st, ins).0),
{
    let na = st.arrays.len();
    let nt = st.tables.len();
    lemma_pop_ok(st);
    let (a, s1) = pop(st);
    lemma_pop_ok(s1);
    match ins {
        Instruction::NewInstance { arg_count, .. } => {
            let at = st.stack.len() - arg_count;
            let args = st.stack.subrange(at, st.stack.len() as int);
            let s0 = VmState { stack: st.stack.take(at), ..st };
            assert forall|i: int| 0 <= i < args.len() implies ref_ok(na, nt, #[trigger] args[i]) by {
                assert(args[i] == st.stack[at + i]);
            }
            assert forall|i: int| 0 <= i < s0.stack.len() implies ref_ok(na, nt, #[trigger] s0.stack[i]) by {
                assert(s0.stack[i] == st.stack[i]);
            }
            lemma_pop_ok(s0);
            match pop(s0) {
                (Some(class), s2) => lemma_instantiate_ok(s2, class, args),
                _ => {},
            }
        },
        Instruction::This => {
            if st.this_stack.len() > 0 {
                assert(ref_ok(na, nt, st.this_stack[st.this_stack.len() - 1]));
            }
        },
        Instruction::Super { method } => {
            if st.this_stack.len() > 0 {
                assert(ref_ok(na, nt, st.this_stack[st.this_stack.len() - 1]));
            }
            match this_value(st) {
                SpecValue::Table(h) => {
                    lemma_heap_items_ok(st, h);
                    let k = crate::machine::string_id(st, "__superclass__"@);
                    lemma_lookup_ok(na, nt, table_at(st, h), k);
                    match lookup(table_at(st, h), k) {
                        Some(SpecValue::Table(sh)) => {
                            lemma_heap_items_ok(st, sh);
                            lemma_lookup_ok(na, nt, table_at(st, sh), method.0);
                        },
                        _ => {},
                    }
                },
                _ => {},
            }
        },
        Instruction::Export { name } => match a {
            Some(v) => lemma_insert_ok(na, nt, s1.globals, name.0, v),
            None => {},
        },
        _ => {},
    }
}

proof fn lemma_loops_ok(ar: Arith, st: VmState, ins: Instruction)
    requires
        heap_ok(st),
        ins is Class || ins is ForInInit || ins is ForInNext,
    ensures
        heap_ok(step(ar, st, ins).0),
{
    let na = st.arrays.len();
    let nt = st.tables.len();
    lemma_pop_ok(st);
    let (a, s1) = pop(st);
    match ins {
        Instruction::Class { name, method_count } => {
            lemma_collect_methods_ok(ar, na, nt, st.stack, Seq::empty(), method_count as nat);
            let (stack, entries) = collect_methods(ar, st.stack, Seq::empty(), method_count as nat);
            let g = VmState { stack, ..st };
            lemma_grow_tables(g, entries);
            let class = SpecValue::Table(nt as usize);
            lemma_insert_ok(na, nt + 1, st.globals, name.0, class);
        },
        Instruction::ForInInit => {
            let v = match a {
                Some(x) => x,
                None => SpecValue::Nil,
            };
            match v {
                SpecValue::Array(h) => lemma_heap_items_ok(s1, h),
                SpecValue::Table(h) => {
                    lemma_heap_items_ok(s1, h);
                    let es = table_at(s1, h);
                    let vs = entry_values(es);
                    assert forall|i: int| 0 <= i < vs.len() implies ref_ok(na, nt, #[trigger] vs[i]) by {
                        assert(ref_ok(na, nt, es[i].1));
                    }
                },
                _ => {},
            }
            let s = step(ar, st, ins).0;
            assert forall|i: int| 0 <= i < s.iterators.len() implies iter_ok(na, nt, #[trigger] s.iterators[i]) by {
                if i < st.iterators.len() {
                    assert(s.iterators[i] == st.iterators[i]);
                }
            }
        },
        Instruction::ForInNext { var_slot, end_offset } => {
            if st.iterators.len() > 0 {
                let it = st.iterators.last();
                assert(iter_ok(na, nt, st.iterators[st.iterators.len() - 1]));
                let s = step(ar, st, ins).0;
                match iter_next(ar, it) {
                    Some((v, it2)) => {
                        match it {
                            SpecIter::Array { values, index } => assert(ref_ok(na, nt, values[index as int])),
                            SpecIter::Table { values, index } => assert(ref_ok(na, nt, values[index as int])),
                            _ => {},
                        }
                        let s2 = VmState { iterators: st.iterators.update(st.iterators.len() - 1, it2), ..st };
                        assert forall|i: int| 0 <= i < s2.iterators.len() implies iter_ok(
                            na,
                            nt,
                            #[trigger] s2.iterators[i],
                        ) by {
                            if i < st.iterators.len() - 1 {
                                assert(s2.iterators[i] == st.iterators[i]);
                            }
                        }
                        if s2.frames.len() > 0 {
                            lemma_store_at_ok(na, nt, s2.stack, (s2.frames.last().frame_start + var_slot) as nat, v);
                        }
                    },
                    None => {
                        let s2 = VmState { iterators: st.iterators.drop_last(), ..st };
                        assert forall|i: int| 0 <= i < s2.iterators.len() implies iter_ok(
                            na,
                            nt,
                            #[trigger] s2.iterators[i],
                        ) by {
                            assert(s2.iterators[i] == st.iterators[i]);
                        }
                        assert forall|i: int| 0 <= i < s.frames.len() implies values_ok(
                            na,
                            nt,
                            (#[trigger] s.frames[i]).function.constants,
                        ) by {
                            assert(s.frames[i].function == st.frames[i].function);
                        }
                    },
                }
            }
        },
        _ => {},
    }
}

/// Every instruction keeps the heap invariant (one that would panic aside).
pub proof fn law_step_keeps_heap(ar: Arith, st: VmState, ins: Instruction)
    requires
        heap_ok(st),
        !step_panics(ar, st, ins),
    ensures
        heap_ok(step(ar, st, ins).0),
{
    match ins {
        Instruction::LoadConstant { .. } | Instruction::LoadNil | Instruction::LoadTrue | Instruction::LoadFalse
        | Instruction::LoadLocal { .. } | Instruction::StoreLocal { .. } | Instruction::LoadGlobal { .. }
        | Instruction::StoreGlobal { .. } => lemma_load_store_ok(ar, st, ins),
        Instruction::Add | Instruction::Subtract | Instruction::Multiply | Instruction::Divide | Instruction::Modulo
        | Instruction::Equal | Instruction::NotEqual | Instruction::Less | Instruction::Greater
        | Instruction::LessEqual | Instruction::GreaterEqual => lemma_arith_compare_ok(ar, st, ins),
        Instruction::And | Instruction::Or | Instruction::Not | Instruction::Jump { .. }
        | Instruction::JumpIfFalse { .. } | Instruction::JumpIfTrue { .. } | Instruction::JumpBack { .. }
        | Instruction::Call { .. } | Instruction::Return | Instruction::ReturnNil => lemma_control_ok(ar, st, ins),
        Instruction::NewArray { .. } | Instruction::NewTable | Instruction::ArrayPush | Instruction::TableSet { .. }
        | Instruction::IndexGet | Instruction::IndexSet | Instruction::PropertyGet { .. }
        | Instruction::PropertySet { .. } | Instruction::NullCoalesce | Instruction::Spread
        | Instruction::Length => lemma_data_ok(ar, st, ins),
        Instruction::Class { .. } | Instruction::ForInInit | Instruction::ForInNext { .. } => lemma_loops_ok(ar, st, ins),
        _ => lemma_objects_ok(ar, st, ins),
    }
}


/// A program whose constants refer to no array or table past the heap.
pub open spec fn program_ok(na: nat, nt: nat, p: SpecProgram) -> bool {
    &&& values_ok(na, nt, p.main.constants)
    &&& forall|i: int| 0 <= i < p.functions.len() ==> values_ok(na, nt, (#[trigger] p.functions[i]).constants)
}

/// Loading a program whose constants refer to what exists keeps the
/// invariant.
pub proof fn law_load_keeps_heap(st: VmState, p: SpecProgram)
    requires
        heap_ok(st),
        program_ok(st.arrays.len(), st.tables.len(), p),
    ensures
        heap_ok(load(st, p)),
{
    let l = load(st, p);
    assert forall|i: int| 0 <= i < l.frames.len() implies values_ok(
        st.arrays.len(),
        st.tables.len(),
        (#[trigger] l.frames[i]).function.constants,
    ) by {
        if i < st.frames.len() {
            assert(l.frames[i] == st.frames[i]);
        }
    }
}

/// A run keeps the heap invariant: where it finishes, every array or table
/// that a value refers to exists.
pub proof fn law_run_keeps_heap(ar: Arith, st: VmState, fuel: nat)
    requires
        heap_ok(st),
    ensures
        run(ar, st, fuel) matches RunOutcome::Finished(s, _) ==> heap_ok(s),
    decreases fuel,
{
    if st.frames.len() > 0 && fuel > 0 {
        let f = st.frames.last();
        if f.ip >= f.function.instructions.len() {
            lemma_pop_frame_ok(st);
            law_run_keeps_heap(ar, crate::machine::VmState { frames: st.frames.drop_last(), ..st }, (fuel - 1) as nat);
        } else {
            let ins = f.function.instructions[f.ip as int];
            let s1 = VmState {
                frames: st.frames.update(
                    st.frames.len() - 1,
                    crate::machine::SpecFrame { ip: (f.ip + 1) as usize, ..f },
                ),
                ..st
            };
            assert forall|i: int| 0 <= i < s1.frames.len() implies values_ok(
                st.arrays.len(),
                st.tables.len(),
                (#[trigger] s1.frames[i]).function.constants,
            ) by {
                assert(s1.frames[i].function == st.frames[i].function);
            }
            if !step_panics(ar, s1, ins) {
                law_step_keeps_heap(ar, s1, ins);
                let (s2, r) = step(ar, s1, ins);
                law_run_keeps_heap(ar, s2, (fuel - 1) as nat);
            }
        }
    }
}


/// A compiled program refers to no array or table: loading it into a
/// machine that keeps the heap invariant keeps it, whatever the compiler
/// had compiled before, provided those functions were compiled too.
pub proof fn law_compiled_program_loads_safely(ar: Arith, cs: CompState, program: Seq<SpecStmt>, st: VmState)
    requires
        forall|i: int| 0 <= i < cs.functions.len() ==> well_formed_function(#[trigger] cs.functions[i]),
        heap_ok(st),
    ensures
        heap_ok(load(st, compile_program(ar, cs, program))),
{
    let p = compile_program(ar, cs, program);
    law_compiled_functions_well_formed(ar, cs, program);
    let na = st.arrays.len();
    let nt = st.tables.len();
    assert forall|i: int| 0 <= i < p.functions.len() implies values_ok(na, nt, (#[trigger] p.functions[i]).constants) by {
        if i < cs.functions.len() {
            assert(p.functions[i] == cs.functions[i]);
            assert(well_formed_function(cs.functions[i]));
        }
        assert(well_formed_function(p.functions[i]));
        assert(values_ok(0, 0, p.functions[i].constants));
    }
    assert(values_ok(0, 0, p.main.constants));
    law_load_keeps_heap(st, p);
}

} // verus!

//! Runtime values of the bytecode machine, and constants of compiled functions.
//!
//! Arrays and tables live in the machine's heap; a value refers to one by its
//! index there, so that two values may share one array as they would share a
//! reference-counted cell.
use vstd::prelude::*;
use crate::ast::{copy_opt, opt_view, Expr, SpecExpr};

verus! {

pub enum Value {
    Nil,
    Bool(bool),
    /// Bit pattern of a 64-bit float.
    Number(u64),
    String(String),
    /// Index of an array in the machine's heap.
    Array(usize),
    /// Index of a table in the machine's heap.
    Table(usize),
    /// Bit patterns of the two bounds.
    Range { start: u64, end: u64 },
    /// A compiled function: its index among the program's functions, its
    /// parameters and their default expressions.
    Function { name: usize, params: Vec<usize>, default_params: Vec<Option<Expr>> },
    AsyncFunction { name: usize, params: Vec<usize>, default_params: Vec<Option<Expr>> },
    Generator { name: usize, params: Vec<usize> },
}

pub enum SpecValue {
    Nil,
    Bool(bool),
    Number(u64),
    String(Seq<char>),
    Array(usize),
    Table(usize),
    Range { start: u64, end: u64 },
    Function { name: usize, params: Seq<usize>, default_params: Seq<Option<SpecExpr>> },
    AsyncFunction { name: usize, params: Seq<usize>, default_params: Seq<Option<SpecExpr>> },
    Generator { name: usize, params: Seq<usize> },
}

pub open spec fn opts_view(s: Seq<Option<Expr>>) -> Seq<Option<SpecExpr>>
    decreases s.len(),
{
    if s.len() == 0 {
        Seq::empty()
    } else {
        opts_view(s.drop_last()).push(opt_view(s.last()))
    }
}

pub proof fn lemma_opts_view(p: Seq<Option<Expr>>)
    ensures
        opts_view(p).len() == p.len(),
        forall|i: int| 0 <= i < p.len() ==> #[trigger] opts_view(p)[i] == opt_view(p[i]),
    decreases p.len(),
{
    if p.len() > 0 {
        lemma_opts_view(p.drop_last());
    }
}

impl View for Value {
    type V = SpecValue;

    open spec fn view(&self) -> SpecValue {
        match self {
            Value::Nil => SpecValue::Nil,
            Value::Bool(b) => SpecValue::Bool(*b),
            Value::Number(n) => SpecValue::Number(*n),
            Value::String(s) => SpecValue::String(s@),
            Value::Array(h) => SpecValue::Array(*h),
            Value::Table(h) => SpecValue::Table(*h),
            Value::Range { start, end } => SpecValue::Range { start: *start, end: *end },
            Value::Function { name, params, default_params } => SpecValue::Function {
                name: *name,
                params: params@,
                default_params: opts_view(default_params@),
            },
            Value::AsyncFunction { name, params, default_params } => SpecValue::AsyncFunction {
                name: *name,
                params: params@,
                default_params: opts_view(default_params@),
            },
            Value::Generator { name, params } => SpecValue::Generator { name: *name, params: params@ },
        }
    }
}

pub open spec fn values_view(s: Seq<Value>) -> Seq<SpecValue> {
    Seq::new(s.len(), |i: int| s[i]@)
}

pub fn copy_usizes(v: &Vec<usize>) -> (r: Vec<usize>)
    ensures
        r@ == v@,
{
    let mut out: Vec<usize> = Vec::new();
    let mut i: usize = 0;
    while i < v.len()
        invariant
            i <= v.len(),
            out@ == v@.take(i as int),
        decreases v.len() - i,
    {
        out.push(v[i]);
        proof {
            assert(v@.take(i + 1) =~= v@.take(i as int).push(v@[i as int]));
        }
        i += 1;
    }
    proof {
        assert(v@.take(v.len() as int) =~= v@);
    }
    out
}

pub fn copy_opts(v: &Vec<Option<Expr>>) -> (r: Vec<Option<Expr>>)
    ensures
        opts_view(r@) == opts_view(v@),
{
    let mut out: Vec<Option<Expr>> = Vec::new();
    let mut i: usize = 0;
    while i < v.len()
        invariant
            i <= v.len(),
            opts_view(out@) == opts_view(v@.take(i as int)),
        decreases v.len() - i,
    {
        let c = copy_opt(&v[i]);
        let ghost prev = out@;
        out.push(c);
        proof {
            assert(v@.take(i + 1).drop_last() =~= v@.take(i as int));
            assert(out@.drop_last() =~= prev);
        }
        i += 1;
    }
    proof {
        assert(v@.take(v.len() as int) =~= v@);
    }
    out
}

impl Value {
    /// A copy of the value; arrays and tables are shared, not duplicated.
    pub fn copy(&self) -> (r: Value)
        ensures
            r@ == self@,
    {
        match self {
            Value::Nil => Value::Nil,
            Value::Bool(b) => Value::Bool(*b),
            Value::Number(n) => Value::Number(*n),
            Value::String(s) => Value::String(s.clone()),
            Value::Array(h) => Value::Array(*h),
            Value::Table(h) => Value::Table(*h),
            Value::Range { start, end } => Value::Range { start: *start, end: *end },
            Value::Function { name, params, default_params } => Value::Function {
                name: *name,
                params: copy_usizes(params),
                default_params: copy_opts(default_params),
            },
            Value::AsyncFunction { name, params, default_params } => Value::AsyncFunction {
                name: *name,
                params: copy_usizes(params),
                default_params: copy_opts(default_params),
            },
            Value::Generator { name, params } => Value::Generator { name: *name, params: copy_usizes(params) },
        }
    }
}

impl Clone for Value {
    fn clone(&self) -> (r: Self)
        ensures
            r@ == self@,
    {
        self.copy()
    }
}

pub fn copy_values(v: &Vec<Value>) -> (r: Vec<Value>)
    ensures
        values_view(r@) == values_view(v@),
{
    let mut out: Vec<Value> = Vec::new();
    let mut i: usize = 0;
    while i < v.len()
        invariant
            i <= v.len(),
            out@.len() == i,
            forall|k: int| 0 <= k < i ==> #[trigger] out@[k]@ == v@[k]@,
        decreases v.len() - i,
    {
        let c = v[i].copy();
        out.push(c);
        i += 1;
    }
    proof {
        assert(values_view(out@) =~= values_view(v@));
    }
    out
}

} // verus!

//! The text of the machine's errors, with the values they name written out.
use vstd::prelude::*;
use vstd::string::StringExecFns;
use crate::ast::InternedString;
use crate::machine::{decimal, SpecVmError};
use crate::number::{arith_of, arith_ok, Arith, NumOp};
use crate::text::{number_text, number_text_of};
use crate::value::{SpecValue, Value};
use crate::vm::{decimal_text, VmError};

verus! {

/// The operator of an arithmetic error as text: one of `+ - * / %`, or `?`.
pub open spec fn operator_text(c: char) -> Seq<char> {
    if c == '+' || c == '-' || c == '*' || c == '/' || c == '%' {
        seq![c]
    } else {
        "?"@
    }
}

/// Numbers separated by `, `.
pub open spec fn numbers_text(s: Seq<usize>) -> Seq<char>
    decreases s.len(),
{
    if s.len() == 0 {
        Seq::empty()
    } else if s.len() == 1 {
        decimal(s[0] as nat)
    } else {
        numbers_text(s.drop_last()) + ", "@ + decimal(s.last() as nat)
    }
}

/// A function value as messages name it.
pub open spec fn function_text(kind: Seq<char>, name: usize, params: Seq<usize>) -> Seq<char> {
    kind + " { name: "@ + decimal(name as nat) + ", params: ["@ + numbers_text(params) + "] }"@
}

/// A value as messages name it: its kind, then what it holds.
pub open spec fn value_description(ar: Arith, v: SpecValue) -> Seq<char> {
    match v {
        SpecValue::Nil => "Nil"@,
        SpecValue::Bool(b) => if b {
            "Bool(true)"@
        } else {
            "Bool(false)"@
        },
        SpecValue::Number(n) => "Number("@ + number_text(ar, n) + ")"@,
        SpecValue::String(s) => "String(\""@ + s + "\")"@,
        SpecValue::Array(h) => "Array(#"@ + decimal(h as nat) + ")"@,
        SpecValue::Table(h) => "Table(#"@ + decimal(h as nat) + ")"@,
        SpecValue::Range { start, end } => "Range { start: "@ + number_text(ar, start) + ", end: "@ + number_text(
            ar,
            end,
        ) + " }"@,
        SpecValue::Function { name, params, .. } => function_text("Function"@, name, params),
        SpecValue::AsyncFunction { name, params, .. } => function_text("AsyncFunction"@, name, params),
        SpecValue::Generator { name, params } => function_text("Generator"@, name, params),
    }
}

/// A name of the interner as messages write it.
pub open spec fn name_text(n: InternedString) -> Seq<char> {
    "InternedString("@ + decimal(n.0 as nat) + ")"@
}

/// The text of an error.
pub open spec fn error_text(ar: Arith, e: SpecVmError) -> Seq<char> {
    match e {
        SpecVmError::InvalidOperands(c) => "Invalid operands for "@ + operator_text(c),
        SpecVmError::DivisionByZero => "Division by zero"@,
        SpecVmError::ModuloByZero => "Modulo by zero"@,
        SpecVmError::CannotNegate => "Cannot negate non-number"@,
        SpecVmError::FunctionIndexOutOfBounds(i) => "Function index "@ + decimal(i as nat) + " out of bounds"@,
        SpecVmError::NotCallable(v) => "Cannot call non-function value: "@ + value_description(ar, v),
        SpecVmError::InvalidIndex => "Invalid index operation"@,
        SpecVmError::IndexOutOfBounds(i) => "Index "@ + decimal(i as nat) + " out of bounds"@,
        SpecVmError::InvalidIndexAssignment => "Invalid index assignment"@,
        SpecVmError::PropertyOfNonTable(n) => "Cannot get property '"@ + name_text(n) + "' on non-table"@,
        SpecVmError::PropertySetOnNonTable(n) => "Cannot set property '"@ + name_text(n) + "' on non-table"@,
        SpecVmError::NotAClass => "Cannot instantiate non-class"@,
        SpecVmError::RangeBoundsNotNumbers => "Range bounds must be numbers"@,
        SpecVmError::NotIterable => "Can only iterate over arrays, ranges, or tables"@,
        SpecVmError::CannotGetLength => "Cannot get length"@,
        SpecVmError::CannotInterpolate => "Cannot write value as text"@,
    }
}

fn operator_of(c: char) -> (r: &'static str)
    ensures
        r@ == operator_text(c),
{
    proof {
        reveal_strlit("+");
        reveal_strlit("-");
        reveal_strlit("*");
        reveal_strlit("/");
        reveal_strlit("%");
    }
    if c == '+' {
        "+"
    } else if c == '-' {
        "-"
    } else if c == '*' {
        "*"
    } else if c == '/' {
        "/"
    } else if c == '%' {
        "%"
    } else {
        "?"
    }
}

fn numbers_of(s: &Vec<usize>) -> (r: String)
    ensures
        r@ == numbers_text(s@),
{
    let mut out = String::new();
    let mut i: usize = 0;
    proof {
        assert(s@.take(0) =~= Seq::<usize>::empty());
    }
    while i < s.len()
        invariant
            i <= s@.len(),
            out@ == numbers_text(s@.take(i as int)),
        decreases s.len() - i,
    {
        proof {
            assert(s@.take(i + 1).drop_last() =~= s@.take(i as int));
        }
        if i > 0 {
            out.append(", ");
        }
        let d = decimal_text(s[i]);
        out.append(d.as_str());
        i = i + 1;
    }
    proof {
        assert(s@.take(s@.len() as int) =~= s@);
    }
    out
}

fn function_of(kind: &str, name: usize, params: &Vec<usize>) -> (r: String)
    ensures
        r@ == function_text(kind@, name, params@),
{
    let mut out = String::from_str(kind);
    out.append(" { name: ");
    out.append(decimal_text(name).as_str());
    out.append(", params: [");
    out.append(numbers_of(params).as_str());
    out.append("] }");
    out
}

/// Writes a value as messages name it.
pub fn describe<F: Fn(NumOp, u64, u64) -> u64>(v: &Value, arith: &F) -> (r: String)
    requires
        arith_ok(*arith),
    ensures
        r@ == value_description(arith_of(*arith), v@),
{
    match v {
        Value::Nil => String::from_str("Nil"),
        Value::Bool(b) => String::from_str(if *b { "Bool(true)" } else { "Bool(false)" }),
        Value::Number(n) => {
            let mut out = String::from_str("Number(");
            out.append(number_text_of(*n, arith).as_str());
            out.append(")");
            out
        },
        Value::String(s) => {
            let mut out = String::from_str("String(\"");
            out.append(s.as_str());
            out.append("\")");
            out
        },
        Value::Array(h) => {
            let mut out = String::from_str("Array(#");
            out.append(decimal_text(*h).as_str());
            out.append(")");
            out
        },
        Value::Table(h) => {
            let mut out = String::from_str("Table(#");
            out.append(decimal_text(*h).as_str());
            out.append(")");
            out
        },
        Value::Range { start, end } => {
            let mut out = String::from_str("Range { start: ");
            out.append(number_text_of(*start, arith).as_str());
            out.append(", end: ");
            out.append(number_text_of(*end, arith).as_str());
            out.append(" }");
            out
        },
        Value::Function { name, params, .. } => function_of("Function", *name, params),
        Value::AsyncFunction { name, params, .. } => function_of("AsyncFunction", *name, params),
        Value::Generator { name, params } => function_of("Generator", *name, params),
    }
}

fn name_of(n: InternedString) -> (r: String)
    ensures
        r@ == name_text(n),
{
    let mut out = String::from_str("InternedString(");
    out.append(decimal_text(n.id()).as_str());
    out.append(")");
    out
}

impl VmError {
    /// The text of the error; `arith` writes the numbers it names.
    pub fn message<F: Fn(NumOp, u64, u64) -> u64>(&self, arith: &F) -> (r: String)
        requires
            arith_ok(*arith),
        ensures
            r@ == error_text(arith_of(*arith), self@),
    {
        match self {
            VmError::InvalidOperands(c) => {
                let mut out = String::from_str("Invalid operands for ");
                out.append(operator_of(*c));
                out
            },
            VmError::DivisionByZero => String::from_str("Division by zero"),
            VmError::ModuloByZero => String::from_str("Modulo by zero"),
            VmError::CannotNegate => String::from_str("Cannot negate non-number"),
            VmError::FunctionIndexOutOfBounds(i) => {
                let mut out = String::from_str("Function index ");
                out.append(decimal_text(*i).as_str());
                out.append(" out of bounds");
                out
            },
            VmError::NotCallable(v) => {
                let mut out = String::from_str("Cannot call non-function value: ");
                out.append(describe(v, arith).as_str());
                out
            },
            VmError::InvalidIndex => String::from_str("Invalid index operation"),
            VmError::IndexOutOfBounds(i) => {
                let mut out = String::from_str("Index ");
                out.append(decimal_text(*i).as_str());
                out.append(" out of bounds");
                out
            },
            VmError::InvalidIndexAssignment => String::from_str("Invalid index assignment"),
            VmError::PropertyOfNonTable(n) => {
                let mut out = String::from_str("Cannot get property '");
                out.append(name_of(*n).as_str());
                out.append("' on non-table");
                out
            },
            VmError::PropertySetOnNonTable(n) => {
                let mut out = String::from_str("Cannot set property '");
                out.append(name_of(*n).as_str());
                out.append("' on non-table");
                out
            },
            VmError::NotAClass => String::from_str("Cannot instantiate non-class"),
            VmError::RangeBoundsNotNumbers => String::from_str("Range bounds must be numbers"),
            VmError::NotIterable => String::from_str("Can only iterate over arrays, ranges, or tables"),
            VmError::CannotGetLength => String::from_str("Cannot get length"),
            VmError::CannotInterpolate => String::from_str("Cannot write value as text"),
        }
    }
}

} // verus!

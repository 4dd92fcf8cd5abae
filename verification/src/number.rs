//! Numbers of the language are IEEE-754 doubles.  The library carries them
//! as their 64-bit patterns and asks a caller-supplied arithmetic function for
//! every operation whose result depends on floating-point rules.
use vstd::prelude::*;

verus! {

/// Operations on numbers that the library delegates to the arithmetic
/// function handed in by its caller.
///
/// Arguments and results are bit patterns of doubles, except that
/// `FromUsize` takes an unsigned integer, `FromI64` a signed integer stored
/// in two's complement, `ToUsize` and `ToI64` return an integer (`as`
/// conversion), the comparisons return 1 for true and 0 for false, and
/// `TextLen` gives the number of characters of the double written as text,
/// `TextChar` (with a position as second argument) the code of one of them.
#[derive(Clone, Copy, Debug, PartialEq, Eq, Structural)]
pub enum NumOp {
    Add,
    Sub,
    Mul,
    Div,
    Rem,
    Neg,
    Less,
    Greater,
    LessEq,
    GreaterEq,
    Equal,
    FromUsize,
    FromI64,
    ToUsize,
    ToI64,
    TextLen,
    TextChar,
}

/// Bit pattern of the double `0.0`.
pub const ZERO_BITS: u64 = 0u64;

/// Bit pattern of the double `1.0`.
pub const ONE_BITS: u64 = 0x3FF0_0000_0000_0000u64;

/// Bit pattern of the double `2.0`.
pub const TWO_BITS: u64 = 0x4000_0000_0000_0000u64;

/// Bit pattern of the double `-0.0`.
pub const NEG_ZERO_BITS: u64 = 0x8000_0000_0000_0000u64;

/// The double whose pattern is `b` compares equal to `0.0` (it is `0.0` or `-0.0`).
pub open spec fn is_zero(b: u64) -> bool {
    b == ZERO_BITS || b == NEG_ZERO_BITS
}

/// The double whose pattern is `b` compares equal to `1.0`.
pub open spec fn is_one(b: u64) -> bool {
    b == ONE_BITS
}

/// The double whose pattern is `b` compares equal to `2.0`.
pub open spec fn is_two(b: u64) -> bool {
    b == TWO_BITS
}

pub fn bits_is_zero(b: u64) -> (r: bool)
    ensures
        r == is_zero(b),
{
    b == ZERO_BITS || b == NEG_ZERO_BITS
}

/// An arithmetic on bit patterns of doubles, as a mathematical function.
pub type Arith = spec_fn(NumOp, u64, u64) -> u64;

/// The arithmetic that a caller's function computes, as a mathematical function.
pub open spec fn arith_of<F: Fn(NumOp, u64, u64) -> u64>(f: F) -> spec_fn(NumOp, u64, u64) -> u64 {
    |op: NumOp, a: u64, b: u64| choose|r: u64| call_ensures(f, (op, a, b), r)
}

/// The caller's arithmetic function accepts every input and gives one result
/// for each input.
pub open spec fn arith_ok<F: Fn(NumOp, u64, u64) -> u64>(f: F) -> bool {
    &&& forall|op: NumOp, a: u64, b: u64| call_requires(f, (op, a, b))
    &&& forall|op: NumOp, a: u64, b: u64, r1: u64, r2: u64|
        call_ensures(f, (op, a, b), r1) && call_ensures(f, (op, a, b), r2) ==> r1 == r2
}

/// Applies the caller's arithmetic function.
pub fn apply<F: Fn(NumOp, u64, u64) -> u64>(f: &F, op: NumOp, a: u64, b: u64) -> (r: u64)
    requires
        arith_ok(*f),
    ensures
        r == arith_of(*f)(op, a, b),
{
    let r = f(op, a, b);
    proof {
        let c = choose|x: u64| call_ensures(*f, (op, a, b), x);
        assert(call_ensures(*f, (op, a, b), c));
    }
    r
}

} // verus!

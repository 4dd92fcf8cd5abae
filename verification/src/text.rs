//! Numbers written as text.  How a double is written is a floating-point
//! matter, so the caller's arithmetic gives the text one character at a
//! time: `TextLen` its length and `TextChar` the code of each character.
//! Only the characters a written double is made of are taken as they are.
use vstd::prelude::*;
use vstd::string::StringExecFns;
use crate::number::{apply, arith_of, arith_ok, Arith, NumOp, ZERO_BITS};

verus! {

/// The codes that a written double is made of: the digits, the signs, the
/// point, the exponent letters and the letters of `inf` and `NaN`.
pub open spec fn is_number_char(c: u64) -> bool {
    (48 <= c <= 57) || c == 43 || c == 45 || c == 46 || c == 69 || c == 101 || c == 105 || c == 110 || c == 102
        || c == 78 || c == 97
}

/// The character with code `c`, where it is one a double is written with;
/// `?` for any other code.
pub open spec fn number_char(c: u64) -> char {
    if is_number_char(c) {
        c as char
    } else {
        '?'
    }
}

/// The text of the double with bit pattern `n`, as the arithmetic writes it.
pub open spec fn number_text(ar: Arith, n: u64) -> Seq<char> {
    Seq::new(ar(NumOp::TextLen, n, ZERO_BITS) as nat, |i: int| number_char(ar(NumOp::TextChar, n, i as u64)))
}

/// The one-character text of code `c`.
fn char_text(c: u64) -> (r: &'static str)
    ensures
        r@ == seq![number_char(c)],
{
    proof {
        reveal_strlit("0");
        reveal_strlit("1");
        reveal_strlit("2");
        reveal_strlit("3");
        reveal_strlit("4");
        reveal_strlit("5");
        reveal_strlit("6");
        reveal_strlit("7");
        reveal_strlit("8");
        reveal_strlit("9");
        reveal_strlit("+");
        reveal_strlit("-");
        reveal_strlit(".");
        reveal_strlit("E");
        reveal_strlit("e");
        reveal_strlit("i");
        reveal_strlit("n");
        reveal_strlit("f");
        reveal_strlit("N");
        reveal_strlit("a");
        reveal_strlit("?");
    }
    match c {
        48 => "0",
        49 => "1",
        50 => "2",
        51 => "3",
        52 => "4",
        53 => "5",
        54 => "6",
        55 => "7",
        56 => "8",
        57 => "9",
        43 => "+",
        45 => "-",
        46 => ".",
        69 => "E",
        101 => "e",
        105 => "i",
        110 => "n",
        102 => "f",
        78 => "N",
        97 => "a",
        _ => "?",
    }
}

/// Writes the double with bit pattern `n` as text.
pub fn number_text_of<F: Fn(NumOp, u64, u64) -> u64>(n: u64, arith: &F) -> (r: String)
    requires
        arith_ok(*arith),
    ensures
        r@ == number_text(arith_of(*arith), n),
{
    let len = apply(arith, NumOp::TextLen, n, ZERO_BITS);
    let mut out = String::new();
    let mut i: u64 = 0;
    while i < len
        invariant
            arith_ok(*arith),
            i <= len,
            len == arith_of(*arith)(NumOp::TextLen, n, ZERO_BITS),
            out@ == Seq::new(i as nat, |k: int| number_char(arith_of(*arith)(NumOp::TextChar, n, k as u64))),
        decreases len - i,
    {
        let c = apply(arith, NumOp::TextChar, n, i);
        out.append(char_text(c));
        i = i + 1;
        proof {
            assert(out@ =~= Seq::new(i as nat, |k: int| number_char(arith_of(*arith)(NumOp::TextChar, n, k as u64))));
        }
    }
    out
}

} // verus!

//! Source-level optimizer: constant folding, constant propagation, dead code
//! removal and strength reduction on the syntax tree.
use vstd::prelude::*;
use std::collections::{HashMap, HashSet};
use crate::ast::{
    copy_expr, lemma_exprs_view_len, lemma_stmts_view_len, copy_params, copy_names, exprs_view, entries_view, opt_view,
    opt_box_view, stmts_view, Expr, InternedString, Program, SpecExpr, SpecStmt,
    Stmt, TokenKind,
};
use crate::number::{Arith, apply, arith_of, arith_ok, bits_is_zero, is_one, is_two, is_zero, NumOp, ONE_BITS, TWO_BITS, ZERO_BITS, NEG_ZERO_BITS};

verus! {

broadcast use vstd::std_specs::hash::group_hash_axioms;

/// Counters of the rewrites that the optimizer has made.
#[derive(Debug)]
pub struct OptimizerStats {
    pub constants_folded: usize,
    pub dead_code_removed: usize,
    pub strength_reduced: usize,
    pub variables_propagated: usize,
}

impl Default for OptimizerStats {
    fn default() -> (r: Self)
        ensures
            r.constants_folded == 0,
            r.dead_code_removed == 0,
            r.strength_reduced == 0,
            r.variables_propagated == 0,
    {
        OptimizerStats { constants_folded: 0, dead_code_removed: 0, strength_reduced: 0, variables_propagated: 0 }
    }
}

/// The optimizer's state as mathematics: the variables known to hold a
/// constant expression, the variables that have been assigned, whether a
/// function has been met (a function may assign any variable whenever it is
/// called, so from then on no constant is recorded), and the four counters.
pub struct OptState {
    pub constants: Map<usize, SpecExpr>,
    pub assigned: Set<usize>,
    pub closures: bool,
    pub folded: nat,
    pub dead: nat,
    pub reduced: nat,
    pub propagated: nat,
}


impl OptState {
    pub open spec fn total(self) -> nat {
        self.folded + self.dead + self.reduced + self.propagated
    }

    pub open spec fn fold(self) -> OptState {
        OptState { folded: self.folded + 1, ..self }
    }

    pub open spec fn kill(self) -> OptState {
        OptState { dead: self.dead + 1, ..self }
    }

    pub open spec fn reduce(self) -> OptState {
        OptState { reduced: self.reduced + 1, ..self }
    }

    pub open spec fn propagate(self) -> OptState {
        OptState { propagated: self.propagated + 1, ..self }
    }

    /// Forgets every constant: after code that may run conditionally or
    /// repeatedly, no variable is known to hold one.
    pub open spec fn forget_all(self) -> OptState {
        OptState { constants: Map::empty(), ..self }
    }

    /// Meets a function: every constant is forgotten, and none is recorded
    /// from then on.
    pub open spec fn close(self) -> OptState {
        OptState { constants: Map::empty(), closures: true, ..self }
    }

    /// Records `name` as assigned and, when `value` is a constant expression
    /// and no function has been met, as holding it; otherwise any constant it
    /// held before is forgotten.
    pub open spec fn record(self, name: usize, value: Option<SpecExpr>) -> OptState {
        let c = match value {
            Some(v) => if is_constant(v) && !self.closures {
                self.constants.insert(name, v)
            } else {
                self.constants.remove(name)
            },
            None => self.constants.remove(name),
        };
        OptState { constants: c, assigned: self.assigned.insert(name), ..self }
    }
}

// ---------------------------------------------------------------------------
// Sizes: the number of nodes of a tree, a bound on the rewrites made in it.
// ---------------------------------------------------------------------------

pub open spec fn expr_size(e: SpecExpr) -> nat
    decreases e,
{
    1 + match e {
        SpecExpr::Binary { left, right, .. } => expr_size(*left) + expr_size(*right),
        SpecExpr::Unary { expr, .. } => expr_size(*expr),
        SpecExpr::NullCoalesce { left, right, .. } => expr_size(*left) + expr_size(*right),
        SpecExpr::Call { arguments, .. } => exprs_size(arguments),
        SpecExpr::Table { entries, .. } => entries_size(entries),
        SpecExpr::Array { items, .. } => exprs_size(items),
        SpecExpr::Index { object, index, .. } => expr_size(*object) + expr_size(*index),
        SpecExpr::Get { object, .. } => expr_size(*object),
        SpecExpr::Length { expr, .. } => expr_size(*expr),
        SpecExpr::Range { start, end, .. } => expr_size(*start) + expr_size(*end),
        _ => 0,
    }
}

pub open spec fn exprs_size(s: Seq<SpecExpr>) -> nat
    decreases s,
{
    if s.len() == 0 {
        0
    } else {
        exprs_size(s.drop_last()) + expr_size(s.last())
    }
}

pub open spec fn entries_size(s: Seq<(InternedString, SpecExpr)>) -> nat
    decreases s,
{
    if s.len() == 0 {
        0
    } else {
        entries_size(s.drop_last()) + expr_size(s.last().1)
    }
}

pub open spec fn opt_size(o: Option<SpecExpr>) -> nat {
    match o {
        Some(e) => expr_size(e),
        None => 0,
    }
}

pub open spec fn opt_box_size(o: Option<Box<SpecExpr>>) -> nat {
    match o {
        Some(e) => expr_size(*e),
        None => 0,
    }
}

pub open spec fn stmt_size(s: SpecStmt) -> nat
    decreases s,
{
    1 + match s {
        SpecStmt::Declaration { initializer, .. } => opt_size(initializer),
        SpecStmt::Assignment { value, .. } => expr_size(value),
        SpecStmt::Expression(e) => expr_size(e),
        SpecStmt::If { condition, then_branch, else_branch, .. } => expr_size(condition) + stmts_size(
            then_branch,
        ) + (match else_branch {
            Some(b) => stmts_size(b),
            None => 0,
        }),
        SpecStmt::While { condition, body, .. } => expr_size(condition) + stmts_size(body),
        SpecStmt::For { initializer, condition, increment, body, .. } => opt_box_size(initializer)
            + expr_size(*condition) + opt_box_size(increment) + stmts_size(body),
        SpecStmt::ForIn { iterable, body, .. } => expr_size(iterable) + stmts_size(body),
        SpecStmt::Function { body, .. } => stmts_size(body),
        SpecStmt::Return(e) => opt_size(e),
        SpecStmt::ReturnMulti(v) => exprs_size(v),
        SpecStmt::Block(v) => stmts_size(v),
        SpecStmt::Destructure { initializer, .. } => expr_size(initializer),
        SpecStmt::Throw { value, .. } => expr_size(value),
        SpecStmt::Try { body, catch_body, .. } => stmts_size(body) + stmts_size(catch_body),
        SpecStmt::PropertySet { object, value, .. } => expr_size(*object) + expr_size(value),
        _ => 0,
    }
}

pub open spec fn stmts_size(s: Seq<SpecStmt>) -> nat
    decreases s,
{
    if s.len() == 0 {
        0
    } else {
        stmts_size(s.drop_last()) + stmt_size(s.last())
    }
}

// ---------------------------------------------------------------------------
// The rewrites
// ---------------------------------------------------------------------------

/// Literals, and unary and binary operations on constant expressions.
pub open spec fn is_constant(e: SpecExpr) -> bool
    decreases e,
{
    match e {
        SpecExpr::Number(_) | SpecExpr::String(_) | SpecExpr::LiteralTrue | SpecExpr::LiteralFalse
        | SpecExpr::LiteralNil => true,
        SpecExpr::Unary { expr, .. } => is_constant(*expr),
        SpecExpr::Binary { left, right, .. } => is_constant(*left) && is_constant(*right),
        _ => false,
    }
}

pub open spec fn bool_literal(b: bool) -> SpecExpr {
    if b {
        SpecExpr::LiteralTrue
    } else {
        SpecExpr::LiteralFalse
    }
}

/// What a binary operator makes of two number literals, when it folds them.
pub open spec fn fold_numbers(ar: Arith, a: u64, op: TokenKind, b: u64) -> Option<SpecExpr> {
    match op {
        TokenKind::Plus => Some(SpecExpr::Number(ar(NumOp::Add, a, b))),
        TokenKind::Minus => Some(SpecExpr::Number(ar(NumOp::Sub, a, b))),
        TokenKind::Star => Some(SpecExpr::Number(ar(NumOp::Mul, a, b))),
        TokenKind::Slash => if is_zero(b) {
            None
        } else {
            Some(SpecExpr::Number(ar(NumOp::Div, a, b)))
        },
        TokenKind::Percent => if is_zero(b) {
            None
        } else {
            Some(SpecExpr::Number(ar(NumOp::Rem, a, b)))
        },
        TokenKind::EqualEqual => Some(bool_literal(ar(NumOp::Equal, a, b) != 0)),
        TokenKind::NotEqual => Some(bool_literal(ar(NumOp::Equal, a, b) == 0)),
        TokenKind::Less => Some(bool_literal(ar(NumOp::Less, a, b) != 0)),
        TokenKind::Greater => Some(bool_literal(ar(NumOp::Greater, a, b) != 0)),
        TokenKind::LessEqual => Some(bool_literal(ar(NumOp::LessEq, a, b) != 0)),
        TokenKind::GreaterEqual => Some(bool_literal(ar(NumOp::GreaterEq, a, b) != 0)),
        _ => None,
    }
}

pub open spec fn num_is(e: SpecExpr, p: spec_fn(u64) -> bool) -> bool {
    match e {
        SpecExpr::Number(n) => p(n),
        _ => false,
    }
}

/// Cheaper forms of multiplication by 0, 1 and 2, and of adding, subtracting
/// or dividing by a neutral element.
pub open spec fn strength_reduce(left: SpecExpr, op: TokenKind, right: SpecExpr, line: usize) -> Option<SpecExpr> {
    match op {
        TokenKind::Star => if num_is(right, |n: u64| is_two(n)) {
            Some(SpecExpr::Binary { left: Box::new(left), op: TokenKind::Plus, right: Box::new(left), line })
        } else if num_is(left, |n: u64| is_two(n)) {
            Some(SpecExpr::Binary { left: Box::new(right), op: TokenKind::Plus, right: Box::new(right), line })
        } else if num_is(right, |n: u64| is_one(n)) {
            Some(left)
        } else if num_is(left, |n: u64| is_one(n)) {
            Some(right)
        } else if num_is(right, |n: u64| is_zero(n)) || num_is(left, |n: u64| is_zero(n)) {
            Some(SpecExpr::Number(ZERO_BITS))
        } else {
            None
        },
        TokenKind::Plus => if num_is(right, |n: u64| is_zero(n)) {
            Some(left)
        } else if num_is(left, |n: u64| is_zero(n)) {
            Some(right)
        } else {
            None
        },
        TokenKind::Minus => if num_is(right, |n: u64| is_zero(n)) {
            Some(left)
        } else {
            None
        },
        TokenKind::Slash => if num_is(right, |n: u64| is_one(n)) {
            Some(left)
        } else {
            None
        },
        _ => None,
    }
}

/// A binary operation whose operands have been optimized.
pub open spec fn fold_binary(ar: Arith, st: OptState, l: SpecExpr, op: TokenKind, r: SpecExpr, line: usize) -> (
    OptState,
    SpecExpr,
) {
    let numeric = match (l, r) {
        (SpecExpr::Number(a), SpecExpr::Number(b)) => fold_numbers(ar, a, op, b),
        _ => None,
    };
    if numeric is Some {
        (st.fold(), numeric.unwrap())
    } else if l is String && r is String && op == TokenKind::Plus {
        (st.fold(), SpecExpr::String(l->String_0 + r->String_0))
    } else {
        match strength_reduce(l, op, r, line) {
            Some(x) => (st.reduce(), x),
            None => (st, SpecExpr::Binary { left: Box::new(l), op, right: Box::new(r), line }),
        }
    }
}

/// A unary operation whose operand has been optimized.
pub open spec fn fold_unary(ar: Arith, st: OptState, op: TokenKind, x: SpecExpr, line: usize) -> (OptState, SpecExpr) {
    if x is Number && op == TokenKind::Minus {
        (st.fold(), SpecExpr::Number(ar(NumOp::Neg, x->Number_0, ZERO_BITS)))
    } else if x is LiteralTrue && op == TokenKind::Not {
        (st.fold(), SpecExpr::LiteralFalse)
    } else if x is LiteralFalse && op == TokenKind::Not {
        (st.fold(), SpecExpr::LiteralTrue)
    } else {
        (st, SpecExpr::Unary { op, expr: Box::new(x), line })
    }
}

/// A length whose operand has been optimized.
pub open spec fn fold_length(ar: Arith, st: OptState, x: SpecExpr, line: usize) -> (OptState, SpecExpr) {
    match x {
        SpecExpr::Array { items, .. } => (st.fold(), SpecExpr::Number(ar(NumOp::FromUsize, items.len() as u64, ZERO_BITS))),
        SpecExpr::String(s) => (st.fold(), SpecExpr::Number(ar(NumOp::FromUsize, (vstd::utf8::encode_utf8(s).len() as usize) as u64, ZERO_BITS))),
        _ => (st, SpecExpr::Length { expr: Box::new(x), line }),
    }
}

/// The optimizer on an expression: the state after it, and the rewritten expression.
pub open spec fn opt_expr(ar: Arith, st: OptState, e: SpecExpr) -> (OptState, SpecExpr)
    decreases e,
{
    match e {
        SpecExpr::Identifier(name) => if st.constants.contains_key(name.0) {
            (st.propagate(), st.constants[name.0])
        } else {
            (st, e)
        },
        SpecExpr::Binary { left, op, right, line } => {
            let (s1, l) = opt_expr(ar, st, *left);
            let (s2, r) = opt_expr(ar, s1, *right);
            fold_binary(ar, s2, l, op, r, line)
        },
        SpecExpr::Unary { op, expr, line } => {
            let (s1, x) = opt_expr(ar, st, *expr);
            fold_unary(ar, s1, op, x, line)
        },
        SpecExpr::NullCoalesce { left, right, line } => {
            let (s1, l) = opt_expr(ar, st, *left);
            match l {
                SpecExpr::LiteralNil => opt_expr(ar, s1.kill(), *right),
                SpecExpr::Number(_) | SpecExpr::String(_) | SpecExpr::LiteralTrue | SpecExpr::LiteralFalse => (
                    s1.kill(),
                    l,
                ),
                _ => {
                    let (s2, r) = opt_expr(ar, s1, *right);
                    (s2, SpecExpr::NullCoalesce { left: Box::new(l), right: Box::new(r), line })
                },
            }
        },
        SpecExpr::Call { callee, arguments, line } => {
            let (s1, args) = opt_exprs(ar, st, arguments);
            (s1, SpecExpr::Call { callee, arguments: args, line })
        },
        SpecExpr::Table { entries, line } => {
            let (s1, es) = opt_entries(ar, st, entries);
            (s1, SpecExpr::Table { entries: es, line })
        },
        SpecExpr::Array { items, line } => {
            let (s1, xs) = opt_exprs(ar, st, items);
            (s1, SpecExpr::Array { items: xs, line })
        },
        SpecExpr::Index { object, index, line } => {
            let (s1, o) = opt_expr(ar, st, *object);
            let (s2, i) = opt_expr(ar, s1, *index);
            (s2, SpecExpr::Index { object: Box::new(o), index: Box::new(i), line })
        },
        SpecExpr::Get { object, name, line } => {
            let (s1, o) = opt_expr(ar, st, *object);
            (s1, SpecExpr::Get { object: Box::new(o), name, line })
        },
        SpecExpr::Length { expr, line } => {
            let (s1, x) = opt_expr(ar, st, *expr);
            fold_length(ar, s1, x, line)
        },
        SpecExpr::Range { start, end, line } => {
            let (s1, a) = opt_expr(ar, st, *start);
            let (s2, b) = opt_expr(ar, s1, *end);
            (s2, SpecExpr::Range { start: Box::new(a), end: Box::new(b), line })
        },
        SpecExpr::FunctionLiteral { .. } | SpecExpr::Lambda { .. } | SpecExpr::AsyncFunctionLiteral { .. }
        | SpecExpr::GeneratorLiteral { .. } | SpecExpr::Class { .. } => (st.close(), e),
        _ => (st, e),
    }
}

/// The optimizer on a list of expressions, from first to last.
pub open spec fn opt_exprs(ar: Arith, st: OptState, s: Seq<SpecExpr>) -> (OptState, Seq<SpecExpr>)
    decreases s,
{
    if s.len() == 0 {
        (st, Seq::empty())
    } else {
        let (s1, pre) = opt_exprs(ar, st, s.drop_last());
        let (s2, x) = opt_expr(ar, s1, s.last());
        (s2, pre.push(x))
    }
}

/// The optimizer on the values of table entries, from first to last.
pub open spec fn opt_entries(ar: Arith, st: OptState, s: Seq<(InternedString, SpecExpr)>) -> (
    OptState,
    Seq<(InternedString, SpecExpr)>,
)
    decreases s,
{
    if s.len() == 0 {
        (st, Seq::empty())
    } else {
        let (s1, pre) = opt_entries(ar, st, s.drop_last());
        let (s2, x) = opt_expr(ar, s1, s.last().1);
        (s2, pre.push((s.last().0, x)))
    }
}

pub open spec fn opt_opt_expr(ar: Arith, st: OptState, o: Option<SpecExpr>) -> (OptState, Option<SpecExpr>)
    decreases o,
{
    match o {
        Some(e) => {
            let (s1, x) = opt_expr(ar, st, e);
            (s1, Some(x))
        },
        None => (st, None),
    }
}

pub open spec fn opt_opt_box(ar: Arith, st: OptState, o: Option<Box<SpecExpr>>) -> (OptState, Option<Box<SpecExpr>>)
    decreases o,
{
    match o {
        Some(e) => {
            let (s1, x) = opt_expr(ar, st, *e);
            (s1, Some(Box::new(x)))
        },
        None => (st, None),
    }
}

/// A branch kept in place of an `if`: its one statement, or a block of all of them.
pub open spec fn single_or_block(v: Seq<SpecStmt>) -> SpecStmt {
    if v.len() == 1 {
        v[0]
    } else {
        SpecStmt::Block(v)
    }
}

/// The optimizer on a statement: the state after it, and the statement that
/// takes its place, if any remains.
pub open spec fn opt_stmt(ar: Arith, st: OptState, s: SpecStmt) -> (OptState, Option<SpecStmt>)
    decreases s,
{
    match s {
        SpecStmt::Declaration { name, initializer, line, is_const } => {
            let (s1, init) = opt_opt_expr(ar, st, initializer);
            (s1.record(name.0, init), Some(SpecStmt::Declaration { name, initializer: init, line, is_const }))
        },
        SpecStmt::Assignment { name, value, line, is_const_assign } => {
            let (s1, v) = opt_expr(ar, st, value);
            let s2 = OptState { constants: s1.constants.remove(name.0), ..s1 };
            (s2.record(name.0, Some(v)), Some(SpecStmt::Assignment { name, value: v, line, is_const_assign }))
        },
        SpecStmt::Expression(e) => {
            let (s1, x) = opt_expr(ar, st, e);
            (s1, Some(SpecStmt::Expression(x)))
        },
        SpecStmt::If { condition, then_branch, else_branch, line } => {
            let (s1, c) = opt_expr(ar, st, condition);
            match c {
                SpecExpr::LiteralTrue => {
                    let (s2, t) = opt_stmts(ar, s1.kill(), then_branch);
                    (s2, Some(single_or_block(t)))
                },
                SpecExpr::LiteralFalse => match else_branch {
                    Some(b) => {
                        let (s2, t) = opt_stmts(ar, s1.kill(), b);
                        (s2, Some(single_or_block(t)))
                    },
                    None => (s1.kill(), None),
                },
                _ => {
                    let (s2, t) = opt_stmts(ar, s1, then_branch);
                    match else_branch {
                        Some(b) => {
                            let (s3, e) = opt_stmts(ar, s2.forget_all(), b);
                            (
                                s3.forget_all(),
                                Some(SpecStmt::If { condition: c, then_branch: t, else_branch: Some(e), line }),
                            )
                        },
                        None => (
                            s2.forget_all(),
                            Some(SpecStmt::If { condition: c, then_branch: t, else_branch: None, line }),
                        ),
                    }
                },
            }
        },
        SpecStmt::While { condition, body, line } => {
            // A loop whose condition is false under the known constants never
            // runs: it goes, and the constants stay.  Otherwise the body may
            // assign any variable before the condition is tested again, so
            // the condition is optimized without the constants.
            let (s1, c) = opt_expr(ar, st, condition);
            if c is LiteralFalse {
                (s1.kill(), None)
            } else {
                let (s2, c2) = opt_expr(ar, st.forget_all(), condition);
                let (s3, b) = opt_stmts(ar, s2, body);
                (s3.forget_all(), Some(SpecStmt::While { condition: c2, body: b, line }))
            }
        },
        SpecStmt::For { initializer, condition, increment, body, line } => {
            let (s1, i) = opt_opt_box(ar, st, initializer);
            let (s2, c) = opt_expr(ar, s1.forget_all(), *condition);
            let (s3, inc) = opt_opt_box(ar, s2, increment);
            let (s4, b) = opt_stmts(ar, s3, body);
            (
                s4.forget_all(),
                Some(SpecStmt::For { initializer: i, condition: Box::new(c), increment: inc, body: b, line }),
            )
        },
        SpecStmt::ForIn { variable, iterable, body, line } => {
            let (s1, it) = opt_expr(ar, st, iterable);
            let (s2, b) = opt_stmts(ar, s1.forget_all(), body);
            (s2.forget_all(), Some(SpecStmt::ForIn { variable, iterable: it, body: b, line }))
        },
        SpecStmt::Function { name, params, body, line } => {
            let (s1, b) = opt_stmts(ar, st.close(), body);
            (OptState { assigned: st.assigned, ..s1.close() }, Some(SpecStmt::Function { name, params, body: b, line }))
        },
        SpecStmt::AsyncFunction { .. } | SpecStmt::Generator { .. } | SpecStmt::Class { .. } => (st.close(), Some(s)),
        SpecStmt::Import { .. } | SpecStmt::NullCoalesceAssign { .. } => (st.forget_all(), Some(s)),
        SpecStmt::Return(e) => {
            let (s1, x) = opt_opt_expr(ar, st, e);
            (s1, Some(SpecStmt::Return(x)))
        },
        SpecStmt::ReturnMulti(v) => {
            let (s1, xs) = opt_exprs(ar, st, v);
            (s1, Some(SpecStmt::ReturnMulti(xs)))
        },
        SpecStmt::Block(v) => {
            let (s1, xs) = opt_stmts(ar, st, v);
            (s1, if xs.len() == 0 { None } else { Some(single_or_block(xs)) })
        },
        SpecStmt::Destructure { names, initializer, line } => {
            let (s1, x) = opt_expr(ar, st, initializer);
            (s1.forget_all(), Some(SpecStmt::Destructure { names, initializer: x, line }))
        },
        SpecStmt::Throw { value, line } => {
            let (s1, x) = opt_expr(ar, st, value);
            (s1, Some(SpecStmt::Throw { value: x, line }))
        },
        SpecStmt::Try { body, catch_var, catch_body, line } => {
            let (s1, b) = opt_stmts(ar, st, body);
            let (s2, c) = opt_stmts(ar, s1.forget_all(), catch_body);
            (s2.forget_all(), Some(SpecStmt::Try { body: b, catch_var, catch_body: c, line }))
        },
        SpecStmt::PropertySet { object, name, value, line } => {
            let (s1, o) = opt_expr(ar, st, *object);
            let (s2, v) = opt_expr(ar, s1, value);
            (s2, Some(SpecStmt::PropertySet { object: Box::new(o), name, value: v, line }))
        },
        _ => (st, Some(s)),
    }
}

/// The optimizer on a list of statements, from first to last, keeping what remains.
pub open spec fn opt_stmts(ar: Arith, st: OptState, s: Seq<SpecStmt>) -> (OptState, Seq<SpecStmt>)
    decreases s,
{
    if s.len() == 0 {
        (st, Seq::empty())
    } else {
        let (s1, pre) = opt_stmts(ar, st, s.drop_last());
        let (s2, x) = opt_stmt(ar, s1, s.last());
        (
            s2,
            match x {
                Some(y) => pre.push(y),
                None => pre,
            },
        )
    }
}


// ---------------------------------------------------------------------------
// Laws
// ---------------------------------------------------------------------------

/// Every counter of `b` is at least the one of `a`.
pub open spec fn counters_grow(a: OptState, b: OptState) -> bool {
    &&& a.folded <= b.folded
    &&& a.dead <= b.dead
    &&& a.reduced <= b.reduced
    &&& a.propagated <= b.propagated
}

/// Every expression that the state records for a variable is a constant expression.
pub open spec fn constants_are_constant(st: OptState) -> bool {
    forall|k: usize| #[trigger] st.constants.contains_key(k) ==> is_constant(st.constants[k])
}

/// The constants of `b` are those of `a`, or none at all.
pub open spec fn kept_or_forgotten(a: OptState, b: OptState) -> bool {
    b.constants == a.constants || b.constants == Map::<usize, SpecExpr>::empty()
}

proof fn lemma_expr_keeps(ar: Arith, st: OptState, e: SpecExpr)
    ensures
        counters_grow(st, opt_expr(ar, st, e).0),
        kept_or_forgotten(st, opt_expr(ar, st, e).0),
        opt_expr(ar, st, e).0.assigned == st.assigned,
    decreases e, 0nat,
{
    match e {
        SpecExpr::Binary { left, op, right, line } => {
            lemma_expr_keeps(ar, st, *left);
            let s1 = opt_expr(ar, st, *left).0;
            lemma_expr_keeps(ar, s1, *right);
        },
        SpecExpr::Unary { expr, .. } => {
            lemma_expr_keeps(ar, st, *expr);
        },
        SpecExpr::NullCoalesce { left, right, .. } => {
            lemma_expr_keeps(ar, st, *left);
            let s1 = opt_expr(ar, st, *left).0;
            lemma_expr_keeps(ar, s1, *right);
            lemma_expr_keeps(ar, s1.kill(), *right);
        },
        SpecExpr::Call { arguments, .. } => {
            lemma_exprs_keeps(ar, st, arguments);
        },
        SpecExpr::Table { entries, .. } => {
            lemma_entries_keeps(ar, st, entries);
        },
        SpecExpr::Array { items, .. } => {
            lemma_exprs_keeps(ar, st, items);
        },
        SpecExpr::Index { object, index, .. } => {
            lemma_expr_keeps(ar, st, *object);
            let s1 = opt_expr(ar, st, *object).0;
            lemma_expr_keeps(ar, s1, *index);
        },
        SpecExpr::Get { object, .. } => {
            lemma_expr_keeps(ar, st, *object);
        },
        SpecExpr::Length { expr, .. } => {
            lemma_expr_keeps(ar, st, *expr);
        },
        SpecExpr::Range { start, end, .. } => {
            lemma_expr_keeps(ar, st, *start);
            let s1 = opt_expr(ar, st, *start).0;
            lemma_expr_keeps(ar, s1, *end);
        },
        _ => {},
    }
}

proof fn lemma_exprs_keeps(ar: Arith, st: OptState, s: Seq<SpecExpr>)
    ensures
        counters_grow(st, opt_exprs(ar, st, s).0),
        kept_or_forgotten(st, opt_exprs(ar, st, s).0),
        opt_exprs(ar, st, s).0.assigned == st.assigned,
    decreases s, 0nat,
{
    if s.len() > 0 {
        lemma_exprs_keeps(ar, st, s.drop_last());
        let s1 = opt_exprs(ar, st, s.drop_last()).0;
        lemma_expr_keeps(ar, s1, s.last());
    }
}

proof fn lemma_entries_keeps(ar: Arith, st: OptState, s: Seq<(InternedString, SpecExpr)>)
    ensures
        counters_grow(st, opt_entries(ar, st, s).0),
        kept_or_forgotten(st, opt_entries(ar, st, s).0),
        opt_entries(ar, st, s).0.assigned == st.assigned,
    decreases s, 0nat,
{
    if s.len() > 0 {
        lemma_entries_keeps(ar, st, s.drop_last());
        let s1 = opt_entries(ar, st, s.drop_last()).0;
        assert(decreases_to!(s => s.last()));
        lemma_expr_keeps(ar, s1, s.last().1);
    }
}

proof fn lemma_stmt_laws(ar: Arith, st: OptState, s: SpecStmt)
    ensures
        counters_grow(st, opt_stmt(ar, st, s).0),
        constants_are_constant(st) ==> constants_are_constant(opt_stmt(ar, st, s).0),
    decreases s, 0nat,
{
    match s {
        SpecStmt::Declaration { initializer, .. } => {
            match initializer {
                Some(e) => lemma_expr_keeps(ar, st, e),
                None => {},
            }
        },
        SpecStmt::Assignment { value, .. } => {
            lemma_expr_keeps(ar, st, value);
        },
        SpecStmt::Expression(e) => {
            lemma_expr_keeps(ar, st, e);
        },
        SpecStmt::If { condition, then_branch, else_branch, .. } => {
            lemma_expr_keeps(ar, st, condition);
            let s1 = opt_expr(ar, st, condition).0;
            lemma_stmts_laws(ar, s1, then_branch);
            lemma_stmts_laws(ar, s1.kill(), then_branch);
            match else_branch {
                Some(b) => {
                    lemma_stmts_laws(ar, s1.kill(), b);
                    let s2 = opt_stmts(ar, s1, then_branch).0;
                    lemma_stmts_laws(ar, s2.forget_all(), b);
                },
                None => {},
            }
        },
        SpecStmt::While { condition, body, .. } => {
            lemma_expr_keeps(ar, st, condition);
            lemma_expr_keeps(ar, st.forget_all(), condition);
            let s2 = opt_expr(ar, st.forget_all(), condition).0;
            lemma_stmts_laws(ar, s2, body);
        },
        SpecStmt::For { initializer, condition, increment, body, .. } => {
            match initializer {
                Some(e) => lemma_expr_keeps(ar, st, *e),
                None => {},
            }
            let s1 = opt_opt_box(ar, st, initializer).0;
            lemma_expr_keeps(ar, s1.forget_all(), *condition);
            let s2 = opt_expr(ar, s1.forget_all(), *condition).0;
            match increment {
                Some(e) => lemma_expr_keeps(ar, s2, *e),
                None => {},
            }
            let s3 = opt_opt_box(ar, s2, increment).0;
            lemma_stmts_laws(ar, s3, body);
        },
        SpecStmt::ForIn { iterable, body, .. } => {
            lemma_expr_keeps(ar, st, iterable);
            let s1 = opt_expr(ar, st, iterable).0;
            lemma_stmts_laws(ar, s1.forget_all(), body);
        },
        SpecStmt::Function { body, .. } => {
            lemma_stmts_laws(ar, st.close(), body);
        },
        SpecStmt::Return(e) => {
            match e {
                Some(e) => lemma_expr_keeps(ar, st, e),
                None => {},
            }
        },
        SpecStmt::ReturnMulti(v) => {
            lemma_exprs_keeps(ar, st, v);
        },
        SpecStmt::Block(v) => {
            lemma_stmts_laws(ar, st, v);
        },
        SpecStmt::Destructure { initializer, .. } => {
            lemma_expr_keeps(ar, st, initializer);
        },
        SpecStmt::Throw { value, .. } => {
            lemma_expr_keeps(ar, st, value);
        },
        SpecStmt::Try { body, catch_body, .. } => {
            lemma_stmts_laws(ar, st, body);
            let s1 = opt_stmts(ar, st, body).0;
            lemma_stmts_laws(ar, s1.forget_all(), catch_body);
        },
        SpecStmt::PropertySet { object, value, .. } => {
            lemma_expr_keeps(ar, st, *object);
            let s1 = opt_expr(ar, st, *object).0;
            lemma_expr_keeps(ar, s1, value);
        },
        _ => {},
    }
}

proof fn lemma_stmts_laws(ar: Arith, st: OptState, s: Seq<SpecStmt>)
    ensures
        counters_grow(st, opt_stmts(ar, st, s).0),
        constants_are_constant(st) ==> constants_are_constant(opt_stmts(ar, st, s).0),
        opt_stmts(ar, st, s).1.len() <= s.len(),
    decreases s, 0nat,
{
    if s.len() > 0 {
        lemma_stmts_laws(ar, st, s.drop_last());
        let s1 = opt_stmts(ar, st, s.drop_last()).0;
        lemma_stmt_laws(ar, s1, s.last());
    }
}

/// Optimizing never lowers a counter: each of the four counters after a
/// call of `optimize` is at least what it was before.
pub proof fn law_counters_never_decrease(ar: Arith, st: OptState, program: Seq<SpecStmt>)
    ensures
        counters_grow(st, opt_stmts(ar, st, program).0),
{
    lemma_stmts_laws(ar, st, program);
}

/// The optimized program has at most as many top-level statements as the
/// program it was made from.
pub proof fn law_no_statement_added(ar: Arith, st: OptState, program: Seq<SpecStmt>)
    ensures
        opt_stmts(ar, st, program).1.len() <= program.len(),
{
    lemma_stmts_laws(ar, st, program);
}

/// The optimizer records for a variable only a constant expression (made of
/// literals and operators), so what it substitutes for a variable is always one.
pub proof fn law_only_constants_recorded(ar: Arith, st: OptState, program: Seq<SpecStmt>)
    requires
        constants_are_constant(st),
    ensures
        constants_are_constant(opt_stmts(ar, st, program).0),
{
    lemma_stmts_laws(ar, st, program);
}

/// A declaration leaves its variable holding a constant exactly when its
/// optimized initializer is a constant expression and no function has been
/// met; a constant the name held before never survives it.
pub proof fn law_declaration_replaces_constant(
    ar: Arith,
    st: OptState,
    name: InternedString,
    initializer: Option<SpecExpr>,
    line: usize,
    is_const: bool,
)
    ensures
        ({
            let (s1, init) = opt_opt_expr(ar, st, initializer);
            let s2 = opt_stmt(ar, st, SpecStmt::Declaration { name, initializer, line, is_const }).0;
            if init is Some && is_constant(init->0) && !s1.closures {
                s2.constants.contains_key(name.0) && s2.constants[name.0] == init->0
            } else {
                !s2.constants.contains_key(name.0)
            }
        }),
{
}

/// Optimizing an expression records no constant and assigns no variable:
/// the constants stay as they were, or, where the expression makes a
/// function (which may assign any variable when it is called), all are
/// forgotten.
pub proof fn law_expressions_keep_constants(ar: Arith, st: OptState, e: SpecExpr)
    ensures
        kept_or_forgotten(st, opt_expr(ar, st, e).0),
        opt_expr(ar, st, e).0.assigned == st.assigned,
{
    lemma_expr_keeps(ar, st, e);
}

/// A function declaration forgets every constant, since its body may assign
/// any variable whenever it is called, and records none from then on; the
/// assigned variables of the enclosing code stay as they were.
pub proof fn law_function_forgets_constants(
    ar: Arith,
    st: OptState,
    name: InternedString,
    params: Seq<(InternedString, Option<SpecExpr>)>,
    body: Seq<SpecStmt>,
    line: usize,
)
    ensures
        opt_stmt(ar, st, SpecStmt::Function { name, params, body, line }).0.constants == Map::<usize, SpecExpr>::empty(),
        opt_stmt(ar, st, SpecStmt::Function { name, params, body, line }).0.closures,
        opt_stmt(ar, st, SpecStmt::Function { name, params, body, line }).0.assigned == st.assigned,
{
}

// ---------------------------------------------------------------------------
// Lemmas on sizes of prefixes
// ---------------------------------------------------------------------------

pub proof fn lemma_exprs_take(v: Seq<Expr>, i: int)
    requires
        0 <= i <= v.len(),
    ensures
        exprs_size(exprs_view(v.take(i))) <= exprs_size(exprs_view(v)),
    decreases v.len(),
{
    if i < v.len() {
        lemma_exprs_take(v.drop_last(), i);
        assert(v.take(i) =~= v.drop_last().take(i));
        assert(exprs_view(v).drop_last() =~= exprs_view(v.drop_last()));
    } else {
        assert(v.take(i) =~= v);
    }
}

pub proof fn lemma_entries_take(v: Seq<(InternedString, Expr)>, i: int)
    requires
        0 <= i <= v.len(),
    ensures
        entries_size(entries_view(v.take(i))) <= entries_size(entries_view(v)),
    decreases v.len(),
{
    if i < v.len() {
        lemma_entries_take(v.drop_last(), i);
        assert(v.take(i) =~= v.drop_last().take(i));
        assert(entries_view(v).drop_last() =~= entries_view(v.drop_last()));
    } else {
        assert(v.take(i) =~= v);
    }
}

pub proof fn lemma_stmts_take(v: Seq<Stmt>, i: int)
    requires
        0 <= i <= v.len(),
    ensures
        stmts_size(stmts_view(v.take(i))) <= stmts_size(stmts_view(v)),
    decreases v.len(),
{
    if i < v.len() {
        lemma_stmts_take(v.drop_last(), i);
        assert(v.take(i) =~= v.drop_last().take(i));
        assert(stmts_view(v).drop_last() =~= stmts_view(v.drop_last()));
    } else {
        assert(v.take(i) =~= v);
    }
}

pub open spec fn opt_stmt_view(o: Option<Stmt>) -> Option<SpecStmt> {
    match o {
        Some(s) => Some(s@),
        None => None,
    }
}

/// Source-level optimizer.  It keeps, while it walks a program, the
/// variables that hold a constant expression.
pub struct Optimizer {
    constants: HashMap<usize, Expr>,
    assigned: HashSet<usize>,
    closures: bool,
    stats: OptimizerStats,
}

impl View for Optimizer {
    type V = OptState;

    closed spec fn view(&self) -> OptState {
        OptState {
            constants: self.constants@.map_values(|e: Expr| e@),
            assigned: self.assigned@,
            closures: self.closures,
            folded: self.stats.constants_folded as nat,
            dead: self.stats.dead_code_removed as nat,
            reduced: self.stats.strength_reduced as nat,
            propagated: self.stats.variables_propagated as nat,
        }
    }
}

/// Copies a set of variable numbers.
///
/// Calls `HashSet::clone`; the contract claims that the copy holds the same elements.
#[verifier::external_body]
fn clone_set(s: &HashSet<usize>) -> (r: HashSet<usize>)
    ensures
        r@ == s@,
{
    s.clone()
}

impl Optimizer {
    /// An optimizer that knows no constants and has made no rewrite.
    pub fn new() -> (r: Self)
        ensures
            r@.constants.is_empty(),
            r@.assigned.is_empty(),
            !r@.closures,
            r@.folded == 0,
            r@.dead == 0,
            r@.reduced == 0,
            r@.propagated == 0,
    {
        let r = Optimizer {
            constants: HashMap::new(),
            assigned: HashSet::new(),
            closures: false,
            stats: OptimizerStats {
                constants_folded: 0,
                dead_code_removed: 0,
                strength_reduced: 0,
                variables_propagated: 0,
            },
        };
        proof {
            assert(r@.constants =~= Map::<usize, SpecExpr>::empty());
        }
        r
    }

    /// Optimizes the statements of `program` from first to last.  `arith`
    /// computes on the bit patterns of numbers.
    pub fn optimize<F: Fn(NumOp, u64, u64) -> u64>(&mut self, program: Program, arith: &F) -> (r: Program)
        requires
            arith_ok(*arith),
            old(self)@.total() + stmts_size(program@) <= usize::MAX,
        ensures
            (final(self)@, r@) == opt_stmts(arith_of(*arith), old(self)@, program@),
            final(self)@.total() <= old(self)@.total() + stmts_size(program@),
    {
        let statements = self.optimize_stmts(&program.statements, arith);
        Program { statements }
    }

    /// The counters of the rewrites made so far.
    pub fn stats(&self) -> (r: &OptimizerStats)
        ensures
            r.constants_folded == self@.folded,
            r.dead_code_removed == self@.dead,
            r.strength_reduced == self@.reduced,
            r.variables_propagated == self@.propagated,
    {
        &self.stats
    }

    fn count_fold(&mut self)
        requires
            old(self)@.total() < usize::MAX,
        ensures
            final(self)@ == old(self)@.fold(),
    {
        self.stats.constants_folded = self.stats.constants_folded + 1;
    }

    fn count_dead(&mut self)
        requires
            old(self)@.total() < usize::MAX,
        ensures
            final(self)@ == old(self)@.kill(),
    {
        self.stats.dead_code_removed = self.stats.dead_code_removed + 1;
    }

    fn count_reduced(&mut self)
        requires
            old(self)@.total() < usize::MAX,
        ensures
            final(self)@ == old(self)@.reduce(),
    {
        self.stats.strength_reduced = self.stats.strength_reduced + 1;
    }

    fn count_propagated(&mut self)
        requires
            old(self)@.total() < usize::MAX,
        ensures
            final(self)@ == old(self)@.propagate(),
    {
        self.stats.variables_propagated = self.stats.variables_propagated + 1;
    }

    /// Whether an expression is made of literals and operators only.
    fn is_constant_expr(&self, expr: &Expr) -> (r: bool)
        ensures
            r == is_constant(expr@),
        decreases expr,
    {
        match expr {
            Expr::Number(_) | Expr::String(_) | Expr::LiteralTrue | Expr::LiteralFalse | Expr::LiteralNil => true,
            Expr::Unary { expr, .. } => self.is_constant_expr(&**expr),
            Expr::Binary { left, right, .. } => self.is_constant_expr(&**left) && self.is_constant_expr(&**right),
            _ => false,
        }
    }

    /// Rewrites a multiplication, addition, subtraction or division by a
    /// neutral or absorbing number into a cheaper expression.
    fn strength_reduce(&self, left: &Expr, op: &TokenKind, right: &Expr, line: usize) -> (r: Option<Expr>)
        ensures
            match r {
                Some(x) => strength_reduce(left@, *op, right@, line) == Some(x@),
                None => strength_reduce(left@, *op, right@, line) is None,
            },
    {
        let rn: Option<u64> = match right {
            Expr::Number(n) => Some(*n),
            _ => None,
        };
        let ln: Option<u64> = match left {
            Expr::Number(n) => Some(*n),
            _ => None,
        };
        let r_two = rn == Some(TWO_BITS);
        let l_two = ln == Some(TWO_BITS);
        let r_one = rn == Some(ONE_BITS);
        let l_one = ln == Some(ONE_BITS);
        let r_zero = rn == Some(ZERO_BITS) || rn == Some(NEG_ZERO_BITS);
        let l_zero = ln == Some(ZERO_BITS) || ln == Some(NEG_ZERO_BITS);
        match op {
            TokenKind::Star => {
                if r_two {
                    Some(Expr::Binary { left: Box::new(copy_expr(left)), op: TokenKind::Plus, right: Box::new(copy_expr(left)), line })
                } else if l_two {
                    Some(Expr::Binary { left: Box::new(copy_expr(right)), op: TokenKind::Plus, right: Box::new(copy_expr(right)), line })
                } else if r_one {
                    Some(copy_expr(left))
                } else if l_one {
                    Some(copy_expr(right))
                } else if r_zero || l_zero {
                    Some(Expr::Number(ZERO_BITS))
                } else {
                    None
                }
            },
            TokenKind::Plus => {
                if r_zero {
                    Some(copy_expr(left))
                } else if l_zero {
                    Some(copy_expr(right))
                } else {
                    None
                }
            },
            TokenKind::Minus => {
                if r_zero {
                    Some(copy_expr(left))
                } else {
                    None
                }
            },
            TokenKind::Slash => {
                if r_one {
                    Some(copy_expr(left))
                } else {
                    None
                }
            },
            _ => None,
        }
    }

    fn fold_numbers<F: Fn(NumOp, u64, u64) -> u64>(a: u64, op: TokenKind, b: u64, arith: &F) -> (r: Option<Expr>)
        requires
            arith_ok(*arith),
        ensures
            match r {
                Some(x) => fold_numbers(arith_of(*arith), a, op, b) == Some(x@),
                None => fold_numbers(arith_of(*arith), a, op, b) is None,
            },
    {
        match op {
            TokenKind::Plus => Some(Expr::Number(apply(arith, NumOp::Add, a, b))),
            TokenKind::Minus => Some(Expr::Number(apply(arith, NumOp::Sub, a, b))),
            TokenKind::Star => Some(Expr::Number(apply(arith, NumOp::Mul, a, b))),
            TokenKind::Slash => if bits_is_zero(b) {
                None
            } else {
                Some(Expr::Number(apply(arith, NumOp::Div, a, b)))
            },
            TokenKind::Percent => if bits_is_zero(b) {
                None
            } else {
                Some(Expr::Number(apply(arith, NumOp::Rem, a, b)))
            },
            TokenKind::EqualEqual => Some(Self::literal_of(apply(arith, NumOp::Equal, a, b) != 0)),
            TokenKind::NotEqual => Some(Self::literal_of(apply(arith, NumOp::Equal, a, b) == 0)),
            TokenKind::Less => Some(Self::literal_of(apply(arith, NumOp::Less, a, b) != 0)),
            TokenKind::Greater => Some(Self::literal_of(apply(arith, NumOp::Greater, a, b) != 0)),
            TokenKind::LessEqual => Some(Self::literal_of(apply(arith, NumOp::LessEq, a, b) != 0)),
            TokenKind::GreaterEqual => Some(Self::literal_of(apply(arith, NumOp::GreaterEq, a, b) != 0)),
            _ => None,
        }
    }

    fn literal_of(b: bool) -> (r: Expr)
        ensures
            r@ == bool_literal(b),
    {
        if b {
            Expr::LiteralTrue
        } else {
            Expr::LiteralFalse
        }
    }

    fn fold_binary<F: Fn(NumOp, u64, u64) -> u64>(&mut self, l: Expr, op: TokenKind, r: Expr, line: usize, arith: &F) -> (res: Expr)
        requires
            arith_ok(*arith),
            old(self)@.total() < usize::MAX,
        ensures
            (final(self)@, res@) == fold_binary(arith_of(*arith), old(self)@, l@, op, r@, line),
            final(self)@.total() <= old(self)@.total() + 1,
    {
        let numeric: Option<Expr> = match &l {
            Expr::Number(a) => match &r {
                Expr::Number(b) => Self::fold_numbers(*a, op, *b, arith),
                _ => None,
            },
            _ => None,
        };
        if let Some(x) = numeric {
            self.count_fold();
            return x;
        }
        let joined: Option<String> = match &l {
            Expr::String(a) => match &r {
                Expr::String(b) => if op == TokenKind::Plus {
                    let mut s = a.clone();
                    s.append(b.as_str());
                    Some(s)
                } else {
                    None
                },
                _ => None,
            },
            _ => None,
        };
        if let Some(s) = joined {
            self.count_fold();
            return Expr::String(s);
        }
        match self.strength_reduce(&l, &op, &r, line) {
            Some(x) => {
                self.count_reduced();
                x
            },
            None => Expr::Binary { left: Box::new(l), op, right: Box::new(r), line },
        }
    }

    fn fold_unary<F: Fn(NumOp, u64, u64) -> u64>(&mut self, op: TokenKind, x: Expr, line: usize, arith: &F) -> (res: Expr)
        requires
            arith_ok(*arith),
            old(self)@.total() < usize::MAX,
        ensures
            (final(self)@, res@) == fold_unary(arith_of(*arith), old(self)@, op, x@, line),
            final(self)@.total() <= old(self)@.total() + 1,
    {
        match &x {
            Expr::Number(n) => if op == TokenKind::Minus {
                let v = apply(arith, NumOp::Neg, *n, ZERO_BITS);
                self.count_fold();
                return Expr::Number(v);
            },
            Expr::LiteralTrue => if op == TokenKind::Not {
                self.count_fold();
                return Expr::LiteralFalse;
            },
            Expr::LiteralFalse => if op == TokenKind::Not {
                self.count_fold();
                return Expr::LiteralTrue;
            },
            _ => {},
        }
        Expr::Unary { op, expr: Box::new(x), line }
    }

    fn fold_length<F: Fn(NumOp, u64, u64) -> u64>(&mut self, x: Expr, line: usize, arith: &F) -> (res: Expr)
        requires
            arith_ok(*arith),
            old(self)@.total() < usize::MAX,
        ensures
            (final(self)@, res@) == fold_length(arith_of(*arith), old(self)@, x@, line),
            final(self)@.total() <= old(self)@.total() + 1,
    {
        match &x {
            Expr::Array { items, .. } => {
                proof {
                    lemma_exprs_view_len(items@);
                }
                let v = apply(arith, NumOp::FromUsize, items.len() as u64, ZERO_BITS);
                self.count_fold();
                return Expr::Number(v);
            },
            Expr::String(s) => {
                let n = s.as_str().len();
                let v = apply(arith, NumOp::FromUsize, n as u64, ZERO_BITS);
                self.count_fold();
                return Expr::Number(v);
            },
            _ => {},
        }
        Expr::Length { expr: Box::new(x), line }
    }

    /// Optimizes an expression.
    fn optimize_expr<F: Fn(NumOp, u64, u64) -> u64>(&mut self, e: &Expr, arith: &F) -> (r: Expr)
        requires
            arith_ok(*arith),
            old(self)@.total() + expr_size(e@) <= usize::MAX,
        ensures
            (final(self)@, r@) == opt_expr(arith_of(*arith), old(self)@, e@),
            final(self)@.total() <= old(self)@.total() + expr_size(e@),
        decreases e, 0nat,
    {
        match e {
            Expr::Identifier(name) => {
                match self.constants.get(&name.id()) {
                    Some(c) => {
                        let r = copy_expr(c);
                        self.count_propagated();
                        r
                    },
                    None => Expr::Identifier(*name),
                }
            },
            Expr::Binary { left, op, right, line } => {
                let l = self.optimize_expr(&**left, arith);
                let r = self.optimize_expr(&**right, arith);
                self.fold_binary(l, *op, r, *line, arith)
            },
            Expr::Unary { op, expr, line } => {
                let x = self.optimize_expr(&**expr, arith);
                self.fold_unary(*op, x, *line, arith)
            },
            Expr::NullCoalesce { left, right, line } => {
                let l = self.optimize_expr(&**left, arith);
                match &l {
                    Expr::LiteralNil => {
                        self.count_dead();
                        return self.optimize_expr(&**right, arith);
                    },
                    Expr::Number(_) | Expr::String(_) | Expr::LiteralTrue | Expr::LiteralFalse => {
                        self.count_dead();
                        return l;
                    },
                    _ => {},
                }
                let r = self.optimize_expr(&**right, arith);
                Expr::NullCoalesce { left: Box::new(l), right: Box::new(r), line: *line }
            },
            Expr::Call { callee, arguments, line } => {
                let args = self.optimize_exprs(arguments, arith);
                Expr::Call { callee: Box::new(copy_expr(&**callee)), arguments: args, line: *line }
            },
            Expr::Table { entries, line } => {
                let es = self.optimize_entries(entries, arith);
                Expr::Table { entries: es, line: *line }
            },
            Expr::Array { items, line } => {
                let xs = self.optimize_exprs(items, arith);
                Expr::Array { items: xs, line: *line }
            },
            Expr::Index { object, index, line } => {
                let o = self.optimize_expr(&**object, arith);
                let i = self.optimize_expr(&**index, arith);
                Expr::Index { object: Box::new(o), index: Box::new(i), line: *line }
            },
            Expr::Get { object, name, line } => {
                let o = self.optimize_expr(&**object, arith);
                Expr::Get { object: Box::new(o), name: *name, line: *line }
            },
            Expr::Length { expr, line } => {
                let x = self.optimize_expr(&**expr, arith);
                self.fold_length(x, *line, arith)
            },
            Expr::Range { start, end, line } => {
                let a = self.optimize_expr(&**start, arith);
                let b = self.optimize_expr(&**end, arith);
                Expr::Range { start: Box::new(a), end: Box::new(b), line: *line }
            },
            Expr::FunctionLiteral { .. } | Expr::Lambda { .. } | Expr::AsyncFunctionLiteral { .. }
            | Expr::GeneratorLiteral { .. } | Expr::Class { .. } => {
                self.close();
                copy_expr(e)
            },
            _ => copy_expr(e),
        }
    }

    /// Optimizes a list of expressions from first to last.
    fn optimize_exprs<F: Fn(NumOp, u64, u64) -> u64>(&mut self, v: &Vec<Expr>, arith: &F) -> (r: Vec<Expr>)
        requires
            arith_ok(*arith),
            old(self)@.total() + exprs_size(exprs_view(v@)) <= usize::MAX,
        ensures
            (final(self)@, exprs_view(r@)) == opt_exprs(arith_of(*arith), old(self)@, exprs_view(v@)),
            final(self)@.total() <= old(self)@.total() + exprs_size(exprs_view(v@)),
        decreases v, 0nat,
    {
        let ghost st0 = self@;
        let ghost ar = arith_of(*arith);
        let mut out: Vec<Expr> = Vec::new();
        let mut i: usize = 0;
        proof {
            assert(v@.take(0) =~= Seq::<Expr>::empty());
        }
        #[verifier::loop_isolation(false)]
        while i < v.len()
            invariant
                i <= v.len(),
                (self@, exprs_view(out@)) == opt_exprs(ar, st0, exprs_view(v@.take(i as int))),
                self@.total() <= st0.total() + exprs_size(exprs_view(v@.take(i as int))),
            decreases v.len() - i,
        {
            proof {
                assert(decreases_to!(*v => v@));
                assert(decreases_to!(v@ => v@[i as int]));
                assert(v@.take(i + 1).drop_last() =~= v@.take(i as int));
                assert(exprs_view(v@.take(i + 1)).drop_last() =~= exprs_view(v@.take(i as int)));
                lemma_exprs_take(v@, i + 1);
            }
            let x = self.optimize_expr(&v[i], arith);
            let ghost prev = out@;
            out.push(x);
            proof {
                assert(out@.drop_last() =~= prev);
            }
            i += 1;
        }
        proof {
            assert(v@.take(v.len() as int) =~= v@);
        }
        out
    }

    /// Optimizes the values of table entries from first to last.
    fn optimize_entries<F: Fn(NumOp, u64, u64) -> u64>(&mut self, v: &Vec<(InternedString, Expr)>, arith: &F) -> (r: Vec<(InternedString, Expr)>)
        requires
            arith_ok(*arith),
            old(self)@.total() + entries_size(entries_view(v@)) <= usize::MAX,
        ensures
            (final(self)@, entries_view(r@)) == opt_entries(arith_of(*arith), old(self)@, entries_view(v@)),
            final(self)@.total() <= old(self)@.total() + entries_size(entries_view(v@)),
        decreases v, 0nat,
    {
        let ghost st0 = self@;
        let ghost ar = arith_of(*arith);
        let mut out: Vec<(InternedString, Expr)> = Vec::new();
        let mut i: usize = 0;
        proof {
            assert(v@.take(0) =~= Seq::<(InternedString, Expr)>::empty());
        }
        #[verifier::loop_isolation(false)]
        while i < v.len()
            invariant
                i <= v.len(),
                (self@, entries_view(out@)) == opt_entries(ar, st0, entries_view(v@.take(i as int))),
                self@.total() <= st0.total() + entries_size(entries_view(v@.take(i as int))),
            decreases v.len() - i,
        {
            proof {
                assert(decreases_to!(*v => v@));
                assert(decreases_to!(v@ => v@[i as int]));
                assert(decreases_to!(v@[i as int] => v@[i as int].1));
                assert(v@.take(i + 1).drop_last() =~= v@.take(i as int));
                assert(entries_view(v@.take(i + 1)).drop_last() =~= entries_view(v@.take(i as int)));
                lemma_entries_take(v@, i + 1);
            }
            let x = self.optimize_expr(&v[i].1, arith);
            let ghost prev = out@;
            out.push((v[i].0, x));
            proof {
                assert(out@.drop_last() =~= prev);
            }
            i += 1;
        }
        proof {
            assert(v@.take(v.len() as int) =~= v@);
        }
        out
    }

    fn optimize_opt_expr<F: Fn(NumOp, u64, u64) -> u64>(&mut self, o: &Option<Expr>, arith: &F) -> (r: Option<Expr>)
        requires
            arith_ok(*arith),
            old(self)@.total() + opt_size(opt_view(*o)) <= usize::MAX,
        ensures
            (final(self)@, opt_view(r)) == opt_opt_expr(arith_of(*arith), old(self)@, opt_view(*o)),
            final(self)@.total() <= old(self)@.total() + opt_size(opt_view(*o)),
        decreases o, 0nat,
    {
        match o {
            Some(e) => Some(self.optimize_expr(e, arith)),
            None => None,
        }
    }

    fn optimize_opt_box<F: Fn(NumOp, u64, u64) -> u64>(&mut self, o: &Option<Box<Expr>>, arith: &F) -> (r: Option<Box<Expr>>)
        requires
            arith_ok(*arith),
            old(self)@.total() + opt_box_size(opt_box_view(*o)) <= usize::MAX,
        ensures
            (final(self)@, opt_box_view(r)) == opt_opt_box(arith_of(*arith), old(self)@, opt_box_view(*o)),
            final(self)@.total() <= old(self)@.total() + opt_box_size(opt_box_view(*o)),
        decreases o, 0nat,
    {
        match o {
            Some(e) => Some(Box::new(self.optimize_expr(&**e, arith))),
            None => None,
        }
    }

    /// Optimizes a list of statements from first to last, keeping those that remain.
    fn optimize_stmts<F: Fn(NumOp, u64, u64) -> u64>(&mut self, v: &Vec<Stmt>, arith: &F) -> (r: Vec<Stmt>)
        requires
            arith_ok(*arith),
            old(self)@.total() + stmts_size(stmts_view(v@)) <= usize::MAX,
        ensures
            (final(self)@, stmts_view(r@)) == opt_stmts(arith_of(*arith), old(self)@, stmts_view(v@)),
            final(self)@.total() <= old(self)@.total() + stmts_size(stmts_view(v@)),
        decreases v, 0nat,
    {
        let ghost st0 = self@;
        let ghost ar = arith_of(*arith);
        let mut out: Vec<Stmt> = Vec::new();
        let mut i: usize = 0;
        proof {
            assert(v@.take(0) =~= Seq::<Stmt>::empty());
        }
        #[verifier::loop_isolation(false)]
        while i < v.len()
            invariant
                i <= v.len(),
                (self@, stmts_view(out@)) == opt_stmts(ar, st0, stmts_view(v@.take(i as int))),
                self@.total() <= st0.total() + stmts_size(stmts_view(v@.take(i as int))),
            decreases v.len() - i,
        {
            proof {
                assert(decreases_to!(*v => v@));
                assert(decreases_to!(v@ => v@[i as int]));
                assert(v@.take(i + 1).drop_last() =~= v@.take(i as int));
                assert(stmts_view(v@.take(i + 1)).drop_last() =~= stmts_view(v@.take(i as int)));
                lemma_stmts_take(v@, i + 1);
            }
            let x = self.optimize_stmt(&v[i], arith);
            match x {
                Some(y) => {
                    let ghost prev = out@;
                    out.push(y);
                    proof {
                        assert(out@.drop_last() =~= prev);
                    }
                },
                None => {},
            }
            i += 1;
        }
        proof {
            assert(v@.take(v.len() as int) =~= v@);
        }
        out
    }

    /// The statement kept in place of a branch that always runs.
    fn single_or_block(v: Vec<Stmt>) -> (r: Stmt)
        ensures
            r@ == single_or_block(stmts_view(v@)),
    {
        proof {
            lemma_stmts_view_len(v@);
        }
        if v.len() == 1 {
            let mut v = v;
            let ghost vv = v@;
            let s = v.pop().unwrap();
            proof {
                assert(vv =~= seq![s]);
                assert(vv.drop_last() =~= Seq::<Stmt>::empty());
            }
            s
        } else {
            Stmt::Block(v)
        }
    }

    fn optimize_if<F: Fn(NumOp, u64, u64) -> u64>(&mut self, s: &Stmt, arith: &F) -> (r: Option<Stmt>)
        requires
            arith_ok(*arith),
            s is If,
            old(self)@.total() + stmt_size(s@) <= usize::MAX,
        ensures
            (final(self)@, opt_stmt_view(r)) == opt_stmt(arith_of(*arith), old(self)@, s@),
            final(self)@.total() <= old(self)@.total() + stmt_size(s@),
        decreases s, 0nat,
    {
        match s {
            Stmt::If { condition, then_branch, else_branch, line } => {
                let line = *line;
                let c = self.optimize_expr(condition, arith);
                match c {
                    Expr::LiteralTrue => {
                        self.count_dead();
                        let t = self.optimize_stmts(then_branch, arith);
                        Some(Self::single_or_block(t))
                    },
                    Expr::LiteralFalse => {
                        self.count_dead();
                        match else_branch {
                            Some(b) => {
                                let t = self.optimize_stmts(b, arith);
                                Some(Self::single_or_block(t))
                            },
                            None => None,
                        }
                    },
                    _ => {
                        let t = self.optimize_stmts(then_branch, arith);
                        self.forget_all();
                        match else_branch {
                            Some(b) => {
                                let e = self.optimize_stmts(b, arith);
                                self.forget_all();
                                Some(Stmt::If { condition: c, then_branch: t, else_branch: Some(e), line })
                            },
                            None => Some(Stmt::If { condition: c, then_branch: t, else_branch: None, line }),
                        }
                    },
                }
            },
            _ => None,
        }
    }

    fn optimize_function<F: Fn(NumOp, u64, u64) -> u64>(&mut self, body: &Vec<Stmt>, arith: &F) -> (r: Vec<Stmt>)
        requires
            arith_ok(*arith),
            old(self)@.total() + stmts_size(stmts_view(body@)) <= usize::MAX,
        ensures
            final(self)@ == (OptState {
                assigned: old(self)@.assigned,
                ..opt_stmts(arith_of(*arith), old(self)@.close(), stmts_view(body@)).0.close()
            }),
            stmts_view(r@) == opt_stmts(arith_of(*arith), old(self)@.close(), stmts_view(body@)).1,
            final(self)@.total() <= old(self)@.total() + stmts_size(stmts_view(body@)),
        decreases body, 1nat,
    {
        let saved_assigned = clone_set(&self.assigned);
        self.close();
        let b = self.optimize_stmts(body, arith);
        self.close();
        self.assigned = saved_assigned;
        b
    }

    /// Optimizes one statement; `None` when it is removed.
    fn optimize_stmt<F: Fn(NumOp, u64, u64) -> u64>(&mut self, s: &Stmt, arith: &F) -> (r: Option<Stmt>)
        requires
            arith_ok(*arith),
            old(self)@.total() + stmt_size(s@) <= usize::MAX,
        ensures
            (final(self)@, opt_stmt_view(r)) == opt_stmt(arith_of(*arith), old(self)@, s@),
            final(self)@.total() <= old(self)@.total() + stmt_size(s@),
        decreases s, 1nat,
    {
        match s {
            Stmt::Declaration { name, initializer, line, is_const } => {
                let init = self.optimize_opt_expr(initializer, arith);
                self.record(name.id(), &init);
                Some(Stmt::Declaration { name: *name, initializer: init, line: *line, is_const: *is_const })
            },
            Stmt::Assignment { name, value, line, is_const_assign } => {
                let v = self.optimize_expr(value, arith);
                self.forget(name.id());
                let v = Some(v);
                self.record(name.id(), &v);
                let v = v.unwrap();
                Some(Stmt::Assignment { name: *name, value: v, line: *line, is_const_assign: *is_const_assign })
            },
            Stmt::Expression(e) => Some(Stmt::Expression(self.optimize_expr(e, arith))),
            Stmt::If { .. } => self.optimize_if(s, arith),
            Stmt::While { condition, body, line } => {
                let ghost st = self@;
                let folded = self.stats.constants_folded;
                let dead = self.stats.dead_code_removed;
                let reduced = self.stats.strength_reduced;
                let propagated = self.stats.variables_propagated;
                let closures = self.closures;
                let c = self.optimize_expr(condition, arith);
                if let Expr::LiteralFalse = c {
                    self.count_dead();
                    return None;
                }
                // Back to the counters before the first look at the
                // condition, without the constants.
                proof {
                    lemma_expr_keeps(arith_of(*arith), st, condition@);
                }
                self.stats.constants_folded = folded;
                self.stats.dead_code_removed = dead;
                self.stats.strength_reduced = reduced;
                self.stats.variables_propagated = propagated;
                self.closures = closures;
                self.forget_all();
                proof {
                    assert(self@ == st.forget_all());
                }
                let c = self.optimize_expr(condition, arith);
                let b = self.optimize_stmts(body, arith);
                self.forget_all();
                Some(Stmt::While { condition: c, body: b, line: *line })
            },
            Stmt::For { initializer, condition, increment, body, line } => {
                let i = self.optimize_opt_box(initializer, arith);
                self.forget_all();
                let c = self.optimize_expr(&**condition, arith);
                let inc = self.optimize_opt_box(increment, arith);
                let b = self.optimize_stmts(body, arith);
                self.forget_all();
                Some(Stmt::For { initializer: i, condition: Box::new(c), increment: inc, body: b, line: *line })
            },
            Stmt::ForIn { variable, iterable, body, line } => {
                let it = self.optimize_expr(iterable, arith);
                self.forget_all();
                let b = self.optimize_stmts(body, arith);
                self.forget_all();
                Some(Stmt::ForIn { variable: *variable, iterable: it, body: b, line: *line })
            },
            Stmt::Function { name, params, body, line } => {
                let b = self.optimize_function(body, arith);
                Some(Stmt::Function { name: *name, params: copy_params(params), body: b, line: *line })
            },
            Stmt::Return(e) => Some(Stmt::Return(self.optimize_opt_expr(e, arith))),
            Stmt::ReturnMulti(values) => Some(Stmt::ReturnMulti(self.optimize_exprs(values, arith))),
            Stmt::Block(stmts) => {
                let xs = self.optimize_stmts(stmts, arith);
                proof {
                    lemma_stmts_view_len(xs@);
                }
                if xs.len() == 0 {
                    None
                } else {
                    Some(Self::single_or_block(xs))
                }
            },
            Stmt::Destructure { names, initializer, line } => {
                let x = self.optimize_expr(initializer, arith);
                self.forget_all();
                Some(Stmt::Destructure { names: copy_names(names), initializer: x, line: *line })
            },
            Stmt::Throw { value, line } => Some(Stmt::Throw { value: self.optimize_expr(value, arith), line: *line }),
            Stmt::Try { body, catch_var, catch_body, line } => {
                let b = self.optimize_stmts(body, arith);
                self.forget_all();
                let c = self.optimize_stmts(catch_body, arith);
                self.forget_all();
                Some(Stmt::Try { body: b, catch_var: *catch_var, catch_body: c, line: *line })
            },
            Stmt::PropertySet { object, name, value, line } => {
                let o = self.optimize_expr(&**object, arith);
                let v = self.optimize_expr(value, arith);
                Some(Stmt::PropertySet { object: Box::new(o), name: *name, value: v, line: *line })
            },
            Stmt::AsyncFunction { .. } | Stmt::Generator { .. } | Stmt::Class { .. } => {
                self.close();
                Some(crate::ast::copy_stmt(s))
            },
            Stmt::Import { .. } | Stmt::NullCoalesceAssign { .. } => {
                self.forget_all();
                Some(crate::ast::copy_stmt(s))
            },
            _ => Some(crate::ast::copy_stmt(s)),
        }
    }

    /// Records that `name` was assigned, and the constant it holds if `value` is one.
    fn record(&mut self, name: usize, value: &Option<Expr>)
        ensures
            final(self)@ == old(self)@.record(name, opt_view(*value)),
    {
        match value {
            Some(v) => if !self.closures && self.is_constant_expr(v) {
                self.constants.insert(name, copy_expr(v));
                proof {
                    assert(self@.constants =~= old(self)@.constants.insert(name, v@));
                }
            } else {
                self.constants.remove(&name);
                proof {
                    assert(self@.constants =~= old(self)@.constants.remove(name));
                }
            },
            None => {
                self.constants.remove(&name);
                proof {
                    assert(self@.constants =~= old(self)@.constants.remove(name));
                }
            },
        }
        self.assigned.insert(name);
        proof {
            assert(self@.assigned =~= old(self)@.assigned.insert(name));
            assert(self@.constants =~= old(self)@.record(name, opt_view(*value)).constants);
        }
    }

    /// Forgets every constant.
    fn forget_all(&mut self)
        ensures
            final(self)@ == old(self)@.forget_all(),
    {
        self.constants = HashMap::new();
        proof {
            assert(self@.constants =~= Map::<usize, SpecExpr>::empty());
        }
    }

    /// Meets a function: forgets every constant and records none from then on.
    fn close(&mut self)
        ensures
            final(self)@ == old(self)@.close(),
    {
        self.constants = HashMap::new();
        self.closures = true;
        proof {
            assert(self@.constants =~= Map::<usize, SpecExpr>::empty());
        }
    }

    /// Forgets any constant that `name` held.
    fn forget(&mut self, name: usize)
        ensures
            final(self)@ == (OptState { constants: old(self)@.constants.remove(name), ..old(self)@ }),
    {
        self.constants.remove(&name);
        proof {
            assert(self@.constants =~= old(self)@.constants.remove(name));
        }
    }

}

} // verus!

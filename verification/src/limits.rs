//! Whether a program is small enough for the counters of the compiler and
//! of the optimizer: the bounds that `Compiler::compile` and
//! `Optimizer::optimize` require, computed without overflow.
use vstd::prelude::*;
use crate::ast::{
    entries_view, exprs_view, lemma_exprs_view_len, opt_box_view, opt_view, parts_view, stmts_view, Expr,
    InternedString, Program, Stmt,
};
use crate::compiler::{cexpr, cexprs, centries, copt, copt_box, cparts, cstmt, cstmts, lemma_params_view};
use crate::optimizer::{entries_size, expr_size, exprs_size, opt_box_size, opt_size, stmt_size, stmts_size};

verus! {

/// `n` as a `usize`, if it fits.
pub open spec fn capped(n: nat) -> Option<usize> {
    if n <= usize::MAX {
        Some(n as usize)
    } else {
        None
    }
}

/// The sum of two capped numbers, capped.
fn sum(a: Option<usize>, b: Option<usize>, Ghost(x): Ghost<nat>, Ghost(y): Ghost<nat>) -> (r: Option<usize>)
    requires
        a == capped(x),
        b == capped(y),
    ensures
        r == capped(x + y),
{
    match (a, b) {
        (Some(x), Some(y)) => x.checked_add(y),
        _ => None,
    }
}

fn cost_expr(e: &Expr) -> (r: Option<usize>)
    ensures
        r == capped(cexpr(e@)),
    decreases e,
{
    let inner = match e {
        Expr::Binary { left, right, .. } => sum(cost_expr(left), cost_expr(right), Ghost(cexpr((**left)@)), Ghost(cexpr((**right)@))),
        Expr::Unary { expr, .. } => cost_expr(expr),
        Expr::NullCoalesce { left, right, .. } => sum(cost_expr(left), cost_expr(right), Ghost(cexpr((**left)@)), Ghost(cexpr((**right)@))),
        Expr::Call { callee, arguments, .. } => {
            proof {
                lemma_exprs_view_len(arguments@);
            }
            let extra = match &**callee {
                Expr::Get { object, name, line } => {
                    proof {
                        assert((**callee)@ == crate::ast::SpecExpr::Get {
                            object: Box::new((**object)@),
                            name: *name,
                            line: *line,
                        });
                    }
                    cost_expr(object)
                },
                _ => Some(0),
            };
            let ghost c = cexpr((**callee)@);
            let ghost x = match (**callee)@ {
                crate::ast::SpecExpr::Get { object, .. } => cexpr(*object),
                _ => 0,
            };
            let ghost a = cexprs(exprs_view(arguments@));
            let s1 = sum(cost_expr(callee), extra, Ghost(c), Ghost(x));
            let s2 = sum(s1, cost_exprs(arguments), Ghost(c + x), Ghost(a));
            sum(s2, Some(arguments.len()), Ghost(c + x + a), Ghost(arguments@.len()))
        },
        Expr::Table { entries, .. } => cost_entries(entries),
        Expr::Array { items, .. } => cost_exprs(items),
        Expr::Index { object, index, .. } => sum(cost_expr(object), cost_expr(index), Ghost(cexpr((**object)@)), Ghost(cexpr((**index)@))),
        Expr::SetIndex { object, index, value, .. } => {
            let a = sum(cost_expr(object), cost_expr(index), Ghost(cexpr((**object)@)), Ghost(cexpr((**index)@)));
            sum(a, cost_expr(value), Ghost(cexpr((**object)@) + cexpr((**index)@)), Ghost(cexpr((**value)@)))
        },
        Expr::Get { object, .. } => cost_expr(object),
        Expr::SetProperty { object, value, .. } => sum(cost_expr(object), cost_expr(value), Ghost(cexpr((**object)@)), Ghost(cexpr((**value)@))),
        Expr::SafeGet { object, .. } => cost_expr(object),
        Expr::Range { start, end, .. } => sum(cost_expr(start), cost_expr(end), Ghost(cexpr((**start)@)), Ghost(cexpr((**end)@))),
        Expr::Length { expr, .. } => cost_expr(expr),
        Expr::Throw { expr, .. } => cost_expr(expr),
        Expr::FunctionLiteral { params, body, .. } => {
            proof {
                lemma_params_view(params@);
            }
            sum(Some(params.len()), cost_stmts(body), Ghost(params@.len()), Ghost(cstmts(stmts_view(body@))))
        },
        Expr::Lambda { params, body, .. } => {
            proof {
                lemma_params_view(params@);
            }
            sum(
                sum(Some(params.len()), Some(16), Ghost(params@.len()), Ghost(16)),
                cost_expr(body),
                Ghost(params@.len() + 16),
                Ghost(cexpr((**body)@)),
            )
        },
        Expr::Spread { expr, .. } => cost_expr(expr),
        Expr::Match { value, .. } => cost_expr(value),
        Expr::Export { value, .. } => cost_expr(value),
        Expr::Class { methods, .. } => cost_entries(methods),
        Expr::NewInstance { arguments, .. } => cost_exprs(arguments),
        Expr::FString { parts, .. } => cost_parts(parts),
        Expr::SetLiteral { items, .. } => cost_exprs(items),
        Expr::AsyncFunctionLiteral { params, body, .. } => {
            proof {
                lemma_params_view(params@);
            }
            sum(Some(params.len()), cost_stmts(body), Ghost(params@.len()), Ghost(cstmts(stmts_view(body@))))
        },
        Expr::GeneratorLiteral { params, body, .. } => {
            proof {
                lemma_params_view(params@);
            }
            sum(Some(params.len()), cost_stmts(body), Ghost(params@.len()), Ghost(cstmts(stmts_view(body@))))
        },
        Expr::Await { future, .. } => cost_expr(future),
        Expr::Yield { value, .. } => match value {
            Some(v) => {
                proof {
                    assert(opt_box_view(*value) == Some(Box::new((**v)@)));
                }
                cost_expr(v)
            },
            None => Some(0),
        },
        _ => Some(0),
    };
    sum(Some(16), inner, Ghost(16), Ghost((cexpr(e@) - 16) as nat))
}

fn cost_exprs(v: &Vec<Expr>) -> (r: Option<usize>)
    ensures
        r == capped(cexprs(exprs_view(v@))),
    decreases v,
{
    let mut acc: Option<usize> = Some(0);
    let mut i: usize = 0;
    proof {
        assert(v@.take(0) =~= Seq::<Expr>::empty());
    }
    while i < v.len()
        invariant
            i <= v@.len(),
            acc == capped(cexprs(exprs_view(v@.take(i as int)))),
        decreases v.len() - i,
    {
        proof {
            assert(decreases_to!(*v => v@));
            assert(decreases_to!(v@ => v@[i as int]));
            assert(v@.take(i + 1).drop_last() =~= v@.take(i as int));
            assert(exprs_view(v@.take(i + 1)).drop_last() =~= exprs_view(v@.take(i as int)));
        }
        let ghost p = cexprs(exprs_view(v@.take(i as int)));
        let ghost q = cexpr(v@[i as int]@);
        let t = sum(acc, cost_expr(&v[i]), Ghost(p), Ghost(q));
        acc = sum(t, Some(16), Ghost(p + q), Ghost(16));
        i += 1;
    }
    proof {
        assert(v@.take(v@.len() as int) =~= v@);
    }
    acc
}

fn cost_entries(v: &Vec<(InternedString, Expr)>) -> (r: Option<usize>)
    ensures
        r == capped(centries(entries_view(v@))),
    decreases v,
{
    let mut acc: Option<usize> = Some(0);
    let mut i: usize = 0;
    proof {
        assert(v@.take(0) =~= Seq::<(InternedString, Expr)>::empty());
    }
    while i < v.len()
        invariant
            i <= v@.len(),
            acc == capped(centries(entries_view(v@.take(i as int)))),
        decreases v.len() - i,
    {
        proof {
            assert(decreases_to!(*v => v@));
            assert(decreases_to!(v@ => v@[i as int]));
            assert(decreases_to!(v@[i as int] => v@[i as int].1));
            assert(v@.take(i + 1).drop_last() =~= v@.take(i as int));
            assert(entries_view(v@.take(i + 1)).drop_last() =~= entries_view(v@.take(i as int)));
        }
        let ghost p = centries(entries_view(v@.take(i as int)));
        let ghost q = cexpr(v@[i as int].1@);
        let t = sum(acc, cost_expr(&v[i].1), Ghost(p), Ghost(q));
        acc = sum(t, Some(16), Ghost(p + q), Ghost(16));
        i += 1;
    }
    proof {
        assert(v@.take(v@.len() as int) =~= v@);
    }
    acc
}

fn cost_parts(v: &Vec<(String, Option<Box<Expr>>)>) -> (r: Option<usize>)
    ensures
        r == capped(cparts(parts_view(v@))),
    decreases v,
{
    let mut acc: Option<usize> = Some(0);
    let mut i: usize = 0;
    proof {
        assert(v@.take(0) =~= Seq::<(String, Option<Box<Expr>>)>::empty());
    }
    while i < v.len()
        invariant
            i <= v@.len(),
            acc == capped(cparts(parts_view(v@.take(i as int)))),
        decreases v.len() - i,
    {
        proof {
            assert(decreases_to!(*v => v@));
            assert(decreases_to!(v@ => v@[i as int]));
            assert(v@.take(i + 1).drop_last() =~= v@.take(i as int));
            assert(parts_view(v@.take(i + 1)).drop_last() =~= parts_view(v@.take(i as int)));
        }
        let c = match &v[i].1 {
            Some(e) => {
                proof {
                    assert(decreases_to!(v@[i as int] => v@[i as int].1));
                }
                cost_expr(e)
            },
            None => Some(0),
        };
        let ghost p = cparts(parts_view(v@.take(i as int)));
        let ghost q: nat = match v@[i as int].1 {
            Some(e) => cexpr((*e)@),
            None => 0,
        };
        let t = sum(acc, c, Ghost(p), Ghost(q));
        acc = sum(t, Some(16), Ghost(p + q), Ghost(16));
        i += 1;
    }
    proof {
        assert(v@.take(v@.len() as int) =~= v@);
    }
    acc
}

fn cost_opt(o: &Option<Expr>) -> (r: Option<usize>)
    ensures
        r == capped(copt(opt_view(*o))),
    decreases o,
{
    match o {
        Some(e) => cost_expr(e),
        None => Some(0),
    }
}

fn cost_opt_box(o: &Option<Box<Expr>>) -> (r: Option<usize>)
    ensures
        r == capped(copt_box(opt_box_view(*o))),
    decreases o,
{
    match o {
        Some(e) => cost_expr(e),
        None => Some(0),
    }
}

fn cost_stmt(s: &Stmt) -> (r: Option<usize>)
    ensures
        r == capped(cstmt(s@)),
    decreases s,
{
    let inner = match s {
        Stmt::Declaration { initializer, .. } => cost_opt(initializer),
        Stmt::Assignment { value, .. } => cost_expr(value),
        Stmt::Expression(e) => cost_expr(e),
        Stmt::If { condition, then_branch, else_branch, .. } => {
            let e = match else_branch {
                Some(b) => cost_stmts(b),
                None => Some(0),
            };
            let ghost x = cexpr(condition@);
            let ghost y = cstmts(stmts_view(then_branch@));
            let ghost z: nat = match else_branch {
                Some(b) => cstmts(stmts_view(b@)),
                None => 0,
            };
            let t = sum(cost_expr(condition), cost_stmts(then_branch), Ghost(x), Ghost(y));
            sum(t, e, Ghost(x + y), Ghost(z))
        },
        Stmt::While { condition, body, .. } => sum(
            cost_expr(condition),
            cost_stmts(body),
            Ghost(cexpr(condition@)),
            Ghost(cstmts(stmts_view(body@))),
        ),
        Stmt::For { initializer, condition, increment, body, .. } => {
            let ghost a = copt_box(opt_box_view(*initializer));
            let ghost b = cexpr((**condition)@);
            let ghost c = copt_box(opt_box_view(*increment));
            let s1 = sum(cost_opt_box(initializer), cost_expr(condition), Ghost(a), Ghost(b));
            let s2 = sum(s1, cost_opt_box(increment), Ghost(a + b), Ghost(c));
            sum(s2, cost_stmts(body), Ghost(a + b + c), Ghost(cstmts(stmts_view(body@))))
        },
        Stmt::ForIn { iterable, body, .. } => sum(
            cost_expr(iterable),
            cost_stmts(body),
            Ghost(cexpr(iterable@)),
            Ghost(cstmts(stmts_view(body@))),
        ),
        Stmt::Function { params, body, .. } => {
            proof {
                lemma_params_view(params@);
            }
            sum(Some(params.len()), cost_stmts(body), Ghost(params@.len()), Ghost(cstmts(stmts_view(body@))))
        },
        Stmt::AsyncFunction { params, body, .. } => {
            proof {
                lemma_params_view(params@);
            }
            sum(Some(params.len()), cost_stmts(body), Ghost(params@.len()), Ghost(cstmts(stmts_view(body@))))
        },
        Stmt::Generator { params, body, .. } => {
            proof {
                lemma_params_view(params@);
            }
            sum(Some(params.len()), cost_stmts(body), Ghost(params@.len()), Ghost(cstmts(stmts_view(body@))))
        },
        Stmt::Return(e) => cost_opt(e),
        Stmt::ReturnMulti(v) => cost_exprs(v),
        Stmt::Block(v) => cost_stmts(v),
        Stmt::Destructure { names, initializer, .. } => {
            let n = names.len().checked_mul(16);
            sum(cost_expr(initializer), n, Ghost(cexpr(initializer@)), Ghost(16 * names@.len()))
        },
        Stmt::Throw { value, .. } => cost_expr(value),
        Stmt::Try { body, catch_body, .. } => sum(
            cost_stmts(body),
            cost_stmts(catch_body),
            Ghost(cstmts(stmts_view(body@))),
            Ghost(cstmts(stmts_view(catch_body@))),
        ),
        Stmt::Class { methods, .. } => cost_entries(methods),
        Stmt::Export { value, .. } => cost_expr(value),
        Stmt::PropertySet { object, value, .. } => sum(
            cost_expr(object),
            cost_expr(value),
            Ghost(cexpr((**object)@)),
            Ghost(cexpr(value@)),
        ),
        Stmt::NullCoalesceAssign { value, .. } => cost_expr(value),
        _ => Some(0),
    };
    sum(Some(16), inner, Ghost(16), Ghost((cstmt(s@) - 16) as nat))
}

fn cost_stmts(v: &Vec<Stmt>) -> (r: Option<usize>)
    ensures
        r == capped(cstmts(stmts_view(v@))),
    decreases v,
{
    let mut acc: Option<usize> = Some(0);
    let mut i: usize = 0;
    proof {
        assert(v@.take(0) =~= Seq::<Stmt>::empty());
    }
    while i < v.len()
        invariant
            i <= v@.len(),
            acc == capped(cstmts(stmts_view(v@.take(i as int)))),
        decreases v.len() - i,
    {
        proof {
            assert(decreases_to!(*v => v@));
            assert(decreases_to!(v@ => v@[i as int]));
            assert(v@.take(i + 1).drop_last() =~= v@.take(i as int));
            assert(stmts_view(v@.take(i + 1)).drop_last() =~= stmts_view(v@.take(i as int)));
        }
        acc = sum(acc, cost_stmt(&v[i]), Ghost(cstmts(stmts_view(v@.take(i as int)))), Ghost(cstmt(v@[i as int]@)));
        i += 1;
    }
    proof {
        assert(v@.take(v@.len() as int) =~= v@);
    }
    acc
}

/// The bound that compiling `program` counts against, if it fits in a
/// `usize`; `Compiler::compile` requires it to be below `usize::MAX`.
pub fn compile_cost(program: &Program) -> (r: Option<usize>)
    ensures
        r == capped(cstmts(program@)),
{
    cost_stmts(&program.statements)
}


fn size_expr(e: &Expr) -> (r: Option<usize>)
    ensures
        r == capped(expr_size(e@)),
    decreases e,
{
    let inner = match e {
        Expr::Binary { left, right, .. } => sum(
            size_expr(left),
            size_expr(right),
            Ghost(expr_size((**left)@)),
            Ghost(expr_size((**right)@)),
        ),
        Expr::Unary { expr, .. } => size_expr(expr),
        Expr::NullCoalesce { left, right, .. } => sum(
            size_expr(left),
            size_expr(right),
            Ghost(expr_size((**left)@)),
            Ghost(expr_size((**right)@)),
        ),
        Expr::Call { arguments, .. } => size_exprs(arguments),
        Expr::Table { entries, .. } => size_entries(entries),
        Expr::Array { items, .. } => size_exprs(items),
        Expr::Index { object, index, .. } => sum(
            size_expr(object),
            size_expr(index),
            Ghost(expr_size((**object)@)),
            Ghost(expr_size((**index)@)),
        ),
        Expr::Get { object, .. } => size_expr(object),
        Expr::Length { expr, .. } => size_expr(expr),
        Expr::Range { start, end, .. } => sum(
            size_expr(start),
            size_expr(end),
            Ghost(expr_size((**start)@)),
            Ghost(expr_size((**end)@)),
        ),
        _ => Some(0),
    };
    sum(Some(1), inner, Ghost(1), Ghost((expr_size(e@) - 1) as nat))
}

fn size_exprs(v: &Vec<Expr>) -> (r: Option<usize>)
    ensures
        r == capped(exprs_size(exprs_view(v@))),
    decreases v,
{
    let mut acc: Option<usize> = Some(0);
    let mut i: usize = 0;
    proof {
        assert(v@.take(0) =~= Seq::<Expr>::empty());
    }
    while i < v.len()
        invariant
            i <= v@.len(),
            acc == capped(exprs_size(exprs_view(v@.take(i as int)))),
        decreases v.len() - i,
    {
        proof {
            assert(decreases_to!(*v => v@));
            assert(decreases_to!(v@ => v@[i as int]));
            assert(v@.take(i + 1).drop_last() =~= v@.take(i as int));
            assert(exprs_view(v@.take(i + 1)).drop_last() =~= exprs_view(v@.take(i as int)));
        }
        acc = sum(acc, size_expr(&v[i]), Ghost(exprs_size(exprs_view(v@.take(i as int)))), Ghost(expr_size(v@[i as int]@)));
        i += 1;
    }
    proof {
        assert(v@.take(v@.len() as int) =~= v@);
    }
    acc
}

fn size_entries(v: &Vec<(InternedString, Expr)>) -> (r: Option<usize>)
    ensures
        r == capped(entries_size(entries_view(v@))),
    decreases v,
{
    let mut acc: Option<usize> = Some(0);
    let mut i: usize = 0;
    proof {
        assert(v@.take(0) =~= Seq::<(InternedString, Expr)>::empty());
    }
    while i < v.len()
        invariant
            i <= v@.len(),
            acc == capped(entries_size(entries_view(v@.take(i as int)))),
        decreases v.len() - i,
    {
        proof {
            assert(decreases_to!(*v => v@));
            assert(decreases_to!(v@ => v@[i as int]));
            assert(decreases_to!(v@[i as int] => v@[i as int].1));
            assert(v@.take(i + 1).drop_last() =~= v@.take(i as int));
            assert(entries_view(v@.take(i + 1)).drop_last() =~= entries_view(v@.take(i as int)));
        }
        acc = sum(
            acc,
            size_expr(&v[i].1),
            Ghost(entries_size(entries_view(v@.take(i as int)))),
            Ghost(expr_size(v@[i as int].1@)),
        );
        i += 1;
    }
    proof {
        assert(v@.take(v@.len() as int) =~= v@);
    }
    acc
}

fn size_opt(o: &Option<Expr>) -> (r: Option<usize>)
    ensures
        r == capped(opt_size(opt_view(*o))),
    decreases o,
{
    match o {
        Some(e) => size_expr(e),
        None => Some(0),
    }
}

fn size_opt_box(o: &Option<Box<Expr>>) -> (r: Option<usize>)
    ensures
        r == capped(opt_box_size(opt_box_view(*o))),
    decreases o,
{
    match o {
        Some(e) => size_expr(e),
        None => Some(0),
    }
}

fn size_stmt(s: &Stmt) -> (r: Option<usize>)
    ensures
        r == capped(stmt_size(s@)),
    decreases s,
{
    let inner = match s {
        Stmt::Declaration { initializer, .. } => size_opt(initializer),
        Stmt::Assignment { value, .. } => size_expr(value),
        Stmt::Expression(e) => size_expr(e),
        Stmt::If { condition, then_branch, else_branch, .. } => {
            let e = match else_branch {
                Some(b) => size_stmts(b),
                None => Some(0),
            };
            let ghost x = expr_size(condition@);
            let ghost y = stmts_size(stmts_view(then_branch@));
            let ghost z: nat = match else_branch {
                Some(b) => stmts_size(stmts_view(b@)),
                None => 0,
            };
            let t = sum(size_expr(condition), size_stmts(then_branch), Ghost(x), Ghost(y));
            sum(t, e, Ghost(x + y), Ghost(z))
        },
        Stmt::While { condition, body, .. } => sum(
            size_expr(condition),
            size_stmts(body),
            Ghost(expr_size(condition@)),
            Ghost(stmts_size(stmts_view(body@))),
        ),
        Stmt::For { initializer, condition, increment, body, .. } => {
            let ghost a = opt_box_size(opt_box_view(*initializer));
            let ghost b = expr_size((**condition)@);
            let ghost c = opt_box_size(opt_box_view(*increment));
            let s1 = sum(size_opt_box(initializer), size_expr(condition), Ghost(a), Ghost(b));
            let s2 = sum(s1, size_opt_box(increment), Ghost(a + b), Ghost(c));
            sum(s2, size_stmts(body), Ghost(a + b + c), Ghost(stmts_size(stmts_view(body@))))
        },
        Stmt::ForIn { iterable, body, .. } => sum(
            size_expr(iterable),
            size_stmts(body),
            Ghost(expr_size(iterable@)),
            Ghost(stmts_size(stmts_view(body@))),
        ),
        Stmt::Function { body, .. } => size_stmts(body),
        Stmt::Return(e) => size_opt(e),
        Stmt::ReturnMulti(v) => size_exprs(v),
        Stmt::Block(v) => size_stmts(v),
        Stmt::Destructure { initializer, .. } => size_expr(initializer),
        Stmt::Throw { value, .. } => size_expr(value),
        Stmt::Try { body, catch_body, .. } => sum(
            size_stmts(body),
            size_stmts(catch_body),
            Ghost(stmts_size(stmts_view(body@))),
            Ghost(stmts_size(stmts_view(catch_body@))),
        ),
        Stmt::PropertySet { object, value, .. } => sum(
            size_expr(object),
            size_expr(value),
            Ghost(expr_size((**object)@)),
            Ghost(expr_size(value@)),
        ),
        _ => Some(0),
    };
    sum(Some(1), inner, Ghost(1), Ghost((stmt_size(s@) - 1) as nat))
}

fn size_stmts(v: &Vec<Stmt>) -> (r: Option<usize>)
    ensures
        r == capped(stmts_size(stmts_view(v@))),
    decreases v,
{
    let mut acc: Option<usize> = Some(0);
    let mut i: usize = 0;
    proof {
        assert(v@.take(0) =~= Seq::<Stmt>::empty());
    }
    while i < v.len()
        invariant
            i <= v@.len(),
            acc == capped(stmts_size(stmts_view(v@.take(i as int)))),
        decreases v.len() - i,
    {
        proof {
            assert(decreases_to!(*v => v@));
            assert(decreases_to!(v@ => v@[i as int]));
            assert(v@.take(i + 1).drop_last() =~= v@.take(i as int));
            assert(stmts_view(v@.take(i + 1)).drop_last() =~= stmts_view(v@.take(i as int)));
        }
        acc = sum(acc, size_stmt(&v[i]), Ghost(stmts_size(stmts_view(v@.take(i as int)))), Ghost(stmt_size(v@[i as int]@)));
        i += 1;
    }
    proof {
        assert(v@.take(v@.len() as int) =~= v@);
    }
    acc
}

/// The size of `program` that the optimizer's counters are bounded by, if
/// it fits in a `usize`; `Optimizer::optimize` requires the counters'
/// total plus this size to fit.
pub fn program_size(program: &Program) -> (r: Option<usize>)
    ensures
        r == capped(stmts_size(program@)),
{
    size_stmts(&program.statements)
}

} // verus!

//! Syntax tree of Taurine programs, and its mathematical model.
//!
//! Every executable node type has a view into a ghost datatype of the same
//! shape in which vectors are sequences and strings are sequences of
//! characters.  Numbers are carried as the bit pattern of an IEEE-754 double.
use vstd::prelude::*;

verus! {

/// An identifier that the string interner has already turned into a number.
#[derive(Clone, Copy, Debug, PartialEq, Eq, Structural)]
pub struct InternedString(pub usize);

impl InternedString {
    pub fn id(&self) -> (r: usize)
        ensures
            r == self.0,
    {
        self.0
    }
}

/// Operator tokens that appear in binary and unary expressions.
#[derive(Clone, Copy, Debug, PartialEq, Eq, Structural)]
pub enum TokenKind {
    Plus,
    Minus,
    Star,
    Slash,
    Percent,
    EqualEqual,
    NotEqual,
    Less,
    Greater,
    LessEqual,
    GreaterEqual,
    And,
    Or,
    Not,
}

/// One arm of a `match` expression.
pub struct MatchArm {
    pub pattern: Expr,
    pub guard: Option<Expr>,
    pub body: Expr,
}

/// Expressions.  `Number` holds the bit pattern of a 64-bit float.
pub enum Expr {
    Number(u64),
    String(String),
    LiteralTrue,
    LiteralFalse,
    LiteralNil,
    Identifier(InternedString),
    Binary { left: Box<Expr>, op: TokenKind, right: Box<Expr>, line: usize },
    Unary { op: TokenKind, expr: Box<Expr>, line: usize },
    NullCoalesce { left: Box<Expr>, right: Box<Expr>, line: usize },
    Call { callee: Box<Expr>, arguments: Vec<Expr>, line: usize },
    Table { entries: Vec<(InternedString, Expr)>, line: usize },
    Array { items: Vec<Expr>, line: usize },
    Index { object: Box<Expr>, index: Box<Expr>, line: usize },
    SetIndex { object: Box<Expr>, index: Box<Expr>, value: Box<Expr>, line: usize },
    Get { object: Box<Expr>, name: InternedString, line: usize },
    SetProperty { object: Box<Expr>, name: InternedString, value: Box<Expr>, line: usize },
    SafeGet { object: Box<Expr>, name: InternedString, line: usize },
    Range { start: Box<Expr>, end: Box<Expr>, line: usize },
    Length { expr: Box<Expr>, line: usize },
    Throw { expr: Box<Expr>, line: usize },
    FunctionLiteral { params: Vec<(InternedString, Option<Expr>)>, body: Vec<Stmt>, line: usize },
    Lambda { params: Vec<(InternedString, Option<Expr>)>, body: Box<Expr>, line: usize },
    Spread { expr: Box<Expr>, line: usize },
    Match { value: Box<Expr>, arms: Vec<MatchArm>, line: usize },
    Require { path: String, line: usize },
    Export { name: InternedString, value: Box<Expr>, line: usize },
    Class {
        name: InternedString,
        superclass: Option<InternedString>,
        methods: Vec<(InternedString, Expr)>,
        line: usize,
    },
    NewInstance { class_name: InternedString, arguments: Vec<Expr>, line: usize },
    FString { parts: Vec<(String, Option<Box<Expr>>)>, line: usize },
    This { line: usize },
    Super { method: InternedString, line: usize },
    SetLiteral { items: Vec<Expr>, line: usize },
    AsyncFunctionLiteral { params: Vec<(InternedString, Option<Expr>)>, body: Vec<Stmt>, line: usize },
    GeneratorLiteral { params: Vec<(InternedString, Option<Expr>)>, body: Vec<Stmt>, line: usize },
    Await { future: Box<Expr>, line: usize },
    Yield { value: Option<Box<Expr>>, line: usize },
}

/// Statements.
pub enum Stmt {
    Declaration { name: InternedString, initializer: Option<Expr>, line: usize, is_const: bool },
    Assignment { name: InternedString, value: Expr, line: usize, is_const_assign: bool },
    Expression(Expr),
    If { condition: Expr, then_branch: Vec<Stmt>, else_branch: Option<Vec<Stmt>>, line: usize },
    While { condition: Expr, body: Vec<Stmt>, line: usize },
    For {
        initializer: Option<Box<Expr>>,
        condition: Box<Expr>,
        increment: Option<Box<Expr>>,
        body: Vec<Stmt>,
        line: usize,
    },
    ForIn { variable: InternedString, iterable: Expr, body: Vec<Stmt>, line: usize },
    Function { name: InternedString, params: Vec<(InternedString, Option<Expr>)>, body: Vec<Stmt>, line: usize },
    AsyncFunction {
        name: InternedString,
        params: Vec<(InternedString, Option<Expr>)>,
        body: Vec<Stmt>,
        line: usize,
    },
    Generator { name: InternedString, params: Vec<(InternedString, Option<Expr>)>, body: Vec<Stmt>, line: usize },
    Return(Option<Expr>),
    ReturnMulti(Vec<Expr>),
    Block(Vec<Stmt>),
    Destructure { names: Vec<InternedString>, initializer: Expr, line: usize },
    Import { path: String, alias: Option<InternedString>, line: usize },
    Throw { value: Expr, line: usize },
    Try { body: Vec<Stmt>, catch_var: InternedString, catch_body: Vec<Stmt>, line: usize },
    Break,
    Continue,
    Class {
        name: InternedString,
        superclass: Option<InternedString>,
        methods: Vec<(InternedString, Expr)>,
        line: usize,
    },
    Export { name: InternedString, value: Expr, line: usize },
    PropertySet { object: Box<Expr>, name: InternedString, value: Expr, line: usize },
    NullCoalesceAssign { name: InternedString, value: Expr, line: usize },
}

/// A whole program: its top-level statements.
pub struct Program {
    pub statements: Vec<Stmt>,
}

// ---------------------------------------------------------------------------
// Mathematical model
// ---------------------------------------------------------------------------

pub struct SpecArm {
    pub pattern: SpecExpr,
    pub guard: Option<SpecExpr>,
    pub body: SpecExpr,
}

pub enum SpecExpr {
    Number(u64),
    String(Seq<char>),
    LiteralTrue,
    LiteralFalse,
    LiteralNil,
    Identifier(InternedString),
    Binary { left: Box<SpecExpr>, op: TokenKind, right: Box<SpecExpr>, line: usize },
    Unary { op: TokenKind, expr: Box<SpecExpr>, line: usize },
    NullCoalesce { left: Box<SpecExpr>, right: Box<SpecExpr>, line: usize },
    Call { callee: Box<SpecExpr>, arguments: Seq<SpecExpr>, line: usize },
    Table { entries: Seq<(InternedString, SpecExpr)>, line: usize },
    Array { items: Seq<SpecExpr>, line: usize },
    Index { object: Box<SpecExpr>, index: Box<SpecExpr>, line: usize },
    SetIndex { object: Box<SpecExpr>, index: Box<SpecExpr>, value: Box<SpecExpr>, line: usize },
    Get { object: Box<SpecExpr>, name: InternedString, line: usize },
    SetProperty { object: Box<SpecExpr>, name: InternedString, value: Box<SpecExpr>, line: usize },
    SafeGet { object: Box<SpecExpr>, name: InternedString, line: usize },
    Range { start: Box<SpecExpr>, end: Box<SpecExpr>, line: usize },
    Length { expr: Box<SpecExpr>, line: usize },
    Throw { expr: Box<SpecExpr>, line: usize },
    FunctionLiteral { params: Seq<(InternedString, Option<SpecExpr>)>, body: Seq<SpecStmt>, line: usize },
    Lambda { params: Seq<(InternedString, Option<SpecExpr>)>, body: Box<SpecExpr>, line: usize },
    Spread { expr: Box<SpecExpr>, line: usize },
    Match { value: Box<SpecExpr>, arms: Seq<SpecArm>, line: usize },
    Require { path: Seq<char>, line: usize },
    Export { name: InternedString, value: Box<SpecExpr>, line: usize },
    Class {
        name: InternedString,
        superclass: Option<InternedString>,
        methods: Seq<(InternedString, SpecExpr)>,
        line: usize,
    },
    NewInstance { class_name: InternedString, arguments: Seq<SpecExpr>, line: usize },
    FString { parts: Seq<(Seq<char>, Option<SpecExpr>)>, line: usize },
    This { line: usize },
    Super { method: InternedString, line: usize },
    SetLiteral { items: Seq<SpecExpr>, line: usize },
    AsyncFunctionLiteral {
        params: Seq<(InternedString, Option<SpecExpr>)>,
        body: Seq<SpecStmt>,
        line: usize,
    },
    GeneratorLiteral { params: Seq<(InternedString, Option<SpecExpr>)>, body: Seq<SpecStmt>, line: usize },
    Await { future: Box<SpecExpr>, line: usize },
    Yield { value: Option<Box<SpecExpr>>, line: usize },
}

pub enum SpecStmt {
    Declaration { name: InternedString, initializer: Option<SpecExpr>, line: usize, is_const: bool },
    Assignment { name: InternedString, value: SpecExpr, line: usize, is_const_assign: bool },
    Expression(SpecExpr),
    If {
        condition: SpecExpr,
        then_branch: Seq<SpecStmt>,
        else_branch: Option<Seq<SpecStmt>>,
        line: usize,
    },
    While { condition: SpecExpr, body: Seq<SpecStmt>, line: usize },
    For {
        initializer: Option<Box<SpecExpr>>,
        condition: Box<SpecExpr>,
        increment: Option<Box<SpecExpr>>,
        body: Seq<SpecStmt>,
        line: usize,
    },
    ForIn { variable: InternedString, iterable: SpecExpr, body: Seq<SpecStmt>, line: usize },
    Function {
        name: InternedString,
        params: Seq<(InternedString, Option<SpecExpr>)>,
        body: Seq<SpecStmt>,
        line: usize,
    },
    AsyncFunction {
        name: InternedString,
        params: Seq<(InternedString, Option<SpecExpr>)>,
        body: Seq<SpecStmt>,
        line: usize,
    },
    Generator {
        name: InternedString,
        params: Seq<(InternedString, Option<SpecExpr>)>,
        body: Seq<SpecStmt>,
        line: usize,
    },
    Return(Option<SpecExpr>),
    ReturnMulti(Seq<SpecExpr>),
    Block(Seq<SpecStmt>),
    Destructure { names: Seq<InternedString>, initializer: SpecExpr, line: usize },
    Import { path: Seq<char>, alias: Option<InternedString>, line: usize },
    Throw { value: SpecExpr, line: usize },
    Try { body: Seq<SpecStmt>, catch_var: InternedString, catch_body: Seq<SpecStmt>, line: usize },
    Break,
    Continue,
    Class {
        name: InternedString,
        superclass: Option<InternedString>,
        methods: Seq<(InternedString, SpecExpr)>,
        line: usize,
    },
    Export { name: InternedString, value: SpecExpr, line: usize },
    PropertySet { object: Box<SpecExpr>, name: InternedString, value: SpecExpr, line: usize },
    NullCoalesceAssign { name: InternedString, value: SpecExpr, line: usize },
}

pub open spec fn opt_view(o: Option<Expr>) -> Option<SpecExpr>
    decreases o,
{
    match o {
        Some(e) => Some(expr_view(e)),
        None => None,
    }
}

pub open spec fn opt_box_view(o: Option<Box<Expr>>) -> Option<Box<SpecExpr>>
    decreases o,
{
    match o {
        Some(e) => Some(Box::new(expr_view(*e))),
        None => None,
    }
}

pub open spec fn expr_view(e: Expr) -> SpecExpr
    decreases e,
{
    match e {
        Expr::Number(n) => SpecExpr::Number(n),
        Expr::String(s) => SpecExpr::String(s@),
        Expr::LiteralTrue => SpecExpr::LiteralTrue,
        Expr::LiteralFalse => SpecExpr::LiteralFalse,
        Expr::LiteralNil => SpecExpr::LiteralNil,
        Expr::Identifier(n) => SpecExpr::Identifier(n),
        Expr::Binary { left, op, right, line } => SpecExpr::Binary {
            left: Box::new(expr_view(*left)),
            op,
            right: Box::new(expr_view(*right)),
            line,
        },
        Expr::Unary { op, expr, line } => SpecExpr::Unary { op, expr: Box::new(expr_view(*expr)), line },
        Expr::NullCoalesce { left, right, line } => SpecExpr::NullCoalesce {
            left: Box::new(expr_view(*left)),
            right: Box::new(expr_view(*right)),
            line,
        },
        Expr::Call { callee, arguments, line } => SpecExpr::Call {
            callee: Box::new(expr_view(*callee)),
            arguments: exprs_view(arguments@),
            line,
        },
        Expr::Table { entries, line } => SpecExpr::Table { entries: entries_view(entries@), line },
        Expr::Array { items, line } => SpecExpr::Array { items: exprs_view(items@), line },
        Expr::Index { object, index, line } => SpecExpr::Index {
            object: Box::new(expr_view(*object)),
            index: Box::new(expr_view(*index)),
            line,
        },
        Expr::SetIndex { object, index, value, line } => SpecExpr::SetIndex {
            object: Box::new(expr_view(*object)),
            index: Box::new(expr_view(*index)),
            value: Box::new(expr_view(*value)),
            line,
        },
        Expr::Get { object, name, line } => SpecExpr::Get { object: Box::new(expr_view(*object)), name, line },
        Expr::SetProperty { object, name, value, line } => SpecExpr::SetProperty {
            object: Box::new(expr_view(*object)),
            name,
            value: Box::new(expr_view(*value)),
            line,
        },
        Expr::SafeGet { object, name, line } => SpecExpr::SafeGet {
            object: Box::new(expr_view(*object)),
            name,
            line,
        },
        Expr::Range { start, end, line } => SpecExpr::Range {
            start: Box::new(expr_view(*start)),
            end: Box::new(expr_view(*end)),
            line,
        },
        Expr::Length { expr, line } => SpecExpr::Length { expr: Box::new(expr_view(*expr)), line },
        Expr::Throw { expr, line } => SpecExpr::Throw { expr: Box::new(expr_view(*expr)), line },
        Expr::FunctionLiteral { params, body, line } => SpecExpr::FunctionLiteral {
            params: params_view(params@),
            body: stmts_view(body@),
            line,
        },
        Expr::Lambda { params, body, line } => SpecExpr::Lambda {
            params: params_view(params@),
            body: Box::new(expr_view(*body)),
            line,
        },
        Expr::Spread { expr, line } => SpecExpr::Spread { expr: Box::new(expr_view(*expr)), line },
        Expr::Match { value, arms, line } => SpecExpr::Match {
            value: Box::new(expr_view(*value)),
            arms: arms_view(arms@),
            line,
        },
        Expr::Require { path, line } => SpecExpr::Require { path: path@, line },
        Expr::Export { name, value, line } => SpecExpr::Export { name, value: Box::new(expr_view(*value)), line },
        Expr::Class { name, superclass, methods, line } => SpecExpr::Class {
            name,
            superclass,
            methods: entries_view(methods@),
            line,
        },
        Expr::NewInstance { class_name, arguments, line } => SpecExpr::NewInstance {
            class_name,
            arguments: exprs_view(arguments@),
            line,
        },
        Expr::FString { parts, line } => SpecExpr::FString { parts: parts_view(parts@), line },
        Expr::This { line } => SpecExpr::This { line },
        Expr::Super { method, line } => SpecExpr::Super { method, line },
        Expr::SetLiteral { items, line } => SpecExpr::SetLiteral { items: exprs_view(items@), line },
        Expr::AsyncFunctionLiteral { params, body, line } => SpecExpr::AsyncFunctionLiteral {
            params: params_view(params@),
            body: stmts_view(body@),
            line,
        },
        Expr::GeneratorLiteral { params, body, line } => SpecExpr::GeneratorLiteral {
            params: params_view(params@),
            body: stmts_view(body@),
            line,
        },
        Expr::Await { future, line } => SpecExpr::Await { future: Box::new(expr_view(*future)), line },
        Expr::Yield { value, line } => SpecExpr::Yield { value: opt_box_view(value), line },
    }
}

pub open spec fn exprs_view(s: Seq<Expr>) -> Seq<SpecExpr>
    decreases s,
{
    if s.len() == 0 {
        Seq::empty()
    } else {
        exprs_view(s.drop_last()).push(expr_view(s.last()))
    }
}

pub open spec fn entries_view(s: Seq<(InternedString, Expr)>) -> Seq<(InternedString, SpecExpr)>
    decreases s,
{
    if s.len() == 0 {
        Seq::empty()
    } else {
        entries_view(s.drop_last()).push((s.last().0, expr_view(s.last().1)))
    }
}

pub open spec fn params_view(s: Seq<(InternedString, Option<Expr>)>) -> Seq<(InternedString, Option<SpecExpr>)>
    decreases s,
{
    if s.len() == 0 {
        Seq::empty()
    } else {
        params_view(s.drop_last()).push((s.last().0, opt_view(s.last().1)))
    }
}

pub open spec fn parts_view(s: Seq<(String, Option<Box<Expr>>)>) -> Seq<(Seq<char>, Option<SpecExpr>)>
    decreases s,
{
    if s.len() == 0 {
        Seq::empty()
    } else {
        parts_view(s.drop_last()).push(
            (
                s.last().0@,
                match s.last().1 {
                    Some(b) => Some(expr_view(*b)),
                    None => None,
                },
            ),
        )
    }
}

pub open spec fn arm_view(a: MatchArm) -> SpecArm
    decreases a,
{
    SpecArm { pattern: expr_view(a.pattern), guard: opt_view(a.guard), body: expr_view(a.body) }
}

pub open spec fn arms_view(s: Seq<MatchArm>) -> Seq<SpecArm>
    decreases s,
{
    if s.len() == 0 {
        Seq::empty()
    } else {
        arms_view(s.drop_last()).push(arm_view(s.last()))
    }
}

pub open spec fn opt_stmts_view(o: Option<Vec<Stmt>>) -> Option<Seq<SpecStmt>>
    decreases o,
{
    match o {
        Some(v) => Some(stmts_view(v@)),
        None => None,
    }
}

pub open spec fn stmt_view(s: Stmt) -> SpecStmt
    decreases s,
{
    match s {
        Stmt::Declaration { name, initializer, line, is_const } => SpecStmt::Declaration {
            name,
            initializer: opt_view(initializer),
            line,
            is_const,
        },
        Stmt::Assignment { name, value, line, is_const_assign } => SpecStmt::Assignment {
            name,
            value: expr_view(value),
            line,
            is_const_assign,
        },
        Stmt::Expression(e) => SpecStmt::Expression(expr_view(e)),
        Stmt::If { condition, then_branch, else_branch, line } => SpecStmt::If {
            condition: expr_view(condition),
            then_branch: stmts_view(then_branch@),
            else_branch: opt_stmts_view(else_branch),
            line,
        },
        Stmt::While { condition, body, line } => SpecStmt::While {
            condition: expr_view(condition),
            body: stmts_view(body@),
            line,
        },
        Stmt::For { initializer, condition, increment, body, line } => SpecStmt::For {
            initializer: opt_box_view(initializer),
            condition: Box::new(expr_view(*condition)),
            increment: opt_box_view(increment),
            body: stmts_view(body@),
            line,
        },
        Stmt::ForIn { variable, iterable, body, line } => SpecStmt::ForIn {
            variable,
            iterable: expr_view(iterable),
            body: stmts_view(body@),
            line,
        },
        Stmt::Function { name, params, body, line } => SpecStmt::Function {
            name,
            params: params_view(params@),
            body: stmts_view(body@),
            line,
        },
        Stmt::AsyncFunction { name, params, body, line } => SpecStmt::AsyncFunction {
            name,
            params: params_view(params@),
            body: stmts_view(body@),
            line,
        },
        Stmt::Generator { name, params, body, line } => SpecStmt::Generator {
            name,
            params: params_view(params@),
            body: stmts_view(body@),
            line,
        },
        Stmt::Return(e) => SpecStmt::Return(opt_view(e)),
        Stmt::ReturnMulti(v) => SpecStmt::ReturnMulti(exprs_view(v@)),
        Stmt::Block(v) => SpecStmt::Block(stmts_view(v@)),
        Stmt::Destructure { names, initializer, line } => SpecStmt::Destructure {
            names: names@,
            initializer: expr_view(initializer),
            line,
        },
        Stmt::Import { path, alias, line } => SpecStmt::Import { path: path@, alias, line },
        Stmt::Throw { value, line } => SpecStmt::Throw { value: expr_view(value), line },
        Stmt::Try { body, catch_var, catch_body, line } => SpecStmt::Try {
            body: stmts_view(body@),
            catch_var,
            catch_body: stmts_view(catch_body@),
            line,
        },
        Stmt::Break => SpecStmt::Break,
        Stmt::Continue => SpecStmt::Continue,
        Stmt::Class { name, superclass, methods, line } => SpecStmt::Class {
            name,
            superclass,
            methods: entries_view(methods@),
            line,
        },
        Stmt::Export { name, value, line } => SpecStmt::Export { name, value: expr_view(value), line },
        Stmt::PropertySet { object, name, value, line } => SpecStmt::PropertySet {
            object: Box::new(expr_view(*object)),
            name,
            value: expr_view(value),
            line,
        },
        Stmt::NullCoalesceAssign { name, value, line } => SpecStmt::NullCoalesceAssign {
            name,
            value: expr_view(value),
            line,
        },
    }
}

pub open spec fn stmts_view(s: Seq<Stmt>) -> Seq<SpecStmt>
    decreases s,
{
    if s.len() == 0 {
        Seq::empty()
    } else {
        stmts_view(s.drop_last()).push(stmt_view(s.last()))
    }
}

pub proof fn lemma_exprs_view_len(s: Seq<Expr>)
    ensures
        exprs_view(s).len() == s.len(),
    decreases s.len(),
{
    if s.len() > 0 {
        lemma_exprs_view_len(s.drop_last());
    }
}

pub proof fn lemma_arms_view_len(s: Seq<MatchArm>)
    ensures
        arms_view(s).len() == s.len(),
    decreases s.len(),
{
    if s.len() > 0 {
        lemma_arms_view_len(s.drop_last());
    }
}

pub proof fn lemma_stmts_view_len(s: Seq<Stmt>)
    ensures
        stmts_view(s).len() == s.len(),
    decreases s.len(),
{
    if s.len() > 0 {
        lemma_stmts_view_len(s.drop_last());
    }
}

impl View for Expr {
    type V = SpecExpr;

    open spec fn view(&self) -> SpecExpr {
        expr_view(*self)
    }
}

impl View for Stmt {
    type V = SpecStmt;

    open spec fn view(&self) -> SpecStmt {
        stmt_view(*self)
    }
}

impl View for Program {
    type V = Seq<SpecStmt>;

    open spec fn view(&self) -> Seq<SpecStmt> {
        stmts_view(self.statements@)
    }
}

// ---------------------------------------------------------------------------
// Copies
// ---------------------------------------------------------------------------

pub fn copy_expr(e: &Expr) -> (r: Expr)
    ensures
        r@ == e@,
    decreases e,
{
    match e {
        Expr::Number(f0) => Expr::Number(*f0),
        Expr::String(f0) => Expr::String(f0.clone()),
        Expr::LiteralTrue => Expr::LiteralTrue,
        Expr::LiteralFalse => Expr::LiteralFalse,
        Expr::LiteralNil => Expr::LiteralNil,
        Expr::Identifier(f0) => Expr::Identifier(*f0),
        Expr::Binary { left, op, right, line } => Expr::Binary { left: Box::new(copy_expr(&**left)), op: *op, right: Box::new(copy_expr(&**right)), line: *line },
        Expr::Unary { op, expr, line } => Expr::Unary { op: *op, expr: Box::new(copy_expr(&**expr)), line: *line },
        Expr::NullCoalesce { left, right, line } => Expr::NullCoalesce { left: Box::new(copy_expr(&**left)), right: Box::new(copy_expr(&**right)), line: *line },
        Expr::Call { callee, arguments, line } => Expr::Call { callee: Box::new(copy_expr(&**callee)), arguments: copy_exprs(arguments), line: *line },
        Expr::Table { entries, line } => Expr::Table { entries: copy_entries(entries), line: *line },
        Expr::Array { items, line } => Expr::Array { items: copy_exprs(items), line: *line },
        Expr::Index { object, index, line } => Expr::Index { object: Box::new(copy_expr(&**object)), index: Box::new(copy_expr(&**index)), line: *line },
        Expr::SetIndex { object, index, value, line } => Expr::SetIndex { object: Box::new(copy_expr(&**object)), index: Box::new(copy_expr(&**index)), value: Box::new(copy_expr(&**value)), line: *line },
        Expr::Get { object, name, line } => Expr::Get { object: Box::new(copy_expr(&**object)), name: *name, line: *line },
        Expr::SetProperty { object, name, value, line } => Expr::SetProperty { object: Box::new(copy_expr(&**object)), name: *name, value: Box::new(copy_expr(&**value)), line: *line },
        Expr::SafeGet { object, name, line } => Expr::SafeGet { object: Box::new(copy_expr(&**object)), name: *name, line: *line },
        Expr::Range { start, end, line } => Expr::Range { start: Box::new(copy_expr(&**start)), end: Box::new(copy_expr(&**end)), line: *line },
        Expr::Length { expr, line } => Expr::Length { expr: Box::new(copy_expr(&**expr)), line: *line },
        Expr::Throw { expr, line } => Expr::Throw { expr: Box::new(copy_expr(&**expr)), line: *line },
        Expr::FunctionLiteral { params, body, line } => Expr::FunctionLiteral { params: copy_params(params), body: copy_stmts(body), line: *line },
        Expr::Lambda { params, body, line } => Expr::Lambda { params: copy_params(params), body: Box::new(copy_expr(&**body)), line: *line },
        Expr::Spread { expr, line } => Expr::Spread { expr: Box::new(copy_expr(&**expr)), line: *line },
        Expr::Match { value, arms, line } => Expr::Match { value: Box::new(copy_expr(&**value)), arms: copy_arms(arms), line: *line },
        Expr::Require { path, line } => Expr::Require { path: path.clone(), line: *line },
        Expr::Export { name, value, line } => Expr::Export { name: *name, value: Box::new(copy_expr(&**value)), line: *line },
        Expr::Class { name, superclass, methods, line } => Expr::Class { name: *name, superclass: *superclass, methods: copy_entries(methods), line: *line },
        Expr::NewInstance { class_name, arguments, line } => Expr::NewInstance { class_name: *class_name, arguments: copy_exprs(arguments), line: *line },
        Expr::FString { parts, line } => Expr::FString { parts: copy_parts(parts), line: *line },
        Expr::This { line } => Expr::This { line: *line },
        Expr::Super { method, line } => Expr::Super { method: *method, line: *line },
        Expr::SetLiteral { items, line } => Expr::SetLiteral { items: copy_exprs(items), line: *line },
        Expr::AsyncFunctionLiteral { params, body, line } => Expr::AsyncFunctionLiteral { params: copy_params(params), body: copy_stmts(body), line: *line },
        Expr::GeneratorLiteral { params, body, line } => Expr::GeneratorLiteral { params: copy_params(params), body: copy_stmts(body), line: *line },
        Expr::Await { future, line } => Expr::Await { future: Box::new(copy_expr(&**future)), line: *line },
        Expr::Yield { value, line } => Expr::Yield { value: copy_opt_box(value), line: *line },
    }
}

pub fn copy_stmt(s: &Stmt) -> (r: Stmt)
    ensures
        r@ == s@,
    decreases s,
{
    match s {
        Stmt::Declaration { name, initializer, line, is_const } => Stmt::Declaration { name: *name, initializer: copy_opt(initializer), line: *line, is_const: *is_const },
        Stmt::Assignment { name, value, line, is_const_assign } => Stmt::Assignment { name: *name, value: copy_expr(value), line: *line, is_const_assign: *is_const_assign },
        Stmt::Expression(f0) => Stmt::Expression(copy_expr(f0)),
        Stmt::If { condition, then_branch, else_branch, line } => Stmt::If { condition: copy_expr(condition), then_branch: copy_stmts(then_branch), else_branch: copy_opt_stmts(else_branch), line: *line },
        Stmt::While { condition, body, line } => Stmt::While { condition: copy_expr(condition), body: copy_stmts(body), line: *line },
        Stmt::For { initializer, condition, increment, body, line } => Stmt::For { initializer: copy_opt_box(initializer), condition: Box::new(copy_expr(&**condition)), increment: copy_opt_box(increment), body: copy_stmts(body), line: *line },
        Stmt::ForIn { variable, iterable, body, line } => Stmt::ForIn { variable: *variable, iterable: copy_expr(iterable), body: copy_stmts(body), line: *line },
        Stmt::Function { name, params, body, line } => Stmt::Function { name: *name, params: copy_params(params), body: copy_stmts(body), line: *line },
        Stmt::AsyncFunction { name, params, body, line } => Stmt::AsyncFunction { name: *name, params: copy_params(params), body: copy_stmts(body), line: *line },
        Stmt::Generator { name, params, body, line } => Stmt::Generator { name: *name, params: copy_params(params), body: copy_stmts(body), line: *line },
        Stmt::Return(f0) => Stmt::Return(copy_opt(f0)),
        Stmt::ReturnMulti(f0) => Stmt::ReturnMulti(copy_exprs(f0)),
        Stmt::Block(f0) => Stmt::Block(copy_stmts(f0)),
        Stmt::Destructure { names, initializer, line } => Stmt::Destructure { names: copy_names(names), initializer: copy_expr(initializer), line: *line },
        Stmt::Import { path, alias, line } => Stmt::Import { path: path.clone(), alias: *alias, line: *line },
        Stmt::Throw { value, line } => Stmt::Throw { value: copy_expr(value), line: *line },
        Stmt::Try { body, catch_var, catch_body, line } => Stmt::Try { body: copy_stmts(body), catch_var: *catch_var, catch_body: copy_stmts(catch_body), line: *line },
        Stmt::Break => Stmt::Break,
        Stmt::Continue => Stmt::Continue,
        Stmt::Class { name, superclass, methods, line } => Stmt::Class { name: *name, superclass: *superclass, methods: copy_entries(methods), line: *line },
        Stmt::Export { name, value, line } => Stmt::Export { name: *name, value: copy_expr(value), line: *line },
        Stmt::PropertySet { object, name, value, line } => Stmt::PropertySet { object: Box::new(copy_expr(&**object)), name: *name, value: copy_expr(value), line: *line },
        Stmt::NullCoalesceAssign { name, value, line } => Stmt::NullCoalesceAssign { name: *name, value: copy_expr(value), line: *line },
    }
}

impl Clone for Expr {
    fn clone(&self) -> (r: Self)
        ensures
            r@ == self@,
    {
        copy_expr(self)
    }
}

pub fn copy_opt(o: &Option<Expr>) -> (r: Option<Expr>)
    ensures
        opt_view(r) == opt_view(*o),
    decreases o,
{
    match o {
        Some(e) => Some(copy_expr(e)),
        None => None,
    }
}

pub fn copy_opt_box(o: &Option<Box<Expr>>) -> (r: Option<Box<Expr>>)
    ensures
        opt_box_view(r) == opt_box_view(*o),
    decreases o,
{
    match o {
        Some(e) => Some(Box::new(copy_expr(&**e))),
        None => None,
    }
}

pub fn copy_opt_stmts(o: &Option<Vec<Stmt>>) -> (r: Option<Vec<Stmt>>)
    ensures
        opt_stmts_view(r) == opt_stmts_view(*o),
    decreases o,
{
    match o {
        Some(v) => Some(copy_stmts(v)),
        None => None,
    }
}

pub fn copy_arm(a: &MatchArm) -> (r: MatchArm)
    ensures
        arm_view(r) == arm_view(*a),
    decreases a,
{
    MatchArm { pattern: copy_expr(&a.pattern), guard: copy_opt(&a.guard), body: copy_expr(&a.body) }
}

pub fn copy_names(v: &Vec<InternedString>) -> (r: Vec<InternedString>)
    ensures
        r@ == v@,
{
    let mut out: Vec<InternedString> = Vec::new();
    let mut i: usize = 0;
    while i < v.len()
        invariant
            i <= v.len(),
            out@ == v@.take(i as int),
        decreases v.len() - i,
    {
        out.push(v[i]);
        proof {
            assert(v@.take(i + 1) =~= v@.take(i as int).push(v@[i as int]));
        }
        i += 1;
    }
    proof {
        assert(v@.take(v.len() as int) =~= v@);
    }
    out
}

pub fn copy_exprs(v: &Vec<Expr>) -> (r: Vec<Expr>)
    ensures
        exprs_view(r@) == exprs_view(v@),
    decreases v,
{
    let mut out: Vec<Expr> = Vec::new();
    let mut i: usize = 0;
    #[verifier::loop_isolation(false)]
    while i < v.len()
        invariant
            i <= v.len(),
            exprs_view(out@) == exprs_view(v@.take(i as int)),
        decreases v.len() - i,
    {
        proof {
            assert(decreases_to!(*v => v@));
            assert(decreases_to!(v@ => v@[i as int]));
        }
        let c = copy_expr(&v[i]);
        let ghost prev = out@;
        out.push(c);
        proof {
            assert(v@.take(i + 1).drop_last() =~= v@.take(i as int));
            assert(out@.drop_last() =~= prev);
        }
        i += 1;
    }
    proof {
        assert(v@.take(v.len() as int) =~= v@);
    }
    out
}

pub fn copy_entries(v: &Vec<(InternedString, Expr)>) -> (r: Vec<(InternedString, Expr)>)
    ensures
        entries_view(r@) == entries_view(v@),
    decreases v,
{
    let mut out: Vec<(InternedString, Expr)> = Vec::new();
    let mut i: usize = 0;
    #[verifier::loop_isolation(false)]
    while i < v.len()
        invariant
            i <= v.len(),
            entries_view(out@) == entries_view(v@.take(i as int)),
        decreases v.len() - i,
    {
        proof {
            assert(decreases_to!(*v => v@));
            assert(decreases_to!(v@ => v@[i as int]));
        }
        let c = (v[i].0, copy_expr(&v[i].1));
        let ghost prev = out@;
        out.push(c);
        proof {
            assert(v@.take(i + 1).drop_last() =~= v@.take(i as int));
            assert(out@.drop_last() =~= prev);
        }
        i += 1;
    }
    proof {
        assert(v@.take(v.len() as int) =~= v@);
    }
    out
}

pub fn copy_params(v: &Vec<(InternedString, Option<Expr>)>) -> (r: Vec<(InternedString, Option<Expr>)>)
    ensures
        params_view(r@) == params_view(v@),
    decreases v,
{
    let mut out: Vec<(InternedString, Option<Expr>)> = Vec::new();
    let mut i: usize = 0;
    #[verifier::loop_isolation(false)]
    while i < v.len()
        invariant
            i <= v.len(),
            params_view(out@) == params_view(v@.take(i as int)),
        decreases v.len() - i,
    {
        proof {
            assert(decreases_to!(*v => v@));
            assert(decreases_to!(v@ => v@[i as int]));
        }
        let c = (v[i].0, copy_opt(&v[i].1));
        let ghost prev = out@;
        out.push(c);
        proof {
            assert(v@.take(i + 1).drop_last() =~= v@.take(i as int));
            assert(out@.drop_last() =~= prev);
        }
        i += 1;
    }
    proof {
        assert(v@.take(v.len() as int) =~= v@);
    }
    out
}

pub fn copy_parts(v: &Vec<(String, Option<Box<Expr>>)>) -> (r: Vec<(String, Option<Box<Expr>>)>)
    ensures
        parts_view(r@) == parts_view(v@),
    decreases v,
{
    let mut out: Vec<(String, Option<Box<Expr>>)> = Vec::new();
    let mut i: usize = 0;
    #[verifier::loop_isolation(false)]
    while i < v.len()
        invariant
            i <= v.len(),
            parts_view(out@) == parts_view(v@.take(i as int)),
        decreases v.len() - i,
    {
        proof {
            assert(decreases_to!(*v => v@));
            assert(decreases_to!(v@ => v@[i as int]));
        }
        let c = (v[i].0.clone(), copy_opt_box(&v[i].1));
        let ghost prev = out@;
        out.push(c);
        proof {
            assert(v@.take(i + 1).drop_last() =~= v@.take(i as int));
            assert(out@.drop_last() =~= prev);
        }
        i += 1;
    }
    proof {
        assert(v@.take(v.len() as int) =~= v@);
    }
    out
}

pub fn copy_arms(v: &Vec<MatchArm>) -> (r: Vec<MatchArm>)
    ensures
        arms_view(r@) == arms_view(v@),
    decreases v,
{
    let mut out: Vec<MatchArm> = Vec::new();
    let mut i: usize = 0;
    #[verifier::loop_isolation(false)]
    while i < v.len()
        invariant
            i <= v.len(),
            arms_view(out@) == arms_view(v@.take(i as int)),
        decreases v.len() - i,
    {
        proof {
            assert(decreases_to!(*v => v@));
            assert(decreases_to!(v@ => v@[i as int]));
        }
        let c = copy_arm(&v[i]);
        let ghost prev = out@;
        out.push(c);
        proof {
            assert(v@.take(i + 1).drop_last() =~= v@.take(i as int));
            assert(out@.drop_last() =~= prev);
        }
        i += 1;
    }
    proof {
        assert(v@.take(v.len() as int) =~= v@);
    }
    out
}

pub fn copy_stmts(v: &Vec<Stmt>) -> (r: Vec<Stmt>)
    ensures
        stmts_view(r@) == stmts_view(v@),
    decreases v,
{
    let mut out: Vec<Stmt> = Vec::new();
    let mut i: usize = 0;
    #[verifier::loop_isolation(false)]
    while i < v.len()
        invariant
            i <= v.len(),
            stmts_view(out@) == stmts_view(v@.take(i as int)),
        decreases v.len() - i,
    {
        proof {
            assert(decreases_to!(*v => v@));
            assert(decreases_to!(v@ => v@[i as int]));
        }
        let c = copy_stmt(&v[i]);
        let ghost prev = out@;
        out.push(c);
        proof {
            assert(v@.take(i + 1).drop_last() =~= v@.take(i as int));
            assert(out@.drop_last() =~= prev);
        }
        i += 1;
    }
    proof {
        assert(v@.take(v.len() as int) =~= v@);
    }
    out
}

} // verus!

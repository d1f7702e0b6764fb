//! Abstract syntax of snek programs.
use vstd::prelude::*;
use vstd::string::*;

verus! {

/// A whole program: function definitions and a main expression.
#[derive(Debug)]
pub struct Program {
    pub defs: Vec<FunDef>,
    pub main: Box<Expr>,
}

/// A function definition, optionally annotated with types.
#[derive(Debug)]
pub struct FunDef {
    pub name: String,
    pub args: Vec<String>,
    pub arg_types: Vec<Type>,
    pub ret_type: Option<Type>,
    pub body: Box<Expr>,
}

/// Expressions.
#[derive(Debug)]
pub enum Expr {
    Num(i64),
    Bool(bool),
    Id(String),
    Input,
    Let(Vec<(String, Expr)>, Box<Expr>),
    UnOp(Op1, Box<Expr>),
    BinOp(Op2, Box<Expr>, Box<Expr>),
    If(Box<Expr>, Box<Expr>, Box<Expr>),
    Loop(Box<Expr>),
    Break(Box<Expr>),
    Assign(String, Box<Expr>),
    Block(Vec<Expr>),
    Call(String, Vec<Expr>),
    Cast(Type, Box<Expr>),
}

/// Unary operators.
#[derive(Debug, Clone, Copy, PartialEq, Eq, Structural)]
pub enum Op1 {
    Add1,
    Sub1,
    Negate,
    IsNum,
    IsBool,
    Print,
}

/// Binary operators.
#[derive(Debug, Clone, Copy, PartialEq, Eq, Structural)]
pub enum Op2 {
    Plus,
    Minus,
    Times,
    Equal,
    Greater,
    GreaterEqual,
    Less,
    LessEqual,
}

/// Static types.
#[derive(Debug, Clone, Copy, PartialEq, Eq, Structural)]
pub enum Type {
    Num,
    Bool,
    Nothing,
    Any,
}

/// The name of a type as it is written in programs.
pub open spec fn type_text(t: Type) -> Seq<char> {
    match t {
        Type::Num => "Num"@,
        Type::Bool => "Bool"@,
        Type::Nothing => "Nothing"@,
        Type::Any => "Any"@,
    }
}

impl Type {
    /// The name of the type as it is written in programs.
    pub fn to_string(&self) -> (r: String)
        ensures
            r@ == type_text(*self),
    {
        match self {
            Type::Num => String::from_str("Num"),
            Type::Bool => String::from_str("Bool"),
            Type::Nothing => String::from_str("Nothing"),
            Type::Any => String::from_str("Any"),
        }
    }
}

/// How a unary operator is shown in messages (its variant name).
pub open spec fn op1_text(op: Op1) -> Seq<char> {
    match op {
        Op1::Add1 => "Add1"@,
        Op1::Sub1 => "Sub1"@,
        Op1::Negate => "Negate"@,
        Op1::IsNum => "IsNum"@,
        Op1::IsBool => "IsBool"@,
        Op1::Print => "Print"@,
    }
}

/// How a binary operator is shown in messages (its variant name).
pub open spec fn op2_text(op: Op2) -> Seq<char> {
    match op {
        Op2::Plus => "Plus"@,
        Op2::Minus => "Minus"@,
        Op2::Times => "Times"@,
        Op2::Equal => "Equal"@,
        Op2::Greater => "Greater"@,
        Op2::GreaterEqual => "GreaterEqual"@,
        Op2::Less => "Less"@,
        Op2::LessEqual => "LessEqual"@,
    }
}

impl Op1 {
    /// How the operator is shown in messages.
    pub fn name(&self) -> (r: &'static str)
        ensures
            r@ == op1_text(*self),
    {
        match self {
            Op1::Add1 => "Add1",
            Op1::Sub1 => "Sub1",
            Op1::Negate => "Negate",
            Op1::IsNum => "IsNum",
            Op1::IsBool => "IsBool",
            Op1::Print => "Print",
        }
    }
}

impl Op2 {
    /// How the operator is shown in messages.
    pub fn name(&self) -> (r: &'static str)
        ensures
            r@ == op2_text(*self),
    {
        match self {
            Op2::Plus => "Plus",
            Op2::Minus => "Minus",
            Op2::Times => "Times",
            Op2::Equal => "Equal",
            Op2::Greater => "Greater",
            Op2::GreaterEqual => "GreaterEqual",
            Op2::Less => "Less",
            Op2::LessEqual => "LessEqual",
        }
    }
}

/// How many sub-expressions an expression holds in a list.
pub open spec fn child_count(e: Expr) -> int {
    match e {
        Expr::Let(bs, _) => bs@.len() as int,
        Expr::Block(es) => es@.len() as int,
        Expr::Call(_, args) => args@.len() as int,
        _ => 0,
    }
}

/// The size of an expression: its nodes, each binding of a `let` counted
/// as one more.
pub open spec fn expr_size(e: Expr) -> int
    decreases e, child_count(e) + 1,
{
    match e {
        Expr::Let(_, _) => 1 + size_from(e, 0),
        Expr::Block(_) => 1 + size_from(e, 0),
        Expr::Call(_, _) => 1 + size_from(e, 0),
        Expr::UnOp(_, x) => 1 + expr_size(*x),
        Expr::Loop(x) => 1 + expr_size(*x),
        Expr::Break(x) => 1 + expr_size(*x),
        Expr::Assign(_, x) => 1 + expr_size(*x),
        Expr::Cast(_, x) => 1 + expr_size(*x),
        Expr::BinOp(_, a, b) => 1 + expr_size(*a) + expr_size(*b),
        Expr::If(c, a, b) => 1 + expr_size(*c) + expr_size(*a) + expr_size(*b),
        _ => 1,
    }
}

/// The size of the listed sub-expressions of `e` from the `i`-th on (and
/// of the body, for a `let`).
pub open spec fn size_from(e: Expr, i: int) -> int
    decreases e, child_count(e) - i,
{
    match e {
        Expr::Let(bs, body) => if 0 <= i < bs@.len() {
            1 + expr_size(bs@[i].1) + size_from(e, i + 1)
        } else {
            expr_size(*body)
        },
        Expr::Block(es) => if 0 <= i < es@.len() {
            expr_size(es@[i]) + size_from(e, i + 1)
        } else {
            0
        },
        Expr::Call(_, es) => if 0 <= i < es@.len() {
            expr_size(es@[i]) + size_from(e, i + 1)
        } else {
            0
        },
        _ => 0,
    }
}

/// The larger of two integers.
pub open spec fn max2(a: int, b: int) -> int {
    if a >= b {
        a
    } else {
        b
    }
}

/// How many slots above the free one the code of `e` uses at most: its
/// code touches the slots from the free one `si` up to `si + slots(e)`.
pub open spec fn slots(e: Expr) -> int
    decreases e, child_count(e) + 1,
{
    match e {
        Expr::Let(_, _) => slots_from(e, 0),
        Expr::Block(_) => slots_from(e, 0),
        Expr::Call(_, _) => slots_from(e, 0),
        Expr::UnOp(_, x) => slots(*x),
        Expr::Loop(x) => slots(*x),
        Expr::Break(x) => slots(*x),
        Expr::Assign(_, x) => slots(*x),
        Expr::Cast(_, x) => slots(*x),
        Expr::BinOp(_, a, b) => max2(slots(*a), 1 + slots(*b)),
        Expr::If(c, a, b) => max2(slots(*c), max2(1 + slots(*a), 2 + slots(*b))),
        _ => 0,
    }
}

/// The slots used by the listed sub-expressions of `e` from the `i`-th
/// on, counted from the slot of the `i`-th: a binding or a block item one
/// slot above the one before it, the body of a `let` above all bindings,
/// each argument of a call one slot above its position.
pub open spec fn slots_from(e: Expr, i: int) -> int
    decreases e, child_count(e) - i,
{
    match e {
        Expr::Let(bs, body) => if 0 <= i < bs@.len() {
            max2(slots(bs@[i].1), 1 + slots_from(e, i + 1))
        } else {
            slots(*body)
        },
        Expr::Block(es) => if 0 <= i < es@.len() {
            max2(slots(es@[i]), 1 + slots_from(e, i + 1))
        } else {
            0
        },
        Expr::Call(_, es) => if 0 <= i < es@.len() {
            max2(1 + slots(es@[i]), 1 + slots_from(e, i + 1))
        } else {
            0
        },
        _ => 0,
    }
}

/// The slot counts are never negative.
pub proof fn lemma_slots_nonneg(e: Expr)
    ensures
        slots(e) >= 0,
    decreases e, child_count(e) + 1,
{
    match e {
        Expr::Let(_, _) => lemma_slots_from_nonneg(e, 0),
        Expr::Block(_) => lemma_slots_from_nonneg(e, 0),
        Expr::Call(_, _) => lemma_slots_from_nonneg(e, 0),
        Expr::UnOp(_, x) => lemma_slots_nonneg(*x),
        Expr::Loop(x) => lemma_slots_nonneg(*x),
        Expr::Break(x) => lemma_slots_nonneg(*x),
        Expr::Assign(_, x) => lemma_slots_nonneg(*x),
        Expr::Cast(_, x) => lemma_slots_nonneg(*x),
        Expr::BinOp(_, a, b) => {
            lemma_slots_nonneg(*a);
        },
        Expr::If(c, a, b) => {
            lemma_slots_nonneg(*c);
        },
        _ => {},
    }
}

/// The slot counts of the listed sub-expressions are never negative.
pub proof fn lemma_slots_from_nonneg(e: Expr, i: int)
    ensures
        slots_from(e, i) >= 0,
    decreases e, child_count(e) - i,
{
    match e {
        Expr::Let(bs, body) => if 0 <= i < bs@.len() {
            lemma_slots_from_nonneg(e, i + 1);
        } else {
            lemma_slots_nonneg(*body);
        },
        Expr::Block(es) => if 0 <= i < es@.len() {
            lemma_slots_from_nonneg(e, i + 1);
        },
        Expr::Call(_, es) => if 0 <= i < es@.len() {
            lemma_slots_from_nonneg(e, i + 1);
        },
        _ => {},
    }
}

/// Every expression has size at least one.
pub proof fn lemma_expr_size_pos(e: Expr)
    ensures
        expr_size(e) >= 1,
        size_from(e, 0) >= 0,
    decreases e, child_count(e) + 1,
{
    lemma_size_from_nonneg(e, 0);
    match e {
        Expr::UnOp(_, x) => lemma_expr_size_pos(*x),
        Expr::Loop(x) => lemma_expr_size_pos(*x),
        Expr::Break(x) => lemma_expr_size_pos(*x),
        Expr::Assign(_, x) => lemma_expr_size_pos(*x),
        Expr::Cast(_, x) => lemma_expr_size_pos(*x),
        Expr::BinOp(_, a, b) => {
            lemma_expr_size_pos(*a);
            lemma_expr_size_pos(*b);
        },
        Expr::If(c, a, b) => {
            lemma_expr_size_pos(*c);
            lemma_expr_size_pos(*a);
            lemma_expr_size_pos(*b);
        },
        _ => {},
    }
}

/// The size of a tail of listed sub-expressions is never negative, and
/// each listed sub-expression has positive size.
pub proof fn lemma_size_from_nonneg(e: Expr, i: int)
    ensures
        size_from(e, i) >= 0,
    decreases e, child_count(e) - i,
{
    match e {
        Expr::Let(bs, body) => if 0 <= i < bs@.len() {
            lemma_expr_size_pos(bs@[i].1);
            lemma_size_from_nonneg(e, i + 1);
        } else {
            lemma_expr_size_pos(*body);
        },
        Expr::Block(es) => if 0 <= i < es@.len() {
            lemma_expr_size_pos(es@[i]);
            lemma_size_from_nonneg(e, i + 1);
        },
        Expr::Call(_, es) => if 0 <= i < es@.len() {
            lemma_expr_size_pos(es@[i]);
            lemma_size_from_nonneg(e, i + 1);
        },
        _ => {},
    }
}

/// One entry typed at the interactive prompt.
#[derive(Debug)]
pub enum ReplEntry {
    Define(String, Box<Expr>),
    FunDef(FunDef),
    Expr(Box<Expr>),
}

} // verus!

use vstd::prelude::*;

verus! {

/// A whole program: its statements, run in order.
#[derive(Debug)]
pub enum Prog {
    Body(Vec<Stmt>),
}

/// One statement of the language.
#[derive(Debug)]
pub enum Stmt {
    /// `name op= rhs`
    ArithmeticAssign { name: String, opcode: ArithmeticOpcode, rhs: Expr },
    /// `lhs = rhs`
    Assign { lhs: Expr, rhs: Expr },
    /// An expression evaluated for its effects.
    Expr(Expr),
    /// `if (..) {..} else if (..) {..} else {..}`
    IfElse { if_block: CondBlock, else_if_blocks: Vec<CondBlock>, else_block: Option<Vec<Stmt>> },
    /// `while (..) {..}`
    While(CondBlock),
}

/// One expression of the language.
#[derive(Debug)]
pub enum Expr {
    Ident(String),
    Underscore,
    Int(i64),
    StrLiteral(String),
    List(Vec<ListItem>),
    Call { func: String, args: Vec<Expr> },
    Op { lhs: Box<Expr>, rhs: Box<Expr>, opcode: Opcode },
}

/// An element of a list literal or of a destructuring pattern; `is_spread` marks `..`.
#[derive(Debug)]
pub struct ListItem {
    pub expr: Expr,
    pub is_spread: bool,
}

/// A condition together with the block that it guards.
#[derive(Debug)]
pub struct CondBlock {
    pub cond: Expr,
    pub stmts: Vec<Stmt>,
}

/// The binary operators: six comparisons and five arithmetic operators.
#[derive(Clone, Copy, PartialEq, Eq, Debug)]
pub enum Opcode {
    Lt,
    Gt,
    Lte,
    Gte,
    Eq,
    Neq,
    Add,
    Sub,
    Mul,
    Div,
    Mod,
}

/// The operators of compound assignment.
#[derive(Clone, Copy, PartialEq, Eq, Debug)]
pub enum ArithmeticOpcode {
    AddAssign,
    SubAssign,
    MulAssign,
    DivAssign,
    ModAssign,
}

} // verus!

//! The abstract syntax of Snek programs, as handed to the compiler.
use vstd::prelude::*;

verus! {

/// Unary operators.
#[derive(Debug, Clone, Copy, PartialEq, Eq, Structural)]
pub enum Op1 {
    Add1,
    Sub1,
    IsNum,
    IsBool,
    IsVec,
    Print,
}

/// Binary operators.
#[derive(Debug, Clone, Copy, PartialEq, Eq, Structural)]
pub enum Op2 {
    Plus,
    Minus,
    Times,
    Equal,
    Greater,
    GreaterEqual,
    Less,
    LessEqual,
    StructEqual,
}

/// Expressions.
#[derive(Debug)]
pub enum Expr {
    Number(i64),
    Boolean(bool),
    Input,
    Nil,
    Id(String),
    Let(Vec<(String, Expr)>, Box<Expr>),
    UnOp(Op1, Box<Expr>),
    BinOp(Op2, Box<Expr>, Box<Expr>),
    If(Box<Expr>, Box<Expr>, Box<Expr>),
    Loop(Box<Expr>),
    Break(Box<Expr>),
    /// `set!`: assignment to a bound identifier.
    Assign(String, Box<Expr>),
    Block(Vec<Expr>),
    /// A call of a defined function.
    Call(String, Vec<Expr>),
    /// A vector built from its elements.
    Vec(Vec<Expr>),
    VecGet(Box<Expr>, Box<Expr>),
    VecSet(Box<Expr>, Box<Expr>, Box<Expr>),
    VecLen(Box<Expr>),
    MakeVec(Box<Expr>, Box<Expr>),
}

/// A function definition: a name, its parameters in order, and a body.
#[derive(Debug)]
pub struct FunDef {
    pub name: String,
    pub params: Vec<String>,
    pub body: Box<Expr>,
}

/// A program: function definitions followed by a main expression.
#[derive(Debug)]
pub struct Program {
    pub defs: Vec<FunDef>,
    pub main: Box<Expr>,
}

} // verus!

//! The abstract syntax of the tuple dialect of Snek, which has tuples and
//! indexing where the main dialect has vectors.
use vstd::prelude::*;

verus! {

/// Unary operators.
#[derive(Debug, Clone, Copy, PartialEq, Eq, Structural)]
pub enum Op1 {
    Add1,
    Sub1,
    IsNum,
    IsBool,
    Print,
}

/// Binary operators.
#[derive(Debug, Clone, Copy, PartialEq, Eq, Structural)]
pub enum Op2 {
    Plus,
    Minus,
    Times,
    Equal,
    Greater,
    GreaterEqual,
    Less,
    LessEqual,
}

/// Expressions.
#[derive(Debug)]
pub enum Expr {
    Number(i64),
    Boolean(bool),
    Nil,
    Id(String),
    Let(Vec<(String, Expr)>, Box<Expr>),
    UnOp(Op1, Box<Expr>),
    BinOp(Op2, Box<Expr>, Box<Expr>),
    If(Box<Expr>, Box<Expr>, Box<Expr>),
    Loop(Box<Expr>),
    Break(Box<Expr>),
    /// `set!`: assignment to a bound identifier.
    Assign(String, Box<Expr>),
    Block(Vec<Expr>),
    FunCall(String, Vec<Expr>),
    /// A tuple of heap-allocated values.
    Tuple(Vec<Expr>),
    /// `(index e1 e2)`: the element `e2` words past the start of the tuple `e1`.
    Index(Box<Expr>, Box<Expr>),
}

/// A function definition: a name, its parameters in order, and a body.
#[derive(Debug)]
pub struct Definition {
    pub name: String,
    pub params: Vec<String>,
    pub body: Box<Expr>,
}

/// A program: function definitions followed by a main expression.
#[derive(Debug)]
pub struct Program {
    pub defs: Vec<Definition>,
    pub main: Box<Expr>,
}

} // verus!

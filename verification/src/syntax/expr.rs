//! Value expressions, such as `(1 USD + 2 USD) * 3`.
use crate::pretty::PrettyDecimal;
use vstd::prelude::*;

verus! {

/// Amount in an expression: a decimal with an optional commodity (empty for none).
#[derive(Debug, PartialEq, Eq, Clone)]
pub struct Amount {
    pub value: PrettyDecimal,
    pub commodity: String,
}

/// Expression which evaluates to a value: parenthesized expression or amount.
#[derive(Debug, PartialEq, Eq)]
pub enum ValueExpr {
    Paren(Expr),
    Amount(Amount),
}

/// Generic expression.
#[derive(Debug, PartialEq, Eq)]
pub enum Expr {
    Unary(UnaryOpExpr),
    Binary(BinaryOpExpr),
    Value(Box<ValueExpr>),
}

/// Unary operators.
#[derive(Debug, PartialEq, Eq, Structural, Clone, Copy)]
pub enum UnaryOp {
    /// `-x`
    Negate,
}

impl UnaryOp {
    /// Symbol of the operator.
    pub fn symbol(&self) -> (r: &'static str)
        ensures
            r@ == "-"@,
    {
        match self {
            UnaryOp::Negate => "-",
        }
    }
}

/// Expression with a unary operator.
#[derive(Debug, PartialEq, Eq)]
pub struct UnaryOpExpr {
    pub op: UnaryOp,
    pub expr: Box<Expr>,
}

/// Binary operators.
#[derive(Debug, PartialEq, Eq, Structural, Clone, Copy)]
pub enum BinaryOp {
    /// `+`
    Add,
    /// `-`
    Sub,
    /// `*`
    Mul,
    /// `/`
    Div,
}

impl BinaryOp {
    /// Symbol of the operator.
    pub fn symbol(&self) -> (r: &'static str)
        ensures
            r@ == match self {
                BinaryOp::Add => "+"@,
                BinaryOp::Sub => "-"@,
                BinaryOp::Mul => "*"@,
                BinaryOp::Div => "/"@,
            },
    {
        match self {
            BinaryOp::Add => "+",
            BinaryOp::Sub => "-",
            BinaryOp::Mul => "*",
            BinaryOp::Div => "/",
        }
    }
}

/// Expression with a binary operator.
#[derive(Debug, PartialEq, Eq)]
pub struct BinaryOpExpr {
    pub op: BinaryOp,
    pub lhs: Box<Expr>,
    pub rhs: Box<Expr>,
}

} // verus!

//! The syntax tree that the front end works on.

use vstd::prelude::*;

verus! {

/// An operator of the expression language.
#[derive(Clone, Copy, Debug, PartialEq, Eq, Structural)]
pub enum Operator {
    And,
    Divide,
    Equal,
    Greater,
    GreaterEqual,
    Less,
    LessEqual,
    Minus,
    Mod,
    Multiply,
    Not,
    NotEqual,
    Or,
    Plus,
}

/// An expression.
#[derive(Debug)]
pub enum AST {
    /// An operator between a left and a right operand.
    BinaryOp(Operator, Box<AST>, Box<AST>),
    Boolean(bool),
    /// A conditional: a condition and what it guards. The front end gives
    /// it a type and no code.
    If(Box<AST>, Box<AST>),
    Integer(i64),
    /// An operator in front of its operand.
    UnaryOp(Operator, Box<AST>),
    /// The absence of an expression.
    Empty,
}

impl Operator {
    /// Whether this operator can stand between two operands.
    pub open spec fn is_binary(self) -> bool {
        self != Operator::Not
    }

    /// Whether this operator can stand in front of one operand.
    pub open spec fn is_unary(self) -> bool {
        self == Operator::Minus || self == Operator::Not
    }
}

impl AST {
    /// Whether every node with two operands holds a binary operator. What
    /// stands under a conditional is of no account: the front end does not
    /// look at it.
    pub open spec fn binary_nodes_valid(self) -> bool
        decreases self,
    {
        match self {
            AST::BinaryOp(op, lhs, rhs) => op.is_binary() && lhs.binary_nodes_valid()
                && rhs.binary_nodes_valid(),
            AST::UnaryOp(_, operand) => operand.binary_nodes_valid(),
            _ => true,
        }
    }

    /// Whether every node with one operand holds a unary operator. What
    /// stands under a conditional is of no account: the front end does not
    /// look at it.
    pub open spec fn unary_nodes_valid(self) -> bool
        decreases self,
    {
        match self {
            AST::BinaryOp(_, lhs, rhs) => lhs.unary_nodes_valid() && rhs.unary_nodes_valid(),
            AST::UnaryOp(op, operand) => op.is_unary() && operand.unary_nodes_valid(),
            _ => true,
        }
    }

    /// Whether the expression is free of conditionals, for which no code is
    /// generated.
    pub open spec fn has_code(self) -> bool
        decreases self,
    {
        match self {
            AST::BinaryOp(_, lhs, rhs) => lhs.has_code() && rhs.has_code(),
            AST::UnaryOp(_, operand) => operand.has_code(),
            AST::If(_, _) => false,
            _ => true,
        }
    }
}

} // verus!

//! The abstract syntax tree that a lowering pass walks to produce bytecode.
use vstd::prelude::*;

verus! {

/// An expression node.
pub struct ExprNode {
    pub expr: Box<Expr>,
}

/// The kinds of expression.
pub enum Expr {
    Identifier(String),
    Literal(i64),
    /// Left operand, operator token, right operand.
    BinaryOp(ExprNode, String, ExprNode),
    /// Operator token and operand.
    UnaryOp(String, ExprNode),
    /// Callee name and arguments.
    FunCall(String, Vec<ExprNode>),
}

/// The kinds of statement.
pub enum Stmt {
    Block(Vec<Stmt>),
    /// Condition and body.
    While(ExprNode, Box<Stmt>),
    /// Condition, then-branch and else-branch.
    If(ExprNode, Box<Stmt>, Box<Stmt>),
    Return(Option<ExprNode>),
    /// Declared name and initial value.
    Declaration(String, ExprNode),
    /// Name, parameters, return type name and body.
    FunDecl(String, Vec<ExprNode>, String, Box<Stmt>),
    /// Target and value.
    Assignment(ExprNode, ExprNode),
    /// Initialiser, condition, update and body.
    For(Box<Stmt>, ExprNode, Box<Stmt>, Box<Stmt>),
}

} // verus!

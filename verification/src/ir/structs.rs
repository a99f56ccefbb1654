//! The syntax tree that the builder consumes.

use vstd::prelude::*;

verus! {

/// Prefix operators.
#[derive(Clone, Copy, Debug, PartialEq, Eq, Structural)]
pub enum UnaryOp {
    Plus,
    Minus,
    Not,
}

/// Infix operators that evaluate both operands.
#[derive(Clone, Copy, Debug, PartialEq, Eq, Structural)]
pub enum BinOp {
    Mul,
    Div,
    Mod,
    Add,
    Sub,
    Lt,
    Le,
    Gt,
    Ge,
    Eq,
    Ne,
}

/// Expressions.
#[derive(Debug)]
pub enum Exp {
    /// Integer literal.
    Number(i32),
    /// Use of a name.
    LVal(String),
    /// Prefix operator and operand.
    Unary(UnaryOp, Box<Exp>),
    /// Left operand, operator, right operand.
    Binary(Box<Exp>, BinOp, Box<Exp>),
    /// Logical and; the right operand is evaluated only if the left is not zero.
    LAnd(Box<Exp>, Box<Exp>),
    /// Logical or; the right operand is evaluated only if the left is zero.
    LOr(Box<Exp>, Box<Exp>),
}

/// Statements.
#[derive(Debug)]
pub enum Stmt {
    /// Assignment of an expression to a name.
    Assign(String, Exp),
    /// Expression statement, possibly empty.
    Exp(Option<Exp>),
    /// Nested block.
    Block(Block),
    /// Conditional: condition, true arm, optional false arm.
    If(Exp, Box<Stmt>, Option<Box<Stmt>>),
    /// Return, with a result or without.
    Ret(Option<Exp>),
}

/// A block: its items in order.
#[derive(Debug)]
pub struct Block {
    pub items: Vec<BlockItem>,
}

/// An item of a block.
#[derive(Debug)]
pub enum BlockItem {
    Decl(Decl),
    Stmt(Stmt),
}

/// A declaration statement.
#[derive(Debug)]
pub enum Decl {
    Const(ConstDecl),
    Var(VarDecl),
}

/// Declaration of constants.
#[derive(Debug)]
pub struct ConstDecl {
    pub defs: Vec<ConstDef>,
}

/// One constant: its name and its initializer.
#[derive(Debug)]
pub struct ConstDef {
    pub ident: String,
    pub value: Exp,
}

/// Declaration of variables.
#[derive(Debug)]
pub struct VarDecl {
    pub defs: Vec<VarDef>,
}

/// One variable, without or with an initializer.
#[derive(Debug)]
pub enum VarDef {
    Ident(String),
    InitVal(String, Exp),
}

/// Return type of a function.
#[derive(Clone, Copy, Debug, PartialEq, Eq, Structural)]
pub enum FuncType {
    Int,
}

/// A function definition.
#[derive(Debug)]
pub struct FuncDef {
    pub func_type: FuncType,
    pub ident: String,
    pub block: Block,
}

/// A compilation unit: one function definition.
#[derive(Debug)]
pub struct CompUnit {
    pub func_def: FuncDef,
}

} // verus!

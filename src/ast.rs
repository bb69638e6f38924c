use vstd::prelude::*;

use crate::token::{Keyword, Kind};

verus! {

/// A statement of a program.
#[derive(Debug, PartialEq, Eq)]
pub enum Node {
    Binding(Binding),
    Return(Expression),
    Expression(Expression),
}

/// A name bound, under a keyword, to the value of an expression.
#[derive(Debug, PartialEq, Eq)]
pub struct Binding {
    pub kind: Keyword,
    pub name: String,
    pub expl_type: Option<Type>,
    pub value: Expression,
}

#[derive(Debug, PartialEq, Eq)]
pub enum Expression {
    Unit,
    Tag(String),
    /// The digits as written, separators included.
    Integer(String),
    /// The digits as written, separators included.
    Float(String),
    Boolean(bool),
    Block(Block),
    If(Box<If>),
    Match(Box<Match>),
    Fn(Box<Fn>),
    Closure(Box<Closure>),
    FnCall(Box<FnCall>),
    Prefix(Box<Prefix>),
    Infix(Box<Infix>),
    Postfix(Box<Postfix>),
}

#[derive(Debug, PartialEq, Eq)]
pub struct If {
    pub condition: Expression,
    pub consequence: Expression,
    pub alternative: Expression,
}

#[derive(Debug, PartialEq, Eq)]
pub struct Match {
    pub value: Expression,
    pub cases: Vec<Case>,
}

#[derive(Debug, PartialEq, Eq)]
pub struct Case {
    pub condition: Expression,
    pub consequence: Expression,
}

/// A type annotation; it carries nothing yet.
#[derive(Debug, PartialEq, Eq)]
pub struct Type {}

/// A function definition; `arity` is the number of parameters.
#[derive(Debug, PartialEq, Eq)]
pub struct Fn {
    pub name: String,
    pub parameters: Vec<String>,
    pub block: Expression,
    pub arity: usize,
}

#[derive(Debug, PartialEq, Eq)]
pub struct Block {
    pub statements: Vec<Node>,
}

/// A function definition together with the names it captures.
#[derive(Debug, PartialEq, Eq)]
pub struct Closure {
    pub name: String,
    pub parameters: Vec<String>,
    pub block: Expression,
    pub context: Vec<String>,
    pub arity: usize,
}

#[derive(Debug, PartialEq, Eq)]
pub struct FnCall {
    pub func: Expression,
    pub args: Vec<Expression>,
}

#[derive(Debug, PartialEq, Eq)]
pub struct Prefix {
    pub operator: Kind,
    pub value: Expression,
}

#[derive(Debug, PartialEq, Eq)]
pub struct Infix {
    pub operator: Kind,
    pub lhs: Expression,
    pub rhs: Expression,
}

#[derive(Debug, PartialEq, Eq)]
pub struct Postfix {
    pub operator: Kind,
    pub value: Expression,
}

/// A program: its statements in order.
#[derive(Debug, PartialEq, Eq)]
pub struct Ast {
    pub nodes: Vec<Node>,
}

} // verus!

//! Labels that differentiate the nodes of a serialization tree.
use vstd::prelude::*;

verus! {

/// Labels to differentiate AST nodes.
#[derive(Clone, Copy, Debug, PartialEq, Eq, Structural)]
pub enum Kind {
    Empty,
    Statement(Statement),
    VarDecl(Variable),
    BindingPattern(BindingPattern),
}

#[derive(Clone, Copy, Debug, PartialEq, Eq, Structural)]
pub enum BindingPattern {
    Array,
    Object,
}

#[derive(Clone, Copy, Debug, PartialEq, Eq, Structural)]
pub enum Variable {
    Var,
    Let,
    Const,
}

#[derive(Clone, Copy, Debug, PartialEq, Eq, Structural)]
pub enum Statement {
    Block,
    Expression,
    VariableDeclaration,
    IfThenElse,
    Label,
    Break,
    Cont,
    With,
    Switch,
    Return,
    Throw,
    Try,
    While,
    DoWhile,
    For,
    ForIn,
    ForOf,
    Debugger,
}

} // verus!

//! The syntax tree that the parser builds and the interpreter walks.

use crate::token::{SpecToken, Token};
use crate::types::{RuspyType, Value};
use vstd::prelude::*;

verus! {

/// A node of the syntax tree. A parent owns its children.
#[derive(Debug, PartialEq, Eq)]
pub enum ASTNode {
    /// An integer literal.
    Number(i64),
    /// A string literal.
    StringLiteral(String),
    /// A reference to a variable.
    Identifier(String),
    /// A binary operation: left operand, operator token, right operand.
    BinaryOp(Box<ASTNode>, Token, Box<ASTNode>),
    /// An assignment without a declared type.
    VarAssign(String, Box<ASTNode>),
    /// An assignment with a declared type, of which only the kind counts.
    TypedVarAssign(String, RuspyType, Box<ASTNode>),
    /// A print statement.
    Print(Box<ASTNode>),
}

/// What an [`ASTNode`] stands for: the same tree with its texts as sequences
/// of characters.
pub enum SpecNode {
    Number(i64),
    StringLiteral(Seq<char>),
    Identifier(Seq<char>),
    BinaryOp(Box<SpecNode>, SpecToken, Box<SpecNode>),
    VarAssign(Seq<char>, Box<SpecNode>),
    TypedVarAssign(Seq<char>, Value, Box<SpecNode>),
    Print(Box<SpecNode>),
}

/// The tree that `node` stands for.
pub open spec fn model(node: ASTNode) -> SpecNode
    decreases node,
{
    match node {
        ASTNode::Number(value) => SpecNode::Number(value),
        ASTNode::StringLiteral(text) => SpecNode::StringLiteral(text@),
        ASTNode::Identifier(name) => SpecNode::Identifier(name@),
        ASTNode::BinaryOp(left, op, right) => SpecNode::BinaryOp(
            Box::new(model(*left)),
            op@,
            Box::new(model(*right)),
        ),
        ASTNode::VarAssign(name, value) => SpecNode::VarAssign(name@, Box::new(model(*value))),
        ASTNode::TypedVarAssign(name, declared, value) => SpecNode::TypedVarAssign(
            name@,
            declared@,
            Box::new(model(*value)),
        ),
        ASTNode::Print(value) => SpecNode::Print(Box::new(model(*value))),
    }
}

impl View for ASTNode {
    type V = SpecNode;

    open spec fn view(&self) -> SpecNode {
        model(*self)
    }
}

/// The views of a sequence of nodes, in order.
pub open spec fn views(nodes: Seq<ASTNode>) -> Seq<SpecNode> {
    Seq::new(nodes.len(), |i: int| nodes[i]@)
}

} // verus!

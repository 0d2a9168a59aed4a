//! Integer expressions: what the parser makes of integer literals,
//! operators and parentheses, and what the interpreter makes of that.

use crate::ast::SpecNode;
use crate::grammar::{
    expr, expr_tail, factor, lemma_factor_consumes, lemma_term_consumes, term, term_tail,
    TokenStream,
};
use crate::interpreter::{eval, operation_of, State};
use crate::token::SpecToken;
use crate::types::{bounded, RuntimeFault, Value};
use vstd::prelude::*;

verus! {

/// An expression of integer literals, the four operators and nothing else.
/// Parentheses leave no node: they are in the shape of the tree.
pub open spec fn is_integer_expression(node: SpecNode) -> bool
    decreases node,
{
    match node {
        SpecNode::Number(_) => true,
        SpecNode::BinaryOp(left, op, right) => operation_of(op) is Some && is_integer_expression(
            *left,
        ) && is_integer_expression(*right),
        _ => false,
    }
}

/// The number that an integer expression denotes in ordinary integer
/// arithmetic, with the division that rounds toward zero: the left operand
/// first, then the right one, then the operator. An expression that divides
/// by zero, or that leaves the 64-bit range on its way, denotes no number
/// but that error.
pub open spec fn integer_value(node: SpecNode) -> Result<int, RuntimeFault>
    decreases node,
{
    match node {
        SpecNode::Number(value) => Ok(value as int),
        SpecNode::BinaryOp(left, op, right) => match integer_value(*left) {
            Err(e) => Err(e),
            Ok(a) => match integer_value(*right) {
                Err(e) => Err(e),
                Ok(b) => match operation_of(op) {
                    Some(operation) => bounded(
                        operation,
                        a,
                        b,
                        i64::MIN as int,
                        i64::MAX as int,
                    ),
                    None => Err(RuntimeFault::UnexpectedOperator),
                },
            },
        },
        _ => Err(RuntimeFault::UnexpectedOperator),
    }
}

/// The evaluation of an integer expression is the number that it denotes,
/// as a 64-bit integer, and it leaves the state as it was.
pub proof fn lemma_integer_expression(node: SpecNode, st: State)
    requires
        is_integer_expression(node),
    ensures
        eval(node, st).state == st,
        match integer_value(node) {
            Ok(v) => i64::MIN <= v <= i64::MAX && eval(node, st).result == Ok::<
                Value,
                RuntimeFault,
            >(Value::Int64(v as i64)),
            Err(e) => eval(node, st).result == Err::<Value, RuntimeFault>(e),
        },
    decreases node,
{
    match node {
        SpecNode::BinaryOp(left, op, right) => {
            lemma_integer_expression(*left, st);
            lemma_integer_expression(*right, st);
        },
        _ => {},
    }
}

/// A token of an integer expression: an integer literal, one of the four
/// operators or a parenthesis.
pub open spec fn is_arithmetic_token(t: SpecToken) -> bool {
    t is Number || t == SpecToken::Plus || t == SpecToken::Minus || t == SpecToken::Asterisk || t
        == SpecToken::Slash || t == SpecToken::LParen || t == SpecToken::RParen
}

/// A stream of which every token is a token of an integer expression.
pub open spec fn arithmetic_only(s: TokenStream) -> bool {
    forall|i: int| 0 <= i < s.tokens.len() ==> is_arithmetic_token(#[trigger] s.tokens[i])
}

/// What is left of a stream of arithmetic tokens is one too.
proof fn lemma_tail_arithmetic_only(s: TokenStream)
    requires
        arithmetic_only(s),
    ensures
        arithmetic_only(s.tail()),
{
    if s.tokens.len() > 0 {
        assert forall|i: int| 0 <= i < s.tail().tokens.len() implies is_arithmetic_token(
            #[trigger] s.tail().tokens[i],
        ) by {
            assert(s.tail().tokens[i] == s.tokens[i + 1]);
        }
    }
}

/// A factor of arithmetic tokens is an integer expression.
pub proof fn lemma_factor_of_arithmetic_tokens(s: TokenStream)
    requires
        arithmetic_only(s),
    ensures
        arithmetic_only(factor(s).rest),
        factor(s).result matches Ok(node) ==> is_integer_expression(node),
    decreases s.len(), 0nat,
{
    lemma_tail_arithmetic_only(s);
    if s.head() == Ok::<SpecToken, crate::lexer::LexError>(SpecToken::LParen) {
        lemma_expr_of_arithmetic_tokens(s.tail());
        lemma_tail_arithmetic_only(expr(s.tail()).rest);
    }
}

/// The factors behind an integer expression make an integer expression
/// with it.
pub proof fn lemma_term_tail_of_arithmetic_tokens(left: SpecNode, s: TokenStream)
    requires
        arithmetic_only(s),
        is_integer_expression(left),
    ensures
        arithmetic_only(term_tail(left, s).rest),
        term_tail(left, s).result matches Ok(node) ==> is_integer_expression(node),
    decreases s.len(), 1nat,
{
    lemma_tail_arithmetic_only(s);
    match s.head() {
        Ok(op) => {
            if crate::grammar::is_multiplicative(op) {
                let right = factor(s.tail());
                lemma_factor_consumes(s.tail());
                lemma_factor_of_arithmetic_tokens(s.tail());
                match right.result {
                    Ok(node) => {
                        lemma_term_tail_of_arithmetic_tokens(
                            SpecNode::BinaryOp(Box::new(left), op, Box::new(node)),
                            right.rest,
                        );
                    },
                    Err(_) => {},
                }
            }
        },
        Err(_) => {},
    }
}

/// A term of arithmetic tokens is an integer expression.
pub proof fn lemma_term_of_arithmetic_tokens(s: TokenStream)
    requires
        arithmetic_only(s),
    ensures
        arithmetic_only(term(s).rest),
        term(s).result matches Ok(node) ==> is_integer_expression(node),
    decreases s.len(), 2nat,
{
    lemma_factor_consumes(s);
    lemma_factor_of_arithmetic_tokens(s);
    match factor(s).result {
        Ok(node) => {
            lemma_term_tail_of_arithmetic_tokens(node, factor(s).rest);
        },
        Err(_) => {},
    }
}

/// The terms behind an integer expression make an integer expression with
/// it.
pub proof fn lemma_expr_tail_of_arithmetic_tokens(left: SpecNode, s: TokenStream)
    requires
        arithmetic_only(s),
        is_integer_expression(left),
    ensures
        arithmetic_only(expr_tail(left, s).rest),
        expr_tail(left, s).result matches Ok(node) ==> is_integer_expression(node),
    decreases s.len(), 3nat,
{
    lemma_tail_arithmetic_only(s);
    match s.head() {
        Ok(op) => {
            if crate::grammar::is_additive(op) {
                let right = term(s.tail());
                lemma_term_consumes(s.tail());
                lemma_term_of_arithmetic_tokens(s.tail());
                match right.result {
                    Ok(node) => {
                        lemma_expr_tail_of_arithmetic_tokens(
                            SpecNode::BinaryOp(Box::new(left), op, Box::new(node)),
                            right.rest,
                        );
                    },
                    Err(_) => {},
                }
            }
        },
        Err(_) => {},
    }
}

/// An expression of arithmetic tokens is an integer expression.
pub proof fn lemma_expr_of_arithmetic_tokens(s: TokenStream)
    requires
        arithmetic_only(s),
    ensures
        arithmetic_only(expr(s).rest),
        expr(s).result matches Ok(node) ==> is_integer_expression(node),
    decreases s.len(), 4nat,
{
    lemma_term_consumes(s);
    lemma_term_of_arithmetic_tokens(s);
    match term(s).result {
        Ok(node) => {
            lemma_expr_tail_of_arithmetic_tokens(node, term(s).rest);
        },
        Err(_) => {},
    }
}

/// Where integer literals, operators and parentheses parse as an
/// expression, the expression evaluates in every state to the number that
/// it denotes in integer arithmetic, with the precedence and the grouping
/// that the grammar gives it, and leaves the state as it was.
pub proof fn lemma_arithmetic_is_exact(s: TokenStream, st: State)
    requires
        arithmetic_only(s),
        expr(s).result is Ok,
    ensures
        ({
            let node = expr(s).result->Ok_0;
            &&& eval(node, st).state == st
            &&& match integer_value(node) {
                Ok(v) => i64::MIN <= v <= i64::MAX && eval(node, st).result == Ok::<
                    Value,
                    RuntimeFault,
                >(Value::Int64(v as i64)),
                Err(e) => eval(node, st).result == Err::<Value, RuntimeFault>(e),
            }
        }),
{
    lemma_expr_of_arithmetic_tokens(s);
    lemma_integer_expression(expr(s).result->Ok_0, st);
}

} // verus!

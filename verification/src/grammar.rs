//! The grammar, as functions from a stream of tokens to a syntax tree.
//!
//! ```text
//! statement := "print" expr ";" | IDENT ":" TYPE "=" expr ";"
//!            | IDENT "=" expr ";" | expr ";"
//! expr      := term (("+" | "-") term)*
//! term      := factor (("*" | "/") factor)*
//! factor    := NUMBER | STRING | IDENT | "(" expr ")"
//! ```
//!
//! Each function takes the tokens that are still to be read and returns what
//! it parsed, or the first error, together with the tokens that it left.

use crate::ast::SpecNode;
use crate::lexer::{lemma_lex_at_advances, lex_at, LexError};
use crate::token::{SpecToken, TokenKind};
use crate::types::Value;
use vstd::prelude::*;

verus! {

/// Why a stream of tokens is no program.
#[derive(Clone, Copy, Debug, PartialEq, Eq, Structural)]
pub enum ParseError {
    /// A token of kind `expected` was required, and one of kind `found` stood
    /// there.
    UnexpectedToken { expected: TokenKind, found: TokenKind },
    /// A type keyword was required, and a token of kind `found` stood there.
    InvalidType { found: TokenKind },
    /// An expression was required, and a token of kind `found`, which starts
    /// none, stood there.
    UnexpectedStart { found: TokenKind },
    /// The text has no token where one was required.
    Lex(LexError),
}

/// The tokens that are still to be read: those before the end of the text or
/// before the first lexical error, and that error if there is one.
pub struct TokenStream {
    pub tokens: Seq<SpecToken>,
    pub failure: Option<LexError>,
}

impl TokenStream {
    /// The stream of a text that has ended.
    pub open spec fn ended() -> TokenStream {
        TokenStream { tokens: Seq::empty(), failure: None }
    }

    /// The stream of a text whose next token is the error `e`.
    pub open spec fn failed(e: LexError) -> TokenStream {
        TokenStream { tokens: Seq::empty(), failure: Some(e) }
    }

    /// This stream behind the token `t`.
    pub open spec fn after(self, t: SpecToken) -> TokenStream {
        TokenStream { tokens: seq![t] + self.tokens, failure: self.failure }
    }

    /// The stream that starts with `r`, a token or an error, and goes on with
    /// `self` unless `r` ends it.
    pub open spec fn led_by(self, r: Result<SpecToken, LexError>) -> TokenStream {
        match r {
            Err(e) => TokenStream::failed(e),
            Ok(t) => if t == SpecToken::EOF {
                TokenStream::ended()
            } else {
                self.after(t)
            },
        }
    }

    /// The token under the cursor: `EOF` at the end of the text, as often as
    /// it is asked for, and the error where the lexer failed.
    pub open spec fn head(self) -> Result<SpecToken, LexError> {
        if self.tokens.len() > 0 {
            Ok(self.tokens[0])
        } else {
            match self.failure {
                Some(e) => Err(e),
                None => Ok(SpecToken::EOF),
            }
        }
    }

    /// The stream behind the token under the cursor; at the end of the
    /// stream, the stream itself.
    pub open spec fn tail(self) -> TokenStream {
        if self.tokens.len() > 0 {
            TokenStream { tokens: self.tokens.skip(1), failure: self.failure }
        } else {
            self
        }
    }

    /// The number of tokens before the end of the stream.
    pub open spec fn len(self) -> nat {
        self.tokens.len()
    }
}

/// The tokens of `src` from position `pos` on.
pub open spec fn stream_of(src: Seq<char>, pos: nat) -> TokenStream
    decreases src.len() - pos,
{
    let step = lex_at(src, pos);
    match step.result {
        Err(e) => TokenStream::failed(e),
        Ok(t) => if t == SpecToken::EOF || pos >= src.len() {
            TokenStream::ended()
        } else {
            proof {
                lemma_lex_at_advances(src, pos);
            }
            stream_of(src, step.next).after(t)
        },
    }
}

/// What a parsing function yields: a tree or the first error, and the tokens
/// that are left.
pub struct Parsed {
    pub result: Result<SpecNode, ParseError>,
    pub rest: TokenStream,
}

/// What a check of the token under the cursor yields.
pub struct Eaten {
    pub result: Result<(), ParseError>,
    pub rest: TokenStream,
}

/// What the parsing of a type annotation yields.
pub struct ParsedType {
    pub result: Result<Value, ParseError>,
    pub rest: TokenStream,
}

/// What the parsing of a whole program yields.
pub struct ParsedProgram {
    pub result: Result<Seq<SpecNode>, ParseError>,
    pub rest: TokenStream,
}

/// Requires a token of kind `expected` under the cursor and moves behind it.
/// Any other token is an error, and the cursor stays.
pub open spec fn eat(s: TokenStream, expected: TokenKind) -> Eaten {
    match s.head() {
        Err(e) => Eaten { result: Err(ParseError::Lex(e)), rest: s },
        Ok(t) => if t.kind() == expected {
            Eaten { result: Ok(()), rest: s.tail() }
        } else {
            Eaten {
                result: Err(ParseError::UnexpectedToken { expected, found: t.kind() }),
                rest: s,
            }
        },
    }
}

/// The value that a type keyword declares, with the default payload of its
/// kind. The sized string keywords declare a string.
pub open spec fn declared_value(kind: TokenKind) -> Option<Value> {
    match kind {
        TokenKind::TypeInt => Some(Value::Int(0)),
        TokenKind::TypeInt32 => Some(Value::Int32(0)),
        TokenKind::TypeInt64 => Some(Value::Int64(0)),
        TokenKind::TypeFloat => Some(Value::Float(0)),
        TokenKind::TypeFloat32 => Some(Value::Float32(0)),
        TokenKind::TypeFloat64 => Some(Value::Float64(0)),
        TokenKind::TypeStr => Some(Value::Str(Seq::empty())),
        TokenKind::TypeStr8 => Some(Value::Str(Seq::empty())),
        TokenKind::TypeStr32 => Some(Value::Str(Seq::empty())),
        TokenKind::TypeStr64 => Some(Value::Str(Seq::empty())),
        TokenKind::TypeChar => Some(Value::Char('\0')),
        _ => None,
    }
}

/// `TYPE`: one type keyword.
pub open spec fn parse_type(s: TokenStream) -> ParsedType {
    match s.head() {
        Err(e) => ParsedType { result: Err(ParseError::Lex(e)), rest: s },
        Ok(t) => match declared_value(t.kind()) {
            Some(v) => ParsedType { result: Ok(v), rest: s.tail() },
            None => ParsedType {
                result: Err(ParseError::InvalidType { found: t.kind() }),
                rest: s,
            },
        },
    }
}

/// `+` or `-`.
pub open spec fn is_additive(t: SpecToken) -> bool {
    t == SpecToken::Plus || t == SpecToken::Minus
}

/// `*` or `/`.
pub open spec fn is_multiplicative(t: SpecToken) -> bool {
    t == SpecToken::Asterisk || t == SpecToken::Slash
}

/// `factor := NUMBER | STRING | IDENT | "(" expr ")"`.
pub open spec fn factor(s: TokenStream) -> Parsed
    decreases s.len(), 0nat,
{
    match s.head() {
        Err(e) => Parsed { result: Err(ParseError::Lex(e)), rest: s },
        Ok(SpecToken::Number(value)) => Parsed {
            result: Ok(SpecNode::Number(value)),
            rest: s.tail(),
        },
        Ok(SpecToken::StringLiteral(text)) => Parsed {
            result: Ok(SpecNode::StringLiteral(text)),
            rest: s.tail(),
        },
        Ok(SpecToken::Identifier(name)) => Parsed {
            result: Ok(SpecNode::Identifier(name)),
            rest: s.tail(),
        },
        Ok(SpecToken::LParen) => {
            let inner = expr(s.tail());
            match inner.result {
                Err(_) => inner,
                Ok(node) => {
                    let close = eat(inner.rest, TokenKind::RParen);
                    match close.result {
                        Err(e) => Parsed { result: Err(e), rest: close.rest },
                        Ok(_) => Parsed { result: Ok(node), rest: close.rest },
                    }
                },
            }
        },
        Ok(t) => Parsed { result: Err(ParseError::UnexpectedStart { found: t.kind() }), rest: s },
    }
}

/// `(("*" | "/") factor)*` behind the operand `left`, which the operators
/// bind from the left.
///
/// The test on lengths is what lets the definition recurse. It always holds:
/// see [`lemma_factor_consumes`].
pub open spec fn term_tail(left: SpecNode, s: TokenStream) -> Parsed
    decreases s.len(), 1nat,
{
    match s.head() {
        Ok(op) => if is_multiplicative(op) {
            let right = factor(s.tail());
            match right.result {
                Err(_) => right,
                Ok(node) => if right.rest.len() < s.len() {
                    term_tail(SpecNode::BinaryOp(Box::new(left), op, Box::new(node)), right.rest)
                } else {
                    right
                },
            }
        } else {
            Parsed { result: Ok(left), rest: s }
        },
        Err(_) => Parsed { result: Ok(left), rest: s },
    }
}

/// `term := factor (("*" | "/") factor)*`.
pub open spec fn term(s: TokenStream) -> Parsed
    decreases s.len(), 2nat,
{
    let first = factor(s);
    match first.result {
        Err(_) => first,
        Ok(node) => if first.rest.len() <= s.len() {
            term_tail(node, first.rest)
        } else {
            first
        },
    }
}

/// `(("+" | "-") term)*` behind the operand `left`, which the operators bind
/// from the left.
///
/// The test on lengths is what lets the definition recurse. It always holds:
/// see [`lemma_term_consumes`].
pub open spec fn expr_tail(left: SpecNode, s: TokenStream) -> Parsed
    decreases s.len(), 3nat,
{
    match s.head() {
        Ok(op) => if is_additive(op) {
            let right = term(s.tail());
            match right.result {
                Err(_) => right,
                Ok(node) => if right.rest.len() < s.len() {
                    expr_tail(SpecNode::BinaryOp(Box::new(left), op, Box::new(node)), right.rest)
                } else {
                    right
                },
            }
        } else {
            Parsed { result: Ok(left), rest: s }
        },
        Err(_) => Parsed { result: Ok(left), rest: s },
    }
}

/// `expr := term (("+" | "-") term)*`.
pub open spec fn expr(s: TokenStream) -> Parsed
    decreases s.len(), 4nat,
{
    let first = term(s);
    match first.result {
        Err(_) => first,
        Ok(node) => if first.rest.len() <= s.len() {
            expr_tail(node, first.rest)
        } else {
            first
        },
    }
}

/// An expression and the semicolon that ends its statement.
pub open spec fn terminated(s: TokenStream) -> Parsed {
    let value = expr(s);
    match value.result {
        Err(_) => value,
        Ok(node) => {
            let end = eat(value.rest, TokenKind::Semicolon);
            match end.result {
                Err(e) => Parsed { result: Err(e), rest: end.rest },
                Ok(_) => Parsed { result: Ok(node), rest: end.rest },
            }
        },
    }
}

/// `"print" expr ";"`.
pub open spec fn print_statement(s: TokenStream) -> Parsed {
    let keyword = eat(s, TokenKind::Print);
    match keyword.result {
        Err(e) => Parsed { result: Err(e), rest: keyword.rest },
        Ok(_) => {
            let value = terminated(keyword.rest);
            match value.result {
                Err(_) => value,
                Ok(node) => Parsed { result: Ok(SpecNode::Print(Box::new(node))), rest: value.rest },
            }
        },
    }
}

/// `expr ";"`.
pub open spec fn expression_statement(s: TokenStream) -> Parsed {
    terminated(s)
}

/// `IDENT "=" expr ";"`.
pub open spec fn variable_declaration_without_type(s: TokenStream) -> Parsed {
    match s.head() {
        Ok(SpecToken::Identifier(name)) => {
            let assign = eat(s.tail(), TokenKind::Assign);
            match assign.result {
                Err(e) => Parsed { result: Err(e), rest: assign.rest },
                Ok(_) => {
                    let value = terminated(assign.rest);
                    match value.result {
                        Err(_) => value,
                        Ok(node) => Parsed {
                            result: Ok(SpecNode::VarAssign(name, Box::new(node))),
                            rest: value.rest,
                        },
                    }
                },
            }
        },
        _ => {
            let name = eat(s, TokenKind::Identifier);
            Parsed {
                result: Err(
                    match name.result {
                        Err(e) => e,
                        Ok(_) => ParseError::UnexpectedToken {
                            expected: TokenKind::Identifier,
                            found: TokenKind::Identifier,
                        },
                    },
                ),
                rest: s,
            }
        },
    }
}

/// `IDENT ":" TYPE "=" expr ";"`.
pub open spec fn variable_declaration_with_type(s: TokenStream) -> Parsed {
    match s.head() {
        Ok(SpecToken::Identifier(name)) => {
            let colon = eat(s.tail(), TokenKind::Colon);
            match colon.result {
                Err(e) => Parsed { result: Err(e), rest: colon.rest },
                Ok(_) => {
                    let declared = parse_type(colon.rest);
                    match declared.result {
                        Err(e) => Parsed { result: Err(e), rest: declared.rest },
                        Ok(kind) => {
                            let assign = eat(declared.rest, TokenKind::Assign);
                            match assign.result {
                                Err(e) => Parsed { result: Err(e), rest: assign.rest },
                                Ok(_) => {
                                    let value = terminated(assign.rest);
                                    match value.result {
                                        Err(_) => value,
                                        Ok(node) => Parsed {
                                            result: Ok(
                                                SpecNode::TypedVarAssign(
                                                    name,
                                                    kind,
                                                    Box::new(node),
                                                ),
                                            ),
                                            rest: value.rest,
                                        },
                                    }
                                },
                            }
                        },
                    }
                },
            }
        },
        _ => {
            let name = eat(s, TokenKind::Identifier);
            Parsed {
                result: Err(
                    match name.result {
                        Err(e) => e,
                        Ok(_) => ParseError::UnexpectedToken {
                            expected: TokenKind::Identifier,
                            found: TokenKind::Identifier,
                        },
                    },
                ),
                rest: s,
            }
        },
    }
}

/// One statement. Behind an identifier, the token after it decides: a colon
/// starts a typed declaration, an equals sign an untyped one, and anything
/// else leaves the identifier to start an expression.
pub open spec fn statement(s: TokenStream) -> Parsed {
    match s.head() {
        Ok(SpecToken::Print) => print_statement(s),
        Ok(SpecToken::Identifier(_)) => match s.tail().head() {
            Ok(SpecToken::Colon) => variable_declaration_with_type(s),
            Ok(SpecToken::Assign) => variable_declaration_without_type(s),
            _ => expression_statement(s),
        },
        _ => expression_statement(s),
    }
}

/// The statements of a program, up to the end of the text or to the first
/// error.
///
/// The test on lengths is what lets the definition recurse. It always holds:
/// see [`lemma_statement_consumes`].
pub open spec fn program(s: TokenStream) -> ParsedProgram
    decreases s.len(),
{
    if s.head() == Ok::<SpecToken, LexError>(SpecToken::EOF) {
        ParsedProgram { result: Ok(Seq::empty()), rest: s }
    } else {
        let first = statement(s);
        match first.result {
            Err(e) => ParsedProgram { result: Err(e), rest: first.rest },
            Ok(node) => if first.rest.len() < s.len() {
                let others = program(first.rest);
                match others.result {
                    Err(e) => others,
                    Ok(nodes) => ParsedProgram { result: Ok(seq![node] + nodes), rest: others.rest },
                }
            } else {
                ParsedProgram { result: Ok(seq![node]), rest: first.rest }
            },
        }
    }
}

/// A factor leaves no more tokens than it found, and fewer where it
/// succeeds.
pub proof fn lemma_factor_consumes(s: TokenStream)
    ensures
        factor(s).rest.len() <= s.len(),
        factor(s).result is Ok ==> factor(s).rest.len() < s.len(),
    decreases s.len(), 0nat,
{
    if s.head() == Ok::<SpecToken, LexError>(SpecToken::LParen) {
        lemma_expr_consumes(s.tail());
    }
}

/// The operators and factors behind an operand leave no more tokens than
/// they found.
pub proof fn lemma_term_tail_consumes(left: SpecNode, s: TokenStream)
    ensures
        term_tail(left, s).rest.len() <= s.len(),
    decreases s.len(), 1nat,
{
    match s.head() {
        Ok(op) => {
            if is_multiplicative(op) {
                let right = factor(s.tail());
                lemma_factor_consumes(s.tail());
                match right.result {
                    Ok(node) => {
                        lemma_term_tail_consumes(
                            SpecNode::BinaryOp(Box::new(left), op, Box::new(node)),
                            right.rest,
                        );
                    },
                    Err(_) => {},
                }
            }
        },
        Err(_) => {},
    }
}

/// A term leaves no more tokens than it found, and fewer where it succeeds.
pub proof fn lemma_term_consumes(s: TokenStream)
    ensures
        term(s).rest.len() <= s.len(),
        term(s).result is Ok ==> term(s).rest.len() < s.len(),
    decreases s.len(), 2nat,
{
    lemma_factor_consumes(s);
    match factor(s).result {
        Ok(node) => {
            lemma_term_tail_consumes(node, factor(s).rest);
        },
        Err(_) => {},
    }
}

/// The operators and terms behind an operand leave no more tokens than they
/// found.
pub proof fn lemma_expr_tail_consumes(left: SpecNode, s: TokenStream)
    ensures
        expr_tail(left, s).rest.len() <= s.len(),
    decreases s.len(), 3nat,
{
    match s.head() {
        Ok(op) => {
            if is_additive(op) {
                let right = term(s.tail());
                lemma_term_consumes(s.tail());
                match right.result {
                    Ok(node) => {
                        lemma_expr_tail_consumes(
                            SpecNode::BinaryOp(Box::new(left), op, Box::new(node)),
                            right.rest,
                        );
                    },
                    Err(_) => {},
                }
            }
        },
        Err(_) => {},
    }
}

/// An expression leaves no more tokens than it found, and fewer where it
/// succeeds.
pub proof fn lemma_expr_consumes(s: TokenStream)
    ensures
        expr(s).rest.len() <= s.len(),
        expr(s).result is Ok ==> expr(s).rest.len() < s.len(),
    decreases s.len(), 4nat,
{
    lemma_term_consumes(s);
    match term(s).result {
        Ok(node) => {
            lemma_expr_tail_consumes(node, term(s).rest);
        },
        Err(_) => {},
    }
}

/// A statement leaves no more tokens than it found, and fewer where it
/// succeeds.
pub proof fn lemma_statement_consumes(s: TokenStream)
    ensures
        statement(s).rest.len() <= s.len(),
        statement(s).result is Ok ==> statement(s).rest.len() < s.len(),
{
    lemma_expr_consumes(s);
    lemma_expr_consumes(s.tail());
    lemma_expr_consumes(s.tail().tail());
    lemma_expr_consumes(s.tail().tail().tail().tail());
}

} // verus!

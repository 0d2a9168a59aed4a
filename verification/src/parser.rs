//! The parser: recursive descent over the tokens of a lexer, with one token
//! of lookahead.
//!
//! What each method returns, and where it leaves the parser, is stated by the
//! function of the same name in [`crate::grammar`].

pub use crate::ast::{ASTNode, SpecNode};
pub use crate::grammar::ParseError;
use crate::ast::views;
use crate::grammar;
use crate::grammar::{
    lemma_factor_consumes, lemma_statement_consumes, lemma_term_consumes, stream_of, TokenStream,
};
use crate::lexer::{lemma_lex_at_advances, lexed, LexError, Lexer};
use crate::token::{SpecToken, Token, TokenKind};
use crate::types::RuspyType;
use vstd::prelude::*;

verus! {

/// The view of what a parsing method returns.
pub open spec fn parsed(r: Result<ASTNode, ParseError>) -> Result<SpecNode, ParseError> {
    match r {
        Ok(node) => Ok(node@),
        Err(e) => Err(e),
    }
}

/// The view of what [`Parser::parse`] returns.
pub open spec fn parsed_program(r: Result<Vec<ASTNode>, ParseError>) -> Result<
    Seq<SpecNode>,
    ParseError,
> {
    match r {
        Ok(nodes) => Ok(views(nodes@)),
        Err(e) => Err(e),
    }
}

/// A parser over the tokens of one source text.
pub struct Parser {
    /// Where the tokens behind the lookahead come from.
    lexer: Lexer,
    /// The token under the cursor, or the error that stands in its place.
    current_token: Result<Token, LexError>,
    /// The token behind the cursor, once it has been looked at.
    peeked: Option<Result<Token, LexError>>,
}

impl View for Parser {
    type V = TokenStream;

    /// The tokens that are still to be read, the one under the cursor first.
    closed spec fn view(&self) -> TokenStream {
        self.pending().led_by(lexed(self.current_token))
    }
}

impl Parser {
    /// The tokens behind the one under the cursor.
    closed spec fn pending(&self) -> TokenStream {
        match self.peeked {
            Some(r) => stream_of(self.lexer.source(), self.lexer.position()).led_by(lexed(r)),
            None => stream_of(self.lexer.source(), self.lexer.position()),
        }
    }

    /// A parser at the first token of what `lexer` has still to read.
    pub fn new(lexer: Lexer) -> (parser: Self)
        ensures
            parser@ == stream_of(lexer.source(), lexer.position()),
    {
        let mut lexer = lexer;
        let ghost src = lexer.source();
        let ghost pos = lexer.position();
        let first = lexer.get_next_token();
        proof {
            lemma_stream_unfolds(src, pos);
        }
        Parser { lexer, current_token: first, peeked: None }
    }

    /// The kind of the token under the cursor.
    fn current_kind(&self) -> (r: Result<TokenKind, LexError>)
        ensures
            match self@.head() {
                Ok(t) => r == Ok::<TokenKind, LexError>(t.kind()),
                Err(e) => r == Err::<TokenKind, LexError>(e),
            },
    {
        proof {
            lemma_head_of_led_by(self.pending(), lexed(self.current_token));
        }
        match &self.current_token {
            Ok(token) => Ok(token.kind()),
            Err(e) => Err(*e),
        }
    }

    /// Moves the cursor to the next token. At the end of the stream it stays.
    fn advance(&mut self)
        ensures
            final(self)@ == old(self)@.tail(),
    {
        match &self.current_token {
            Ok(Token::EOF) => {
                return ;
            },
            Err(_) => {
                return ;
            },
            _ => {},
        }
        let ghost before = self.pending();
        proof {
            lemma_tail_of_after(before, lexed(self.current_token)->Ok_0);
        }
        match self.peeked.take() {
            Some(next) => {
                self.current_token = next;
            },
            None => {
                let ghost src = self.lexer.source();
                let ghost pos = self.lexer.position();
                let next = self.lexer.get_next_token();
                proof {
                    lemma_stream_unfolds(src, pos);
                }
                self.current_token = next;
            },
        }
    }

    /// Requires a token of kind `expected` under the cursor and moves behind
    /// it. On any other token the parser stays where it is.
    fn eat(&mut self, expected: TokenKind) -> (r: Result<(), ParseError>)
        ensures
            r == grammar::eat(old(self)@, expected).result,
            final(self)@ == grammar::eat(old(self)@, expected).rest,
    {
        match self.current_kind() {
            Err(e) => Err(ParseError::Lex(e)),
            Ok(found) => {
                if found == expected {
                    self.advance();
                    Ok(())
                } else {
                    Err(ParseError::UnexpectedToken { expected, found })
                }
            },
        }
    }

    /// The kind of the token behind the one under the cursor. The cursor
    /// stays; the token is kept until the cursor reaches it.
    fn peek_next(&mut self) -> (r: Result<TokenKind, LexError>)
        ensures
            final(self)@ == old(self)@,
            match old(self)@.tail().head() {
                Ok(t) => r == Ok::<TokenKind, LexError>(t.kind()),
                Err(e) => r == Err::<TokenKind, LexError>(e),
            },
    {
        proof {
            lemma_head_of_led_by(self.pending(), lexed(self.current_token));
        }
        match &self.current_token {
            Ok(Token::EOF) => {
                return Ok(TokenKind::EOF);
            },
            Err(e) => {
                return Err(*e);
            },
            _ => {},
        }
        proof {
            lemma_tail_of_after(self.pending(), lexed(self.current_token)->Ok_0);
        }
        if self.peeked.is_none() {
            let ghost src = self.lexer.source();
            let ghost pos = self.lexer.position();
            let next = self.lexer.get_next_token();
            proof {
                lemma_stream_unfolds(src, pos);
            }
            self.peeked = Some(next);
        }
        proof {
            lemma_head_of_led_by(
                stream_of(self.lexer.source(), self.lexer.position()),
                lexed(self.peeked->Some_0),
            );
        }
        match &self.peeked {
            Some(Ok(token)) => Ok(token.kind()),
            Some(Err(e)) => Err(*e),
            None => Ok(TokenKind::EOF),
        }
    }
}

/// The stream of a text starts with its next token and goes on behind it.
pub proof fn lemma_stream_unfolds(src: Seq<char>, pos: nat)
    requires
        pos <= src.len(),
    ensures
        stream_of(src, pos) == stream_of(src, lex_next(src, pos)).led_by(
            crate::lexer::lex_at(src, pos).result,
        ),
{
    lemma_lex_at_advances(src, pos);
}

/// The position behind the next token of `src` from `pos` on.
pub open spec fn lex_next(src: Seq<char>, pos: nat) -> nat {
    crate::lexer::lex_at(src, pos).next
}

/// A stream that is led by a token or an error has it as its head.
pub proof fn lemma_head_of_led_by(s: TokenStream, r: Result<SpecToken, LexError>)
    ensures
        s.led_by(r).head() == r,
{
}

/// Behind the first token of a stream lies the stream that it was put before.
pub proof fn lemma_tail_of_after(s: TokenStream, t: SpecToken)
    ensures
        s.after(t).tail() == s,
        s.after(t).len() == s.len() + 1,
{
    assert((seq![t] + s.tokens).skip(1) =~= s.tokens);
}

impl Parser {
    /// `factor := NUMBER | STRING | IDENT | "(" expr ")"`.
    fn factor(&mut self) -> (r: Result<ASTNode, ParseError>)
        ensures
            parsed(r) == grammar::factor(old(self)@).result,
            final(self)@ == grammar::factor(old(self)@).rest,
        decreases old(self)@.len(), 0nat,
    {
        proof {
            lemma_head_of_led_by(self.pending(), lexed(self.current_token));
        }
        match &self.current_token {
            Err(e) => Err(ParseError::Lex(*e)),
            Ok(Token::Number(value)) => {
                let value = *value;
                self.advance();
                Ok(ASTNode::Number(value))
            },
            Ok(Token::StringLiteral(text)) => {
                let text = text.clone();
                self.advance();
                Ok(ASTNode::StringLiteral(text))
            },
            Ok(Token::Identifier(name)) => {
                let name = name.clone();
                self.advance();
                Ok(ASTNode::Identifier(name))
            },
            Ok(Token::LParen) => {
                self.advance();
                let node = match self.expr() {
                    Ok(node) => node,
                    Err(e) => {
                        return Err(e);
                    },
                };
                match self.eat(TokenKind::RParen) {
                    Ok(_) => Ok(node),
                    Err(e) => Err(e),
                }
            },
            Ok(token) => Err(ParseError::UnexpectedStart { found: token.kind() }),
        }
    }

    /// `term := factor (("*" | "/") factor)*`, the operators binding from
    /// the left.
    fn term(&mut self) -> (r: Result<ASTNode, ParseError>)
        ensures
            parsed(r) == grammar::term(old(self)@).result,
            final(self)@ == grammar::term(old(self)@).rest,
        decreases old(self)@.len(), 2nat,
    {
        proof {
            lemma_factor_consumes(self@);
        }
        let mut node = match self.factor() {
            Ok(node) => node,
            Err(e) => {
                return Err(e);
            },
        };
        loop
            invariant
                self@.len() <= old(self)@.len(),
                grammar::term_tail(node@, self@) == grammar::term(old(self)@),
            ensures
                grammar::term(old(self)@).result == Ok::<SpecNode, ParseError>(node@),
                grammar::term(old(self)@).rest == self@,
            decreases self@.len(),
        {
            proof {
                lemma_head_of_led_by(self.pending(), lexed(self.current_token));
            }
            let op = match &self.current_token {
                Ok(Token::Asterisk) => Token::Asterisk,
                Ok(Token::Slash) => Token::Slash,
                _ => {
                    break ;
                },
            };
            self.advance();
            proof {
                lemma_factor_consumes(self@);
            }
            let right = match self.factor() {
                Ok(right) => right,
                Err(e) => {
                    return Err(e);
                },
            };
            node = ASTNode::BinaryOp(Box::new(node), op, Box::new(right));
        }
        Ok(node)
    }

    /// `expr := term (("+" | "-") term)*`, the operators binding from the
    /// left.
    fn expr(&mut self) -> (r: Result<ASTNode, ParseError>)
        ensures
            parsed(r) == grammar::expr(old(self)@).result,
            final(self)@ == grammar::expr(old(self)@).rest,
        decreases old(self)@.len(), 4nat,
    {
        proof {
            lemma_term_consumes(self@);
        }
        let mut node = match self.term() {
            Ok(node) => node,
            Err(e) => {
                return Err(e);
            },
        };
        loop
            invariant
                self@.len() <= old(self)@.len(),
                grammar::expr_tail(node@, self@) == grammar::expr(old(self)@),
            ensures
                grammar::expr(old(self)@).result == Ok::<SpecNode, ParseError>(node@),
                grammar::expr(old(self)@).rest == self@,
            decreases self@.len(),
        {
            proof {
                lemma_head_of_led_by(self.pending(), lexed(self.current_token));
            }
            let op = match &self.current_token {
                Ok(Token::Plus) => Token::Plus,
                Ok(Token::Minus) => Token::Minus,
                _ => {
                    break ;
                },
            };
            self.advance();
            proof {
                lemma_term_consumes(self@);
            }
            let right = match self.term() {
                Ok(right) => right,
                Err(e) => {
                    return Err(e);
                },
            };
            node = ASTNode::BinaryOp(Box::new(node), op, Box::new(right));
        }
        Ok(node)
    }

    /// `TYPE`: one type keyword, as a value of the kind that it declares
    /// with the default payload of that kind.
    fn parse_type(&mut self) -> (r: Result<RuspyType, ParseError>)
        ensures
            match grammar::parse_type(old(self)@).result {
                Ok(v) => r is Ok && r->Ok_0@ == v,
                Err(e) => r == Err::<RuspyType, ParseError>(e),
            },
            final(self)@ == grammar::parse_type(old(self)@).rest,
    {
        let kind = match self.current_kind() {
            Ok(kind) => kind,
            Err(e) => {
                return Err(ParseError::Lex(e));
            },
        };
        let declared = match kind {
            TokenKind::TypeInt => RuspyType::Int(0),
            TokenKind::TypeInt32 => RuspyType::Int32(0),
            TokenKind::TypeInt64 => RuspyType::Int64(0),
            TokenKind::TypeFloat => RuspyType::Float(0),
            TokenKind::TypeFloat32 => RuspyType::Float32(0),
            TokenKind::TypeFloat64 => RuspyType::Float64(0),
            TokenKind::TypeStr => RuspyType::Str(String::new()),
            TokenKind::TypeStr8 => RuspyType::Str(String::new()),
            TokenKind::TypeStr32 => RuspyType::Str(String::new()),
            TokenKind::TypeStr64 => RuspyType::Str(String::new()),
            TokenKind::TypeChar => RuspyType::Char('\0'),
            _ => {
                return Err(ParseError::InvalidType { found: kind });
            },
        };
        self.advance();
        Ok(declared)
    }

    /// An expression and the semicolon that ends its statement.
    fn terminated(&mut self) -> (r: Result<ASTNode, ParseError>)
        ensures
            parsed(r) == grammar::terminated(old(self)@).result,
            final(self)@ == grammar::terminated(old(self)@).rest,
    {
        let node = match self.expr() {
            Ok(node) => node,
            Err(e) => {
                return Err(e);
            },
        };
        match self.eat(TokenKind::Semicolon) {
            Ok(_) => Ok(node),
            Err(e) => Err(e),
        }
    }

    /// `"print" expr ";"`.
    fn print_statement(&mut self) -> (r: Result<ASTNode, ParseError>)
        ensures
            parsed(r) == grammar::print_statement(old(self)@).result,
            final(self)@ == grammar::print_statement(old(self)@).rest,
    {
        match self.eat(TokenKind::Print) {
            Ok(_) => {},
            Err(e) => {
                return Err(e);
            },
        }
        match self.terminated() {
            Ok(node) => Ok(ASTNode::Print(Box::new(node))),
            Err(e) => Err(e),
        }
    }

    /// `expr ";"`.
    fn expression_statement(&mut self) -> (r: Result<ASTNode, ParseError>)
        ensures
            parsed(r) == grammar::expression_statement(old(self)@).result,
            final(self)@ == grammar::expression_statement(old(self)@).rest,
    {
        self.terminated()
    }

    /// The name under the cursor, and the cursor behind it; an error where
    /// no identifier stands there.
    fn name(&mut self) -> (r: Result<String, ParseError>)
        ensures
            match old(self)@.head() {
                Ok(SpecToken::Identifier(name)) => r is Ok && r->Ok_0@ == name && final(self)@
                    == old(self)@.tail(),
                _ => r is Err && r->Err_0 == grammar::eat(
                    old(self)@,
                    TokenKind::Identifier,
                ).result->Err_0 && grammar::eat(old(self)@, TokenKind::Identifier).result is Err
                    && final(self)@ == old(self)@,
            },
    {
        proof {
            lemma_head_of_led_by(self.pending(), lexed(self.current_token));
        }
        let name = match &self.current_token {
            Ok(Token::Identifier(name)) => name.clone(),
            Ok(token) => {
                return Err(
                    ParseError::UnexpectedToken {
                        expected: TokenKind::Identifier,
                        found: token.kind(),
                    },
                );
            },
            Err(e) => {
                return Err(ParseError::Lex(*e));
            },
        };
        self.advance();
        Ok(name)
    }

    /// `IDENT ":" TYPE "=" expr ";"`.
    fn variable_declaration_with_type(&mut self) -> (r: Result<ASTNode, ParseError>)
        ensures
            parsed(r) == grammar::variable_declaration_with_type(old(self)@).result,
            final(self)@ == grammar::variable_declaration_with_type(old(self)@).rest,
    {
        let name = match self.name() {
            Ok(name) => name,
            Err(e) => {
                return Err(e);
            },
        };
        match self.eat(TokenKind::Colon) {
            Ok(_) => {},
            Err(e) => {
                return Err(e);
            },
        }
        let declared = match self.parse_type() {
            Ok(declared) => declared,
            Err(e) => {
                return Err(e);
            },
        };
        match self.eat(TokenKind::Assign) {
            Ok(_) => {},
            Err(e) => {
                return Err(e);
            },
        }
        match self.terminated() {
            Ok(value) => Ok(ASTNode::TypedVarAssign(name, declared, Box::new(value))),
            Err(e) => Err(e),
        }
    }

    /// `IDENT "=" expr ";"`.
    fn variable_declaration_without_type(&mut self) -> (r: Result<ASTNode, ParseError>)
        ensures
            parsed(r) == grammar::variable_declaration_without_type(old(self)@).result,
            final(self)@ == grammar::variable_declaration_without_type(old(self)@).rest,
    {
        let name = match self.name() {
            Ok(name) => name,
            Err(e) => {
                return Err(e);
            },
        };
        match self.eat(TokenKind::Assign) {
            Ok(_) => {},
            Err(e) => {
                return Err(e);
            },
        }
        match self.terminated() {
            Ok(value) => Ok(ASTNode::VarAssign(name, Box::new(value))),
            Err(e) => Err(e),
        }
    }

    /// One statement. Behind an identifier, the token after it decides what
    /// the statement is.
    fn statement(&mut self) -> (r: Result<ASTNode, ParseError>)
        ensures
            parsed(r) == grammar::statement(old(self)@).result,
            final(self)@ == grammar::statement(old(self)@).rest,
    {
        match self.current_kind() {
            Ok(TokenKind::Print) => self.print_statement(),
            Ok(TokenKind::Identifier) => {
                match self.peek_next() {
                    Ok(TokenKind::Colon) => self.variable_declaration_with_type(),
                    Ok(TokenKind::Assign) => self.variable_declaration_without_type(),
                    _ => self.expression_statement(),
                }
            },
            _ => self.expression_statement(),
        }
    }

    /// Parses the whole program: its statements in order, or the first
    /// error, at which the parse stops. On success the parser stands at the
    /// end of the text.
    pub fn parse(&mut self) -> (r: Result<Vec<ASTNode>, ParseError>)
        ensures
            parsed_program(r) == grammar::program(old(self)@).result,
            final(self)@ == grammar::program(old(self)@).rest,
    {
        let mut statements: Vec<ASTNode> = Vec::new();
        loop
            invariant
                grammar::program(old(self)@).result == match grammar::program(self@).result {
                    Ok(nodes) => Ok::<Seq<SpecNode>, ParseError>(views(statements@) + nodes),
                    Err(e) => Err::<Seq<SpecNode>, ParseError>(e),
                },
                grammar::program(old(self)@).rest == grammar::program(self@).rest,
            ensures
                grammar::program(old(self)@).result == Ok::<Seq<SpecNode>, ParseError>(
                    views(statements@),
                ),
                grammar::program(old(self)@).rest == self@,
            decreases self@.len(),
        {
            match self.current_kind() {
                Ok(TokenKind::EOF) => {
                    assert(views(statements@) + Seq::<SpecNode>::empty() =~= views(statements@));
                    break ;
                },
                _ => {},
            }
            let ghost before = self@;
            let ghost done = views(statements@);
            proof {
                lemma_statement_consumes(before);
            }
            let node = match self.statement() {
                Ok(node) => node,
                Err(e) => {
                    return Err(e);
                },
            };
            statements.push(node);
            proof {
                assert(views(statements@) =~= done.push(node@));
                match grammar::program(self@).result {
                    Ok(nodes) => {
                        assert(done + (seq![node@] + nodes) =~= done.push(node@) + nodes);
                    },
                    Err(_) => {},
                }
            }
        }
        Ok(statements)
    }
}

} // verus!

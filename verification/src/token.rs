//! Tokens: the lexical units that the lexer produces and the parser consumes.

use vstd::prelude::*;

verus! {

/// A lexical unit of the language.
#[derive(Debug, PartialEq, Eq)]
pub enum Token {
    Identifier(String),
    Number(i64),
    Plus,
    Minus,
    Asterisk,
    Slash,
    LParen,
    RParen,
    Assign,
    Semicolon,
    Colon,
    EOF,
    TypeInt,
    TypeInt32,
    TypeInt64,
    TypeFloat,
    TypeFloat32,
    TypeFloat64,
    TypeChar,
    TypeStr,
    TypeStr8,
    TypeStr32,
    TypeStr64,
    Print,
    StringLiteral(String),
}

/// What a [`Token`] stands for: the same unit with its text as a sequence of
/// characters.
pub enum SpecToken {
    Identifier(Seq<char>),
    Number(i64),
    Plus,
    Minus,
    Asterisk,
    Slash,
    LParen,
    RParen,
    Assign,
    Semicolon,
    Colon,
    EOF,
    TypeInt,
    TypeInt32,
    TypeInt64,
    TypeFloat,
    TypeFloat32,
    TypeFloat64,
    TypeChar,
    TypeStr,
    TypeStr8,
    TypeStr32,
    TypeStr64,
    Print,
    StringLiteral(Seq<char>),
}

/// The tag of a token, without its payload.
#[derive(Clone, Copy, Debug, PartialEq, Eq, Structural)]
pub enum TokenKind {
    Identifier,
    Number,
    Plus,
    Minus,
    Asterisk,
    Slash,
    LParen,
    RParen,
    Assign,
    Semicolon,
    Colon,
    EOF,
    TypeInt,
    TypeInt32,
    TypeInt64,
    TypeFloat,
    TypeFloat32,
    TypeFloat64,
    TypeChar,
    TypeStr,
    TypeStr8,
    TypeStr32,
    TypeStr64,
    Print,
    StringLiteral,
}

impl SpecToken {
    pub open spec fn kind(self) -> TokenKind {
        match self {
            SpecToken::Identifier(_) => TokenKind::Identifier,
            SpecToken::Number(_) => TokenKind::Number,
            SpecToken::Plus => TokenKind::Plus,
            SpecToken::Minus => TokenKind::Minus,
            SpecToken::Asterisk => TokenKind::Asterisk,
            SpecToken::Slash => TokenKind::Slash,
            SpecToken::LParen => TokenKind::LParen,
            SpecToken::RParen => TokenKind::RParen,
            SpecToken::Assign => TokenKind::Assign,
            SpecToken::Semicolon => TokenKind::Semicolon,
            SpecToken::Colon => TokenKind::Colon,
            SpecToken::EOF => TokenKind::EOF,
            SpecToken::TypeInt => TokenKind::TypeInt,
            SpecToken::TypeInt32 => TokenKind::TypeInt32,
            SpecToken::TypeInt64 => TokenKind::TypeInt64,
            SpecToken::TypeFloat => TokenKind::TypeFloat,
            SpecToken::TypeFloat32 => TokenKind::TypeFloat32,
            SpecToken::TypeFloat64 => TokenKind::TypeFloat64,
            SpecToken::TypeChar => TokenKind::TypeChar,
            SpecToken::TypeStr => TokenKind::TypeStr,
            SpecToken::TypeStr8 => TokenKind::TypeStr8,
            SpecToken::TypeStr32 => TokenKind::TypeStr32,
            SpecToken::TypeStr64 => TokenKind::TypeStr64,
            SpecToken::Print => TokenKind::Print,
            SpecToken::StringLiteral(_) => TokenKind::StringLiteral,
        }
    }
}

impl View for Token {
    type V = SpecToken;

    open spec fn view(&self) -> SpecToken {
        match *self {
            Token::Identifier(text) => SpecToken::Identifier(text@),
            Token::Number(value) => SpecToken::Number(value),
            Token::Plus => SpecToken::Plus,
            Token::Minus => SpecToken::Minus,
            Token::Asterisk => SpecToken::Asterisk,
            Token::Slash => SpecToken::Slash,
            Token::LParen => SpecToken::LParen,
            Token::RParen => SpecToken::RParen,
            Token::Assign => SpecToken::Assign,
            Token::Semicolon => SpecToken::Semicolon,
            Token::Colon => SpecToken::Colon,
            Token::EOF => SpecToken::EOF,
            Token::TypeInt => SpecToken::TypeInt,
            Token::TypeInt32 => SpecToken::TypeInt32,
            Token::TypeInt64 => SpecToken::TypeInt64,
            Token::TypeFloat => SpecToken::TypeFloat,
            Token::TypeFloat32 => SpecToken::TypeFloat32,
            Token::TypeFloat64 => SpecToken::TypeFloat64,
            Token::TypeChar => SpecToken::TypeChar,
            Token::TypeStr => SpecToken::TypeStr,
            Token::TypeStr8 => SpecToken::TypeStr8,
            Token::TypeStr32 => SpecToken::TypeStr32,
            Token::TypeStr64 => SpecToken::TypeStr64,
            Token::Print => SpecToken::Print,
            Token::StringLiteral(text) => SpecToken::StringLiteral(text@),
        }
    }
}

impl Clone for Token {
    fn clone(&self) -> (copy: Self)
        ensures
            copy == *self,
    {
        match self {
            Token::Identifier(text) => Token::Identifier(text.clone()),
            Token::Number(value) => Token::Number(*value),
            Token::Plus => Token::Plus,
            Token::Minus => Token::Minus,
            Token::Asterisk => Token::Asterisk,
            Token::Slash => Token::Slash,
            Token::LParen => Token::LParen,
            Token::RParen => Token::RParen,
            Token::Assign => Token::Assign,
            Token::Semicolon => Token::Semicolon,
            Token::Colon => Token::Colon,
            Token::EOF => Token::EOF,
            Token::TypeInt => Token::TypeInt,
            Token::TypeInt32 => Token::TypeInt32,
            Token::TypeInt64 => Token::TypeInt64,
            Token::TypeFloat => Token::TypeFloat,
            Token::TypeFloat32 => Token::TypeFloat32,
            Token::TypeFloat64 => Token::TypeFloat64,
            Token::TypeChar => Token::TypeChar,
            Token::TypeStr => Token::TypeStr,
            Token::TypeStr8 => Token::TypeStr8,
            Token::TypeStr32 => Token::TypeStr32,
            Token::TypeStr64 => Token::TypeStr64,
            Token::Print => Token::Print,
            Token::StringLiteral(text) => Token::StringLiteral(text.clone()),
        }
    }
}

impl Token {
    /// The tag of this token.
    pub fn kind(&self) -> (kind: TokenKind)
        ensures
            kind == self@.kind(),
    {
        match self {
            Token::Identifier(_) => TokenKind::Identifier,
            Token::Number(_) => TokenKind::Number,
            Token::Plus => TokenKind::Plus,
            Token::Minus => TokenKind::Minus,
            Token::Asterisk => TokenKind::Asterisk,
            Token::Slash => TokenKind::Slash,
            Token::LParen => TokenKind::LParen,
            Token::RParen => TokenKind::RParen,
            Token::Assign => TokenKind::Assign,
            Token::Semicolon => TokenKind::Semicolon,
            Token::Colon => TokenKind::Colon,
            Token::EOF => TokenKind::EOF,
            Token::TypeInt => TokenKind::TypeInt,
            Token::TypeInt32 => TokenKind::TypeInt32,
            Token::TypeInt64 => TokenKind::TypeInt64,
            Token::TypeFloat => TokenKind::TypeFloat,
            Token::TypeFloat32 => TokenKind::TypeFloat32,
            Token::TypeFloat64 => TokenKind::TypeFloat64,
            Token::TypeChar => TokenKind::TypeChar,
            Token::TypeStr => TokenKind::TypeStr,
            Token::TypeStr8 => TokenKind::TypeStr8,
            Token::TypeStr32 => TokenKind::TypeStr32,
            Token::TypeStr64 => TokenKind::TypeStr64,
            Token::Print => TokenKind::Print,
            Token::StringLiteral(_) => TokenKind::StringLiteral,
        }
    }
}

} // verus!

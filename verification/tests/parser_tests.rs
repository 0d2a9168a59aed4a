use ruspy::lexer::{LexError, Lexer, Token, TokenKind};
use ruspy::parser::{ASTNode, ParseError, Parser};
use ruspy::types::RuspyType;

fn parse(input: &str) -> Result<Vec<ASTNode>, ParseError> {
    let lexer = Lexer::new(input);
    let mut parser = Parser::new(lexer);
    parser.parse()
}

fn number(value: i64) -> Box<ASTNode> {
    Box::new(ASTNode::Number(value))
}

fn binary(left: Box<ASTNode>, op: Token, right: Box<ASTNode>) -> Box<ASTNode> {
    Box::new(ASTNode::BinaryOp(left, op, right))
}

#[test]
fn test_arithmetic_expression() {
    let input = "3 + 5 * 2;";
    let lexer = Lexer::new(input);
    let mut parser = Parser::new(lexer);
    let result = parser.parse().unwrap();
    assert!(matches!(result[0], ASTNode::BinaryOp(..)));
}

#[test]
fn test_typed_variable_declaration() {
    let input = "x: int = 42;";
    let lexer = Lexer::new(input);
    let mut parser = Parser::new(lexer);
    let result = parser.parse().unwrap();
    assert_eq!(
        result[0],
        ASTNode::TypedVarAssign(
            "x".to_string(),
            RuspyType::Int(0),
            Box::new(ASTNode::Number(42))
        )
    );
}

#[test]
fn test_invalid_type_declaration() {
    let input = "x: invalid = 42;";
    let lexer = Lexer::new(input);
    let mut parser = Parser::new(lexer);
    assert!(parser.parse().is_err());
}

#[test]
fn mod_test_complex_expression() {
    let input = "(3 + 5) * 2;";
    let lexer = Lexer::new(input);
    let mut parser = Parser::new(lexer);
    let result = parser.parse().unwrap();
    assert!(matches!(result[0], ASTNode::BinaryOp(..)));
}

#[test]
fn test_multiple_statements() {
    let input = "
            x: int = 42;
            y: int = x + 8;
        ";
    let lexer = Lexer::new(input);
    let mut parser = Parser::new(lexer);
    let result = parser.parse().unwrap();
    assert_eq!(result.len(), 2);
}

// Every statement ends with a semicolon, so a declaration that lacks it is
// an error at the end of the text.
#[test]
fn test_missing_semicolon() {
    let input = "x: int = 42";
    let lexer = Lexer::new(input);
    let mut parser = Parser::new(lexer);
    let result = parser.parse();
    assert_eq!(
        result,
        Err(ParseError::UnexpectedToken { expected: TokenKind::Semicolon, found: TokenKind::EOF })
    );
}

#[test]
fn precedence_and_left_associativity() {
    let got = parse("3 + 5 * 2 - 1;").unwrap();
    let want = binary(
        binary(number(3), Token::Plus, binary(number(5), Token::Asterisk, number(2))),
        Token::Minus,
        number(1),
    );
    assert_eq!(got, vec![*want]);

    let got = parse("8 / 4 / 2;").unwrap();
    let want = binary(binary(number(8), Token::Slash, number(4)), Token::Slash, number(2));
    assert_eq!(got, vec![*want]);

    let got = parse("8 - 4 - 2;").unwrap();
    let want = binary(binary(number(8), Token::Minus, number(4)), Token::Minus, number(2));
    assert_eq!(got, vec![*want]);
}

#[test]
fn parentheses_group() {
    let got = parse("(3 + 5) * 2;").unwrap();
    let want = binary(binary(number(3), Token::Plus, number(5)), Token::Asterisk, number(2));
    assert_eq!(got, vec![*want]);
    assert_eq!(parse("((7));").unwrap(), vec![ASTNode::Number(7)]);
}

#[test]
fn statement_kinds() {
    let got = parse("print x; y = \"s\"; z: str = y; z;").unwrap();
    let want = vec![
        ASTNode::Print(Box::new(ASTNode::Identifier("x".to_string()))),
        ASTNode::VarAssign("y".to_string(), Box::new(ASTNode::StringLiteral("s".to_string()))),
        ASTNode::TypedVarAssign(
            "z".to_string(),
            RuspyType::Str(String::new()),
            Box::new(ASTNode::Identifier("y".to_string())),
        ),
        ASTNode::Identifier("z".to_string()),
    ];
    assert_eq!(got, want);
}

#[test]
fn every_type_keyword() {
    let cases = [
        ("int", RuspyType::Int(0)),
        ("int32", RuspyType::Int32(0)),
        ("int64", RuspyType::Int64(0)),
        ("float", RuspyType::Float(0.0f64.to_bits())),
        ("float32", RuspyType::Float32(0.0f32.to_bits())),
        ("float64", RuspyType::Float64(0.0f64.to_bits())),
        ("char", RuspyType::Char('\0')),
        ("str", RuspyType::Str(String::new())),
        ("str8", RuspyType::Str(String::new())),
        ("str32", RuspyType::Str(String::new())),
        ("str64", RuspyType::Str(String::new())),
    ];
    for (keyword, declared) in cases {
        let text = format!("v: {} = 1;", keyword);
        let got = parse(&text).unwrap();
        assert_eq!(got, vec![ASTNode::TypedVarAssign("v".to_string(), declared, number(1))]);
    }
}

#[test]
fn empty_program() {
    assert_eq!(parse(""), Ok(vec![]));
    assert_eq!(parse("  // nothing\n"), Ok(vec![]));
}

#[test]
fn parse_errors() {
    assert_eq!(
        parse("x: invalid = 42;"),
        Err(ParseError::InvalidType { found: TokenKind::Identifier })
    );
    assert_eq!(
        parse("x: = 42;"),
        Err(ParseError::InvalidType { found: TokenKind::Assign })
    );
    assert_eq!(
        parse("x: int 42;"),
        Err(ParseError::UnexpectedToken { expected: TokenKind::Assign, found: TokenKind::Number })
    );
    assert_eq!(
        parse("(1 + 2;"),
        Err(ParseError::UnexpectedToken {
            expected: TokenKind::RParen,
            found: TokenKind::Semicolon
        })
    );
    assert_eq!(parse("1 + ;"), Err(ParseError::UnexpectedStart { found: TokenKind::Semicolon }));
    assert_eq!(parse("* 2;"), Err(ParseError::UnexpectedStart { found: TokenKind::Asterisk }));
    assert_eq!(parse("1 +"), Err(ParseError::UnexpectedStart { found: TokenKind::EOF }));
    assert_eq!(parse("int = 3;"), Err(ParseError::UnexpectedStart { found: TokenKind::TypeInt }));
    assert_eq!(
        parse("1 2;"),
        Err(ParseError::UnexpectedToken {
            expected: TokenKind::Semicolon,
            found: TokenKind::Number
        })
    );
    assert_eq!(
        parse("print 1"),
        Err(ParseError::UnexpectedToken { expected: TokenKind::Semicolon, found: TokenKind::EOF })
    );
}

#[test]
fn first_error_aborts_the_parse() {
    assert_eq!(
        parse("a = 1; b = ; c = 3;"),
        Err(ParseError::UnexpectedStart { found: TokenKind::Semicolon })
    );
}

#[test]
fn lexical_errors_surface_as_parse_errors() {
    let at = |position| ParseError::Lex(LexError::UnexpectedCharacter { character: '@', position });
    assert_eq!(parse("@"), Err(at(0)));
    assert_eq!(parse("x @ 1;"), Err(at(2)));
    assert_eq!(parse("x = @;"), Err(at(4)));
    assert_eq!(parse("x = 1 @"), Err(at(6)));
    assert_eq!(
        parse("s = \"open"),
        Err(ParseError::Lex(LexError::UnterminatedString { position: 4 }))
    );
    assert_eq!(
        parse("99999999999999999999;"),
        Err(ParseError::Lex(LexError::IntegerOverflow { position: 0 }))
    );
}

#[test]
fn lookahead_keeps_the_token() {
    let got = parse("x * 2; x; x = x;").unwrap();
    let x = || Box::new(ASTNode::Identifier("x".to_string()));
    let want = vec![
        *binary(x(), Token::Asterisk, number(2)),
        ASTNode::Identifier("x".to_string()),
        ASTNode::VarAssign("x".to_string(), x()),
    ];
    assert_eq!(got, want);
}

#[test]
fn parsing_twice_gives_the_same_tree() {
    let text = "abc: int = 10-4; a: int = 3 + 5 * abc; print (a);";
    assert_eq!(parse(text), parse(text));
}

#[test]
fn parser_stands_at_the_end_after_success() {
    let mut parser = Parser::new(Lexer::new("1;"));
    assert_eq!(parser.parse(), Ok(vec![ASTNode::Number(1)]));
    assert_eq!(parser.parse(), Ok(vec![]));
}

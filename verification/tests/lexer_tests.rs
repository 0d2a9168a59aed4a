use ruspy::lexer::{LexError, Lexer, Token};

fn tokens(input: &str) -> Vec<Result<Token, LexError>> {
    let mut lexer = Lexer::new(input);
    let mut out = Vec::new();
    loop {
        let next = lexer.get_next_token();
        let stop = matches!(next, Ok(Token::EOF) | Err(_));
        out.push(next);
        if stop {
            return out;
        }
    }
}

#[test]
fn test_lexer_numbers() {
    let mut lexer = Lexer::new("123 456");
    assert_eq!(lexer.get_next_token(), Ok(Token::Number(123)));
    assert_eq!(lexer.get_next_token(), Ok(Token::Number(456)));
    assert_eq!(lexer.get_next_token(), Ok(Token::EOF));
}

#[test]
fn test_lexer_operators() {
    let mut lexer = Lexer::new("+ - * /");
    assert_eq!(lexer.get_next_token(), Ok(Token::Plus));
    assert_eq!(lexer.get_next_token(), Ok(Token::Minus));
    assert_eq!(lexer.get_next_token(), Ok(Token::Asterisk));
    assert_eq!(lexer.get_next_token(), Ok(Token::Slash));
    assert_eq!(lexer.get_next_token(), Ok(Token::EOF));
}

#[test]
fn test_lexer_identifiers_and_types() {
    let mut lexer = Lexer::new("x int str64 float32");
    assert_eq!(lexer.get_next_token(), Ok(Token::Identifier("x".to_string())));
    assert_eq!(lexer.get_next_token(), Ok(Token::TypeInt));
    assert_eq!(lexer.get_next_token(), Ok(Token::TypeStr64));
    assert_eq!(lexer.get_next_token(), Ok(Token::TypeFloat32));
}

#[test]
fn test_lexer_complex_expression() {
    let mut lexer = Lexer::new("x: int = 42;");
    assert_eq!(lexer.get_next_token(), Ok(Token::Identifier("x".to_string())));
    assert_eq!(lexer.get_next_token(), Ok(Token::Colon));
    assert_eq!(lexer.get_next_token(), Ok(Token::TypeInt));
    assert_eq!(lexer.get_next_token(), Ok(Token::Assign));
    assert_eq!(lexer.get_next_token(), Ok(Token::Number(42)));
    assert_eq!(lexer.get_next_token(), Ok(Token::Semicolon));
    assert_eq!(lexer.get_next_token(), Ok(Token::EOF));
}

#[test]
fn test_lexer_whitespace_handling() {
    let mut lexer = Lexer::new("   42   +   58   ");
    assert_eq!(lexer.get_next_token(), Ok(Token::Number(42)));
    assert_eq!(lexer.get_next_token(), Ok(Token::Plus));
    assert_eq!(lexer.get_next_token(), Ok(Token::Number(58)));
    assert_eq!(lexer.get_next_token(), Ok(Token::EOF));
}

#[test]
fn test_lexer_invalid_character() {
    let mut lexer = Lexer::new("@");
    let result = lexer.get_next_token();
    assert!(result.is_err());
    assert_eq!(result, Err(LexError::UnexpectedCharacter { character: '@', position: 0 }));
}

#[test]
fn test_lexer_comments() {
    let mut lexer = Lexer::new("42 // This is a comment\n+ 58");
    assert_eq!(lexer.get_next_token(), Ok(Token::Number(42)));
    assert_eq!(lexer.get_next_token(), Ok(Token::Plus));
    assert_eq!(lexer.get_next_token(), Ok(Token::Number(58)));
    assert_eq!(lexer.get_next_token(), Ok(Token::EOF));
}

#[test]
fn test_lexer_comments_at_end() {
    let mut lexer = Lexer::new("42 + 58 // Final comment");
    assert_eq!(lexer.get_next_token(), Ok(Token::Number(42)));
    assert_eq!(lexer.get_next_token(), Ok(Token::Plus));
    assert_eq!(lexer.get_next_token(), Ok(Token::Number(58)));
    assert_eq!(lexer.get_next_token(), Ok(Token::EOF));
}

#[test]
fn lexer_end_of_input_repeats() {
    let mut lexer = Lexer::new("  ");
    for _ in 0..4 {
        assert_eq!(lexer.get_next_token(), Ok(Token::EOF));
    }
}

#[test]
fn lexer_every_keyword() {
    let got = tokens("int int32 int64 float float32 float64 char str str8 str32 str64 print");
    let want = vec![
        Ok(Token::TypeInt),
        Ok(Token::TypeInt32),
        Ok(Token::TypeInt64),
        Ok(Token::TypeFloat),
        Ok(Token::TypeFloat32),
        Ok(Token::TypeFloat64),
        Ok(Token::TypeChar),
        Ok(Token::TypeStr),
        Ok(Token::TypeStr8),
        Ok(Token::TypeStr32),
        Ok(Token::TypeStr64),
        Ok(Token::Print),
        Ok(Token::EOF),
    ];
    assert_eq!(got, want);
}

#[test]
fn lexer_keyword_needs_exact_text() {
    let got = tokens("integer int3 printx Int str6");
    let want = vec![
        Ok(Token::Identifier("integer".to_string())),
        Ok(Token::Identifier("int3".to_string())),
        Ok(Token::Identifier("printx".to_string())),
        Ok(Token::Identifier("Int".to_string())),
        Ok(Token::Identifier("str6".to_string())),
        Ok(Token::EOF),
    ];
    assert_eq!(got, want);
}

#[test]
fn lexer_punctuation() {
    let got = tokens("()=;:");
    let want = vec![
        Ok(Token::LParen),
        Ok(Token::RParen),
        Ok(Token::Assign),
        Ok(Token::Semicolon),
        Ok(Token::Colon),
        Ok(Token::EOF),
    ];
    assert_eq!(got, want);
}

#[test]
fn lexer_string_literal_is_verbatim() {
    let got = tokens("\"a\\n // b\" \"\"");
    let want = vec![
        Ok(Token::StringLiteral("a\\n // b".to_string())),
        Ok(Token::StringLiteral(String::new())),
        Ok(Token::EOF),
    ];
    assert_eq!(got, want);
}

#[test]
fn lexer_unterminated_string() {
    let mut lexer = Lexer::new("  \"abc");
    assert_eq!(lexer.get_next_token(), Err(LexError::UnterminatedString { position: 2 }));
    assert_eq!(lexer.get_next_token(), Ok(Token::EOF));
}

#[test]
fn lexer_integer_bounds() {
    let mut lexer = Lexer::new("9223372036854775807 007 9223372036854775808 1");
    assert_eq!(lexer.get_next_token(), Ok(Token::Number(i64::MAX)));
    assert_eq!(lexer.get_next_token(), Ok(Token::Number(7)));
    assert_eq!(lexer.get_next_token(), Err(LexError::IntegerOverflow { position: 24 }));
    assert_eq!(lexer.get_next_token(), Ok(Token::Number(1)));
}

#[test]
fn lexer_unexpected_character_position_counts_characters() {
    let mut lexer = Lexer::new("é + #");
    assert_eq!(lexer.get_next_token(), Ok(Token::Identifier("é".to_string())));
    assert_eq!(lexer.get_next_token(), Ok(Token::Plus));
    let error = Err(LexError::UnexpectedCharacter { character: '#', position: 4 });
    assert_eq!(lexer.get_next_token(), error);
    assert_eq!(lexer.get_next_token(), error);
}

#[test]
fn lexer_slash_and_comment() {
    assert_eq!(tokens("1 / 2"), vec![
        Ok(Token::Number(1)),
        Ok(Token::Slash),
        Ok(Token::Number(2)),
        Ok(Token::EOF)
    ]);
    assert_eq!(tokens("// only\n// comments"), vec![Ok(Token::EOF)]);
    assert_eq!(tokens("/"), vec![Ok(Token::Slash), Ok(Token::EOF)]);
}

#[test]
fn lexer_unicode_whitespace_is_skipped() {
    assert_eq!(tokens("\u{a0}1\u{2003}\t2\r\n"), vec![
        Ok(Token::Number(1)),
        Ok(Token::Number(2)),
        Ok(Token::EOF)
    ]);
}

#[test]
fn lexing_twice_gives_the_same_tokens() {
    let text = "abc: int = 10-4; // note\nprint \"x\" + y1;";
    assert_eq!(tokens(text), tokens(text));
}

#[test]
fn token_clone_is_equal() {
    let token = Token::Identifier("name".to_string());
    assert_eq!(token.clone(), token);
    assert_eq!(Token::Number(5).clone(), Token::Number(5));
}

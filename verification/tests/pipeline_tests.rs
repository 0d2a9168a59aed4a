use ruspy::grammar::ParseError;
use ruspy::interpreter::Interpreter;
use ruspy::lexer::{LexError, TokenKind};
use ruspy::pipeline::{run_source, Failure};
use ruspy::types::{RuntimeError, RuspyType};

#[test]
fn pipeline_scenario() {
    let mut interpreter = Interpreter::new();
    let source = "abc: int = 10-4; a: int = 3 + 5 * abc; b: int = a * 2; b;";
    assert_eq!(run_source(source, &mut interpreter), Ok(RuspyType::Int64(66)));
    assert_eq!(interpreter.lookup(&"abc".to_string()), Some(RuspyType::Int64(6)));
    assert_eq!(interpreter.lookup(&"a".to_string()), Some(RuspyType::Int64(33)));
}

#[test]
fn pipeline_reports_each_stage() {
    let mut interpreter = Interpreter::new();
    assert_eq!(
        run_source("5.0 / 0.0;", &mut interpreter),
        Err(Failure::Parse(ParseError::Lex(LexError::UnexpectedCharacter {
            character: '.',
            position: 1
        })))
    );
    assert_eq!(
        run_source("x = 1", &mut interpreter),
        Err(Failure::Parse(ParseError::UnexpectedToken {
            expected: TokenKind::Semicolon,
            found: TokenKind::EOF
        }))
    );
    assert_eq!(interpreter.lookup(&"x".to_string()), None);
    assert_eq!(
        run_source("x = 1; x / 0;", &mut interpreter),
        Err(Failure::Runtime(RuntimeError::DivisionByZero))
    );
    assert_eq!(interpreter.lookup(&"x".to_string()), Some(RuspyType::Int64(1)));
}

#[test]
fn pipeline_is_repeatable() {
    let source = "x = 3; print x * x; x + 1;";
    let mut first = Interpreter::new();
    let mut second = Interpreter::new();
    assert_eq!(run_source(source, &mut first), run_source(source, &mut second));
    assert_eq!(first.printed(), second.printed());
    assert_eq!(first.printed(), &vec![RuspyType::Int64(9)]);
}

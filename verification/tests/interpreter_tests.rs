use ruspy::interpreter::Interpreter;
use ruspy::lexer::{Lexer, Token};
use ruspy::parser::{ASTNode, Parser};
use ruspy::types::{Operation, RuntimeError, RuspyType, TypeTag};

fn run(input: &str) -> Result<RuspyType, RuntimeError> {
    let lexer = Lexer::new(input);
    let mut parser = Parser::new(lexer);
    let ast = parser.parse().unwrap();
    let mut interpreter = Interpreter::new();
    interpreter.interpret(ast)
}

#[test]
fn test_simple_arithmetic() {
    let input = "3 + 5;";
    let lexer = Lexer::new(input);
    let mut parser = Parser::new(lexer);
    let ast = parser.parse().unwrap();
    let mut interpreter = Interpreter::new();
    assert_eq!(interpreter.interpret(ast), Ok(RuspyType::Int64(8)));
}

#[test]
fn test_variables() {
    let input = "
            x: int64 = 10;
            y: int64 = 5;
            z = x + y;
            z;
        ";
    let lexer = Lexer::new(input);
    let mut parser = Parser::new(lexer);
    let ast = parser.parse().unwrap();
    let mut interpreter = Interpreter::new();
    assert_eq!(interpreter.interpret(ast), Ok(RuspyType::Int64(15)));
}

#[test]
fn test_complex_expression() {
    let input = "3 + 5 * (10 - 4);";
    let lexer = Lexer::new(input);
    let mut parser = Parser::new(lexer);
    let ast = parser.parse().unwrap();
    let mut interpreter = Interpreter::new();
    assert_eq!(interpreter.interpret(ast), Ok(RuspyType::Int64(33)));
}

#[test]
fn test_typed_variables() {
    let input = "
            x: int64 = 42;
            y: int64 = x * 2;
            y;
        ";
    let lexer = Lexer::new(input);
    let mut parser = Parser::new(lexer);
    let ast = parser.parse().unwrap();
    let mut interpreter = Interpreter::new();
    assert_eq!(interpreter.interpret(ast), Ok(RuspyType::Int64(84)));
}

#[test]
fn test_type_mismatch() {
    let input = "x: int = 42;
                    y: float = x;";
    let lexer = Lexer::new(input);
    let mut parser = Parser::new(lexer);
    let ast = parser.parse().unwrap();
    let mut interpreter = Interpreter::new();
    assert!(interpreter.interpret(ast).is_err());
}

#[test]
fn test_undefined_variable() {
    let input = "a: int64 = b + c;";
    let lexer = Lexer::new(input);
    let mut parser = Parser::new(lexer);
    let ast = parser.parse().unwrap();
    let mut interpreter = Interpreter::new();
    assert!(interpreter.interpret(ast).is_err());
}

#[test]
fn end_to_end_scenario() {
    let input = "abc: int = 10-4; a: int = 3 + 5 * abc; b: int = a * 2; b;";
    assert_eq!(run(input), Ok(RuspyType::Int64(66)));
}

#[test]
fn subtraction_of_literals() {
    assert_eq!(run("10 - 4;"), Ok(RuspyType::Int64(6)));
}

#[test]
fn integer_arithmetic_follows_precedence() {
    assert_eq!(run("2 + 3 * 4 - 10 / 3;"), Ok(RuspyType::Int64(11)));
    assert_eq!(run("(2 + 3) * (4 - 10) / 4;"), Ok(RuspyType::Int64(-7)));
    assert_eq!(run("100 / 7 / 2;"), Ok(RuspyType::Int64(7)));
    assert_eq!(run("1 - 2 - 3;"), Ok(RuspyType::Int64(-4)));
    assert_eq!(run("(0 - 7) / 2;"), Ok(RuspyType::Int64(-3)));
}

#[test]
fn reassignment_may_change_the_kind() {
    assert_eq!(run("x = 5; x = \"hi\"; x;"), Ok(RuspyType::Str("hi".to_string())));
    assert_eq!(run("x = \"hi\"; x = 5; x + 1;"), Ok(RuspyType::Int64(6)));
}

#[test]
fn integer_declarations_accept_integers() {
    assert_eq!(run("x: int = 5;"), Ok(RuspyType::Int64(5)));
    assert_eq!(run("x: int32 = 5; x;"), Ok(RuspyType::Int64(5)));
    assert_eq!(run("x: int64 = 5; y: int = x; y;"), Ok(RuspyType::Int64(5)));
}

#[test]
fn string_declaration_rejects_numbers() {
    assert_eq!(
        run("s: str = 5;"),
        Err(RuntimeError::TypeMismatch { declared: TypeTag::Str, found: TypeTag::Int64 })
    );
    assert_eq!(
        run("s: str64 = 1 + 2;"),
        Err(RuntimeError::TypeMismatch { declared: TypeTag::Str, found: TypeTag::Int64 })
    );
    assert_eq!(run("s: str = \"a\" + \"b\";"), Ok(RuspyType::Str("ab".to_string())));
}

#[test]
fn type_mismatch_names_both_kinds() {
    assert_eq!(
        run("x: int = 42; y: float = x;"),
        Err(RuntimeError::TypeMismatch { declared: TypeTag::Float, found: TypeTag::Int64 })
    );
    assert_eq!(
        run("c: char = \"c\";"),
        Err(RuntimeError::TypeMismatch { declared: TypeTag::Char, found: TypeTag::Str })
    );
    assert_eq!(
        run("n: int = \"c\";"),
        Err(RuntimeError::TypeMismatch { declared: TypeTag::Int, found: TypeTag::Str })
    );
}

#[test]
fn rejected_declaration_binds_nothing() {
    let lexer = Lexer::new("x: str = 1;");
    let ast = Parser::new(lexer).parse().unwrap();
    let mut interpreter = Interpreter::new();
    assert!(interpreter.interpret(ast).is_err());
    assert_eq!(interpreter.lookup(&"x".to_string()), None);
}

#[test]
fn division_by_zero_fails() {
    assert_eq!(run("5 / 0;"), Err(RuntimeError::DivisionByZero));
    assert_eq!(run("0 / 0;"), Err(RuntimeError::DivisionByZero));
    assert_eq!(run("x = 0; 7 / (x * 3);"), Err(RuntimeError::DivisionByZero));
}

#[test]
fn undefined_variable_fails_before_the_operator() {
    assert_eq!(run("a = b + 1;"), Err(RuntimeError::UndefinedVariable("b".to_string())));
    assert_eq!(run("a = b / 0;"), Err(RuntimeError::UndefinedVariable("b".to_string())));
    assert_eq!(run("a: int64 = b + c;"), Err(RuntimeError::UndefinedVariable("b".to_string())));
    assert_eq!(run("a = 1 + c;"), Err(RuntimeError::UndefinedVariable("c".to_string())));
}

#[test]
fn operands_of_different_kinds() {
    assert_eq!(run("1 + \"a\";"), Err(RuntimeError::IncompatibleTypes(Operation::Add)));
    assert_eq!(run("\"a\" * \"b\";"), Err(RuntimeError::IncompatibleTypes(Operation::Mul)));
    assert_eq!(run("\"a\" + \"b\" + \"c\";"), Ok(RuspyType::Str("abc".to_string())));
}

#[test]
fn overflow_fails() {
    assert_eq!(
        run("9223372036854775807 + 1;"),
        Err(RuntimeError::Overflow(Operation::Add))
    );
    assert_eq!(
        run("4611686018427387904 * 2;"),
        Err(RuntimeError::Overflow(Operation::Mul))
    );
}

#[test]
fn empty_program_yields_zero() {
    assert_eq!(run(""), Ok(RuspyType::Int(0)));
}

#[test]
fn first_error_stops_the_run() {
    let lexer = Lexer::new("a = 1; b = a / 0; c = 3;");
    let ast = Parser::new(lexer).parse().unwrap();
    let mut interpreter = Interpreter::new();
    assert_eq!(interpreter.interpret(ast), Err(RuntimeError::DivisionByZero));
    assert_eq!(interpreter.lookup(&"a".to_string()), Some(RuspyType::Int64(1)));
    assert_eq!(interpreter.lookup(&"b".to_string()), None);
    assert_eq!(interpreter.lookup(&"c".to_string()), None);
}

#[test]
fn variables_persist_between_calls() {
    let mut interpreter = Interpreter::new();
    let first = Parser::new(Lexer::new("x = 2;")).parse().unwrap();
    let second = Parser::new(Lexer::new("x = x * 21; x;")).parse().unwrap();
    assert_eq!(interpreter.interpret(first), Ok(RuspyType::Int64(2)));
    assert_eq!(interpreter.interpret(second), Ok(RuspyType::Int64(42)));
    assert_eq!(interpreter.lookup(&"x".to_string()), Some(RuspyType::Int64(42)));
}

#[test]
fn print_records_the_value() {
    let ast = Parser::new(Lexer::new("print 1 + 1; x = \"s\"; print x;")).parse().unwrap();
    let mut interpreter = Interpreter::new();
    assert_eq!(interpreter.interpret(ast), Ok(RuspyType::Str("s".to_string())));
    assert_eq!(
        interpreter.printed(),
        &vec![RuspyType::Int64(2), RuspyType::Str("s".to_string())]
    );
}

#[test]
fn node_with_a_token_that_is_no_operator() {
    let node = ASTNode::BinaryOp(
        Box::new(ASTNode::Number(1)),
        Token::Colon,
        Box::new(ASTNode::Number(2)),
    );
    let mut interpreter = Interpreter::new();
    assert_eq!(interpreter.interpret(vec![node]), Err(RuntimeError::UnexpectedOperator));
}

#[test]
fn assignment_nested_in_an_expression() {
    let node = ASTNode::BinaryOp(
        Box::new(ASTNode::VarAssign("x".to_string(), Box::new(ASTNode::Number(4)))),
        Token::Asterisk,
        Box::new(ASTNode::Identifier("x".to_string())),
    );
    let mut interpreter = Interpreter::new();
    assert_eq!(interpreter.interpret(vec![node]), Ok(RuspyType::Int64(16)));
}

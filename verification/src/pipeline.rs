//! The whole pipeline: from a source text to the value of its last
//! statement.

use crate::grammar::{program, stream_of, ParseError};
use crate::interpreter::{is_plain, lemma_run_stays_plain, run, Interpreter, State};
use crate::lexer::{lex_at, Lexer};
use crate::parser::Parser;
use crate::types::{RuntimeError, RuntimeFault, RuspyType, Value};
use vstd::prelude::*;

verus! {

/// Why a source text has no value.
#[derive(Debug, PartialEq, Eq)]
pub enum Failure {
    /// The text is no program. Nothing of it has run.
    Parse(ParseError),
    /// The program failed while it ran.
    Runtime(RuntimeError),
}

/// What a [`Failure`] stands for.
pub enum Fault {
    Parse(ParseError),
    Runtime(RuntimeFault),
}

impl View for Failure {
    type V = Fault;

    open spec fn view(&self) -> Fault {
        match *self {
            Failure::Parse(e) => Fault::Parse(e),
            Failure::Runtime(e) => Fault::Runtime(e@),
        }
    }
}

/// The view of what [`run_source`] returns.
pub open spec fn finished(r: Result<RuspyType, Failure>) -> Result<Value, Fault> {
    match r {
        Ok(value) => Ok(value@),
        Err(e) => Err(e@),
    }
}

/// What running a source text yields: a value or the first error, and the
/// state in which the run ended.
pub struct Execution {
    pub result: Result<Value, Fault>,
    pub state: State,
}

/// The run of the text `source` from the state `st`: its tokens are parsed
/// as a program, and only a text that is a program runs at all.
pub open spec fn execution(source: Seq<char>, st: State) -> Execution {
    match program(stream_of(source, 0)).result {
        Err(e) => Execution { result: Err(Fault::Parse(e)), state: st },
        Ok(nodes) => {
            let ran = run(nodes, st);
            Execution {
                result: match ran.result {
                    Ok(value) => Ok(value),
                    Err(e) => Err(Fault::Runtime(e)),
                },
                state: ran.state,
            }
        },
    }
}

/// Lexes, parses and runs `source` in `interpreter`, and returns the value
/// of its last statement or the first error of any stage.
pub fn run_source(source: &str, interpreter: &mut Interpreter) -> (r: Result<RuspyType, Failure>)
    ensures
        finished(r) == execution(source@, old(interpreter)@).result,
        final(interpreter)@ == execution(source@, old(interpreter)@).state,
{
    let lexer = Lexer::new(source);
    let mut parser = Parser::new(lexer);
    let statements = match parser.parse() {
        Ok(statements) => statements,
        Err(e) => {
            return Err(Failure::Parse(e));
        },
    };
    match interpreter.interpret(statements) {
        Ok(value) => Ok(value),
        Err(e) => Err(Failure::Runtime(e)),
    }
}

/// Two lexers over the same text at the same position yield the same token
/// and move to the same position, and the tokens that follow are the same:
/// the tokens of a text are a function of the text.
pub proof fn lemma_lexing_is_deterministic(first: Lexer, second: Lexer)
    requires
        first.source() == second.source(),
        first.position() == second.position(),
    ensures
        first.upcoming() == second.upcoming(),
        stream_of(first.source(), first.position()) == stream_of(
            second.source(),
            second.position(),
        ),
{
}

/// Two parsers before the same tokens yield the same program and stop
/// before the same tokens, whether or not either has looked ahead: the
/// tree of a stream of tokens is a function of the stream.
pub proof fn lemma_parsing_is_deterministic(first: Parser, second: Parser)
    requires
        first@ == second@,
    ensures
        program(first@) == program(second@),
{
}

/// Two runs of the same text from the same state end with the same value
/// or error in the same state.
pub proof fn lemma_running_is_deterministic(first: Seq<char>, second: Seq<char>, st: State)
    requires
        first == second,
    ensures
        execution(first, st) == execution(second, st),
        lex_at(first, 0) == lex_at(second, 0),
        program(stream_of(first, 0)) == program(stream_of(second, 0)),
{
}

/// No source text, run from the state before anything has run or from the
/// state that another text has left, ends at floating-point operands: the
/// language has no literal that writes a floating-point number.
pub proof fn lemma_no_text_reaches_floats(source: Seq<char>, st: State)
    requires
        is_plain(st),
    ensures
        is_plain(State::initial()),
        is_plain(execution(source, st).state),
        execution(source, st).result matches Err(Fault::Runtime(e)) ==> !(e is FloatArithmetic),
{
    match program(stream_of(source, 0)).result {
        Ok(nodes) => {
            lemma_run_stays_plain(nodes, st, Value::Int(0));
        },
        Err(_) => {},
    }
}

} // verus!

//! A small interpreter for a dynamically typed expression and statement
//! language: source text is split into tokens, tokens are parsed into a
//! syntax tree, and the tree is evaluated against a chain of lexical scopes.

pub mod ast;
pub mod environment;
pub mod interpreter;
pub mod lexer;
pub mod parser;

use crate::environment::{Value, ValueView};
use crate::interpreter::{
    Interpreter, MAX_DEPTH, RuntimeError, RuntimeErrorView, optional_value_view, run_program,
};
use crate::lexer::{LexError, Lexer, tokens_of};
use crate::parser::{ParseError, ParseErrorView, Parser, parse_program};
use vstd::prelude::*;

verus! {

/// The stage at which a run failed, with that stage's error.
#[derive(Debug, PartialEq)]
pub enum Failure {
    Lex(LexError),
    Parse(ParseError),
    Runtime(RuntimeError),
}

pub enum FailureView {
    Lex(LexError),
    Parse(ParseErrorView),
    Runtime(RuntimeErrorView),
}

impl View for Failure {
    type V = FailureView;

    open spec fn view(&self) -> FailureView {
        match self {
            Failure::Lex(e) => FailureView::Lex(*e),
            Failure::Parse(e) => FailureView::Parse(e@),
            Failure::Runtime(e) => FailureView::Runtime(e@),
        }
    }
}

/// What a source text evaluates to in a new interpreter: the error of the
/// first stage that fails, else the last value of the program.
pub open spec fn outcome_of(source: Seq<char>) -> Result<Option<ValueView>, FailureView> {
    match tokens_of(source) {
        Err(e) => Err(FailureView::Lex(e)),
        Ok(tokens) => match parse_program(tokens, 0, Seq::empty()) {
            Err(e) => Err(FailureView::Parse(e)),
            Ok(program) => match run_program(
                seq![Map::<Seq<char>, ValueView>::empty()],
                program,
                0,
                None,
                MAX_DEPTH as nat,
            ).1 {
                Err(e) => Err(FailureView::Runtime(e)),
                Ok(last) => Ok(last),
            },
        },
    }
}

/// Tokenizes, parses and evaluates a source text in a new interpreter.
pub fn run(source: String) -> (r: Result<Option<Value>, Failure>)
    requires
        source@.len() < usize::MAX,
    ensures
        match r {
            Ok(last) => outcome_of(source@) == Ok::<Option<ValueView>, FailureView>(
                optional_value_view(last),
            ),
            Err(e) => outcome_of(source@) == Err::<Option<ValueView>, FailureView>(e@),
        },
{
    let lexer = Lexer::new(source);
    let tokens = match lexer.tokenize() {
        Err(e) => {
            return Err(Failure::Lex(e));
        },
        Ok(tokens) => tokens,
    };
    let mut parser = Parser::new(tokens);
    let program = match parser.parse() {
        Err(e) => {
            return Err(Failure::Parse(e));
        },
        Ok(program) => program,
    };
    let mut interpreter = Interpreter::new();
    match interpreter.interpret(program) {
        Err(e) => Err(Failure::Runtime(e)),
        Ok(last) => Ok(last),
    }
}

} // verus!

//! The three stages in a row: source text in, printed lines and a verdict
//! out.

use vstd::prelude::*;
use vstd::string::*;
use crate::ast::Program;
use crate::interp::{
    initial_state, run_program, runtime_error_message, Interpreter, Run, RuntimeError,
    RuntimeErrorView,
};
use crate::lexer::{
    lex, lex_error_message, token_views, tokens_from, tokens_result_view, LexError, Lexer,
};
use crate::parser::{
    fits, parse_error_message, parse_tokens, program_result_view, ParseError, ParseErrorView,
    Parser,
};
use crate::text::{classify, classify_text, string_views, SourceChar};
use crate::token::{ends_in_eof, Token};

verus! {

/// Why a source text did not run to its end, by the stage that failed.
#[derive(Debug, PartialEq)]
pub enum Error {
    Lex(LexError),
    Parse(ParseError),
    Runtime(RuntimeError),
}

/// The mathematical value of an [`Error`].
pub enum ErrorView {
    Lex(LexError),
    Parse(ParseErrorView),
    Runtime(RuntimeErrorView),
}

impl View for Error {
    type V = ErrorView;

    open spec fn view(&self) -> ErrorView {
        match self {
            Error::Lex(e) => ErrorView::Lex(*e),
            Error::Parse(e) => ErrorView::Parse(e@),
            Error::Runtime(e) => ErrorView::Runtime(e@),
        }
    }
}

/// The text that describes an [`Error`]: the stage's label, then the
/// stage's own description.
pub open spec fn error_message(e: ErrorView) -> Seq<char> {
    match e {
        ErrorView::Lex(e) => "Lex error: "@ + lex_error_message(e),
        ErrorView::Parse(e) => "Parse error: "@ + parse_error_message(e),
        ErrorView::Runtime(e) => "Runtime error: "@ + runtime_error_message(e),
    }
}

impl Error {
    /// A description for people.
    pub fn message(&self) -> (r: String)
        ensures
            r@ == error_message(self@),
    {
        match self {
            Error::Lex(e) => {
                let mut r = String::from_str("Lex error: ");
                r.append(e.message().as_str());
                r
            },
            Error::Parse(e) => {
                let mut r = String::from_str("Parse error: ");
                r.append(e.message().as_str());
                r
            },
            Error::Runtime(e) => {
                let mut r = String::from_str("Runtime error: ");
                r.append(e.message().as_str());
                r
            },
        }
    }
}

/// What running a source text gave: the lines it printed, oldest first and
/// without line ends, and the error that ended it, if one did.
#[derive(Debug, PartialEq)]
pub struct Outcome {
    pub output: Vec<String>,
    pub error: Option<Error>,
}

/// The mathematical value of an [`Outcome`].
pub ghost struct OutcomeView {
    pub output: Seq<Seq<char>>,
    pub error: Option<ErrorView>,
}

impl View for Outcome {
    type V = OutcomeView;

    open spec fn view(&self) -> OutcomeView {
        OutcomeView {
            output: string_views(self.output@),
            error: match self.error {
                Some(e) => Some(e@),
                None => None,
            },
        }
    }
}

/// What running a classified source text brings about: its tokens are
/// read, then parsed, then run from the initial state. A text that fails to
/// lex or to parse does not run at all.
pub open spec fn execute(src: Seq<SourceChar>) -> Result<Run, ErrorView> {
    match tokens_from(src, 0) {
        Err(e) => Err(ErrorView::Lex(e)),
        Ok(tokens) => match parse_tokens(tokens) {
            Err(e) => Err(ErrorView::Parse(e)),
            Ok(prog) => Ok(run_program(initial_state(), prog)),
        },
    }
}

/// What a caller sees of an execution: the lines that were printed, and the
/// error of the stage that failed. A text that did not run printed nothing;
/// one that failed while it ran has printed what came before the failure.
pub open spec fn outcome_of(r: Result<Run, ErrorView>) -> OutcomeView {
    match r {
        Err(e) => OutcomeView { output: Seq::empty(), error: Some(e) },
        Ok(run) => OutcomeView {
            output: run.state.out,
            error: match run.error {
                Some(e) => Some(ErrorView::Runtime(e)),
                None => None,
            },
        },
    }
}

/// What a source text means.
pub open spec fn interpret(src: Seq<char>) -> OutcomeView {
    outcome_of(execute(classify_text(src)))
}

/// The tokens of `code`.
pub fn tokenize(code: &str) -> (r: Result<Vec<Token>, LexError>)
    ensures
        tokens_result_view(r) == lex(code@),
        r matches Ok(ts) ==> ends_in_eof(token_views(ts@)),
{
    Lexer::new(code).tokenize()
}

/// The program that `tokens` stand for. The tokens end in `Eof`, as those
/// of [`tokenize`] do, or leave room for the cursor to step beyond them.
pub fn parse(tokens: Vec<Token>) -> (r: Result<Program, ParseError>)
    requires
        fits(token_views(tokens@), 4),
    ensures
        program_result_view(r) == parse_tokens(token_views(tokens@)),
{
    let mut parser = Parser::new(tokens);
    parser.parse()
}

/// The program that `tokens` stand for, for any tokens: `None` where they
/// neither end in `Eof` nor leave room for the cursor to step beyond them,
/// and nothing is parsed then.
pub fn parse_checked(tokens: Vec<Token>) -> (r: Option<Result<Program, ParseError>>)
    ensures
        r is Some <==> fits(token_views(tokens@), 4),
        r matches Some(parsed) ==> program_result_view(parsed) == parse_tokens(
            token_views(tokens@),
        ),
{
    let n = tokens.len();
    if n <= usize::MAX - 4 || tokens[n - 1].is_eof() {
        Some(parse(tokens))
    } else {
        None
    }
}

/// Lexes, parses and runs `code`.
pub fn run_source(code: &str) -> (outcome: Outcome)
    ensures
        outcome@ == interpret(code@),
{
    run_classified(classify(code))
}

/// Lexes, parses and runs a source text whose characters are classified
/// already.
pub fn run_classified(src: Vec<SourceChar>) -> (outcome: Outcome)
    ensures
        outcome@ == outcome_of(execute(src@)),
{
    let tokens = match Lexer::from_classified(src).tokenize() {
        Ok(tokens) => tokens,
        Err(e) => {
            let outcome = Outcome { output: Vec::new(), error: Some(Error::Lex(e)) };
            assert(outcome@.output == Seq::<Seq<char>>::empty());
            return outcome;
        },
    };
    let program = match parse(tokens) {
        Ok(program) => program,
        Err(e) => {
            let outcome = Outcome { output: Vec::new(), error: Some(Error::Parse(e)) };
            assert(outcome@.output == Seq::<Seq<char>>::empty());
            return outcome;
        },
    };
    let mut vm = Interpreter::new();
    let error = match vm.run(program) {
        Ok(_) => None,
        Err(e) => Some(Error::Runtime(e)),
    };
    Outcome { output: vm.into_lines(), error }
}

} // verus!

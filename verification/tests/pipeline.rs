use toy_lang::interp::RuntimeError;
use toy_lang::lexer::LexError;
use toy_lang::parser::ParseError;
use toy_lang::pipeline::{run_classified, run_source, Error, Outcome};
use toy_lang::text::{chars_of, classify, push_decimal, push_range};
use toy_lang::token::Token;

fn lines(expected: &[&str]) -> Vec<String> {
    expected.iter().map(|l| l.to_string()).collect()
}

#[test]
fn hello_bob() {
    let outcome = run_source("let name = \"Bob\"; print(\"Hello, {}!\", name);");
    assert_eq!(outcome, Outcome { output: lines(&["Hello, Bob!"]), error: None });
}

#[test]
fn print_hi_emits_hi() {
    assert_eq!(run_source("print(\"hi\");"), Outcome { output: lines(&["hi"]), error: None });
}

#[test]
fn escapes_reach_the_output_resolved() {
    let outcome = run_source("let x = \"a\\tb\\\\\\\"c\\n\"; print(\"[{}]\", x);");
    assert_eq!(outcome, Outcome { output: lines(&["[a\tb\\\"c\n]"]), error: None });
}

#[test]
fn one_argument_two_markers_fails_with_missing_arguments() {
    let outcome = run_source("let a = \"1\"; print(\"{} and {}\", a);");
    assert_eq!(outcome.error, Some(Error::Runtime(RuntimeError::MissingArguments)));
    assert_eq!(outcome.output, lines(&[]));
}

#[test]
fn two_arguments_one_marker_fails_with_too_many_arguments() {
    let outcome = run_source("let a = \"1\"; let b = \"2\"; print(\"{}\", a, b);");
    assert_eq!(outcome.error, Some(Error::Runtime(RuntimeError::TooManyArguments)));
    assert_eq!(outcome.output, lines(&[]));
}

#[test]
fn never_bound_variable_fails_with_undefined_variable() {
    let outcome = run_source("print(\"{}\", missing);");
    assert_eq!(
        outcome.error,
        Some(Error::Runtime(RuntimeError::UndefinedVariable { name: "missing".to_string() }))
    );
}

#[test]
fn unterminated_string_fails_in_the_lexer() {
    let outcome = run_source("let x = \"abc");
    assert_eq!(
        outcome,
        Outcome { output: lines(&[]), error: Some(Error::Lex(LexError::UnterminatedString)) }
    );
}

#[test]
fn missing_semicolon_fails_in_the_parser() {
    let outcome = run_source("let x = \"abc\"");
    assert_eq!(
        outcome.error,
        Some(Error::Parse(ParseError::Expected { expected: Token::Semicolon, found: Token::Eof }))
    );
}

#[test]
fn second_let_overwrites_and_later_prints_use_it() {
    let outcome = run_source(
        "let x = \"1\"; print(\"{}\", x); let x = \"2\"; print(\"{}\", x); print(\"{}{}\", x, x);",
    );
    assert_eq!(outcome, Outcome { output: lines(&["1", "2", "22"]), error: None });
}

#[test]
fn parse_error_prevents_any_output() {
    let outcome = run_source("print(\"shown?\"); let x = ;");
    assert_eq!(outcome.output, lines(&[]));
    assert_eq!(
        outcome.error,
        Some(Error::Parse(ParseError::ExpectedStringAfterEqual { found: Token::Semicolon }))
    );
}

#[test]
fn lex_error_anywhere_prevents_any_output() {
    let outcome = run_source("print(\"shown?\"); let x = 1;");
    assert_eq!(outcome.output, lines(&[]));
    assert_eq!(outcome.error, Some(Error::Lex(LexError::UnexpectedChar { ch: '1', pos: 25 })));
}

#[test]
fn runtime_error_keeps_earlier_output() {
    let outcome = run_source("print(\"one\"); print(\"{}\", x); print(\"three\");");
    assert_eq!(outcome.output, lines(&["one"]));
    assert_eq!(
        outcome.error,
        Some(Error::Runtime(RuntimeError::UndefinedVariable { name: "x".to_string() }))
    );
}

#[test]
fn text_after_a_closing_brace_is_not_run() {
    let outcome = run_source("print(\"a\"); } print(\"b\");");
    assert_eq!(outcome, Outcome { output: lines(&["a"]), error: None });
}

#[test]
fn empty_source_runs_to_nothing() {
    assert_eq!(run_source(""), Outcome { output: lines(&[]), error: None });
}

#[test]
fn errors_carry_their_stage_label() {
    assert_eq!(
        Error::Lex(LexError::UnexpectedChar { ch: '#', pos: 12 }).message(),
        "Lex error: Unexpected char: '#' at 12"
    );
    assert_eq!(
        Error::Parse(ParseError::Expected { expected: Token::Semicolon, found: Token::Eof })
            .message(),
        "Parse error: Expected Semicolon, found Eof"
    );
    assert_eq!(
        Error::Runtime(RuntimeError::UndefinedVariable { name: "missing".to_string() }).message(),
        "Runtime error: Undefined variable: missing"
    );
    assert_eq!(
        Error::Runtime(RuntimeError::MissingArguments).message(),
        "Runtime error: missing arguments for placeholders"
    );
    assert_eq!(
        Error::Runtime(RuntimeError::TooManyArguments).message(),
        "Runtime error: too many arguments for placeholders"
    );
}

#[test]
fn chars_of_keeps_every_character() {
    assert_eq!(chars_of("a\u{e9}\u{1f600}b"), vec!['a', '\u{e9}', '\u{1f600}', 'b']);
    assert_eq!(chars_of(""), Vec::<char>::new());
}

#[test]
fn push_decimal_writes_digits() {
    let mut s = String::from("n=");
    push_decimal(&mut s, 0);
    s.push(',');
    push_decimal(&mut s, 7);
    s.push(',');
    push_decimal(&mut s, 10);
    s.push(',');
    push_decimal(&mut s, 90817);
    s.push(',');
    push_decimal(&mut s, usize::MAX);
    assert_eq!(s, format!("n=0,7,10,90817,{}", usize::MAX));
}

#[test]
fn push_range_appends_the_slice() {
    let v = vec!['a', 'b', 'c', 'd'];
    let mut s = String::from(">");
    push_range(&mut s, &v, 1, 3);
    push_range(&mut s, &v, 2, 2);
    push_range(&mut s, &v, 0, 4);
    assert_eq!(s, ">bcabcd");
}

#[test]
fn classified_source_runs_like_its_text() {
    let code = "let who = \"you\"; print(\"hey {}\", who);";
    assert_eq!(run_classified(classify(code)), run_source(code));
    assert_eq!(run_classified(classify(code)).output, lines(&["hey you"]));
}

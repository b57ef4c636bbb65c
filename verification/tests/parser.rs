use toy_lang::ast::{Program, Stmt};
use toy_lang::parser::{ParseError, Parser};
use toy_lang::pipeline::{parse, parse_checked, tokenize};
use toy_lang::token::Token;

fn parse_source(src: &str) -> Result<Program, ParseError> {
    parse(tokenize(src).unwrap())
}

fn let_stmt(name: &str, value: &str) -> Stmt {
    Stmt::Let { name: name.to_string(), value: value.to_string() }
}

fn print_stmt(format: &str, args: &[&str]) -> Stmt {
    Stmt::Print { format: format.to_string(), args: args.iter().map(|a| a.to_string()).collect() }
}

fn expected(expected: Token, found: Token) -> ParseError {
    ParseError::Expected { expected, found }
}

#[test]
fn parses_print_without_arguments() {
    let program = parse_source("print(\"hi\");").unwrap();
    assert_eq!(program.body, vec![print_stmt("hi", &[])]);
}

#[test]
fn parses_let() {
    let program = parse_source("let x = \"a\\nb\";").unwrap();
    assert_eq!(program.body, vec![let_stmt("x", "a\nb")]);
}

#[test]
fn parses_print_with_arguments_in_order() {
    let program = parse_source("print(\"{} {} {}\", c, a, b);").unwrap();
    assert_eq!(program.body, vec![print_stmt("{} {} {}", &["c", "a", "b"])]);
}

#[test]
fn parses_statements_in_order() {
    let program = parse_source("let name = \"Bob\"; print(\"Hello, {}!\", name); let x = \"\";")
        .unwrap();
    assert_eq!(
        program,
        Program {
            body: vec![
                let_stmt("name", "Bob"),
                print_stmt("Hello, {}!", &["name"]),
                let_stmt("x", "")
            ]
        }
    );
}

#[test]
fn empty_token_sequences_give_the_empty_program() {
    assert_eq!(parse_source("").unwrap().body, vec![]);
    assert_eq!(parse(vec![]).unwrap().body, vec![]);
    assert_eq!(parse(vec![Token::Eof]).unwrap().body, vec![]);
}

#[test]
fn closing_brace_ends_the_program() {
    let program = parse_source("let a = \"1\"; } let b = \"2\";").unwrap();
    assert_eq!(program.body, vec![let_stmt("a", "1")]);
    let mut parser = Parser::new(tokenize("} let b = \"2\";").unwrap());
    assert_eq!(parser.parse().unwrap().body, vec![]);
    assert_eq!(parser.position(), 0);
}

#[test]
fn missing_semicolon_is_a_parse_error() {
    assert_eq!(parse_source("let x = \"abc\""), Err(expected(Token::Semicolon, Token::Eof)));
    assert_eq!(
        parse_source("print(\"abc\") let"),
        Err(expected(Token::Semicolon, Token::Let))
    );
}

#[test]
fn statement_must_begin_with_let_or_print() {
    assert_eq!(
        parse_source("x = \"a\";"),
        Err(ParseError::UnexpectedInStatement { found: Token::Ident("x".to_string()) })
    );
    assert_eq!(
        parse_source("let a = \"1\"; ;"),
        Err(ParseError::UnexpectedInStatement { found: Token::Semicolon })
    );
    assert_eq!(
        parse_source("{"),
        Err(ParseError::UnexpectedInStatement { found: Token::LBrace })
    );
}

#[test]
fn let_requires_name_equal_and_literal() {
    assert_eq!(
        parse_source("let \"x\" = \"a\";"),
        Err(ParseError::ExpectedNameAfterLet { found: Token::Str("x".to_string()) })
    );
    assert_eq!(parse_source("let"), Err(ParseError::ExpectedNameAfterLet { found: Token::Eof }));
    assert_eq!(
        parse_source("let x \"a\";"),
        Err(expected(Token::Equal, Token::Str("a".to_string())))
    );
    assert_eq!(
        parse_source("let x = y;"),
        Err(ParseError::ExpectedStringAfterEqual { found: Token::Ident("y".to_string()) })
    );
    assert_eq!(
        parse_source("let x = ;"),
        Err(ParseError::ExpectedStringAfterEqual { found: Token::Semicolon })
    );
}

#[test]
fn print_requires_its_delimiters() {
    assert_eq!(
        parse_source("print \"a\";"),
        Err(expected(Token::LParen, Token::Str("a".to_string())))
    );
    assert_eq!(
        parse_source("print(x);"),
        Err(ParseError::ExpectedStringInPrint { found: Token::Ident("x".to_string()) })
    );
    assert_eq!(
        parse_source("print(\"a\", \"b\");"),
        Err(ParseError::ExpectedNameAsPrintArg { found: Token::Str("b".to_string()) })
    );
    assert_eq!(
        parse_source("print(\"a\", );"),
        Err(ParseError::ExpectedNameAsPrintArg { found: Token::RParen })
    );
    assert_eq!(
        parse_source("print(\"a\" b);"),
        Err(expected(Token::RParen, Token::Ident("b".to_string())))
    );
    assert_eq!(parse_source("print(\"a\""), Err(expected(Token::RParen, Token::Eof)));
    assert_eq!(parse_source("print(\"a\")"), Err(expected(Token::Semicolon, Token::Eof)));
}

#[test]
fn first_error_aborts_the_parse() {
    assert_eq!(
        parse_source("let a = \"1\"; let = \"2\"; let c = ;"),
        Err(ParseError::ExpectedNameAfterLet { found: Token::Equal })
    );
}

#[test]
fn parse_error_messages() {
    assert_eq!(
        expected(Token::Semicolon, Token::Eof).message(),
        "Expected Semicolon, found Eof"
    );
    assert_eq!(
        ParseError::UnexpectedInStatement { found: Token::Ident("x".to_string()) }.message(),
        "Unexpected token in statement: Ident(\"x\")"
    );
    assert_eq!(
        ParseError::ExpectedNameAfterLet { found: Token::Str("a\"b".to_string()) }.message(),
        "Expected identifier after let, got Str(\"a\\\"b\")"
    );
    assert_eq!(
        ParseError::ExpectedStringAfterEqual { found: Token::Semicolon }.message(),
        "Expected string literal after '=', got Semicolon"
    );
    assert_eq!(
        ParseError::ExpectedStringInPrint { found: Token::RParen }.message(),
        "Expected string literal in print(...), got RParen"
    );
    assert_eq!(
        ParseError::ExpectedNameAsPrintArg { found: Token::Comma }.message(),
        "Expected identifier as print arg, got Comma"
    );
}

#[test]
fn cursor_consumes_one_token_at_a_time() {
    let mut parser = Parser::new(vec![Token::Let, Token::Equal]);
    assert_eq!(parser.position(), 0);
    assert_eq!(parser.peek(), &Token::Let);
    assert_eq!(parser.position(), 0);
    assert_eq!(parser.bump(), Token::Let);
    assert_eq!(parser.position(), 1);
    assert_eq!(parser.expect(&Token::Semicolon), Err(expected(Token::Semicolon, Token::Equal)));
    assert_eq!(parser.position(), 2);
    assert_eq!(parser.peek(), &Token::Eof);
    assert_eq!(parser.bump(), Token::Eof);
    assert_eq!(parser.position(), 3);
    assert_eq!(parser.expect(&Token::Eof), Ok(()));
    assert_eq!(parser.position(), 4);
    assert_eq!(parser.peek(), &Token::Eof);
}

#[test]
fn cursor_moves_on_every_read_beyond_the_end() {
    let mut parser = Parser::new(vec![]);
    assert_eq!(parser.expect(&Token::Eof), Ok(()));
    assert_eq!(parser.position(), 1);
    assert_eq!(parser.expect(&Token::Let), Err(expected(Token::Let, Token::Eof)));
    assert_eq!(parser.position(), 2);
}

#[test]
fn failed_statement_leaves_the_cursor_behind_the_token_that_did_not_fit() {
    let mut parser = Parser::new(vec![Token::Let]);
    assert_eq!(parser.parse_let(), Err(ParseError::ExpectedNameAfterLet { found: Token::Eof }));
    assert_eq!(parser.position(), 2);

    let mut parser = Parser::new(tokenize("let x = ").unwrap());
    assert_eq!(
        parser.parse_let(),
        Err(ParseError::ExpectedStringAfterEqual { found: Token::Eof })
    );
    assert_eq!(parser.position(), 4);

    let mut parser = Parser::new(vec![Token::Let, Token::Ident("x".to_string()), Token::Equal]);
    assert_eq!(
        parser.parse_let(),
        Err(ParseError::ExpectedStringAfterEqual { found: Token::Eof })
    );
    assert_eq!(parser.position(), 4);

    let mut parser = Parser::new(vec![Token::Print, Token::LParen]);
    assert_eq!(parser.parse_print(), Err(ParseError::ExpectedStringInPrint { found: Token::Eof }));
    assert_eq!(parser.position(), 3);

    let mut parser =
        Parser::new(vec![Token::Print, Token::LParen, Token::Str("f".to_string()), Token::Comma]);
    assert_eq!(
        parser.parse_print(),
        Err(ParseError::ExpectedNameAsPrintArg { found: Token::Eof })
    );
    assert_eq!(parser.position(), 5);

    let mut parser = Parser::new(vec![Token::Print, Token::LParen, Token::Str("f".to_string())]);
    assert_eq!(parser.parse_print(), Err(expected(Token::RParen, Token::Eof)));
    assert_eq!(parser.position(), 4);

    let mut parser = Parser::new(vec![Token::Semicolon]);
    assert_eq!(parser.parse_let(), Err(expected(Token::Let, Token::Semicolon)));
    assert_eq!(parser.position(), 1);
}

#[test]
fn statement_parsers_leave_the_cursor_behind_the_statement() {
    let mut parser = Parser::new(tokenize("let a = \"1\"; print(\"{}\", a); x").unwrap());
    assert_eq!(parser.parse_let(), Ok(let_stmt("a", "1")));
    assert_eq!(parser.position(), 5);
    assert_eq!(parser.parse_print(), Ok(print_stmt("{}", &["a"])));
    assert_eq!(parser.position(), 12);
    assert_eq!(
        parser.parse_stmt(),
        Err(ParseError::UnexpectedInStatement { found: Token::Ident("x".to_string()) })
    );
    assert_eq!(parser.position(), 12);
    assert_eq!(parser.parse_let(), Err(expected(Token::Let, Token::Ident("x".to_string()))));
    assert_eq!(parser.position(), 13);
}

#[test]
fn parse_error_clone_is_equal() {
    let e = expected(Token::Semicolon, Token::Str("x".to_string()));
    assert_eq!(e.clone(), e);
}

#[test]
fn parse_checked_parses_what_fits() {
    let parsed = parse_checked(tokenize("let a = \"1\";").unwrap());
    assert_eq!(parsed, Some(Ok(Program { body: vec![let_stmt("a", "1")] })));
    assert_eq!(parse_checked(vec![]), Some(Ok(Program { body: vec![] })));
    assert_eq!(
        parse_checked(vec![Token::Let]),
        Some(Err(ParseError::ExpectedNameAfterLet { found: Token::Eof }))
    );
}

//! The parser: from tokens to a program.
//!
//! ```text
//! program    := statement* ;
//! statement  := let_stmt | print_stmt ;
//! let_stmt   := "let" IDENT "=" STRING ";" ;
//! print_stmt := "print" "(" STRING ("," IDENT)* ")" ";" ;
//! ```
//!
//! The grammar is given by spec functions on a token sequence and a position
//! ([`let_at`], [`print_at`], [`stmt_at`], [`program_from`]). Each method of
//! [`Parser`] is proved to compute the corresponding one. One token of
//! lookahead decides every choice, and the first error ends the parse.

use vstd::prelude::*;
use vstd::string::*;
use crate::ast::{stmt_views, Program, Stmt, StmtView};
use crate::lexer::token_views;
use crate::text::string_views;
use crate::token::{ends_in_eof, token_name, Token, TokenView};

verus! {

/// Why a token sequence is no program.
#[derive(Debug, PartialEq)]
pub enum ParseError {
    /// The token `expected` was required and `found` stood there.
    Expected { expected: Token, found: Token },
    /// `found` begins no statement.
    UnexpectedInStatement { found: Token },
    /// `let` was not followed by an identifier.
    ExpectedNameAfterLet { found: Token },
    /// `=` was not followed by a string literal.
    ExpectedStringAfterEqual { found: Token },
    /// `print(` was not followed by a string literal.
    ExpectedStringInPrint { found: Token },
    /// A comma in the arguments of `print` was not followed by an identifier.
    ExpectedNameAsPrintArg { found: Token },
}

/// The mathematical value of a [`ParseError`].
pub enum ParseErrorView {
    Expected { expected: TokenView, found: TokenView },
    UnexpectedInStatement { found: TokenView },
    ExpectedNameAfterLet { found: TokenView },
    ExpectedStringAfterEqual { found: TokenView },
    ExpectedStringInPrint { found: TokenView },
    ExpectedNameAsPrintArg { found: TokenView },
}

impl View for ParseError {
    type V = ParseErrorView;

    open spec fn view(&self) -> ParseErrorView {
        match self {
            ParseError::Expected { expected, found } => ParseErrorView::Expected {
                expected: expected@,
                found: found@,
            },
            ParseError::UnexpectedInStatement { found } => ParseErrorView::UnexpectedInStatement {
                found: found@,
            },
            ParseError::ExpectedNameAfterLet { found } => ParseErrorView::ExpectedNameAfterLet {
                found: found@,
            },
            ParseError::ExpectedStringAfterEqual {
                found,
            } => ParseErrorView::ExpectedStringAfterEqual { found: found@ },
            ParseError::ExpectedStringInPrint { found } => ParseErrorView::ExpectedStringInPrint {
                found: found@,
            },
            ParseError::ExpectedNameAsPrintArg { found } => ParseErrorView::ExpectedNameAsPrintArg {
                found: found@,
            },
        }
    }
}

impl Clone for ParseError {
    fn clone(&self) -> (r: ParseError)
        ensures
            r@ == self@,
    {
        match self {
            ParseError::Expected { expected, found } => ParseError::Expected {
                expected: expected.clone(),
                found: found.clone(),
            },
            ParseError::UnexpectedInStatement { found } => ParseError::UnexpectedInStatement {
                found: found.clone(),
            },
            ParseError::ExpectedNameAfterLet { found } => ParseError::ExpectedNameAfterLet {
                found: found.clone(),
            },
            ParseError::ExpectedStringAfterEqual { found } => ParseError::ExpectedStringAfterEqual {
                found: found.clone(),
            },
            ParseError::ExpectedStringInPrint { found } => ParseError::ExpectedStringInPrint {
                found: found.clone(),
            },
            ParseError::ExpectedNameAsPrintArg { found } => ParseError::ExpectedNameAsPrintArg {
                found: found.clone(),
            },
        }
    }
}

/// The text that describes a [`ParseError`]: what was expected, and the name
/// of the token that was found.
pub open spec fn parse_error_message(e: ParseErrorView) -> Seq<char> {
    match e {
        ParseErrorView::Expected { expected, found } => "Expected "@ + token_name(expected)
            + ", found "@ + token_name(found),
        ParseErrorView::UnexpectedInStatement { found } => "Unexpected token in statement: "@
            + token_name(found),
        ParseErrorView::ExpectedNameAfterLet { found } => "Expected identifier after let, got "@
            + token_name(found),
        ParseErrorView::ExpectedStringAfterEqual {
            found,
        } => "Expected string literal after '=', got "@ + token_name(found),
        ParseErrorView::ExpectedStringInPrint {
            found,
        } => "Expected string literal in print(...), got "@ + token_name(found),
        ParseErrorView::ExpectedNameAsPrintArg {
            found,
        } => "Expected identifier as print arg, got "@ + token_name(found),
    }
}

impl ParseError {
    /// A description for people.
    pub fn message(&self) -> (r: String)
        ensures
            r@ == parse_error_message(self@),
    {
        match self {
            ParseError::Expected { expected, found } => {
                let mut r = String::from_str("Expected ");
                r.append(expected.name().as_str());
                r.append(", found ");
                r.append(found.name().as_str());
                r
            },
            ParseError::UnexpectedInStatement { found } => {
                let mut r = String::from_str("Unexpected token in statement: ");
                r.append(found.name().as_str());
                r
            },
            ParseError::ExpectedNameAfterLet { found } => {
                let mut r = String::from_str("Expected identifier after let, got ");
                r.append(found.name().as_str());
                r
            },
            ParseError::ExpectedStringAfterEqual { found } => {
                let mut r = String::from_str("Expected string literal after '=', got ");
                r.append(found.name().as_str());
                r
            },
            ParseError::ExpectedStringInPrint { found } => {
                let mut r = String::from_str("Expected string literal in print(...), got ");
                r.append(found.name().as_str());
                r
            },
            ParseError::ExpectedNameAsPrintArg { found } => {
                let mut r = String::from_str("Expected identifier as print arg, got ");
                r.append(found.name().as_str());
                r
            },
        }
    }
}

/// The outcome of parsing one construct: where the cursor stands afterwards,
/// and what was read or why nothing could be.
pub ghost struct Parsed<T> {
    pub next: int,
    pub result: Result<T, ParseErrorView>,
}

/// The token at `pos`; beyond the end of the sequence every token is `Eof`.
pub open spec fn token_or_eof(ts: Seq<TokenView>, pos: int) -> TokenView {
    if 0 <= pos < ts.len() {
        ts[pos]
    } else {
        TokenView::Eof
    }
}

/// Whether the cursor of a parse that begins at `pos` stays a machine
/// integer. Either the statement reads tokens of `ts` only: `ts` ends in
/// `Eof`, which no statement accepts, and `pos` lies before the end. Or there
/// is room for the `n` steps that it may take.
pub open spec fn can_step(ts: Seq<TokenView>, pos: int, n: nat) -> bool {
    ||| ends_in_eof(ts) && pos < ts.len()
    ||| pos + n <= usize::MAX
}

/// Whether the cursor of a parse of `ts` stays a machine integer wherever in
/// `ts` a statement begins: `ts` ends in `Eof`, or there is room for the `n`
/// steps that a statement may take beyond the end.
pub open spec fn fits(ts: Seq<TokenView>, n: nat) -> bool {
    ends_in_eof(ts) || ts.len() + n <= usize::MAX
}

/// Consumes one token and requires it to be `expected`.
pub open spec fn expect_at(ts: Seq<TokenView>, pos: int, expected: TokenView) -> Parsed<()> {
    let found = token_or_eof(ts, pos);
    Parsed {
        next: pos + 1,
        result: if found == expected {
            Ok(())
        } else {
            Err(ParseErrorView::Expected { expected, found })
        },
    }
}

/// A `let` statement at `pos`: the five tokens `let`, an identifier, `=`, a
/// string literal and `;`. The first token that does not fit is consumed and
/// reported, so that the cursor ends one behind it.
pub open spec fn let_at(ts: Seq<TokenView>, pos: int) -> Parsed<StmtView> {
    let t0 = token_or_eof(ts, pos);
    let t1 = token_or_eof(ts, pos + 1);
    let t2 = token_or_eof(ts, pos + 2);
    let t3 = token_or_eof(ts, pos + 3);
    let t4 = token_or_eof(ts, pos + 4);
    if t0 != TokenView::Let {
        Parsed {
            next: pos + 1,
            result: Err(ParseErrorView::Expected { expected: TokenView::Let, found: t0 }),
        }
    } else if !(t1 is Ident) {
        Parsed {
            next: pos + 2,
            result: Err(ParseErrorView::ExpectedNameAfterLet { found: t1 }),
        }
    } else if t2 != TokenView::Equal {
        Parsed {
            next: pos + 3,
            result: Err(ParseErrorView::Expected { expected: TokenView::Equal, found: t2 }),
        }
    } else if !(t3 is Str) {
        Parsed {
            next: pos + 4,
            result: Err(ParseErrorView::ExpectedStringAfterEqual { found: t3 }),
        }
    } else if t4 != TokenView::Semicolon {
        Parsed {
            next: pos + 5,
            result: Err(ParseErrorView::Expected { expected: TokenView::Semicolon, found: t4 }),
        }
    } else {
        Parsed {
            next: pos + 5,
            result: Ok(StmtView::Let { name: t1->Ident_0, value: t3->Str_0 }),
        }
    }
}

/// The arguments of a `print` statement from `pos` on: as long as a comma
/// stands there, the comma and an identifier. `acc` holds the names read so
/// far.
pub open spec fn print_args_at(ts: Seq<TokenView>, pos: int, acc: Seq<Seq<char>>) -> Parsed<
    Seq<Seq<char>>,
>
    decreases ts.len() - pos,
{
    if token_or_eof(ts, pos) == TokenView::Comma {
        match token_or_eof(ts, pos + 1) {
            TokenView::Ident(name) => print_args_at(ts, pos + 2, acc.push(name)),
            found => Parsed {
                next: pos + 2,
                result: Err(ParseErrorView::ExpectedNameAsPrintArg { found }),
            },
        }
    } else {
        Parsed { next: pos, result: Ok(acc) }
    }
}

/// A `print` statement at `pos`: `print`, `(`, a string literal, the
/// arguments, `)` and `;`. The first token that does not fit is consumed and
/// reported.
pub open spec fn print_at(ts: Seq<TokenView>, pos: int) -> Parsed<StmtView> {
    let t0 = token_or_eof(ts, pos);
    let t1 = token_or_eof(ts, pos + 1);
    let t2 = token_or_eof(ts, pos + 2);
    if t0 != TokenView::Print {
        Parsed {
            next: pos + 1,
            result: Err(ParseErrorView::Expected { expected: TokenView::Print, found: t0 }),
        }
    } else if t1 != TokenView::LParen {
        Parsed {
            next: pos + 2,
            result: Err(ParseErrorView::Expected { expected: TokenView::LParen, found: t1 }),
        }
    } else if !(t2 is Str) {
        Parsed {
            next: pos + 3,
            result: Err(ParseErrorView::ExpectedStringInPrint { found: t2 }),
        }
    } else {
        let args = print_args_at(ts, pos + 3, Seq::empty());
        match args.result {
            Err(e) => Parsed { next: args.next, result: Err(e) },
            Ok(names) => {
                let t3 = token_or_eof(ts, args.next);
                let t4 = token_or_eof(ts, args.next + 1);
                if t3 != TokenView::RParen {
                    Parsed {
                        next: args.next + 1,
                        result: Err(
                            ParseErrorView::Expected { expected: TokenView::RParen, found: t3 },
                        ),
                    }
                } else if t4 != TokenView::Semicolon {
                    Parsed {
                        next: args.next + 2,
                        result: Err(
                            ParseErrorView::Expected { expected: TokenView::Semicolon, found: t4 },
                        ),
                    }
                } else {
                    Parsed {
                        next: args.next + 2,
                        result: Ok(StmtView::Print { format: t2->Str_0, args: names }),
                    }
                }
            },
        }
    }
}

/// The statement at `pos`, chosen by its first token, which is not consumed
/// where it begins no statement.
pub open spec fn stmt_at(ts: Seq<TokenView>, pos: int) -> Parsed<StmtView> {
    match token_or_eof(ts, pos) {
        TokenView::Let => let_at(ts, pos),
        TokenView::Print => print_at(ts, pos),
        found => Parsed { next: pos, result: Err(ParseErrorView::UnexpectedInStatement { found }) },
    }
}

/// Whether a token ends the statements of a program.
pub open spec fn ends_program(t: TokenView) -> bool {
    t == TokenView::RBrace || t == TokenView::Eof
}

/// The statements from `pos` up to a closing brace or the end of the input,
/// neither of which is consumed. `acc` holds the statements read so far.
pub open spec fn program_from(ts: Seq<TokenView>, pos: int, acc: Seq<StmtView>) -> Parsed<
    Seq<StmtView>,
>
    decreases ts.len() - pos,
{
    if ends_program(token_or_eof(ts, pos)) {
        Parsed { next: pos, result: Ok(acc) }
    } else {
        let stmt = stmt_at(ts, pos);
        match stmt.result {
            Err(e) => Parsed { next: stmt.next, result: Err(e) },
            Ok(s) => {
                proof {
                    lemma_stmt_advances(ts, pos);
                }
                program_from(ts, stmt.next, acc.push(s))
            },
        }
    }
}

/// The program that a whole token sequence stands for.
pub open spec fn parse_tokens(ts: Seq<TokenView>) -> Result<Seq<StmtView>, ParseErrorView> {
    program_from(ts, 0, Seq::empty()).result
}

/// The view of what parsing one statement gave.
pub open spec fn stmt_result_view(r: Result<Stmt, ParseError>) -> Result<StmtView, ParseErrorView> {
    match r {
        Ok(s) => Ok(s@),
        Err(e) => Err(e@),
    }
}

/// The view of what parsing a program gave.
pub open spec fn program_result_view(r: Result<Program, ParseError>) -> Result<
    Seq<StmtView>,
    ParseErrorView,
> {
    match r {
        Ok(p) => Ok(p@),
        Err(e) => Err(e@),
    }
}

/// The view of what requiring one token gave.
pub open spec fn unit_result_view(r: Result<(), ParseError>) -> Result<(), ParseErrorView> {
    match r {
        Ok(u) => Ok(()),
        Err(e) => Err(e@),
    }
}

/// The arguments of `print` never end before where they began, and arguments
/// that parse end within the token sequence.
pub proof fn lemma_print_args_advance(ts: Seq<TokenView>, pos: int, acc: Seq<Seq<char>>)
    requires
        0 <= pos <= ts.len(),
    ensures
        pos <= print_args_at(ts, pos, acc).next,
        print_args_at(ts, pos, acc).result is Ok ==> print_args_at(ts, pos, acc).next <= ts.len(),
    decreases ts.len() - pos,
{
    if token_or_eof(ts, pos) == TokenView::Comma {
        if let TokenView::Ident(name) = token_or_eof(ts, pos + 1) {
            lemma_print_args_advance(ts, pos + 2, acc.push(name));
        }
    }
}

/// A statement that parses consumes at least one token and ends within the
/// token sequence.
pub proof fn lemma_stmt_advances(ts: Seq<TokenView>, pos: int)
    ensures
        stmt_at(ts, pos).result is Ok ==> 0 <= pos < stmt_at(ts, pos).next <= ts.len(),
{
    if stmt_at(ts, pos).result is Ok {
        if token_or_eof(ts, pos) == TokenView::Print {
            lemma_print_args_advance(ts, pos + 3, Seq::empty());
        }
    }
}

/// A cursor over a token sequence.
pub struct Parser {
    ts: Vec<Token>,
    i: usize,
}

impl Parser {
    /// The tokens that are parsed.
    pub closed spec fn tokens(&self) -> Seq<TokenView> {
        token_views(self.ts@)
    }

    /// The index of the next token to read. It may lie beyond the end of the
    /// tokens, where every token reads as `Eof`.
    pub closed spec fn pos(&self) -> int {
        self.i as int
    }

    /// The tokens are held in memory, so their number is a machine integer.
    proof fn lemma_tokens_are_counted(&self)
        ensures
            self.tokens().len() <= usize::MAX,
    {
        assert(self.tokens().len() == self.ts.len());
    }

    /// A parser at the start of `ts`.
    pub fn new(ts: Vec<Token>) -> (parser: Parser)
        ensures
            parser.tokens() == token_views(ts@),
            parser.pos() == 0,
    {
        Parser { ts, i: 0 }
    }

    /// The index of the next token to read.
    pub fn position(&self) -> (i: usize)
        ensures
            i == self.pos(),
    {
        self.i
    }

    /// The next token, which stays unread. Beyond the end it is `Eof`.
    pub fn peek(&self) -> (t: &Token)
        ensures
            t@ == token_or_eof(self.tokens(), self.pos()),
    {
        if self.i < self.ts.len() {
            &self.ts[self.i]
        } else {
            &Token::Eof
        }
    }

    /// Reads the next token and moves the cursor by one. Beyond the end the
    /// token is `Eof`, and the cursor moves all the same.
    pub fn bump(&mut self) -> (t: Token)
        requires
            old(self).pos() < usize::MAX,
        ensures
            final(self).tokens() == old(self).tokens(),
            t@ == token_or_eof(old(self).tokens(), old(self).pos()),
            final(self).pos() == old(self).pos() + 1,
    {
        let t = self.peek().clone();
        self.i += 1;
        t
    }

    /// Reads the next token and requires it to equal `expected`. The cursor
    /// moves by one whether it does or not.
    pub fn expect(&mut self, expected: &Token) -> (r: Result<(), ParseError>)
        requires
            old(self).pos() < usize::MAX,
        ensures
            final(self).tokens() == old(self).tokens(),
            final(self).pos() == old(self).pos() + 1,
            unit_result_view(r) == expect_at(
                old(self).tokens(),
                old(self).pos(),
                expected@,
            ).result,
    {
        let t = self.bump();
        if t == *expected {
            Ok(())
        } else {
            Err(ParseError::Expected { expected: expected.clone(), found: t })
        }
    }

    /// Parses statements up to a closing brace or the end of the input.
    pub fn parse(&mut self) -> (r: Result<Program, ParseError>)
        requires
            fits(old(self).tokens(), 4),
        ensures
            final(self).tokens() == old(self).tokens(),
            final(self).pos() == program_from(
                old(self).tokens(),
                old(self).pos(),
                Seq::empty(),
            ).next,
            program_result_view(r) == program_from(
                old(self).tokens(),
                old(self).pos(),
                Seq::empty(),
            ).result,
    {
        let mut body: Vec<Stmt> = Vec::new();
        assert(stmt_views(body@) == Seq::<StmtView>::empty());
        loop
            invariant
                self.tokens() == old(self).tokens(),
                fits(self.tokens(), 4),
                program_from(self.tokens(), self.i as int, stmt_views(body@)) == program_from(
                    old(self).tokens(),
                    old(self).pos(),
                    Seq::empty(),
                ),
            decreases self.tokens().len() - self.i,
        {
            let done = match self.peek() {
                Token::RBrace => true,
                Token::Eof => true,
                _ => false,
            };
            if done {
                return Ok(Program { body });
            }
            proof {
                lemma_stmt_advances(self.tokens(), self.i as int);
            }
            let stmt = match self.parse_stmt() {
                Ok(stmt) => stmt,
                Err(e) => {
                    return Err(e);
                },
            };
            proof {
                assert(stmt_views(body@.push(stmt)) == stmt_views(body@).push(stmt@));
            }
            body.push(stmt);
        }
    }

    /// Parses one statement.
    pub fn parse_stmt(&mut self) -> (r: Result<Stmt, ParseError>)
        requires
            fits(old(self).tokens(), 4),
        ensures
            final(self).tokens() == old(self).tokens(),
            final(self).pos() == stmt_at(old(self).tokens(), old(self).pos()).next,
            stmt_result_view(r) == stmt_at(old(self).tokens(), old(self).pos()).result,
    {
        let first = self.peek().clone();
        match first {
            Token::Let => self.parse_let(),
            Token::Print => self.parse_print(),
            other => Err(ParseError::UnexpectedInStatement { found: other }),
        }
    }

    /// Parses a `let` statement.
    pub fn parse_let(&mut self) -> (r: Result<Stmt, ParseError>)
        requires
            can_step(old(self).tokens(), old(self).pos(), 5),
        ensures
            final(self).tokens() == old(self).tokens(),
            final(self).pos() == let_at(old(self).tokens(), old(self).pos()).next,
            stmt_result_view(r) == let_at(old(self).tokens(), old(self).pos()).result,
    {
        proof {
            self.lemma_tokens_are_counted();
        }
        match self.expect(&Token::Let) {
            Ok(_) => {},
            Err(e) => {
                return Err(e);
            },
        }
        let name = match self.bump() {
            Token::Ident(s) => s,
            t => {
                return Err(ParseError::ExpectedNameAfterLet { found: t });
            },
        };
        match self.expect(&Token::Equal) {
            Ok(_) => {},
            Err(e) => {
                return Err(e);
            },
        }
        let value = match self.bump() {
            Token::Str(s) => s,
            t => {
                return Err(ParseError::ExpectedStringAfterEqual { found: t });
            },
        };
        match self.expect(&Token::Semicolon) {
            Ok(_) => {},
            Err(e) => {
                return Err(e);
            },
        }
        Ok(Stmt::Let { name, value })
    }

    /// Parses a `print` statement.
    #[verifier::loop_isolation(false)]
    pub fn parse_print(&mut self) -> (r: Result<Stmt, ParseError>)
        requires
            can_step(old(self).tokens(), old(self).pos(), 5),
            fits(old(self).tokens(), 3),
        ensures
            final(self).tokens() == old(self).tokens(),
            final(self).pos() == print_at(old(self).tokens(), old(self).pos()).next,
            stmt_result_view(r) == print_at(old(self).tokens(), old(self).pos()).result,
    {
        proof {
            self.lemma_tokens_are_counted();
        }
        match self.expect(&Token::Print) {
            Ok(_) => {},
            Err(e) => {
                return Err(e);
            },
        }
        match self.expect(&Token::LParen) {
            Ok(_) => {},
            Err(e) => {
                return Err(e);
            },
        }
        let format = match self.bump() {
            Token::Str(s) => s,
            t => {
                return Err(ParseError::ExpectedStringInPrint { found: t });
            },
        };
        let ghost args_start = self.i as int;
        let mut args: Vec<String> = Vec::new();
        assert(string_views(args@) == Seq::<Seq<char>>::empty());
        loop
            invariant
                self.tokens() == old(self).tokens(),
                can_step(self.tokens(), self.i as int, 2),
                self.i <= self.tokens().len(),
                print_args_at(self.tokens(), self.i as int, string_views(args@)) == print_args_at(
                    self.tokens(),
                    args_start,
                    Seq::empty(),
                ),
            decreases self.tokens().len() - self.i,
        {
            let more = match self.peek() {
                Token::Comma => true,
                _ => false,
            };
            if !more {
                break ;
            }
            match self.expect(&Token::Comma) {
                Ok(_) => {},
                Err(e) => {
                    return Err(e);
                },
            }
            match self.bump() {
                Token::Ident(s) => {
                    proof {
                        assert(string_views(args@.push(s)) == string_views(args@).push(s@));
                    }
                    args.push(s);
                },
                t => {
                    return Err(ParseError::ExpectedNameAsPrintArg { found: t });
                },
            }
        }
        match self.expect(&Token::RParen) {
            Ok(_) => {},
            Err(e) => {
                return Err(e);
            },
        }
        match self.expect(&Token::Semicolon) {
            Ok(_) => {},
            Err(e) => {
                return Err(e);
            },
        }
        Ok(Stmt::Print { format, args })
    }
}

} // verus!

//! The token vocabulary shared by the lexer and the parser.

use vstd::prelude::*;
use vstd::string::*;
use vstd::std_specs::cmp::PartialEqSpecImpl;
use crate::text::{debug_quoted, quoted};

verus! {

/// An atomic lexical unit.
///
/// The brace tokens are part of the vocabulary although no statement uses
/// them.
#[derive(Debug)]
pub enum Token {
    Let,
    Print,
    LParen,
    RParen,
    LBrace,
    RBrace,
    Comma,
    Semicolon,
    Equal,
    Ident(String),
    Str(String),
    Eof,
}

/// The mathematical value of a [`Token`]: the same variants, with the text of
/// identifiers and literals as character sequences.
pub enum TokenView {
    Let,
    Print,
    LParen,
    RParen,
    LBrace,
    RBrace,
    Comma,
    Semicolon,
    Equal,
    Ident(Seq<char>),
    Str(Seq<char>),
    Eof,
}

impl View for Token {
    type V = TokenView;

    open spec fn view(&self) -> TokenView {
        match self {
            Token::Let => TokenView::Let,
            Token::Print => TokenView::Print,
            Token::LParen => TokenView::LParen,
            Token::RParen => TokenView::RParen,
            Token::LBrace => TokenView::LBrace,
            Token::RBrace => TokenView::RBrace,
            Token::Comma => TokenView::Comma,
            Token::Semicolon => TokenView::Semicolon,
            Token::Equal => TokenView::Equal,
            Token::Ident(s) => TokenView::Ident(s@),
            Token::Str(s) => TokenView::Str(s@),
            Token::Eof => TokenView::Eof,
        }
    }
}

impl Clone for Token {
    fn clone(&self) -> (r: Token)
        ensures
            r@ == self@,
    {
        match self {
            Token::Let => Token::Let,
            Token::Print => Token::Print,
            Token::LParen => Token::LParen,
            Token::RParen => Token::RParen,
            Token::LBrace => Token::LBrace,
            Token::RBrace => Token::RBrace,
            Token::Comma => Token::Comma,
            Token::Semicolon => Token::Semicolon,
            Token::Equal => Token::Equal,
            Token::Ident(s) => Token::Ident(s.clone()),
            Token::Str(s) => Token::Str(s.clone()),
            Token::Eof => Token::Eof,
        }
    }
}

impl PartialEq for Token {
    fn eq(&self, other: &Token) -> (r: bool) {
        match (self, other) {
            (Token::Let, Token::Let) => true,
            (Token::Print, Token::Print) => true,
            (Token::LParen, Token::LParen) => true,
            (Token::RParen, Token::RParen) => true,
            (Token::LBrace, Token::LBrace) => true,
            (Token::RBrace, Token::RBrace) => true,
            (Token::Comma, Token::Comma) => true,
            (Token::Semicolon, Token::Semicolon) => true,
            (Token::Equal, Token::Equal) => true,
            (Token::Ident(a), Token::Ident(b)) => *a == *b,
            (Token::Str(a), Token::Str(b)) => *a == *b,
            (Token::Eof, Token::Eof) => true,
            _ => false,
        }
    }
}

impl PartialEqSpecImpl for Token {
    open spec fn obeys_eq_spec() -> bool {
        true
    }

    open spec fn eq_spec(&self, other: &Token) -> bool {
        self@ == other@
    }
}

/// Whether `ts` ends in `Eof`, as every tokenization does.
pub open spec fn ends_in_eof(ts: Seq<TokenView>) -> bool {
    ts.len() > 0 && ts.last() == TokenView::Eof
}

/// A label followed by a text in parentheses.
pub open spec fn labelled(label: Seq<char>, text: Seq<char>) -> Seq<char> {
    label + "("@ + text + ")"@
}

/// A label followed by a text in parentheses.
pub fn label_text(label: &str, text: &str) -> (r: String)
    ensures
        r@ == labelled(label@, text@),
{
    let mut r = String::from_str(label);
    r.append("(");
    r.append(text);
    r.append(")");
    r
}

/// How a token is named in messages: the variant's name, followed for
/// identifiers and literals by the quoted text in parentheses.
pub open spec fn token_name(t: TokenView) -> Seq<char> {
    match t {
        TokenView::Let => "Let"@,
        TokenView::Print => "Print"@,
        TokenView::LParen => "LParen"@,
        TokenView::RParen => "RParen"@,
        TokenView::LBrace => "LBrace"@,
        TokenView::RBrace => "RBrace"@,
        TokenView::Comma => "Comma"@,
        TokenView::Semicolon => "Semicolon"@,
        TokenView::Equal => "Equal"@,
        TokenView::Ident(s) => labelled("Ident"@, debug_quoted(s)),
        TokenView::Str(s) => labelled("Str"@, debug_quoted(s)),
        TokenView::Eof => "Eof"@,
    }
}

impl Token {
    /// Whether this token ends the input.
    pub fn is_eof(&self) -> (r: bool)
        ensures
            r == (self@ == TokenView::Eof),
    {
        match self {
            Token::Eof => true,
            _ => false,
        }
    }

    /// The token's name as it appears in messages.
    pub fn name(&self) -> (r: String)
        ensures
            r@ == token_name(self@),
    {
        match self {
            Token::Let => String::from_str("Let"),
            Token::Print => String::from_str("Print"),
            Token::LParen => String::from_str("LParen"),
            Token::RParen => String::from_str("RParen"),
            Token::LBrace => String::from_str("LBrace"),
            Token::RBrace => String::from_str("RBrace"),
            Token::Comma => String::from_str("Comma"),
            Token::Semicolon => String::from_str("Semicolon"),
            Token::Equal => String::from_str("Equal"),
            Token::Ident(s) => label_text("Ident", quoted(s.as_str()).as_str()),
            Token::Str(s) => label_text("Str", quoted(s.as_str()).as_str()),
            Token::Eof => String::from_str("Eof"),
        }
    }
}

} // verus!

//! The lexer: from source text to tokens.
//!
//! The grammar of tokens is given by spec functions on a sequence of
//! classified characters and a position ([`skip_spaces`], [`string_body`], [`ident_end`],
//! [`token_at`], [`tokens_from`]). Each method of [`Lexer`] is proved to
//! compute the corresponding one.

use vstd::prelude::*;
use vstd::string::*;
use crate::text::{classify, classify_text, decimal, push_decimal, SourceChar};
use crate::token::{ends_in_eof, Token, TokenView};

verus! {

/// Why a source text has no tokenization.
#[derive(Debug, Clone, Copy, PartialEq, Eq)]
pub enum LexError {
    /// A character that begins no token, with its index in the source.
    UnexpectedChar { ch: char, pos: usize },
    /// The input ended inside a string literal.
    UnterminatedString,
    /// The input ended right after a backslash inside a string literal.
    UnfinishedEscape,
    /// A backslash inside a string literal was followed by `ch`, which names
    /// no escape.
    UnsupportedEscape { ch: char },
}

/// The text that describes a [`LexError`].
pub open spec fn lex_error_message(e: LexError) -> Seq<char> {
    match e {
        LexError::UnexpectedChar { ch, pos } => "Unexpected char: '"@.push(ch) + "' at "@ + decimal(
            pos as nat,
        ),
        LexError::UnterminatedString => "Unterminated string"@,
        LexError::UnfinishedEscape => "Unfinished escape in string"@,
        LexError::UnsupportedEscape { ch } => "Unsupported escape: \\"@.push(ch),
    }
}

impl LexError {
    /// A description for people.
    pub fn message(&self) -> (r: String)
        ensures
            r@ == lex_error_message(*self),
    {
        match self {
            LexError::UnexpectedChar { ch, pos } => {
                let mut r = String::from_str("Unexpected char: '");
                r.push(*ch);
                r.append("' at ");
                push_decimal(&mut r, *pos);
                r
            },
            LexError::UnterminatedString => String::from_str("Unterminated string"),
            LexError::UnfinishedEscape => String::from_str("Unfinished escape in string"),
            LexError::UnsupportedEscape { ch } => {
                let mut r = String::from_str("Unsupported escape: \\");
                r.push(*ch);
                r
            },
        }
    }
}

/// The outcome of scanning one construct: where the cursor stands afterwards,
/// and what was read or why nothing could be.
pub ghost struct Scan<T> {
    pub next: int,
    pub result: Result<T, LexError>,
}

/// The characters of `src` without their classes.
pub open spec fn chars(src: Seq<SourceChar>) -> Seq<char> {
    src.map_values(|c: SourceChar| c.ch)
}

/// The character at `pos`, if `pos` lies within `src`.
pub open spec fn char_at(src: Seq<SourceChar>, pos: int) -> Option<char> {
    if 0 <= pos < src.len() {
        Some(src[pos].ch)
    } else {
        None
    }
}

/// The first position at or after `pos` that holds no whitespace; the length
/// of `src` if there is none.
pub open spec fn skip_spaces(src: Seq<SourceChar>, pos: int) -> int
    decreases src.len() - pos,
{
    if 0 <= pos < src.len() && src[pos].is_space() {
        skip_spaces(src, pos + 1)
    } else {
        pos
    }
}

/// The first position at or after `pos` that holds no character of a word;
/// the length of `src` if there is none.
pub open spec fn ident_end(src: Seq<SourceChar>, pos: int) -> int
    decreases src.len() - pos,
{
    if 0 <= pos < src.len() && src[pos].continues_word() {
        ident_end(src, pos + 1)
    } else {
        pos
    }
}

/// The character that a backslash followed by `c` stands for.
pub open spec fn unescape(c: char) -> Option<char> {
    if c == 'n' {
        Some('\n')
    } else if c == 't' {
        Some('\t')
    } else if c == '"' {
        Some('"')
    } else if c == '\\' {
        Some('\\')
    } else {
        None
    }
}

/// Scans the rest of a string literal whose opening quote has been consumed.
/// `acc` holds the characters read so far. Characters are taken as they are
/// up to the closing quote, except that a backslash and its follower stand
/// for one character.
pub open spec fn string_body(src: Seq<SourceChar>, pos: int, acc: Seq<char>) -> Scan<Seq<char>>
    decreases src.len() - pos,
{
    if !(0 <= pos < src.len()) {
        Scan { next: pos, result: Err(LexError::UnterminatedString) }
    } else if src[pos].ch == '"' {
        Scan { next: pos + 1, result: Ok(acc) }
    } else if src[pos].ch == '\\' {
        if pos + 1 >= src.len() {
            Scan { next: pos + 1, result: Err(LexError::UnfinishedEscape) }
        } else {
            match unescape(src[pos + 1].ch) {
                Some(c) => string_body(src, pos + 2, acc.push(c)),
                None => Scan {
                    next: pos + 2,
                    result: Err(LexError::UnsupportedEscape { ch: src[pos + 1].ch }),
                },
            }
        }
    } else {
        string_body(src, pos + 1, acc.push(src[pos].ch))
    }
}

/// The token for a word: a keyword, or else an identifier.
pub open spec fn word_token(text: Seq<char>) -> TokenView {
    if text == "let"@ {
        TokenView::Let
    } else if text == "print"@ {
        TokenView::Print
    } else {
        TokenView::Ident(text)
    }
}

/// The token of a single punctuation character.
pub open spec fn punctuation(c: char) -> Option<TokenView> {
    if c == '(' {
        Some(TokenView::LParen)
    } else if c == ')' {
        Some(TokenView::RParen)
    } else if c == '{' {
        Some(TokenView::LBrace)
    } else if c == '}' {
        Some(TokenView::RBrace)
    } else if c == ',' {
        Some(TokenView::Comma)
    } else if c == ';' {
        Some(TokenView::Semicolon)
    } else if c == '=' {
        Some(TokenView::Equal)
    } else {
        None
    }
}

/// The next token at or after `pos`: whitespace is skipped, then the first
/// character decides. At the end of the input the token is `Eof` and the
/// cursor stays.
pub open spec fn token_at(src: Seq<SourceChar>, pos: int) -> Scan<TokenView> {
    let p = skip_spaces(src, pos);
    if !(0 <= p < src.len()) {
        Scan { next: p, result: Ok(TokenView::Eof) }
    } else if punctuation(src[p].ch) is Some {
        Scan { next: p + 1, result: Ok(punctuation(src[p].ch)->0) }
    } else if src[p].ch == '"' {
        let body = string_body(src, p + 1, Seq::empty());
        Scan {
            next: body.next,
            result: match body.result {
                Ok(text) => Ok(TokenView::Str(text)),
                Err(e) => Err(e),
            },
        }
    } else if src[p].starts_word() {
        let end = ident_end(src, p + 1);
        Scan { next: end, result: Ok(word_token(chars(src.subrange(p, end)))) }
    } else {
        Scan {
            next: p + 1,
            result: Err(LexError::UnexpectedChar { ch: src[p].ch, pos: p as usize }),
        }
    }
}

/// `first` in front of what `rest` holds, or the error of `rest`.
pub open spec fn prepend<T>(first: Seq<T>, rest: Result<Seq<T>, LexError>) -> Result<
    Seq<T>,
    LexError,
> {
    match rest {
        Ok(more) => Ok(first + more),
        Err(e) => Err(e),
    }
}

/// All tokens from `pos` on, up to and including the `Eof` that ends them, or
/// the first error.
pub open spec fn tokens_from(src: Seq<SourceChar>, pos: int) -> Result<Seq<TokenView>, LexError>
    decreases src.len() - pos,
{
    let scan = token_at(src, pos);
    match scan.result {
        Err(e) => Err(e),
        Ok(TokenView::Eof) => Ok(seq![TokenView::Eof]),
        Ok(t) => {
            proof {
                lemma_token_advances(src, pos);
            }
            prepend(seq![t], tokens_from(src, scan.next))
        },
    }
}

/// The tokens of a whole source text.
pub open spec fn lex(src: Seq<char>) -> Result<Seq<TokenView>, LexError> {
    tokens_from(classify_text(src), 0)
}

/// The views of a sequence of tokens.
pub open spec fn token_views(ts: Seq<Token>) -> Seq<TokenView> {
    ts.map_values(|t: Token| t@)
}

/// The view of what a scan of a string literal gave.
pub open spec fn text_result_view(r: Result<String, LexError>) -> Result<Seq<char>, LexError> {
    match r {
        Ok(s) => Ok(s@),
        Err(e) => Err(e),
    }
}

/// The view of what a scan of one token gave.
pub open spec fn token_result_view(r: Result<Token, LexError>) -> Result<TokenView, LexError> {
    match r {
        Ok(t) => Ok(t@),
        Err(e) => Err(e),
    }
}

/// The view of what a tokenization gave.
pub open spec fn tokens_result_view(r: Result<Vec<Token>, LexError>) -> Result<
    Seq<TokenView>,
    LexError,
> {
    match r {
        Ok(ts) => Ok(token_views(ts@)),
        Err(e) => Err(e),
    }
}

/// Skipping whitespace never moves back, stays within the source, and stops
/// at the end or on a character that is no whitespace.
pub proof fn lemma_skip_spaces(src: Seq<SourceChar>, pos: int)
    requires
        0 <= pos <= src.len(),
    ensures
        pos <= skip_spaces(src, pos) <= src.len(),
        forall|k: int| pos <= k < skip_spaces(src, pos) ==> (#[trigger] src[k]).is_space(),
        skip_spaces(src, pos) < src.len() ==> !src[skip_spaces(src, pos)].is_space(),
    decreases src.len() - pos,
{
    if pos < src.len() && src[pos].is_space() {
        lemma_skip_spaces(src, pos + 1);
    }
}

/// A word extends over characters of words only, stays within the source,
/// and stops at the end or on a character that cannot continue it.
pub proof fn lemma_ident_end(src: Seq<SourceChar>, pos: int)
    requires
        0 <= pos <= src.len(),
    ensures
        pos <= ident_end(src, pos) <= src.len(),
        forall|k: int| pos <= k < ident_end(src, pos) ==> (#[trigger] src[k]).continues_word(),
        ident_end(src, pos) < src.len() ==> !src[ident_end(src, pos)].continues_word(),
    decreases src.len() - pos,
{
    if pos < src.len() && src[pos].continues_word() {
        lemma_ident_end(src, pos + 1);
    }
}

/// Scanning a string literal leaves the cursor within the source, and past
/// where it began unless the input had already ended.
pub proof fn lemma_string_body(src: Seq<SourceChar>, pos: int, acc: Seq<char>)
    requires
        0 <= pos <= src.len(),
    ensures
        pos <= string_body(src, pos, acc).next <= src.len(),
    decreases src.len() - pos,
{
    if pos < src.len() && src[pos].ch != '"' {
        if src[pos].ch == '\\' {
            if pos + 1 < src.len() && unescape(src[pos + 1].ch) is Some {
                lemma_string_body(src, pos + 2, acc.push(unescape(src[pos + 1].ch)->0));
            }
        } else {
            lemma_string_body(src, pos + 1, acc.push(src[pos].ch));
        }
    }
}

/// Every token but `Eof` consumes at least one character, and no token reads
/// past the end of the source.
pub proof fn lemma_token_advances(src: Seq<SourceChar>, pos: int)
    ensures
        0 <= pos <= src.len() ==> pos <= token_at(src, pos).next <= src.len(),
        0 <= pos <= src.len() && token_at(src, pos).result != Ok::<TokenView, LexError>(
            TokenView::Eof,
        ) ==> pos < token_at(src, pos).next,
        !(0 <= pos <= src.len()) ==> token_at(src, pos).result == Ok::<TokenView, LexError>(
            TokenView::Eof,
        ),
{
    if 0 <= pos <= src.len() {
        lemma_skip_spaces(src, pos);
        let p = skip_spaces(src, pos);
        if p < src.len() {
            lemma_string_body(src, p + 1, Seq::empty());
            lemma_ident_end(src, p + 1);
        }
    }
}

/// Every tokenization ends in `Eof` and holds no other `Eof`.
pub proof fn lemma_tokens_end_in_one_eof(src: Seq<SourceChar>, pos: int)
    ensures
        match tokens_from(src, pos) {
            Ok(ts) => {
                &&& ts.len() >= 1
                &&& ts.last() == TokenView::Eof
                &&& forall|i: int| 0 <= i < ts.len() - 1 ==> ts[i] != TokenView::Eof
            },
            Err(_) => true,
        },
    decreases src.len() - pos,
{
    let scan = token_at(src, pos);
    match scan.result {
        Err(_) => {},
        Ok(TokenView::Eof) => {},
        Ok(t) => {
            lemma_token_advances(src, pos);
            lemma_tokens_end_in_one_eof(src, scan.next);
        },
    }
}

/// A cursor over the characters of a source text.
pub struct Lexer {
    src: Vec<SourceChar>,
    i: usize,
}

impl Lexer {
    #[verifier::type_invariant]
    spec fn in_bounds(&self) -> bool {
        self.i <= self.src.len()
    }

    /// The characters of the source text, each with its classes.
    pub closed spec fn source(&self) -> Seq<SourceChar> {
        self.src@
    }

    /// The index of the next character to read.
    pub closed spec fn pos(&self) -> int {
        self.i as int
    }

    /// The index of the next character to read, which never lies beyond the
    /// end of the source.
    pub fn position(&self) -> (i: usize)
        ensures
            i == self.pos(),
            i <= self.source().len(),
    {
        proof {
            use_type_invariant(self);
        }
        self.i
    }

    /// A lexer at the start of `s`.
    pub fn new(s: &str) -> (lexer: Lexer)
        ensures
            lexer.source() == classify_text(s@),
            lexer.pos() == 0,
    {
        Lexer { src: classify(s), i: 0 }
    }

    /// A lexer at the start of characters that are classified already.
    pub fn from_classified(src: Vec<SourceChar>) -> (lexer: Lexer)
        ensures
            lexer.source() == src@,
            lexer.pos() == 0,
    {
        Lexer { src, i: 0 }
    }

    /// The next character with its classes, which stays unread.
    fn peek_classified(&self) -> (c: Option<SourceChar>)
        ensures
            match c {
                Some(c) => 0 <= self.pos() < self.source().len() && c == self.source()[self.pos()],
                None => self.pos() >= self.source().len(),
            },
    {
        if self.i < self.src.len() {
            Some(self.src[self.i])
        } else {
            None
        }
    }

    /// The next character, which stays unread.
    pub fn peek(&self) -> (c: Option<char>)
        ensures
            c == char_at(self.source(), self.pos()),
    {
        if self.i < self.src.len() {
            Some(self.src[self.i].ch)
        } else {
            None
        }
    }

    /// Reads the next character, if there is one.
    pub fn bump(&mut self) -> (c: Option<char>)
        ensures
            final(self).source() == old(self).source(),
            c == char_at(old(self).source(), old(self).pos()),
            final(self).pos() == if c is Some {
                old(self).pos() + 1
            } else {
                old(self).pos()
            },
    {
        if self.i < self.src.len() {
            let c = self.src[self.i].ch;
            self.i += 1;
            Some(c)
        } else {
            None
        }
    }

    /// Moves the cursor over whitespace.
    pub fn skip_ws(&mut self)
        ensures
            final(self).source() == old(self).source(),
            final(self).pos() == skip_spaces(old(self).source(), old(self).pos()),
    {
        proof {
            use_type_invariant(&*self);
        }
        while self.i < self.src.len() && self.src[self.i].space
            invariant
                self.src@ == old(self).src@,
                self.i <= self.src.len(),
                skip_spaces(self.src@, self.i as int) == skip_spaces(
                    old(self).src@,
                    old(self).i as int,
                ),
            decreases self.src.len() - self.i,
        {
            self.i += 1;
        }
    }

    /// Reads a string literal whose opening quote has been consumed, up to and
    /// including its closing quote, and returns its text with escapes
    /// resolved.
    pub fn string(&mut self) -> (r: Result<String, LexError>)
        ensures
            final(self).source() == old(self).source(),
            final(self).pos() == string_body(
                old(self).source(),
                old(self).pos(),
                Seq::empty(),
            ).next,
            text_result_view(r) == string_body(
                old(self).source(),
                old(self).pos(),
                Seq::empty(),
            ).result,
    {
        proof {
            use_type_invariant(&*self);
        }
        let mut out = String::new();
        loop
            invariant
                self.src@ == old(self).src@,
                self.i <= self.src.len(),
                string_body(self.src@, self.i as int, out@) == string_body(
                    old(self).src@,
                    old(self).i as int,
                    Seq::empty(),
                ),
            decreases self.src.len() - self.i,
        {
            match self.bump() {
                None => {
                    return Err(LexError::UnterminatedString);
                },
                Some(c) => {
                    if c == '"' {
                        return Ok(out);
                    } else if c == '\\' {
                        match self.bump() {
                            None => {
                                return Err(LexError::UnfinishedEscape);
                            },
                            Some(esc) => {
                                if esc == 'n' {
                                    out.push('\n');
                                } else if esc == 't' {
                                    out.push('\t');
                                } else if esc == '"' {
                                    out.push('"');
                                } else if esc == '\\' {
                                    out.push('\\');
                                } else {
                                    return Err(LexError::UnsupportedEscape { ch: esc });
                                }
                            },
                        }
                    } else {
                        out.push(c);
                    }
                },
            }
        }
    }

    /// Reads the rest of a word whose first character `first` has been
    /// consumed, and returns the whole word.
    pub fn ident_or_kw(&mut self, first: char) -> (word: String)
        ensures
            final(self).source() == old(self).source(),
            final(self).pos() == ident_end(old(self).source(), old(self).pos()),
            word@ == seq![first] + chars(
                old(self).source().subrange(old(self).pos(), final(self).pos()),
            ),
    {
        proof {
            use_type_invariant(&*self);
        }
        let mut s = String::new();
        s.push(first);
        while self.i < self.src.len() && (self.src[self.i].alphanumeric || self.src[self.i].ch
            == '_')
            invariant
                self.src@ == old(self).src@,
                old(self).i <= self.i <= self.src.len(),
                ident_end(self.src@, self.i as int) == ident_end(
                    old(self).src@,
                    old(self).i as int,
                ),
                s@ == seq![first] + chars(self.src@.subrange(old(self).i as int, self.i as int)),
            decreases self.src.len() - self.i,
        {
            s.push(self.src[self.i].ch);
            self.i += 1;
        }
        s
    }

    /// Reads the next token.
    pub fn next_token(&mut self) -> (r: Result<Token, LexError>)
        ensures
            final(self).source() == old(self).source(),
            final(self).pos() == token_at(old(self).source(), old(self).pos()).next,
            token_result_view(r) == token_at(old(self).source(), old(self).pos()).result,
    {
        proof {
            use_type_invariant(&*self);
            lemma_skip_spaces(self.src@, self.i as int);
        }
        self.skip_ws();
        let here = match self.peek_classified() {
            None => {
                return Ok(Token::Eof);
            },
            Some(here) => here,
        };
        self.i += 1;
        let c = here.ch;
        if c == '(' {
            Ok(Token::LParen)
        } else if c == ')' {
            Ok(Token::RParen)
        } else if c == '{' {
            Ok(Token::LBrace)
        } else if c == '}' {
            Ok(Token::RBrace)
        } else if c == ',' {
            Ok(Token::Comma)
        } else if c == ';' {
            Ok(Token::Semicolon)
        } else if c == '=' {
            Ok(Token::Equal)
        } else if c == '"' {
            match self.string() {
                Ok(s) => Ok(Token::Str(s)),
                Err(e) => Err(e),
            }
        } else if here.alphabetic || c == '_' {
            let ghost start = self.i as int - 1;
            let s = self.ident_or_kw(c);
            proof {
                lemma_ident_end(self.src@, start + 1);
                let tail = self.src@.subrange(start + 1, self.i as int);
                let word = self.src@.subrange(start, self.i as int);
                assert(chars(word) == seq![c] + chars(tail));
            }
            if s == String::from_str("let") {
                Ok(Token::Let)
            } else if s == String::from_str("print") {
                Ok(Token::Print)
            } else {
                Ok(Token::Ident(s))
            }
        } else {
            Err(LexError::UnexpectedChar { ch: c, pos: self.i - 1 })
        }
    }

    /// Reads all remaining tokens, through the `Eof` that ends them.
    pub fn tokenize(self) -> (r: Result<Vec<Token>, LexError>)
        ensures
            tokens_result_view(r) == tokens_from(self.source(), self.pos()),
            r matches Ok(ts) ==> ends_in_eof(token_views(ts@)),
    {
        let mut lexer = self;
        proof {
            use_type_invariant(&lexer);
            lemma_tokens_end_in_one_eof(self.source(), self.pos());
        }
        let ghost src = lexer.src@;
        let ghost start = lexer.i as int;
        let mut ts: Vec<Token> = Vec::new();
        loop
            invariant
                src == self.src@,
                start == self.i as int,
                lexer.src@ == src,
                lexer.i <= lexer.src.len(),
                prepend(token_views(ts@), tokens_from(src, lexer.i as int)) == tokens_from(
                    src,
                    start,
                ),
            decreases lexer.src.len() - lexer.i,
        {
            let ghost at = lexer.i as int;
            proof {
                lemma_token_advances(src, at);
            }
            let t = match lexer.next_token() {
                Ok(t) => t,
                Err(e) => {
                    return Err(e);
                },
            };
            let end = t.is_eof();
            proof {
                use_type_invariant(&lexer);
                let sofar = token_views(ts@);
                assert(token_views(ts@.push(t)) == sofar.push(t@));
                if end {
                    assert(sofar + seq![t@] == sofar.push(t@));
                } else {
                    let rest = tokens_from(src, lexer.i as int);
                    if let Ok(more) = rest {
                        assert(sofar + (seq![t@] + more) == sofar.push(t@) + more);
                    }
                }
            }
            ts.push(t);
            if end {
                return Ok(ts);
            }
        }
    }
}

} // verus!

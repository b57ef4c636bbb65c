//! What holds of the lexer.

use vstd::prelude::*;
use crate::lexer::{
    chars, ident_end, lemma_skip_spaces, punctuation, skip_spaces,
    string_body, token_at, tokens_from, word_token, LexError, Scan,
};
use crate::text::SourceChar;
use crate::token::TokenView;

verus! {

/// Whitespace in front of a token changes nothing but where the token
/// begins: the tokens from `pos` on are those from the first position at or
/// after `pos` that holds no whitespace.
pub proof fn lemma_leading_whitespace(src: Seq<SourceChar>, pos: int)
    ensures
        token_at(src, pos) == token_at(src, skip_spaces(src, pos)),
        tokens_from(src, pos) == tokens_from(src, skip_spaces(src, pos)),
{
    if 0 <= pos <= src.len() {
        lemma_skip_spaces(src, pos);
    }
    let p = skip_spaces(src, pos);
    assert(skip_spaces(src, p) == p);
}

/// How one character of a text is written inside a string literal: line
/// feed, tab, quote and backslash after a backslash, any other as it is.
pub open spec fn escape_char(c: char) -> Seq<char> {
    if c == '\n' {
        seq!['\\', 'n']
    } else if c == '\t' {
        seq!['\\', 't']
    } else if c == '"' {
        seq!['\\', '"']
    } else if c == '\\' {
        seq!['\\', '\\']
    } else {
        seq![c]
    }
}

/// How a text is written inside a string literal, between the quotes.
pub open spec fn escaped(text: Seq<char>) -> Seq<char>
    decreases text.len(),
{
    if text.len() == 0 {
        Seq::empty()
    } else {
        escape_char(text[0]) + escaped(text.drop_first())
    }
}

/// Every text can be written as a string literal, and the lexer reads it
/// back character for character: where the escaped form of `text` stands at
/// `pos`, followed by a quote, the scan of the literal gives `text` and ends
/// behind that quote.
pub proof fn lemma_string_literal_reads_back(
    src: Seq<SourceChar>,
    pos: int,
    text: Seq<char>,
    acc: Seq<char>,
)
    requires
        0 <= pos,
        pos + escaped(text).len() < src.len(),
        chars(src.subrange(pos, pos + escaped(text).len())) == escaped(text),
        src[pos + escaped(text).len()].ch == '"',
    ensures
        string_body(src, pos, acc) == (Scan {
            next: pos + escaped(text).len() + 1,
            result: Ok::<Seq<char>, LexError>(acc + text),
        }),
    decreases text.len(),
{
    if text.len() == 0 {
        assert(acc + text == acc);
    } else {
        let c = text[0];
        let rest = text.drop_first();
        let head = escape_char(c);
        let whole = escaped(text);
        assert(whole == head + escaped(rest));
        assert forall|i: int| 0 <= i < whole.len() implies src[pos + i].ch
            == #[trigger] whole[i] by {
            assert(chars(src.subrange(pos, pos + whole.len()))[i] == src[pos + i].ch);
        }
        assert(src[pos].ch == whole[0]);
        if head.len() == 2 {
            assert(src[pos + 1].ch == whole[1]);
        }
        let after = pos + head.len();
        assert(chars(src.subrange(after, after + escaped(rest).len())) == escaped(rest)) by {
            assert forall|i: int| 0 <= i < escaped(rest).len() implies chars(
                src.subrange(after, after + escaped(rest).len()),
            )[i] == escaped(rest)[i] by {
                assert(whole[head.len() + i] == escaped(rest)[i]);
            }
        }
        lemma_string_literal_reads_back(src, after, rest, acc.push(c));
        assert(acc.push(c) + rest == acc + text);
    }
}

/// A character that is a letter.
pub open spec fn letter(c: char) -> SourceChar {
    SourceChar { ch: c, space: false, alphabetic: true, alphanumeric: true }
}

/// A character that is whitespace.
pub open spec fn blank(c: char) -> SourceChar {
    SourceChar { ch: c, space: true, alphabetic: false, alphanumeric: false }
}

/// A character that is neither whitespace nor a letter nor a digit.
pub open spec fn plain(c: char) -> SourceChar {
    SourceChar { ch: c, space: false, alphabetic: false, alphanumeric: false }
}

/// Whether `name` can stand as the name in a `let` statement: it begins
/// with a character that begins a word and no other token, goes on with
/// characters of words, and is no keyword.
pub open spec fn is_name(name: Seq<SourceChar>) -> bool {
    &&& name.len() >= 1
    &&& name[0].starts_word()
    &&& !name[0].is_space()
    &&& punctuation(name[0].ch) is None
    &&& name[0].ch != '"'
    &&& forall|i: int| 1 <= i < name.len() ==> (#[trigger] name[i]).continues_word()
    &&& word_token(chars(name)) == TokenView::Ident(chars(name))
}

/// The source text `let NAME = "LITERAL";`. The characters between the
/// quotes may have any classes.
pub open spec fn let_source(name: Seq<SourceChar>, literal: Seq<SourceChar>) -> Seq<SourceChar> {
    seq![letter('l'), letter('e'), letter('t'), blank(' ')] + name + seq![
        blank(' '),
        plain('='),
        blank(' '),
        plain('"'),
    ] + literal + seq![plain('"'), plain(';')]
}

/// Where characters of words stand from `from` up to `to` and no such
/// character stands at `to`, a word that reaches `from` ends at `to`.
proof fn lemma_word_run(src: Seq<SourceChar>, from: int, to: int)
    requires
        0 <= from <= to <= src.len(),
        forall|k: int| from <= k < to ==> (#[trigger] src[k]).continues_word(),
        to < src.len() ==> !src[to].continues_word(),
    ensures
        ident_end(src, from) == to,
    decreases to - from,
{
    if from < to {
        lemma_word_run(src, from + 1, to);
    }
}

/// The tokens of the statement `let name = "value";`, with the `Eof` that
/// ends a program of this one statement.
pub open spec fn let_tokens(name: Seq<char>, value: Seq<char>) -> Seq<TokenView> {
    seq![
        TokenView::Let,
        TokenView::Ident(name),
        TokenView::Equal,
        TokenView::Str(value),
        TokenView::Semicolon,
        TokenView::Eof,
    ]
}

/// The tokens of `let NAME = "LITERAL";`, where the literal writes `value`
/// with escapes, are those of a `let` statement for the name and `value`.
pub proof fn lemma_let_source_tokens(
    name: Seq<SourceChar>,
    literal: Seq<SourceChar>,
    value: Seq<char>,
)
    requires
        is_name(name),
        chars(literal) == escaped(value),
    ensures
        tokens_from(let_source(name, literal), 0) == Ok::<Seq<TokenView>, LexError>(
            let_tokens(chars(name), value),
        ),
{
    let src = let_source(name, literal);
    let n = name.len() as int;
    let body = escaped(value);
    let m = body.len() as int;
    assert(literal.len() == m);
    assert(src.len() == 10 + n + m);
    assert(src[0] == letter('l') && src[1] == letter('e') && src[2] == letter('t'));
    assert(src[3] == blank(' '));
    assert forall|i: int| 0 <= i < n implies src[4 + i] == name[i] by {}
    assert(src[4 + n] == blank(' '));
    assert(src[5 + n] == plain('='));
    assert(src[6 + n] == blank(' '));
    assert(src[7 + n] == plain('"'));
    assert forall|i: int| 0 <= i < m implies (#[trigger] src[8 + n + i]).ch == body[i] by {
        assert(src[8 + n + i] == literal[i]);
        assert(chars(literal)[i] == literal[i].ch);
    }
    assert(src[8 + n + m] == plain('"'));
    assert(src[9 + n + m] == plain(';'));

    // let
    reveal_with_fuel(skip_spaces, 3);
    assert(skip_spaces(src, 0) == 0);
    lemma_word_run(src, 1, 3);
    assert(chars(src.subrange(0, 3)) == "let"@) by {
        reveal_strlit("let");
        assert(chars(src.subrange(0, 3)) =~= seq!['l', 'e', 't']);
        assert("let"@ =~= seq!['l', 'e', 't']);
    }
    assert(token_at(src, 0) == (Scan {
        next: 3,
        result: Ok::<TokenView, LexError>(TokenView::Let),
    }));

    // NAME
    assert(skip_spaces(src, 3) == 4);
    assert(src[4] == name[0]);
    assert forall|k: int| 5 <= k < 4 + n implies (#[trigger] src[k]).continues_word() by {
        assert(src[4 + (k - 4)] == name[k - 4]);
    }
    lemma_word_run(src, 5, 4 + n);
    assert(chars(src.subrange(4, 4 + n)) == chars(name)) by {
        assert(src.subrange(4, 4 + n) =~= name);
    }
    assert(token_at(src, 3) == (Scan {
        next: 4 + n,
        result: Ok::<TokenView, LexError>(TokenView::Ident(chars(name))),
    }));

    // =
    assert(skip_spaces(src, 4 + n) == 5 + n);
    assert(token_at(src, 4 + n) == (Scan {
        next: 6 + n,
        result: Ok::<TokenView, LexError>(TokenView::Equal),
    }));

    // "LITERAL"
    assert(skip_spaces(src, 6 + n) == 7 + n);
    assert(chars(src.subrange(8 + n, 8 + n + m)) == body) by {
        assert forall|i: int| 0 <= i < m implies chars(src.subrange(8 + n, 8 + n + m))[i]
            == body[i] by {
            assert(src[8 + n + i].ch == body[i]);
        }
    }
    lemma_string_literal_reads_back(src, 8 + n, value, Seq::empty());
    assert(Seq::<char>::empty() + value == value);
    assert(token_at(src, 6 + n) == (Scan {
        next: 9 + n + m,
        result: Ok::<TokenView, LexError>(TokenView::Str(value)),
    }));

    // ;
    assert(skip_spaces(src, 9 + n + m) == 9 + n + m);
    assert(token_at(src, 9 + n + m) == (Scan {
        next: 10 + n + m,
        result: Ok::<TokenView, LexError>(TokenView::Semicolon),
    }));

    // the end
    assert(skip_spaces(src, 10 + n + m) == 10 + n + m);
    assert(token_at(src, 10 + n + m).result == Ok::<TokenView, LexError>(TokenView::Eof));

    let t5 = tokens_from(src, 10 + n + m);
    assert(t5 == Ok::<Seq<TokenView>, LexError>(seq![TokenView::Eof]));
    let t4 = tokens_from(src, 9 + n + m);
    assert(t4 == Ok::<Seq<TokenView>, LexError>(seq![TokenView::Semicolon] + seq![TokenView::Eof]));
    let t3 = tokens_from(src, 6 + n);
    assert(t3 == Ok::<Seq<TokenView>, LexError>(seq![TokenView::Str(value)] + t4->Ok_0));
    let t2 = tokens_from(src, 4 + n);
    assert(t2 == Ok::<Seq<TokenView>, LexError>(seq![TokenView::Equal] + t3->Ok_0));
    let t1 = tokens_from(src, 3);
    assert(t1 == Ok::<Seq<TokenView>, LexError>(seq![TokenView::Ident(chars(name))] + t2->Ok_0));
    let t0 = tokens_from(src, 0);
    assert(t0 == Ok::<Seq<TokenView>, LexError>(seq![TokenView::Let] + t1->Ok_0));
    assert(t0->Ok_0 =~= let_tokens(chars(name), value));
}

} // verus!

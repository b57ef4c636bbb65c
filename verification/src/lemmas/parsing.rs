//! What holds of the parser.

use vstd::prelude::*;
use crate::ast::StmtView;
use crate::parser::{
    parse_tokens, print_args_at, program_from, stmt_at, token_or_eof, ParseErrorView, Parsed,
};
use crate::token::TokenView;

verus! {

/// The tokens of the arguments of a `print`: a comma and an identifier for
/// each.
pub open spec fn arg_tokens(args: Seq<Seq<char>>) -> Seq<TokenView>
    decreases args.len(),
{
    if args.len() == 0 {
        Seq::empty()
    } else {
        seq![TokenView::Comma, TokenView::Ident(args[0])] + arg_tokens(args.drop_first())
    }
}

/// The tokens that a statement is written with.
pub open spec fn stmt_tokens(stmt: StmtView) -> Seq<TokenView> {
    match stmt {
        StmtView::Let { name, value } => seq![
            TokenView::Let,
            TokenView::Ident(name),
            TokenView::Equal,
            TokenView::Str(value),
            TokenView::Semicolon,
        ],
        StmtView::Print { format, args } => seq![
            TokenView::Print,
            TokenView::LParen,
            TokenView::Str(format),
        ] + arg_tokens(args) + seq![TokenView::RParen, TokenView::Semicolon],
    }
}

/// The tokens of a sequence of statements, one statement after the other.
pub open spec fn body_tokens(prog: Seq<StmtView>) -> Seq<TokenView>
    decreases prog.len(),
{
    if prog.len() == 0 {
        Seq::empty()
    } else {
        stmt_tokens(prog[0]) + body_tokens(prog.drop_first())
    }
}

/// The tokens that a program is written with, through the `Eof` that ends
/// them.
pub open spec fn program_tokens(prog: Seq<StmtView>) -> Seq<TokenView> {
    body_tokens(prog).push(TokenView::Eof)
}

/// Whether the tokens `piece` stand in `ts` from index `pos` on.
pub open spec fn stands_at(ts: Seq<TokenView>, pos: int, piece: Seq<TokenView>) -> bool {
    &&& 0 <= pos
    &&& pos + piece.len() <= ts.len()
    &&& forall|i: int| 0 <= i < piece.len() ==> ts[pos + i] == #[trigger] piece[i]
}

/// Where the tokens of `args` stand at `pos` and no comma follows them, the
/// arguments parse to `args` and end behind those tokens.
proof fn lemma_args_parse(ts: Seq<TokenView>, pos: int, args: Seq<Seq<char>>, acc: Seq<Seq<char>>)
    requires
        stands_at(ts, pos, arg_tokens(args)),
        token_or_eof(ts, pos + arg_tokens(args).len()) != TokenView::Comma,
    ensures
        print_args_at(ts, pos, acc) == (Parsed {
            next: pos + arg_tokens(args).len(),
            result: Ok::<Seq<Seq<char>>, ParseErrorView>(acc + args),
        }),
    decreases args.len(),
{
    if args.len() == 0 {
        assert(acc + args == acc);
    } else {
        let piece = arg_tokens(args);
        let rest = arg_tokens(args.drop_first());
        assert(piece[0] == TokenView::Comma);
        assert(piece[1] == TokenView::Ident(args[0]));
        assert(ts[pos + 0] == piece[0]);
        assert(ts[pos + 1] == piece[1]);
        assert forall|i: int| 0 <= i < rest.len() implies ts[pos + 2 + i] == #[trigger] rest[i] by {
            assert(piece[2 + i] == rest[i]);
        }
        lemma_args_parse(ts, pos + 2, args.drop_first(), acc.push(args[0]));
        assert(acc.push(args[0]) + args.drop_first() == acc + args);
    }
}

/// Where the tokens of a statement stand at `pos`, the statement at `pos`
/// parses to it and ends behind those tokens.
pub proof fn lemma_stmt_parses(ts: Seq<TokenView>, pos: int, stmt: StmtView)
    requires
        stands_at(ts, pos, stmt_tokens(stmt)),
    ensures
        stmt_at(ts, pos) == (Parsed {
            next: pos + stmt_tokens(stmt).len(),
            result: Ok::<StmtView, ParseErrorView>(stmt),
        }),
{
    let piece = stmt_tokens(stmt);
    match stmt {
        StmtView::Let { name, value } => {
            assert(ts[pos + 0] == piece[0]);
            assert(ts[pos + 1] == piece[1]);
            assert(ts[pos + 2] == piece[2]);
            assert(ts[pos + 3] == piece[3]);
            assert(ts[pos + 4] == piece[4]);
        },
        StmtView::Print { format, args } => {
            let mid = arg_tokens(args);
            let n = mid.len() as int;
            assert(piece.len() == 5 + n);
            assert(ts[pos + 0] == piece[0]);
            assert(ts[pos + 1] == piece[1]);
            assert(ts[pos + 2] == piece[2]);
            assert(ts[pos + (3 + n)] == piece[3 + n]);
            assert(ts[pos + (4 + n)] == piece[4 + n]);
            assert forall|i: int| 0 <= i < mid.len() implies ts[pos + 3 + i]
                == #[trigger] mid[i] by {
                assert(piece[3 + i] == mid[i]);
            }
            lemma_args_parse(ts, pos + 3, args, Seq::empty());
            assert(Seq::<Seq<char>>::empty() + args == args);
        },
    }
}

/// Where the tokens of `prog` stand at `pos` and a token that ends a
/// program follows them, the statements from `pos` on parse to `prog`.
proof fn lemma_body_parses(
    ts: Seq<TokenView>,
    pos: int,
    prog: Seq<StmtView>,
    acc: Seq<StmtView>,
)
    requires
        stands_at(ts, pos, body_tokens(prog)),
        token_or_eof(ts, pos + body_tokens(prog).len()) == TokenView::Eof,
    ensures
        program_from(ts, pos, acc) == (Parsed {
            next: pos + body_tokens(prog).len(),
            result: Ok::<Seq<StmtView>, ParseErrorView>(acc + prog),
        }),
    decreases prog.len(),
{
    if prog.len() == 0 {
        assert(acc + prog == acc);
    } else {
        let piece = body_tokens(prog);
        let head = stmt_tokens(prog[0]);
        let rest = body_tokens(prog.drop_first());
        assert forall|i: int| 0 <= i < head.len() implies ts[pos + i] == #[trigger] head[i] by {
            assert(piece[i] == head[i]);
        }
        lemma_stmt_parses(ts, pos, prog[0]);
        assert(ts[pos + 0] == head[0]);
        assert forall|i: int| 0 <= i < rest.len() implies ts[pos + head.len() + i]
            == #[trigger] rest[i] by {
            assert(piece[head.len() + i] == rest[i]);
        }
        lemma_body_parses(ts, pos + head.len(), prog.drop_first(), acc.push(prog[0]));
        assert(acc.push(prog[0]) + prog.drop_first() == acc + prog);
    }
}

/// Every program can be written down: the tokens of a program parse to
/// exactly that program.
pub proof fn lemma_program_tokens_parse(prog: Seq<StmtView>)
    ensures
        parse_tokens(program_tokens(prog)) == Ok::<Seq<StmtView>, ParseErrorView>(prog),
{
    let ts = program_tokens(prog);
    assert(stands_at(ts, 0, body_tokens(prog)));
    lemma_body_parses(ts, 0, prog, Seq::empty());
    assert(Seq::<StmtView>::empty() + prog == prog);
}

} // verus!

//! What holds of the three stages together.

use vstd::prelude::*;
use crate::ast::StmtView;
use crate::interp::{initial_state, run_from, run_program, Run, State};
use crate::lemmas::lexing::{
    escaped, is_name, lemma_let_source_tokens, let_source, let_tokens,
};
use crate::lexer::chars;
use crate::parser::{let_at, parse_tokens, program_from, stmt_at, ParseErrorView, Parsed};
use crate::pipeline::{execute, ErrorView};
use crate::text::SourceChar;

verus! {

/// The tokens of a `let` statement parse to that statement, which runs
/// without error, prints nothing, and binds the name to the text and
/// nothing else.
pub proof fn lemma_let_tokens_bind(name: Seq<char>, value: Seq<char>)
    ensures
        parse_tokens(let_tokens(name, value)) == Ok::<Seq<StmtView>, ParseErrorView>(
            seq![StmtView::Let { name, value }],
        ),
        run_program(initial_state(), seq![StmtView::Let { name, value }]) == (Run {
            state: State {
                env: Map::<Seq<char>, Seq<char>>::empty().insert(name, value),
                out: Seq::empty(),
            },
            error: None,
        }),
{
    let ts = let_tokens(name, value);
    let stmt = StmtView::Let { name, value };
    assert(let_at(ts, 0) == (Parsed { next: 5, result: Ok::<StmtView, ParseErrorView>(stmt) }));
    assert(stmt_at(ts, 0) == let_at(ts, 0));
    reveal_with_fuel(program_from, 3);
    assert(Seq::<StmtView>::empty().push(stmt) == seq![stmt]);
    assert(program_from(ts, 5, seq![stmt]).result == Ok::<Seq<StmtView>, ParseErrorView>(
        seq![stmt],
    ));
    reveal_with_fuel(run_from, 3);
}

/// For every name and every text, the source `let NAME = "LITERAL";`,
/// where the literal writes the text with escapes, runs without error and
/// leaves `NAME` bound to exactly the text, the escapes resolved; nothing
/// else is bound and nothing is printed. The characters of the literal may
/// have any classes.
pub proof fn lemma_let_statement_binds(
    name: Seq<SourceChar>,
    literal: Seq<SourceChar>,
    value: Seq<char>,
)
    requires
        is_name(name),
        chars(literal) == escaped(value),
    ensures
        execute(let_source(name, literal)) == Ok::<Run, ErrorView>(
            Run {
                state: State {
                    env: Map::<Seq<char>, Seq<char>>::empty().insert(chars(name), value),
                    out: Seq::empty(),
                },
                error: None,
            },
        ),
{
    lemma_let_source_tokens(name, literal, value);
    lemma_let_tokens_bind(chars(name), value);
}

} // verus!

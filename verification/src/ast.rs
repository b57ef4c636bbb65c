//! Statements and programs.

use vstd::prelude::*;
use crate::text::string_views;

verus! {

/// One executable unit of a program.
#[derive(Debug, PartialEq)]
pub enum Stmt {
    /// Binds the text `value` to `name`.
    Let { name: String, value: String },
    /// Prints `format`, each `{}` in it replaced by the value of the next name
    /// in `args`.
    Print { format: String, args: Vec<String> },
}

/// The mathematical value of a [`Stmt`].
pub enum StmtView {
    Let { name: Seq<char>, value: Seq<char> },
    Print { format: Seq<char>, args: Seq<Seq<char>> },
}

impl View for Stmt {
    type V = StmtView;

    open spec fn view(&self) -> StmtView {
        match self {
            Stmt::Let { name, value } => StmtView::Let { name: name@, value: value@ },
            Stmt::Print { format, args } => StmtView::Print {
                format: format@,
                args: string_views(args@),
            },
        }
    }
}

/// The views of a sequence of statements.
pub open spec fn stmt_views(body: Seq<Stmt>) -> Seq<StmtView> {
    body.map_values(|s: Stmt| s@)
}

/// The statements of a source text, in the order in which they stand and run.
#[derive(Debug, PartialEq)]
pub struct Program {
    pub body: Vec<Stmt>,
}

impl View for Program {
    type V = Seq<StmtView>;

    open spec fn view(&self) -> Seq<StmtView> {
        stmt_views(self.body@)
    }
}

} // verus!

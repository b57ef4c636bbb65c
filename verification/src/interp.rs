//! The interpreter: runs a program against an environment of named texts.
//!
//! The meaning of a program is given by spec functions on a [`State`]
//! ([`render`], [`step`], [`run_program`]). [`Interpreter`] is proved to
//! compute them. Lines are not written anywhere: they are collected, in
//! order, for the caller to send on.

use vstd::prelude::*;
use vstd::hash_map::StringHashMap;
use vstd::string::*;
use crate::ast::{Program, Stmt, StmtView};
use crate::text::{chars_of, joined_lines, push_range, string_views};

verus! {

/// Why a statement could not be run.
#[derive(Debug, PartialEq)]
pub enum RuntimeError {
    /// An argument of `print` names a variable that is not bound.
    UndefinedVariable { name: String },
    /// The format holds more placeholders than there are arguments.
    MissingArguments,
    /// There are more arguments than the format holds placeholders.
    TooManyArguments,
}

/// The mathematical value of a [`RuntimeError`].
pub enum RuntimeErrorView {
    UndefinedVariable { name: Seq<char> },
    MissingArguments,
    TooManyArguments,
}

impl View for RuntimeError {
    type V = RuntimeErrorView;

    open spec fn view(&self) -> RuntimeErrorView {
        match self {
            RuntimeError::UndefinedVariable { name } => RuntimeErrorView::UndefinedVariable {
                name: name@,
            },
            RuntimeError::MissingArguments => RuntimeErrorView::MissingArguments,
            RuntimeError::TooManyArguments => RuntimeErrorView::TooManyArguments,
        }
    }
}

impl Clone for RuntimeError {
    fn clone(&self) -> (r: RuntimeError)
        ensures
            r@ == self@,
    {
        match self {
            RuntimeError::UndefinedVariable { name } => RuntimeError::UndefinedVariable {
                name: name.clone(),
            },
            RuntimeError::MissingArguments => RuntimeError::MissingArguments,
            RuntimeError::TooManyArguments => RuntimeError::TooManyArguments,
        }
    }
}

/// The text that describes a [`RuntimeError`].
pub open spec fn runtime_error_message(e: RuntimeErrorView) -> Seq<char> {
    match e {
        RuntimeErrorView::UndefinedVariable { name } => "Undefined variable: "@ + name,
        RuntimeErrorView::MissingArguments => "missing arguments for placeholders"@,
        RuntimeErrorView::TooManyArguments => "too many arguments for placeholders"@,
    }
}

impl RuntimeError {
    /// A description for people.
    pub fn message(&self) -> (r: String)
        ensures
            r@ == runtime_error_message(self@),
    {
        match self {
            RuntimeError::UndefinedVariable { name } => {
                let mut r = String::from_str("Undefined variable: ");
                r.append(name.as_str());
                r
            },
            RuntimeError::MissingArguments => String::from_str(
                "missing arguments for placeholders",
            ),
            RuntimeError::TooManyArguments => String::from_str(
                "too many arguments for placeholders",
            ),
        }
    }
}

/// The variables of a run: each bound name with its text.
pub type Env = Map<Seq<char>, Seq<char>>;

/// What a run has brought about so far: the variables, and the lines that
/// were printed, oldest first.
pub ghost struct State {
    pub env: Env,
    pub out: Seq<Seq<char>>,
}

/// The outcome of running a program: the state when the run ended, and the
/// error that ended it, if one did.
pub ghost struct Run {
    pub state: State,
    pub error: Option<RuntimeErrorView>,
}

/// The state in which every run begins.
pub open spec fn initial_state() -> State {
    State { env: Map::empty(), out: Seq::empty() }
}

/// Whether the placeholder `{}` stands at index `i` of `s`.
pub open spec fn marker_at(s: Seq<char>, i: int) -> bool {
    0 <= i && i + 1 < s.len() && s[i] == '{' && s[i + 1] == '}'
}

/// The index of the first placeholder at or after `from`.
pub open spec fn find_marker(s: Seq<char>, from: int) -> Option<int>
    decreases s.len() - from,
{
    if from < 0 || from + 1 >= s.len() {
        None
    } else if marker_at(s, from) {
        Some(from)
    } else {
        find_marker(s, from + 1)
    }
}

/// Renders the rest of `format` from `pos` on, when `used` arguments have
/// been consumed and `acc` holds the text produced so far.
///
/// Each placeholder, from left to right, takes the next argument and is
/// replaced by the value of the variable of that name. The first
/// placeholder without an argument, or with an argument that names no
/// variable, ends the rendering with an error. Arguments left over after
/// the last placeholder are an error too.
pub open spec fn render_from(
    format: Seq<char>,
    pos: int,
    args: Seq<Seq<char>>,
    used: int,
    env: Env,
    acc: Seq<char>,
) -> Result<Seq<char>, RuntimeErrorView>
    decreases format.len() - pos,
{
    match find_marker(format, pos) {
        Some(m) => {
            if !(0 <= used < args.len()) {
                Err(RuntimeErrorView::MissingArguments)
            } else if !env.contains_key(args[used]) {
                Err(RuntimeErrorView::UndefinedVariable { name: args[used] })
            } else {
                proof {
                    lemma_find_marker(format, pos);
                }
                render_from(
                    format,
                    m + 2,
                    args,
                    used + 1,
                    env,
                    acc + format.subrange(pos, m) + env[args[used]],
                )
            }
        },
        None => {
            if used < args.len() {
                Err(RuntimeErrorView::TooManyArguments)
            } else {
                Ok(acc + format.subrange(pos, format.len() as int))
            }
        },
    }
}

/// The line that `print` produces for `format` and `args` in `env`.
pub open spec fn render(format: Seq<char>, args: Seq<Seq<char>>, env: Env) -> Result<
    Seq<char>,
    RuntimeErrorView,
> {
    render_from(format, 0, args, 0, env, Seq::empty())
}

/// The state after one statement, or the error that it fails with.
pub open spec fn step(st: State, stmt: StmtView) -> Result<State, RuntimeErrorView> {
    match stmt {
        StmtView::Let { name, value } => Ok(State { env: st.env.insert(name, value), out: st.out }),
        StmtView::Print { format, args } => match render(format, args, st.env) {
            Ok(line) => Ok(State { env: st.env, out: st.out.push(line) }),
            Err(e) => Err(e),
        },
    }
}

/// Runs the statements of `prog` from index `k` on, in order, up to the
/// first that fails.
pub open spec fn run_from(st: State, prog: Seq<StmtView>, k: int) -> Run
    decreases prog.len() - k,
{
    if !(0 <= k < prog.len()) {
        Run { state: st, error: None }
    } else {
        match step(st, prog[k]) {
            Ok(next) => run_from(next, prog, k + 1),
            Err(e) => Run { state: st, error: Some(e) },
        }
    }
}

/// Runs `prog` from its first statement.
pub open spec fn run_program(st: State, prog: Seq<StmtView>) -> Run {
    run_from(st, prog, 0)
}

/// The view of what rendering a line gave.
pub open spec fn line_result_view(r: Result<String, RuntimeError>) -> Result<
    Seq<char>,
    RuntimeErrorView,
> {
    match r {
        Ok(s) => Ok(s@),
        Err(e) => Err(e@),
    }
}

/// The view of how a run ended.
pub open spec fn end_view(r: Result<(), RuntimeError>) -> Option<RuntimeErrorView> {
    match r {
        Ok(u) => None,
        Err(e) => Some(e@),
    }
}

/// A placeholder that is found stands at or after the start of the search,
/// and none stands between the two. Where none is found, there is none.
pub proof fn lemma_find_marker(s: Seq<char>, from: int)
    requires
        0 <= from,
    ensures
        match find_marker(s, from) {
            Some(m) => from <= m && marker_at(s, m) && forall|i: int|
                from <= i < m ==> !marker_at(s, i),
            None => forall|i: int| from <= i ==> !marker_at(s, i),
        },
    decreases s.len() - from,
{
    if from + 1 < s.len() && !marker_at(s, from) {
        lemma_find_marker(s, from + 1);
    }
}

/// The index of the first placeholder in `s` at or after `from`.
pub fn first_marker(s: &Vec<char>, from: usize) -> (r: Option<usize>)
    ensures
        match r {
            Some(m) => find_marker(s@, from as int) == Some(m as int),
            None => find_marker(s@, from as int) is None,
        },
{
    let mut i: usize = from;
    while i < s.len() && i + 1 < s.len()
        invariant
            from <= i,
            find_marker(s@, i as int) == find_marker(s@, from as int),
        decreases s.len() - i,
    {
        if s[i] == '{' && s[i + 1] == '}' {
            return Some(i);
        }
        i += 1;
    }
    None
}

/// Runs programs. It owns the variables and collects the printed lines.
pub struct Interpreter {
    env: StringHashMap<String>,
    out: Vec<String>,
}

impl Interpreter {
    /// The variables that are bound, each with its text.
    pub closed spec fn env(&self) -> Env {
        self.env@.map_values(|v: String| v@)
    }

    /// The lines printed so far, oldest first, without line ends.
    pub closed spec fn output(&self) -> Seq<Seq<char>> {
        string_views(self.out@)
    }

    /// The variables and the output together.
    pub open spec fn state(&self) -> State {
        State { env: self.env(), out: self.output() }
    }

    /// An interpreter with no variable bound and nothing printed.
    pub fn new() -> (vm: Interpreter)
        ensures
            vm.state() == initial_state(),
    {
        let vm = Interpreter { env: StringHashMap::new(), out: Vec::new() };
        assert(vm.env() =~= Map::empty());
        assert(vm.output() =~= Seq::empty());
        vm
    }

    /// The text bound to `name`, if any.
    pub fn lookup(&self, name: &str) -> (r: Option<&String>)
        ensures
            match r {
                Some(v) => self.env().contains_key(name@) && self.env()[name@] == v@,
                None => !self.env().contains_key(name@),
            },
    {
        self.env.get(name)
    }

    /// The lines printed so far, oldest first, without line ends.
    pub fn lines(&self) -> (r: &Vec<String>)
        ensures
            string_views(r@) == self.output(),
    {
        &self.out
    }

    /// Gives up the interpreter for the lines it printed.
    pub fn into_lines(self) -> (r: Vec<String>)
        ensures
            string_views(r@) == self.output(),
    {
        self.out
    }

    /// The printed lines as one text, each line ended by a line feed.
    pub fn transcript(&self) -> (r: String)
        ensures
            r@ == joined_lines(self.output()),
    {
        let mut r = String::new();
        let mut k: usize = 0;
        while k < self.out.len()
            invariant
                k <= self.out.len(),
                r@ == joined_lines(self.output().take(k as int)),
            decreases self.out.len() - k,
        {
            proof {
                let upto = self.output().take(k + 1);
                assert(upto.drop_last() == self.output().take(k as int));
            }
            r.append(self.out[k].as_str());
            r.push('\n');
            k += 1;
        }
        assert(self.output().take(k as int) == self.output());
        r
    }

    /// Binds `value` to `name`, in place of what was bound to it before.
    pub fn bind(&mut self, name: String, value: String)
        ensures
            final(self).env() == old(self).env().insert(name@, value@),
            final(self).output() == old(self).output(),
    {
        self.env.insert(name, value);
    }

    /// Renders the line of a `print` statement. Nothing is printed and no
    /// variable changes.
    pub fn exec_print(&self, format: &str, args: &[String]) -> (r: Result<String, RuntimeError>)
        ensures
            line_result_view(r) == render(format@, string_views(args@), self.env()),
    {
        let text = chars_of(format);
        let ghost names = string_views(args@);
        let mut line = String::new();
        let mut pos: usize = 0;
        let mut used: usize = 0;
        loop
            invariant
                text@ == format@,
                names == string_views(args@),
                pos <= text.len(),
                used <= args.len(),
                render_from(text@, pos as int, names, used as int, self.env(), line@) == render(
                    format@,
                    names,
                    self.env(),
                ),
            decreases text.len() - pos,
        {
            proof {
                lemma_find_marker(text@, pos as int);
            }
            match first_marker(&text, pos) {
                Some(m) => {
                    if used >= args.len() {
                        return Err(RuntimeError::MissingArguments);
                    }
                    let name = &args[used];
                    match self.env.get(name.as_str()) {
                        None => {
                            return Err(RuntimeError::UndefinedVariable { name: name.clone() });
                        },
                        Some(value) => {
                            push_range(&mut line, &text, pos, m);
                            line.append(value.as_str());
                        },
                    }
                    used += 1;
                    pos = m + 2;
                },
                None => {
                    if used < args.len() {
                        return Err(RuntimeError::TooManyArguments);
                    }
                    push_range(&mut line, &text, pos, text.len());
                    return Ok(line);
                },
            }
        }
    }

    /// Runs one statement: a `let` binds its name, a `print` adds its line to
    /// the output. A statement that fails changes nothing.
    pub fn exec(&mut self, stmt: &Stmt) -> (r: Result<(), RuntimeError>)
        ensures
            match step(old(self).state(), stmt@) {
                Ok(next) => r is Ok && final(self).state() == next,
                Err(e) => end_view(r) == Some(e) && final(self).state() == old(self).state(),
            },
    {
        match stmt {
            Stmt::Let { name, value } => {
                self.bind(name.clone(), value.clone());
                Ok(())
            },
            Stmt::Print { format, args } => {
                match self.exec_print(format.as_str(), args.as_slice()) {
                    Ok(line) => {
                        proof {
                            assert(string_views(self.out@.push(line)) == string_views(
                                self.out@,
                            ).push(line@));
                        }
                        self.out.push(line);
                        Ok(())
                    },
                    Err(e) => Err(e),
                }
            },
        }
    }

    /// Runs the statements of `prog` in order and stops at the first that
    /// fails. What ran before the failure stays in effect.
    pub fn run(&mut self, prog: Program) -> (r: Result<(), RuntimeError>)
        ensures
            final(self).state() == run_program(old(self).state(), prog@).state,
            end_view(r) == run_program(old(self).state(), prog@).error,
    {
        let mut k: usize = 0;
        while k < prog.body.len()
            invariant
                k <= prog.body.len(),
                run_from(self.state(), prog@, k as int) == run_program(old(self).state(), prog@),
            decreases prog.body.len() - k,
        {
            match self.exec(&prog.body[k]) {
                Ok(_) => {},
                Err(e) => {
                    return Err(e);
                },
            }
            k += 1;
        }
        Ok(())
    }
}

} // verus!

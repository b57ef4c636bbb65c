//! What holds of the interpreter.

use vstd::prelude::*;
use crate::ast::StmtView;
use crate::interp::{
    find_marker, lemma_find_marker, render, render_from, run_from, run_program, step, Env, Run,
    RuntimeErrorView, State,
};

verus! {

/// A `let` statement binds its name to exactly its text: the value of the
/// name afterwards is the text, every other variable is as before, and
/// nothing is printed.
pub proof fn lemma_let_binds(st: State, name: Seq<char>, value: Seq<char>)
    ensures
        step(st, StmtView::Let { name, value }) is Ok,
        step(st, StmtView::Let { name, value })->Ok_0.env.contains_key(name),
        step(st, StmtView::Let { name, value })->Ok_0.env[name] == value,
        forall|other: Seq<char>|
            other != name ==> {
                &&& step(st, StmtView::Let { name, value })->Ok_0.env.contains_key(other)
                    == st.env.contains_key(other)
                &&& step(st, StmtView::Let { name, value })->Ok_0.env[other] == st.env[other]
            },
        step(st, StmtView::Let { name, value })->Ok_0.out == st.out,
{
}

/// The format that consists of one placeholder.
pub open spec fn lone_placeholder() -> Seq<char> {
    seq!['{', '}']
}

/// Printing a lone placeholder with one argument gives the value bound to
/// the argument at that moment.
pub proof fn lemma_print_shows_value(env: Env, name: Seq<char>)
    requires
        env.contains_key(name),
    ensures
        render(lone_placeholder(), seq![name], env) == Ok::<Seq<char>, RuntimeErrorView>(
            env[name],
        ),
{
    let f = lone_placeholder();
    reveal_with_fuel(find_marker, 3);
    reveal_with_fuel(render_from, 3);
    assert(find_marker(f, 0) == Some(0int));
    assert(find_marker(f, 2) is None);
    assert(Seq::<char>::empty() + f.subrange(0, 0) + env[name] + f.subrange(2, 2) == env[name]);
}

/// A second `let` for a name replaces what the first one bound, and a
/// `print` after it uses the later value.
pub proof fn lemma_rebinding_overwrites(
    st: State,
    name: Seq<char>,
    first: Seq<char>,
    second: Seq<char>,
)
    ensures
        run_program(
            st,
            seq![
                StmtView::Let { name, value: first },
                StmtView::Let { name, value: second },
                StmtView::Print { format: lone_placeholder(), args: seq![name] },
            ],
        ) == (Run {
            state: State { env: st.env.insert(name, second), out: st.out.push(second) },
            error: None,
        }),
{
    let env2 = st.env.insert(name, first).insert(name, second);
    assert(env2 == st.env.insert(name, second));
    lemma_print_shows_value(env2, name);
    reveal_with_fuel(run_from, 4);
}

/// Statements run in the order in which they stand: running `p` and then
/// `q` from where `p` ended is running `p + q`, and a failure in `p` ends
/// both.
pub proof fn lemma_run_in_order(st: State, p: Seq<StmtView>, q: Seq<StmtView>)
    ensures
        run_program(st, p + q) == if run_program(st, p).error is Some {
            run_program(st, p)
        } else {
            run_program(run_program(st, p).state, q)
        },
{
    lemma_run_in_order_from(st, p, q, 0);
    lemma_run_suffix(run_program(st, p).state, p, q, 0);
}

/// Running `p + q` from index `k` within `p` is running `p` from `k` and
/// then, unless that failed, the rest from the end of `p`.
proof fn lemma_run_in_order_from(st: State, p: Seq<StmtView>, q: Seq<StmtView>, k: int)
    requires
        0 <= k <= p.len(),
    ensures
        run_from(st, p + q, k) == if run_from(st, p, k).error is Some {
            run_from(st, p, k)
        } else {
            run_from(run_from(st, p, k).state, p + q, p.len() as int)
        },
    decreases p.len() - k,
{
    if k < p.len() {
        assert((p + q)[k] == p[k]);
        match step(st, p[k]) {
            Ok(next) => {
                lemma_run_in_order_from(next, p, q, k + 1);
            },
            Err(_) => {},
        }
    }
}

/// Running `p + q` from index `p.len() + k` is running `q` from index `k`.
proof fn lemma_run_suffix(st: State, p: Seq<StmtView>, q: Seq<StmtView>, k: int)
    requires
        0 <= k <= q.len(),
    ensures
        run_from(st, p + q, p.len() + k) == run_from(st, q, k),
    decreases q.len() - k,
{
    if k < q.len() {
        assert((p + q)[p.len() + k] == q[k]);
        match step(st, q[k]) {
            Ok(next) => {
                lemma_run_suffix(next, p, q, k + 1);
            },
            Err(_) => {},
        }
    }
}

/// Only a `print` statement can fail.
pub proof fn lemma_only_print_fails(st: State, stmt: StmtView)
    ensures
        step(st, stmt) is Err ==> stmt is Print,
{
}

/// The number of `print` statements in `prog` at index `k` or later.
pub open spec fn prints_from(prog: Seq<StmtView>, k: int) -> nat
    decreases prog.len() - k,
{
    if !(0 <= k < prog.len()) {
        0
    } else if prog[k] is Print {
        1 + prints_from(prog, k + 1)
    } else {
        prints_from(prog, k + 1)
    }
}

/// A run only adds to the state: the lines printed before stay in front,
/// in their order, and every name that was bound stays bound. A run that
/// ends without error has printed one line for each `print` statement.
pub proof fn lemma_run_only_adds(st: State, prog: Seq<StmtView>, k: int)
    requires
        0 <= k,
    ensures
        st.out.is_prefix_of(run_from(st, prog, k).state.out),
        st.env.dom().subset_of(run_from(st, prog, k).state.env.dom()),
        run_from(st, prog, k).error is None ==> run_from(st, prog, k).state.out.len()
            == st.out.len() + prints_from(prog, k),
        run_from(st, prog, k).error is Some ==> run_from(st, prog, k).state.out.len()
            < st.out.len() + prints_from(prog, k),
    decreases prog.len() - k,
{
    if k < prog.len() {
        match step(st, prog[k]) {
            Ok(next) => {
                lemma_run_only_adds(next, prog, k + 1);
                assert(st.env.dom().subset_of(next.env.dom()));
                assert(st.out.is_prefix_of(next.out));
            },
            Err(_) => {
                lemma_only_print_fails(st, prog[k]);
            },
        }
    }
}

/// The number of placeholders in `s` at or after `from`, counted from left
/// to right, each behind the end of the one before.
pub open spec fn marker_count(s: Seq<char>, from: int) -> nat
    decreases s.len() - from,
{
    match find_marker(s, from) {
        Some(m) => {
            proof {
                lemma_find_marker(s, from);
            }
            1 + marker_count(s, m + 2)
        },
        None => 0,
    }
}

/// Whether the arguments with indices from `from` up to but not including
/// `to` all name variables of `env`.
pub open spec fn all_bound(args: Seq<Seq<char>>, env: Env, from: int, to: int) -> bool {
    forall|j: int| from <= j < to ==> env.contains_key(#[trigger] args[j])
}

/// How the rendering from `pos` on ends, by the number of placeholders left
/// and the arguments left.
proof fn lemma_render_from_outcome(
    format: Seq<char>,
    pos: int,
    args: Seq<Seq<char>>,
    used: int,
    env: Env,
    acc: Seq<char>,
)
    requires
        0 <= pos,
        0 <= used <= args.len(),
    ensures
        match render_from(format, pos, args, used, env, acc) {
            Err(RuntimeErrorView::UndefinedVariable { name }) => exists|k: int|
                {
                    &&& used <= k < args.len()
                    &&& k < used + marker_count(format, pos)
                    &&& #[trigger] args[k] == name
                    &&& !env.contains_key(name)
                    &&& all_bound(args, env, used, k)
                },
            Err(RuntimeErrorView::MissingArguments) => {
                &&& all_bound(args, env, used, args.len() as int)
                &&& used + marker_count(format, pos) > args.len()
            },
            Err(RuntimeErrorView::TooManyArguments) => {
                &&& all_bound(args, env, used, used + marker_count(format, pos))
                &&& used + marker_count(format, pos) < args.len()
            },
            Ok(_) => {
                &&& all_bound(args, env, used, args.len() as int)
                &&& used + marker_count(format, pos) == args.len()
            },
        },
    decreases format.len() - pos,
{
    match find_marker(format, pos) {
        None => {},
        Some(m) => {
            lemma_find_marker(format, pos);
            if used >= args.len() {
            } else if !env.contains_key(args[used]) {
                assert(all_bound(args, env, used, used));
            } else {
                let grown = acc + format.subrange(pos, m) + env[args[used]];
                lemma_render_from_outcome(format, m + 2, args, used + 1, env, grown);
                match render_from(format, m + 2, args, used + 1, env, grown) {
                    Err(RuntimeErrorView::UndefinedVariable { name }) => {
                        let k = choose|k: int|
                            {
                                &&& used + 1 <= k < args.len()
                                &&& k < used + 1 + marker_count(format, m + 2)
                                &&& #[trigger] args[k] == name
                                &&& !env.contains_key(name)
                                &&& all_bound(args, env, used + 1, k)
                            };
                        assert(all_bound(args, env, used, k));
                    },
                    _ => {},
                }
            }
        },
    }
}

/// A `print` succeeds exactly when its format holds as many placeholders as
/// it has arguments and every argument names a bound variable. Otherwise
/// the first argument, among those that meet a placeholder, that names no
/// variable is reported; if there is none, the format holds too many
/// placeholders or too few.
pub proof fn lemma_render_outcome(format: Seq<char>, args: Seq<Seq<char>>, env: Env)
    ensures
        render(format, args, env) is Ok <==> {
            &&& marker_count(format, 0) == args.len()
            &&& all_bound(args, env, 0, args.len() as int)
        },
        render(format, args, env) == Err::<Seq<char>, RuntimeErrorView>(
            RuntimeErrorView::MissingArguments,
        ) <==> {
            &&& marker_count(format, 0) > args.len()
            &&& all_bound(args, env, 0, args.len() as int)
        },
        render(format, args, env) == Err::<Seq<char>, RuntimeErrorView>(
            RuntimeErrorView::TooManyArguments,
        ) <==> {
            &&& marker_count(format, 0) < args.len()
            &&& all_bound(args, env, 0, marker_count(format, 0) as int)
        },
        forall|name: Seq<char>|
            render(format, args, env) == Err::<Seq<char>, RuntimeErrorView>(
                RuntimeErrorView::UndefinedVariable { name },
            ) <==> exists|k: int|
                {
                    &&& 0 <= k < args.len()
                    &&& k < marker_count(format, 0)
                    &&& #[trigger] args[k] == name
                    &&& !env.contains_key(name)
                    &&& all_bound(args, env, 0, k)
                },
{
    lemma_render_from_outcome(format, 0, args, 0, env, Seq::empty());
    let n = marker_count(format, 0) as int;
    assert forall|name: Seq<char>|
        (exists|k: int|
            {
                &&& 0 <= k < args.len()
                &&& k < n
                &&& #[trigger] args[k] == name
                &&& !env.contains_key(name)
                &&& all_bound(args, env, 0, k)
            }) implies render(format, args, env) == Err::<Seq<char>, RuntimeErrorView>(
        RuntimeErrorView::UndefinedVariable { name },
    ) by {
        let k = choose|k: int|
            {
                &&& 0 <= k < args.len()
                &&& k < n
                &&& #[trigger] args[k] == name
                &&& !env.contains_key(name)
                &&& all_bound(args, env, 0, k)
            };
        match render(format, args, env) {
            Err(RuntimeErrorView::UndefinedVariable { name: other }) => {
                let j = choose|j: int|
                    {
                        &&& 0 <= j < args.len()
                        &&& j < n
                        &&& #[trigger] args[j] == other
                        &&& !env.contains_key(other)
                        &&& all_bound(args, env, 0, j)
                    };
                if j < k {
                    assert(env.contains_key(args[j]));
                } else if k < j {
                    assert(env.contains_key(args[k]));
                }
            },
            _ => {
                assert(env.contains_key(args[k]));
            },
        }
    }
}

} // verus!

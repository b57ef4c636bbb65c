use toy_lang::ast::{Program, Stmt};
use toy_lang::interp::{first_marker, Interpreter, RuntimeError};

fn let_stmt(name: &str, value: &str) -> Stmt {
    Stmt::Let { name: name.to_string(), value: value.to_string() }
}

fn print_stmt(format: &str, args: &[&str]) -> Stmt {
    Stmt::Print { format: format.to_string(), args: args.iter().map(|a| a.to_string()).collect() }
}

fn names(args: &[&str]) -> Vec<String> {
    args.iter().map(|a| a.to_string()).collect()
}

fn undefined(name: &str) -> RuntimeError {
    RuntimeError::UndefinedVariable { name: name.to_string() }
}

#[test]
fn new_interpreter_is_empty() {
    let vm = Interpreter::new();
    assert_eq!(vm.lookup("x"), None);
    assert!(vm.lines().is_empty());
    assert_eq!(vm.transcript(), "");
}

#[test]
fn let_binds_name_to_value() {
    let mut vm = Interpreter::new();
    assert_eq!(vm.run(Program { body: vec![let_stmt("x", "a\nb \"q\"")] }), Ok(()));
    assert_eq!(vm.lookup("x"), Some(&"a\nb \"q\"".to_string()));
    assert_eq!(vm.lookup("y"), None);
    assert!(vm.lines().is_empty());
}

#[test]
fn print_without_placeholders_emits_the_format() {
    let mut vm = Interpreter::new();
    assert_eq!(vm.run(Program { body: vec![print_stmt("hi", &[])] }), Ok(()));
    assert_eq!(vm.lines(), &vec!["hi".to_string()]);
    assert_eq!(vm.transcript(), "hi\n");
}

#[test]
fn print_substitutes_the_bound_value() {
    let mut vm = Interpreter::new();
    let program =
        Program { body: vec![let_stmt("name", "Bob"), print_stmt("Hello, {}!", &["name"])] };
    assert_eq!(vm.run(program), Ok(()));
    assert_eq!(vm.lines(), &vec!["Hello, Bob!".to_string()]);
}

#[test]
fn placeholders_take_arguments_from_left_to_right() {
    let mut vm = Interpreter::new();
    vm.bind("a".to_string(), "1".to_string());
    vm.bind("b".to_string(), "two".to_string());
    assert_eq!(
        vm.exec_print("{}-{}{}|{}", &names(&["a", "b", "a", "b"])),
        Ok("1-two1|two".to_string())
    );
    assert_eq!(vm.exec_print("{}", &names(&["b"])), Ok("two".to_string()));
    assert_eq!(vm.exec_print("", &names(&[])), Ok("".to_string()));
    assert!(vm.lines().is_empty());
}

#[test]
fn only_the_exact_marker_is_a_placeholder() {
    let mut vm = Interpreter::new();
    vm.bind("a".to_string(), "X".to_string());
    assert_eq!(vm.exec_print("{ } }{ {", &names(&[])), Ok("{ } }{ {".to_string()));
    assert_eq!(vm.exec_print("{{}}", &names(&["a"])), Ok("{X}".to_string()));
    assert_eq!(vm.exec_print("{}}", &names(&["a"])), Ok("X}".to_string()));
    assert_eq!(
        vm.exec_print("\u{e9}{}\u{e9}", &names(&["a"])),
        Ok("\u{e9}X\u{e9}".to_string())
    );
}

#[test]
fn substituted_values_are_not_scanned_again() {
    let mut vm = Interpreter::new();
    vm.bind("a".to_string(), "{}".to_string());
    assert_eq!(vm.exec_print("<{}>", &names(&["a"])), Ok("<{}>".to_string()));
}

#[test]
fn too_few_arguments_fail() {
    let mut vm = Interpreter::new();
    let program = Program { body: vec![let_stmt("a", "1"), print_stmt("{} and {}", &["a"])] };
    assert_eq!(vm.run(program), Err(RuntimeError::MissingArguments));
    assert!(vm.lines().is_empty());
    assert_eq!(vm.exec_print("{}", &names(&[])), Err(RuntimeError::MissingArguments));
}

#[test]
fn too_many_arguments_fail() {
    let mut vm = Interpreter::new();
    let program = Program {
        body: vec![let_stmt("a", "1"), let_stmt("b", "2"), print_stmt("{}", &["a", "b"])],
    };
    assert_eq!(vm.run(program), Err(RuntimeError::TooManyArguments));
    assert!(vm.lines().is_empty());
    assert_eq!(
        vm.exec_print("no markers", &names(&["a"])),
        Err(RuntimeError::TooManyArguments)
    );
}

#[test]
fn leftover_arguments_are_not_looked_up() {
    let mut vm = Interpreter::new();
    vm.bind("a".to_string(), "1".to_string());
    assert_eq!(
        vm.exec_print("{}", &names(&["a", "unbound"])),
        Err(RuntimeError::TooManyArguments)
    );
}

#[test]
fn unbound_argument_fails() {
    let mut vm = Interpreter::new();
    assert_eq!(
        vm.run(Program { body: vec![print_stmt("{}", &["missing"])] }),
        Err(undefined("missing"))
    );
    assert!(vm.lines().is_empty());
}

#[test]
fn first_failing_placeholder_decides_the_error() {
    let mut vm = Interpreter::new();
    assert_eq!(vm.exec_print("{} and {}", &names(&["a"])), Err(undefined("a")));
    assert_eq!(vm.exec_print("{}", &names(&["a", "b"])), Err(undefined("a")));
    vm.bind("a".to_string(), "1".to_string());
    assert_eq!(
        vm.exec_print("{} {} {}", &names(&["a", "b"])),
        Err(undefined("b"))
    );
}

#[test]
fn forward_reference_is_a_runtime_error() {
    let mut vm = Interpreter::new();
    let program = Program { body: vec![print_stmt("{}", &["x"]), let_stmt("x", "late")] };
    assert_eq!(vm.run(program), Err(undefined("x")));
    assert_eq!(vm.lookup("x"), None);
}

#[test]
fn rebinding_overwrites_the_value() {
    let mut vm = Interpreter::new();
    let program = Program {
        body: vec![
            let_stmt("x", "old"),
            print_stmt("{}", &["x"]),
            let_stmt("x", "new"),
            print_stmt("{}", &["x"]),
        ],
    };
    assert_eq!(vm.run(program), Ok(()));
    assert_eq!(vm.lookup("x"), Some(&"new".to_string()));
    assert_eq!(vm.lines(), &vec!["old".to_string(), "new".to_string()]);
}

#[test]
fn run_stops_at_the_first_error_and_keeps_what_ran() {
    let mut vm = Interpreter::new();
    let program = Program {
        body: vec![
            let_stmt("a", "1"),
            print_stmt("first {}", &["a"]),
            print_stmt("{}", &["nope"]),
            let_stmt("b", "2"),
            print_stmt("never", &[]),
        ],
    };
    assert_eq!(vm.run(program), Err(undefined("nope")));
    assert_eq!(vm.lines(), &vec!["first 1".to_string()]);
    assert_eq!(vm.lookup("a"), Some(&"1".to_string()));
    assert_eq!(vm.lookup("b"), None);
}

#[test]
fn state_carries_over_between_runs_of_one_interpreter() {
    let mut vm = Interpreter::new();
    assert_eq!(vm.run(Program { body: vec![let_stmt("a", "1")] }), Ok(()));
    assert_eq!(vm.run(Program { body: vec![print_stmt("{}", &["a"])] }), Ok(()));
    assert_eq!(vm.exec(&print_stmt("{}{}", &["a", "a"])), Ok(()));
    assert_eq!(vm.exec(&print_stmt("{}", &[])), Err(RuntimeError::MissingArguments));
    assert_eq!(vm.transcript(), "1\n11\n");
    assert_eq!(vm.into_lines(), vec!["1".to_string(), "11".to_string()]);
}

#[test]
fn empty_program_does_nothing() {
    let mut vm = Interpreter::new();
    assert_eq!(vm.run(Program { body: vec![] }), Ok(()));
    assert!(vm.lines().is_empty());
}

#[test]
fn first_marker_finds_the_leftmost_placeholder() {
    let s: Vec<char> = "a{}b{}".chars().collect();
    assert_eq!(first_marker(&s, 0), Some(1));
    assert_eq!(first_marker(&s, 1), Some(1));
    assert_eq!(first_marker(&s, 2), Some(4));
    assert_eq!(first_marker(&s, 5), None);
    assert_eq!(first_marker(&s, 6), None);
    assert_eq!(first_marker(&s, 60), None);
    let none: Vec<char> = "{ }}{".chars().collect();
    assert_eq!(first_marker(&none, 0), None);
    assert_eq!(first_marker(&Vec::new(), 0), None);
}

#[test]
fn runtime_error_messages() {
    assert_eq!(undefined("missing").message(), "Undefined variable: missing");
    assert_eq!(RuntimeError::MissingArguments.message(), "missing arguments for placeholders");
    assert_eq!(RuntimeError::TooManyArguments.message(), "too many arguments for placeholders");
    assert_eq!(undefined("x").clone(), undefined("x"));
}

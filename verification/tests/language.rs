use minipy::execute;
use minipy::parser::VecLineSource;
use minipy::rational::Rat;
use minipy::types::{Environment, Error, ErrorKind, Expr, PyType, Stmt};

const FUEL: u64 = 200;
const DEPTH: u64 = 10_000;

fn run(env: &mut Environment, line: &str, body: &[&str]) -> Result<Vec<PyType>, Error> {
    let lines: Vec<String> = body.iter().map(|s| s.to_string()).collect();
    let mut src = VecLineSource::new(lines);
    execute(line, env, &mut src, FUEL, DEPTH)
}

fn eval_one(line: &str) -> Result<Vec<PyType>, Error> {
    let mut env: Environment = Vec::new();
    run(&mut env, line, &[])
}

fn int_val(n: i64) -> PyType {
    PyType::Expr(Expr::Int(n))
}

fn float(num: i64, den: i64) -> PyType {
    PyType::Expr(Expr::Float(Rat::new(num, den)))
}

fn boolean(b: bool) -> PyType {
    PyType::Expr(Expr::Bool(b))
}

fn string(s: &str) -> PyType {
    PyType::Expr(Expr::Str(s.to_string()))
}

#[test]
fn division_yields_exact_float() {
    assert_eq!(eval_one("7 / 2").unwrap(), vec![float(7, 2)]);
    assert_eq!(eval_one("1 / 3").unwrap(), vec![float(1, 3)]);
    assert_eq!(eval_one("6 / 2").unwrap(), vec![float(6, 2)]);
    assert!(float(6, 2) != float(3, 1));
}

#[test]
fn division_by_zero() {
    let e = eval_one("7 / 0").unwrap_err();
    assert_eq!(e.kind(), ErrorKind::ZeroDivisionError);
    let e = eval_one("\"s\" / 0").unwrap_err();
    assert_eq!(e.kind(), ErrorKind::ZeroDivisionError);
    let e = eval_one("1.5 / 0.0").unwrap_err();
    assert_eq!(e.kind(), ErrorKind::ZeroDivisionError);
}

#[test]
fn string_repetition() {
    assert_eq!(eval_one("\"ab\" * 3").unwrap(), vec![string("ababab")]);
    assert_eq!(eval_one("\"ab\" * 0").unwrap(), vec![string("")]);
    // The reverse order is not supported: an intentional asymmetry.
    let e = eval_one("3 * \"ab\"").unwrap_err();
    assert_eq!(e.kind(), ErrorKind::TypeError);
}

#[test]
fn subtraction_is_right_associative() {
    assert_eq!(eval_one("1 - 2 - 3").unwrap(), vec![int_val(2)]);
    assert_eq!(eval_one("1 / 2 / 4").unwrap(), vec![float(4, 2)]);
}

#[test]
fn assignment_overwrites() {
    let mut env: Environment = Vec::new();
    run(&mut env, "x = 5", &[]).unwrap();
    assert_eq!(run(&mut env, "x", &[]).unwrap(), vec![int_val(5)]);
    run(&mut env, "x = 7", &[]).unwrap();
    assert_eq!(run(&mut env, "x", &[]).unwrap(), vec![int_val(7)]);
    assert_eq!(env.len(), 1);
}

#[test]
fn function_definition_and_call() {
    let mut env: Environment = Vec::new();
    run(&mut env, "def f(a, b):", &["    return a + b", "\n"]).unwrap();
    assert_eq!(run(&mut env, "f(2, 3)", &[]).unwrap(), vec![int_val(5)]);
}

#[test]
fn call_with_wrong_arity() {
    let mut env: Environment = Vec::new();
    run(&mut env, "def f(a, b):", &["    return a + b", "\n"]).unwrap();
    let e = run(&mut env, "f(2)", &[]).unwrap_err();
    assert_eq!(e.kind(), ErrorKind::TypeError);
    match e {
        Error::ArityMismatch(name, expected, given) => {
            assert_eq!(name, "f");
            assert_eq!(expected, 2);
            assert_eq!(given, 1);
        }
        other => panic!("expected an arity mismatch, got {:?}", other),
    }
}

#[test]
fn if_else_blocks() {
    let mut env: Environment = Vec::new();
    run(&mut env, "if 1 < 2:", &["    x = 10", "else:", "    x = 20", "\n"]).unwrap();
    assert_eq!(run(&mut env, "x", &[]).unwrap(), vec![int_val(10)]);

    let mut env2: Environment = Vec::new();
    run(&mut env2, "if 2 < 1:", &["    x = 10", "else:", "    x = 20", "\n"]).unwrap();
    assert_eq!(run(&mut env2, "x", &[]).unwrap(), vec![int_val(20)]);
}

#[test]
fn double_dedent_closes_both_levels() {
    let mut env: Environment = Vec::new();
    // The final line stands two levels shallower than the innermost block; it
    // must close both levels and be consumed by the next top-level parse.
    let r = run(
        &mut env,
        "if 1 < 2:",
        &["    if 2 < 3:", "        y = 1", "x = 4"],
    );
    r.unwrap();
    assert_eq!(run(&mut env, "x", &[]).unwrap(), vec![int_val(4)]);
    assert_eq!(run(&mut env, "y", &[]).unwrap(), vec![int_val(1)]);
}

#[test]
fn not_truthiness() {
    assert_eq!(eval_one("not 0").unwrap(), vec![boolean(true)]);
    assert_eq!(eval_one("not 5").unwrap(), vec![boolean(false)]);
    let e = eval_one("not \"x\"").unwrap_err();
    assert_eq!(e.kind(), ErrorKind::TypeError);
}

#[test]
fn and_or_asymmetry() {
    assert_eq!(eval_one("True and False").unwrap(), vec![boolean(false)]);
    assert_eq!(eval_one("False or 5").unwrap(), vec![int_val(5)]);
    assert_eq!(eval_one("7 or 5").unwrap(), vec![int_val(7)]);
    assert_eq!(eval_one("0 and 5").unwrap(), vec![boolean(false)]);
    assert_eq!(eval_one("7 and 5").unwrap(), vec![int_val(5)]);
}

#[test]
fn numeric_promotion() {
    assert_eq!(eval_one("1.5 + 1").unwrap(), vec![float(25, 10)]);
    assert_eq!(eval_one("1 + 1.5").unwrap(), vec![float(25, 10)]);
    assert_eq!(eval_one("2 * 1.5").unwrap(), vec![float(30, 10)]);
    assert_eq!(eval_one("1.5 == 1.5").unwrap(), vec![boolean(true)]);
    assert_eq!(eval_one("3 == 1.5 + 1.5").unwrap(), vec![boolean(true)]);
    assert_eq!(eval_one("1 < 1.5").unwrap(), vec![boolean(true)]);
}

#[test]
fn string_comparisons() {
    assert_eq!(eval_one("\"a\" + \"b\"").unwrap(), vec![string("ab")]);
    assert_eq!(eval_one("\"a\" < \"b\"").unwrap(), vec![boolean(true)]);
    assert_eq!(eval_one("\"a\" == \"a\"").unwrap(), vec![boolean(true)]);
    // `!=` on two strings computes string equality: a preserved quirk.
    assert_eq!(eval_one("\"a\" != \"a\"").unwrap(), vec![boolean(true)]);
    assert_eq!(eval_one("\"a\" != \"b\"").unwrap(), vec![boolean(false)]);
}

#[test]
fn unbound_name() {
    let e = eval_one("nowhere").unwrap_err();
    assert_eq!(e.kind(), ErrorKind::NameError);
}

#[test]
fn syntax_errors() {
    let e = eval_one("1 +").unwrap_err();
    assert_eq!(e.kind(), ErrorKind::SyntaxError);
    let e = eval_one("(1").unwrap_err();
    assert_eq!(e.kind(), ErrorKind::SyntaxError);
}

#[test]
fn missing_indent_after_colon() {
    let mut env: Environment = Vec::new();
    let e = run(&mut env, "if 1 < 2:", &["x = 1"]).unwrap_err();
    assert_eq!(e.kind(), ErrorKind::IndentationError);
}

#[test]
fn condition_must_be_boolean() {
    let mut env: Environment = Vec::new();
    let e = run(&mut env, "if 5:", &["    x = 1", "\n"]).unwrap_err();
    assert_eq!(e.kind(), ErrorKind::TypeError);
}

#[test]
fn integer_overflow_is_reported() {
    let e = eval_one("9223372036854775807 + 1").unwrap_err();
    assert_eq!(e.kind(), ErrorKind::OverflowError);
}

#[test]
fn runaway_recursion_is_reported() {
    let mut env: Environment = Vec::new();
    run(&mut env, "def g(a):", &["    return g(a)", "\n"]).unwrap();
    let e = run(&mut env, "g(1)", &[]).unwrap_err();
    assert_eq!(e.kind(), ErrorKind::RecursionError);
}

#[test]
fn calls_share_the_single_environment() {
    let mut env: Environment = Vec::new();
    run(&mut env, "q = 10", &[]).unwrap();
    run(&mut env, "def h(q):", &["    return q + 1", "\n"]).unwrap();
    assert_eq!(run(&mut env, "h(1)", &[]).unwrap(), vec![int_val(2)]);
    // The parameter binding clobbered the caller-visible `q`.
    assert_eq!(run(&mut env, "q", &[]).unwrap(), vec![int_val(1)]);
}

#[test]
fn parenthesized_expressions() {
    assert_eq!(eval_one("(1 - 2) - 3").unwrap(), vec![int_val(-4)]);
    assert_eq!(eval_one("2 * (3 + 4)").unwrap(), vec![int_val(14)]);
}

#[test]
fn unary_minus_is_multiplication() {
    assert_eq!(eval_one("-3 + 1").unwrap(), vec![int_val(-2)]);
    assert_eq!(eval_one("2 - -3").unwrap(), vec![int_val(5)]);
}

#[test]
fn variable_chains() {
    let mut env: Environment = Vec::new();
    run(&mut env, "a = 3", &[]).unwrap();
    run(&mut env, "b = a * 2", &[]).unwrap();
    assert_eq!(run(&mut env, "b", &[]).unwrap(), vec![int_val(6)]);
}

#[test]
fn assignment_value_is_the_assigned_value() {
    // The statement's own value is the assigned value.
    assert_eq!(eval_one("x = 5").unwrap(), vec![int_val(5)]);
    assert_eq!(eval_one("y = 2 + 3").unwrap(), vec![int_val(5)]);
}

#[test]
fn trailing_tokens_are_a_syntax_error() {
    // A top-level parse must consume every token of its line.
    let e = eval_one("1 2").unwrap_err();
    assert_eq!(e.kind(), ErrorKind::SyntaxError);
    assert!(matches!(e, Error::TrailingTokens));
    // The error comes before the statement is evaluated: nothing is bound.
    let mut env: Environment = Vec::new();
    let e = run(&mut env, "x = 5 junk", &[]).unwrap_err();
    assert!(matches!(e, Error::TrailingTokens));
    assert_eq!(env.len(), 0);
}

#[test]
fn arguments_evaluate_before_any_binding() {
    // Every argument is evaluated in the caller's environment before any
    // parameter is bound, so a later argument sees the caller's binding,
    // not an earlier parameter's.
    let mut env: Environment = Vec::new();
    run(&mut env, "def f(x, y):", &["    return y", "
"]).unwrap();
    run(&mut env, "x = 100", &[]).unwrap();
    assert_eq!(run(&mut env, "f(5, x)", &[]).unwrap(), vec![int_val(100)]);
    // The bindings themselves still clobber the shared environment.
    assert_eq!(run(&mut env, "x", &[]).unwrap(), vec![int_val(5)]);
}

#[test]
fn no_else_yields_noop() {
    let mut env: Environment = Vec::new();
    let r = run(&mut env, "if 2 < 1:", &["    x = 1", "\n"]).unwrap();
    assert_eq!(r, vec![PyType::Stmt(Stmt::NoOp)]);
}

use lispi::eval::eval;
use lispi::eval::value_eq;
use lispi::eval::Context;
use lispi::eval::EvalError;
use lispi::parser::Parser;
use lispi::Value;

fn run(src: &str) -> Result<Value, EvalError> {
    let mut p = Parser::new();
    let mut ctx = Context::new();
    let forms = p.parse_next(src).expect("source should parse");
    p.finish().expect("source should be complete");
    let mut last = Value::Nil;
    for f in forms {
        last = eval(&mut ctx, f)?;
    }
    Ok(last)
}

fn expect_err(src: &str, expected: EvalError) {
    match run(src) {
        Err(e) => assert_eq!(e, expected),
        Ok(v) => panic!("expected {:?}, got value {:?}", expected, v),
    }
}

fn expect_int(src: &str, n: i64) {
    match run(src) {
        Ok(Value::Integer(k)) => assert_eq!(k, n),
        other => panic!("expected integer {}, got {:?}", n, other),
    }
}

fn expect_bool(src: &str, b: bool) {
    match run(src) {
        Ok(Value::Bool(k)) => assert_eq!(k, b),
        other => panic!("expected bool {}, got {:?}", b, other),
    }
}

#[test]
fn plus_adds_two_integers() {
    expect_int("(+ 3 4)", 7);
    expect_int("(+ -3 10)", 7);
    expect_int("(+ 1000000007 1000000009)", 2000000016);
}

#[test]
fn plus_of_nothing_is_zero() {
    expect_int("(+)", 0);
}

#[test]
fn plus_takes_many_arguments() {
    expect_int("(+ 1 2 3 4 5)", 15);
}

#[test]
fn plus_wraps_around_at_the_64_bit_boundary() {
    expect_int("(+ 9223372036854775807 1)", i64::MIN);
    expect_int("(+ -9223372036854775808 -1)", i64::MAX);
}

#[test]
fn plus_rejects_non_integers() {
    expect_err("(+ 1 \"a\")", EvalError::WrongType);
    expect_err("(+ nil)", EvalError::WrongType);
}

#[test]
fn eq_value_with_itself_is_true() {
    expect_bool("(= 1 1)", true);
    expect_bool("(= \"ab\" \"ab\")", true);
    expect_bool("(= nil nil)", true);
    expect_bool("(= true true)", true);
}

#[test]
fn eq_one_and_two_is_false() {
    expect_bool("(= 1 2)", false);
}

#[test]
fn eq_without_arguments_is_an_arity_error() {
    expect_err("(=)", EvalError::ArityMismatch { expected: 1, actual: 0 });
}

#[test]
fn eq_across_variants_is_false() {
    expect_bool("(= 1 true)", false);
    expect_bool("(= false nil)", false);
    expect_bool("(= \"1\" 1)", false);
}

#[test]
fn if_false_takes_the_else_branch() {
    expect_int("(if false 1 2)", 2);
}

#[test]
fn if_nil_takes_the_else_branch() {
    expect_int("(if nil 1 2)", 2);
}

#[test]
fn if_zero_is_truthy() {
    expect_int("(if 0 1 2)", 1);
}

#[test]
fn if_empty_list_and_empty_string_are_truthy() {
    expect_int("(if (list) 1 2)", 1);
    expect_int("(if \"\" 1 2)", 1);
}

#[test]
fn if_without_else_yields_nil() {
    assert!(matches!(run("(if false 1)"), Ok(Value::Nil)));
}

#[test]
fn if_wrong_arity_is_an_error() {
    expect_err("(if 1)", EvalError::ArityMismatch { expected: 2, actual: 1 });
    expect_err("(if 1 2 3 4)", EvalError::ArityMismatch { expected: 3, actual: 4 });
}

#[test]
fn def_binds_and_the_symbol_resolves() {
    expect_int("(def x 5) x", 5);
}

#[test]
fn def_yields_nil() {
    assert!(matches!(run("(def x 5)"), Ok(Value::Nil)));
}

#[test]
fn def_rebinding_changes_the_value() {
    expect_int("(def x 5) (def x 6) x", 6);
}

#[test]
fn def_first_argument_must_be_a_symbol() {
    expect_err("(def 5 5)", EvalError::MalformedForm);
}

#[test]
fn def_wrong_arity_is_an_error() {
    expect_err("(def x)", EvalError::ArityMismatch { expected: 2, actual: 1 });
}

#[test]
fn strings_evaluate_to_themselves() {
    match run("\"hello\"") {
        Ok(Value::Str(s)) => assert_eq!(s, "hello"),
        other => panic!("expected string, got {:?}", other),
    }
}

#[test]
fn value_eq_compares_structurally() {
    let a = Value::List(vec![Value::Integer(1), Value::Str("x".to_owned())]);
    let b = Value::List(vec![Value::Integer(1), Value::Str("x".to_owned())]);
    let c = Value::List(vec![Value::Integer(2), Value::Str("x".to_owned())]);
    assert!(value_eq(&a, &b));
    assert!(!value_eq(&a, &c));
    assert!(!value_eq(&a, &Value::Integer(1)));
}

use lispi::eval::eval;
use lispi::eval::value_eq;
use lispi::eval::Context;
use lispi::eval::EvalError;
use lispi::parser::Parser;
use lispi::Value;

fn run(src: &str) -> Result<Value, EvalError> {
    let mut p = Parser::new();
    let mut ctx = Context::new();
    let forms = p.parse_next(src).expect("source should parse");
    p.finish().expect("source should be complete");
    let mut last = Value::Nil;
    for f in forms {
        last = eval(&mut ctx, f)?;
    }
    Ok(last)
}

fn expect_err(src: &str, expected: EvalError) {
    match run(src) {
        Err(e) => assert_eq!(e, expected),
        Ok(v) => panic!("expected {:?}, got value {:?}", expected, v),
    }
}

fn expect_same(src: &str, expected: &Value) {
    match run(src) {
        Ok(v) => assert!(
            value_eq(&v, expected),
            "expected {:?}, got {:?}",
            expected,
            v
        ),
        other => panic!("expected {:?}, got {:?}", expected, other),
    }
}

fn ints(ns: &[i64]) -> Value {
    Value::List(ns.iter().map(|n| Value::Integer(*n)).collect())
}

#[test]
fn list_builds_the_list_of_its_evaluated_arguments() {
    expect_same("(list 1 2 3)", &ints(&[1, 2, 3]));
    expect_same("(list)", &ints(&[]));
    expect_same("(list (+ 1 2) (+ 3 4))", &ints(&[3, 7]));
}

#[test]
fn cons_prepends_to_a_list() {
    expect_same("(cons 1 (list 2 3))", &ints(&[1, 2, 3]));
    expect_same("(cons 1 (list))", &ints(&[1]));
}

#[test]
fn first_yields_the_head() {
    expect_same("(first (list 1 2 3))", &Value::Integer(1));
}

#[test]
fn rest_yields_the_list_without_its_head() {
    expect_same("(rest (list 1 2 3))", &ints(&[2, 3]));
    expect_same("(rest (list 1))", &ints(&[]));
}

#[test]
fn empty_of_the_empty_list_is_true() {
    expect_same("(empty? (list))", &Value::Bool(true));
    expect_same("(empty? (list 1))", &Value::Bool(false));
}

#[test]
fn first_of_the_empty_list_fails() {
    expect_err("(first (list))", EvalError::EmptyListOperand);
}

#[test]
fn rest_of_the_empty_list_fails() {
    expect_err("(rest (list))", EvalError::EmptyListOperand);
}

#[test]
fn list_builtins_reject_non_lists() {
    expect_err("(first 5)", EvalError::WrongType);
    expect_err("(rest 5)", EvalError::WrongType);
    expect_err("(cons 1 2)", EvalError::WrongType);
    expect_err("(empty? 1)", EvalError::WrongType);
}

#[test]
fn list_builtin_arities() {
    expect_err("(first)", EvalError::ArityMismatch { expected: 1, actual: 0 });
    expect_err("(rest (list 1) (list 2))", EvalError::ArityMismatch { expected: 1, actual: 2 });
    expect_err("(cons 1)", EvalError::ArityMismatch { expected: 2, actual: 1 });
    expect_err("(empty?)", EvalError::ArityMismatch { expected: 1, actual: 0 });
}

#[test]
fn round_trip_composition_equals_the_literal_list() {
    expect_same("(= (cons 1 (rest (list 9 2 3))) (list 1 2 3))", &Value::Bool(true));
    expect_same("(= (first (cons 4 (list))) 4)", &Value::Bool(true));
    expect_same(
        "(= (cons (first (list 1)) (rest (list 1 2 3))) (list 1 2 3))",
        &Value::Bool(true),
    );
}

#[test]
fn lists_compare_element_by_element() {
    expect_same("(= (list 1 2) (list 1 2))", &Value::Bool(true));
    expect_same("(= (list 1 2) (list 1 3))", &Value::Bool(false));
    expect_same("(= (list 1 2) (list 1))", &Value::Bool(false));
    expect_same("(= (list (list 1) 2) (list (list 1) 2))", &Value::Bool(true));
}

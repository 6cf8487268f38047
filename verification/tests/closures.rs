use lispi::eval::eval;
use lispi::eval::Context;
use lispi::eval::EvalError;
use lispi::parser::Parser;
use lispi::Value;

fn run(src: &str) -> Result<Value, EvalError> {
    let mut p = Parser::new();
    let mut ctx = Context::new();
    let forms = p.parse_next(src).expect("source should parse");
    p.finish().expect("source should be complete");
    let mut last = Value::Nil;
    for f in forms {
        last = eval(&mut ctx, f)?;
    }
    Ok(last)
}

fn expect_err(src: &str, expected: EvalError) {
    match run(src) {
        Err(e) => assert_eq!(e, expected),
        Ok(v) => panic!("expected {:?}, got value {:?}", expected, v),
    }
}

fn expect_int(src: &str, n: i64) {
    match run(src) {
        Ok(Value::Integer(k)) => assert_eq!(k, n),
        other => panic!("expected integer {}, got {:?}", n, other),
    }
}

fn expect_bool(src: &str, b: bool) {
    match run(src) {
        Ok(Value::Bool(k)) => assert_eq!(k, b),
        other => panic!("expected bool {}, got {:?}", b, other),
    }
}

#[test]
fn a_closure_applies_to_its_arguments() {
    expect_int("((fn (a b) (+ a b)) 3 4)", 7);
}

#[test]
fn closure_arguments_shadow_globals() {
    expect_int("(def x 1) ((fn (x) x) 9)", 9);
}

#[test]
fn a_closure_captures_its_defining_local_scope() {
    expect_int("(def make (fn (a) (fn () a))) (def g (make 3)) (g)", 3);
}

#[test]
fn a_redefinition_is_visible_to_closures_created_before_it() {
    expect_int("(def x 5) (def get (fn () x)) (def x 6) (get)", 6);
}

#[test]
fn the_global_scope_is_shared_after_a_def_inside_a_call() {
    expect_int("((fn () (def y 41))) (+ y 1)", 42);
}

#[test]
fn wrong_argument_count_names_expected_and_actual() {
    expect_err("((fn (a) a) 1 2)", EvalError::ArityMismatch { expected: 1, actual: 2 });
    expect_err("((fn (a b) a))", EvalError::ArityMismatch { expected: 2, actual: 0 });
}

#[test]
fn recur_arity_is_checked_against_the_parameters() {
    expect_err("((fn (n) (recur n n)) 1)", EvalError::ArityMismatch { expected: 1, actual: 2 });
}

#[test]
fn deep_tail_recursion_completes_via_the_trampoline() {
    expect_int(
        "((fn (n acc) (if (= n 0) acc (recur (+ n -1) (+ acc n)))) 100000 0)",
        5000050000,
    );
}

#[test]
fn tail_recursion_matches_the_closed_form() {
    expect_int(
        "((fn (n acc) (if (= n 0) acc (recur (+ n -1) (+ acc n)))) 10 0)",
        55,
    );
}

#[test]
fn a_bare_recur_list_is_inert_outside_a_closure() {
    match run("(recur 1 2)") {
        Ok(Value::List(es)) => {
            assert_eq!(es.len(), 3);
            assert!(matches!(&es[0], Value::Symbol(s) if s == "recur"));
        },
        other => panic!("expected the recur list back, got {:?}", other),
    }
}

#[test]
fn fn_malformed_shapes_are_rejected() {
    expect_err("(fn x x)", EvalError::MalformedForm);
    expect_err("(fn (1) x)", EvalError::MalformedForm);
    expect_err("(fn (a))", EvalError::ArityMismatch { expected: 2, actual: 1 });
}

#[test]
fn two_closures_from_the_same_text_are_distinct() {
    expect_bool("(= (fn (a) a) (fn (a) a))", false);
}

#[test]
fn a_closure_equals_itself() {
    expect_bool("(def f (fn (a) a)) (= f f)", true);
}

#[test]
fn a_closure_body_is_not_evaluated_at_definition() {
    assert!(matches!(run("(fn () missing)"), Ok(Value::Function(_))));
    assert!(matches!(
        run("((fn () missing))"),
        Err(EvalError::UnresolvedSymbol(_))
    ));
}

#[test]
fn calling_a_non_function_fails() {
    expect_err("(1 2)", EvalError::NotCallable);
}

#[test]
fn evaluating_the_empty_list_fails() {
    expect_err("()", EvalError::EmptyCall);
}

#[test]
fn an_unresolved_symbol_names_itself() {
    expect_err("nope", EvalError::UnresolvedSymbol("nope".to_owned()));
}

#[test]
fn duplicate_parameters_bind_the_last_argument() {
    expect_int("((fn (a a) a) 1 2)", 2);
}

#[test]
fn a_recur_list_not_in_tail_position_is_plain_data() {
    match run("((fn (x) (list (recur 1))) 5)") {
        Ok(Value::List(es)) => {
            assert_eq!(es.len(), 1);
            assert!(matches!(&es[0], Value::List(inner) if inner.len() == 2));
        },
        other => panic!("expected a list of one recur list, got {:?}", other),
    }
}

#[test]
fn builtins_can_be_shadowed_by_def() {
    expect_int("(def plus +) (def + 1) (plus + +)", 2);
}

#[test]
fn functions_are_ordinary_values() {
    expect_int("(first (list + =)) ((first (list + =)) 2 3)", 5);
}

use lispi::eval::eval;
use lispi::eval::import_paths;
use lispi::eval::value_eq;
use lispi::eval::Context;
use lispi::eval::EvalError;
use lispi::nums::u64_to_string;
use lispi::parser::ParseError;
use lispi::parser::Parser;
use lispi::Value;

fn parse_all(src: &str) -> Result<Vec<Value>, ParseError> {
    let mut p = Parser::new();
    let forms = p.parse_next(src)?;
    p.finish()?;
    Ok(forms)
}

#[test]
fn integers_parse_with_signs() {
    let forms = parse_all("42 -7 +5 0").unwrap();
    let expect = [42i64, -7, 5, 0];
    assert_eq!(forms.len(), 4);
    for (f, n) in forms.iter().zip(expect.iter()) {
        assert!(matches!(f, Value::Integer(k) if k == n));
    }
}

#[test]
fn the_extreme_integers_parse() {
    let forms = parse_all("9223372036854775807 -9223372036854775808").unwrap();
    assert!(matches!(forms[0], Value::Integer(i64::MAX)));
    assert!(matches!(forms[1], Value::Integer(i64::MIN)));
}

#[test]
fn an_integer_just_out_of_range_is_a_bad_token() {
    assert!(matches!(
        parse_all("9223372036854775808"),
        Err(ParseError::BadToken)
    ));
}

#[test]
fn symbols_and_operators_parse() {
    let forms = parse_all("abc x1? a/b a_b + - * / = > <").unwrap();
    assert_eq!(forms.len(), 11);
    for f in &forms {
        assert!(matches!(f, Value::Symbol(_)));
    }
}

#[test]
fn a_token_starting_with_a_digit_is_a_bad_token() {
    assert!(matches!(parse_all("1abc"), Err(ParseError::BadToken)));
}

#[test]
fn strings_parse_without_escapes() {
    let forms = parse_all("\"hello world\"").unwrap();
    assert!(matches!(&forms[0], Value::Str(s) if s == "hello world"));
}

#[test]
fn an_unterminated_string_is_an_error() {
    assert!(matches!(parse_all("\"oops"), Err(ParseError::UnterminatedString)));
}

#[test]
fn comments_run_to_the_end_of_the_line() {
    let forms = parse_all("; a comment\n7").unwrap();
    assert!(matches!(forms[0], Value::Integer(7)));
    let forms = parse_all("(+ 1 ; inline\n2)").unwrap();
    assert_eq!(forms.len(), 1);
    let forms2 = parse_all("; only a comment").unwrap();
    assert!(forms2.is_empty());
}

#[test]
fn nested_lists_parse_in_source_order() {
    let forms = parse_all("(a (b 1) (c (d)))").unwrap();
    assert_eq!(forms.len(), 1);
    match &forms[0] {
        Value::List(es) => {
            assert_eq!(es.len(), 3);
            assert!(matches!(&es[0], Value::Symbol(s) if s == "a"));
            assert!(matches!(&es[1], Value::List(inner) if inner.len() == 2));
        },
        other => panic!("expected a list, got {:?}", other),
    }
}

#[test]
fn an_unmatched_closing_parenthesis_is_an_error() {
    assert!(matches!(parse_all(")"), Err(ParseError::UnmatchedClose)));
}

#[test]
fn an_open_list_carries_over_to_the_next_call() {
    let mut p = Parser::new();
    let first = p.parse_next("(+ 1").unwrap();
    assert!(first.is_empty());
    let second = p.parse_next(" 2)").unwrap();
    assert_eq!(second.len(), 1);
    p.finish().unwrap();
}

#[test]
fn finish_rejects_a_half_open_list() {
    let mut p = Parser::new();
    p.parse_next("(+ 1").unwrap();
    assert_eq!(p.finish(), Err(ParseError::Unfinished));
}

#[test]
fn whitespace_only_input_parses_to_nothing() {
    assert!(parse_all("  \n\t ").unwrap().is_empty());
    assert!(parse_all("").unwrap().is_empty());
}

#[test]
fn import_evaluates_a_loaded_source() {
    let mut ctx = Context::new();
    let lib_forms = parse_all("(def seven 7)").unwrap();
    ctx.load_source("lib.lisp".to_owned(), lib_forms);
    let mut last = Value::Nil;
    for f in parse_all("(import \"lib.lisp\") (+ seven 1)").unwrap() {
        last = eval(&mut ctx, f).unwrap();
    }
    assert!(value_eq(&last, &Value::Integer(8)));
}

#[test]
fn import_of_an_unloaded_source_fails_with_the_path() {
    let mut ctx = Context::new();
    let forms = parse_all("(import \"nothing.lisp\")").unwrap();
    let mut out = Ok(Value::Nil);
    for f in forms {
        out = eval(&mut ctx, f);
    }
    match out {
        Err(EvalError::ImportFailure(p)) => assert_eq!(p, "nothing.lisp"),
        other => panic!("expected an import failure, got {:?}", other),
    }
}

#[test]
fn import_wants_a_string() {
    let mut ctx = Context::new();
    let forms = parse_all("(import 5)").unwrap();
    let mut out = Ok(Value::Nil);
    for f in forms {
        out = eval(&mut ctx, f);
    }
    assert!(matches!(out, Err(EvalError::WrongType)));
}

#[test]
fn import_paths_finds_nested_literal_imports() {
    let forms = parse_all("(def x (import \"a.lisp\")) (import \"b.lisp\")").unwrap();
    let mut found: Vec<String> = Vec::new();
    for f in &forms {
        found.extend(import_paths(f));
    }
    assert_eq!(found, vec!["a.lisp".to_owned(), "b.lisp".to_owned()]);
}

#[test]
fn import_paths_ignores_computed_paths() {
    let forms = parse_all("(import (first (list \"a.lisp\")))").unwrap();
    assert!(import_paths(&forms[0]).is_empty());
}

#[test]
fn counters_render_in_decimal() {
    assert_eq!(u64_to_string(0), "0");
    assert_eq!(u64_to_string(42), "42");
    assert_eq!(u64_to_string(18446744073709551615), "18446744073709551615");
}

#[test]
fn parentheses_inside_strings_are_text() {
    let forms = parse_all("\"(a)\"").unwrap();
    assert!(matches!(&forms[0], Value::Str(t) if t == "(a)"));
}

#[test]
fn deep_nesting_parses() {
    let forms = parse_all("((((((1))))))").unwrap();
    assert_eq!(forms.len(), 1);
    let mut v = &forms[0];
    let mut depth = 0;
    while let Value::List(es) = v {
        assert_eq!(es.len(), 1);
        v = &es[0];
        depth += 1;
    }
    assert_eq!(depth, 6);
    assert!(matches!(v, Value::Integer(1)));
}

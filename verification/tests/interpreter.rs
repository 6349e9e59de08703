use nylisp_eval::ast::{NylispError, NylispExpression};
use nylisp_eval::environment::{builtin_env, equal_expr};
use nylisp_eval::evaluation::Evaluator;
use nylisp_eval::parser::Parser;
use nylisp_eval::tokenizer::Tokenizer;

fn num(x: f64) -> NylispExpression {
    NylispExpression::Number(x.to_bits())
}

fn sym(s: &str) -> NylispExpression {
    NylispExpression::Symbol(s.to_string())
}

fn input_and_go(input: &str) -> Vec<Result<NylispExpression, NylispError>> {
    let tokenizer_obj = Tokenizer::new(input.to_string());
    let tokens = tokenizer_obj.tokenize();
    let parser = Parser::new();
    let (result, _) = parser.parse_program(tokens).unwrap();
    let mut evaluator = Evaluator::new(vec![result]);
    let mut env = builtin_env();
    evaluator.eval_programs(&mut env)
}

fn run_batch(inputs: &[&str]) -> Vec<Result<NylispExpression, NylispError>> {
    let parser = Parser::new();
    let mut program = Vec::new();
    for input in inputs {
        let tokens = Tokenizer::new(input.to_string()).tokenize();
        let (expr, _) = parser.parse_program(tokens).unwrap();
        program.push(expr);
    }
    let mut evaluator = Evaluator::new(program);
    let mut env = builtin_env();
    evaluator.eval_programs(&mut env)
}

fn assert_value(got: &Result<NylispExpression, NylispError>, expected: &NylispExpression) {
    match got {
        Ok(v) => assert!(equal_expr(v, expected), "value mismatch: {:?}", v),
        Err(e) => panic!("unexpected error: {}", e.message()),
    }
}

fn assert_error(got: &Result<NylispExpression, NylispError>, expected: &str) {
    match got {
        Ok(v) => panic!("expected an error, got {:?}", v),
        Err(e) => assert_eq!(e.message().as_str(), expected),
    }
}

#[test]
fn eval_nylisp_test_plus() {
    let got = input_and_go("💖+ 1 2💔");
    assert_value(&got[0], &num(3.0));
}

#[test]
fn eval_nylisp_test_minus() {
    let got = input_and_go("💖- 1 2💔");
    assert_value(&got[0], &num(-1.0));
}

#[test]
fn eval_nylisp_test_bigger_or_smaller() {
    let got = input_and_go("💖> 1 2 3 4💔");
    assert_value(&got[0], &NylispExpression::Boolean(false));

    let got = input_and_go("💖< 1 2 3 4💔");
    assert_value(&got[0], &NylispExpression::Boolean(true));
}

#[test]
fn eval_nylisp_test_car_quote() {
    let got = input_and_go("💖🚗😪💖👎 👍 👍💔💔");
    assert_value(&got[0], &NylispExpression::Boolean(false));
}

#[test]
fn eval_nylisp_test_not_car() {
    let got = input_and_go("💖🚗💖❌ 💖= 1 2💔💖= 1 3💔💖= 1 4💔💔💔");
    assert_value(&got[0], &NylispExpression::Boolean(true));
}

#[test]
fn eval_nylisp_test_not_cdr() {
    let got = input_and_go("💖💭💖❌ 💖= 1 2💔💖= 1 3💔💖= 1 4💔💔💔");
    let expected = NylispExpression::List(vec![
        NylispExpression::Boolean(true),
        NylispExpression::Boolean(true),
    ]);
    assert_value(&got[0], &expected);
}

#[test]
fn eval_nylisp_test_cdr() {
    let got = input_and_go("💖💭😪💖1 2💔💔");
    let expected = NylispExpression::List(vec![num(2.0)]);
    assert_value(&got[0], &expected);
}

#[test]
fn eval_nylisp_err_quote_it() {
    let got = input_and_go("💖💩 1 2 3💔");
    assert_error(&got[0], "symbol 💩 not found in environment");
}

#[test]
fn eval_nylisp_insert_dat() {
    let got = input_and_go("💖🌹 hoge 😪💖1 2 3💔💔");
    let expected = NylispExpression::List(vec![
        sym("hoge"),
        NylispExpression::List(vec![num(1.0), num(2.0), num(3.0)]),
        NylispExpression::Boolean(true),
    ]);
    assert_value(&got[0], &expected);
}

#[test]
fn eval_nylisp_if_statement() {
    let got = input_and_go("💖🐶 💖🚗😪💖👎 👍 👍💔💔 😪ok 😪unexpected💔");
    assert_value(&got[0], &sym("unexpected"));
}

#[test]
fn eval_nylisp_lambda() {
    let got = input_and_go("💖💖🐷💖 x 💔 💖🚗 x💔💔😪💖ok no💔💔");
    assert_value(&got[0], &sym("ok"));
}

#[test]
fn eval_nylisp_scoped_let() {
    let got = input_and_go("💖🍙 💖💖x 2💔💖y 2💔💔 💖+ x y💔💔");
    assert_value(&got[0], &num(4.0));
}

#[test]
fn eval_nylisp_random() {
    let got = input_and_go("💖🎨 123456789💔");
    if let NylispExpression::Number(_) = got[0].as_ref().unwrap() {
        assert!(true);
    } else {
        assert!(false);
    }
}

#[test]
fn eval_random_within_bound() {
    for _ in 0..32 {
        let got = input_and_go("💖🎨 10💔");
        match got[0].as_ref().unwrap() {
            NylispExpression::Number(bits) => {
                let value = f64::from_bits(*bits);
                assert!(value >= 0.0 && value < 10.0);
                assert_eq!(value, value.trunc());
            },
            other => panic!("expected a number, got {:?}", other),
        }
    }
}

#[test]
fn eval_random_rejects_zero_bound() {
    let got = input_and_go("💖🎨 0💔");
    assert_error(&got[0], "🎨 requires a positive number as first argument");
}

#[test]
fn eval_var_then_lookup() {
    let got = run_batch(&["💖🌹 hoge 😪💖1 2 3💔💔", "hoge"]);
    let expected = NylispExpression::List(vec![num(1.0), num(2.0), num(3.0)]);
    assert_value(&got[1], &expected);
}

#[test]
fn eval_scoped_let_bindings_not_visible_after() {
    let got = run_batch(&["💖🍙 💖💖x 2💔💖y 2💔💔 💖+ x y💔💔", "x"]);
    assert_value(&got[0], &num(4.0));
    assert_error(&got[1], "symbol x not found in environment");
}

#[test]
fn eval_closure_arity_mismatch() {
    let got = input_and_go("💖💖🐷💖 x 💔 x💔💔");
    assert_error(
        &got[0],
        "🏨 requires the same number of arguments as parameters, got 1 and 0",
    );
}

#[test]
fn eval_closure_free_variable_uses_caller_environment() {
    let got = run_batch(&[
        "💖🌹 f 💖🐷💖 x 💔 💖+ x y💔💔💔",
        "💖🌹 y 1💔",
        "💖f 2💔",
        "💖🌹 y 10💔",
        "💖f 2💔",
    ]);
    assert_value(&got[2], &num(3.0));
    assert_value(&got[4], &num(12.0));
}

#[test]
fn eval_arithmetic_folds() {
    assert_value(&input_and_go("💖* 2 3 4💔")[0], &num(24.0));
    assert_value(&input_and_go("💖/ 1 2💔")[0], &num(0.5));
    assert_value(&input_and_go("💖% 5 3💔")[0], &num(2.0));
    assert_value(&input_and_go("💖+ 1.5 2.25💔")[0], &num(3.75));
}

#[test]
fn eval_equal_builtin() {
    assert_value(&input_and_go("💖= 1 1 1💔")[0], &NylispExpression::Boolean(true));
    assert_value(&input_and_go("💖= 1 2💔")[0], &NylispExpression::Boolean(false));
}

#[test]
fn eval_and_or_semantics() {
    assert_value(&input_and_go("💖😎 👍 👎💔")[0], &NylispExpression::Boolean(false));
    assert_value(&input_and_go("💖😕 👎 👍💔")[0], &NylispExpression::Boolean(true));
    assert_value(&input_and_go("💖😎 👎 👍💔")[0], &NylispExpression::Boolean(false));
    assert_value(&input_and_go("💖😕 👍 👎💔")[0], &NylispExpression::Boolean(true));
}

#[test]
fn eval_not_returns_list() {
    let got = input_and_go("💖❌ 👍 👎💔");
    let expected = NylispExpression::List(vec![
        NylispExpression::Boolean(false),
        NylispExpression::Boolean(true),
    ]);
    assert_value(&got[0], &expected);
}

#[test]
fn eval_car_empty_list_is_error() {
    let got = input_and_go("💖🚗😪💖💔💔");
    assert_error(&got[0], "🚗 requires a non-empty list");
}

#[test]
fn eval_cdr_empty_list_is_empty() {
    let got = input_and_go("💖💭😪💖💔💔");
    assert_value(&got[0], &NylispExpression::List(vec![]));
}

#[test]
fn eval_if_arity_error_message() {
    let got = input_and_go("💖🐶 👍 👍💔");
    assert_error(&got[0], "🐶 requires 3 arguments, got 2");
}

#[test]
fn eval_empty_list_is_false() {
    let got = input_and_go("💖💔");
    assert_value(&got[0], &NylispExpression::Boolean(false));
}

#[test]
fn eval_not_a_function_error() {
    let got = input_and_go("💖1 2💔");
    assert_error(&got[0], "not a function: Number(1)");
}

#[test]
fn eval_plus_type_error() {
    let got = input_and_go("💖+ 1 👍💔");
    assert_error(&got[0], "expected a number");
}

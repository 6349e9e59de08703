use nylisp_eval::ast::NylispExpression;
use nylisp_eval::environment::equal_expr;
use nylisp_eval::parser::Parser;
use nylisp_eval::tokenizer::Tokenizer;

fn num(x: f64) -> NylispExpression {
    NylispExpression::Number(x.to_bits())
}

fn sym(s: &str) -> NylispExpression {
    NylispExpression::Symbol(s.to_string())
}

#[test]
fn tokenize_nylisp_test1() {
    let input = "💖+ 1 2💔";
    let expected = vec!["💖", "+", "1", "2", "💔"];
    let tokenizer = Tokenizer::new(input.to_string());
    let tokens = tokenizer.tokenize();
    assert_eq!(tokens, expected);
}

#[test]
fn tokenize_nylisp_test2() {
    let input = "💖+ 💖* 2 3💔 💖* 4 5💔💔";
    let expected = vec![
        "💖", "+", "💖", "*", "2", "3", "💔", "💖", "*", "4", "5", "💔", "💔",
    ];
    let tokenizer = Tokenizer::new(input.to_string());
    let tokens = tokenizer.tokenize();
    assert_eq!(tokens, expected);
}

#[test]
fn tokenize_whitespace_runs() {
    let tokenizer = Tokenizer::new("  +\t1\n2  ".to_string());
    assert_eq!(tokenizer.tokenize(), vec!["+", "1", "2"]);
}

#[test]
fn tokenize_empty_input() {
    let tokenizer = Tokenizer::new("".to_string());
    assert_eq!(tokenizer.tokenize(), Vec::<String>::new());
}

fn parse_one(input: &str) -> NylispExpression {
    let tokenizer = Tokenizer::new(input.to_string());
    let tokens = tokenizer.tokenize();
    let parser = Parser::new();
    let (result, _) = parser.parse_program(tokens).unwrap();
    result
}

#[test]
fn parser_nylisp_test1() {
    let expected = NylispExpression::List(vec![]);
    let result = parse_one("💖💔");
    assert!(equal_expr(&result, &expected));
}

#[test]
fn parser_nylisp_test2() {
    let expected = NylispExpression::List(vec![NylispExpression::List(vec![
        NylispExpression::List(vec![]),
    ])]);
    let result = parse_one("💖💖💖💔💔💔");
    assert!(equal_expr(&result, &expected));
}

#[test]
fn parser_nylisp_test3() {
    let expected = NylispExpression::List(vec![sym("+"), num(1.0), num(2.0)]);
    let result = parse_one("💖+ 1 2💔");
    assert!(equal_expr(&result, &expected));
}

#[test]
fn parser_nylisp_test4() {
    let expected = NylispExpression::List(vec![
        sym("+"),
        num(1.0),
        NylispExpression::List(vec![sym("+"), num(2.0), num(3.0)]),
    ]);
    let result = parse_one("💖+ 1 💖+ 2 3💔💔");
    assert!(equal_expr(&result, &expected));
}

#[test]
fn parser_nylisp_quote() {
    let expected = NylispExpression::List(vec![
        sym("☁️"),
        NylispExpression::Quote(Box::new(NylispExpression::List(vec![
            num(1.0),
            num(2.0),
            num(3.0),
        ]))),
    ]);
    let result = parse_one("💖☁️😪💖1 2 3💔💔");
    assert!(equal_expr(&result, &expected));
}

#[test]
fn parser_multiple_list() {
    let tokenizer = Tokenizer::new("💖💔💖💔".to_string());
    let tokens = tokenizer.tokenize();
    let parser = Parser::new();
    let res = parser.parse_programs(tokens);
    assert_eq!(res.len(), 2);
}

#[test]
fn parser_unexpected_close() {
    let tokenizer = Tokenizer::new("💔".to_string());
    let tokens = tokenizer.tokenize();
    let parser = Parser::new();
    let err = parser.parse_program(tokens).unwrap_err();
    assert_eq!(err.message().as_str(), "unexpected ')'");
}

#[test]
fn parser_unclosed_list() {
    let tokenizer = Tokenizer::new("💖+ 1".to_string());
    let tokens = tokenizer.tokenize();
    let parser = Parser::new();
    let err = parser.parse_program(tokens).unwrap_err();
    assert_eq!(err.message().as_str(), "unexpected end of input");
}

#[test]
fn parser_boolean_literals() {
    let result = parse_one("👍");
    assert!(equal_expr(&result, &NylispExpression::Boolean(true)));
    let result = parse_one("👎");
    assert!(equal_expr(&result, &NylispExpression::Boolean(false)));
}

#[test]
fn parser_float_token() {
    let result = parse_one("2.5");
    assert!(equal_expr(&result, &num(2.5)));
}

//! A small Lisp-family interpreter: a tokenizer, a recursive-descent
//! parser, a chained-scope environment, and a tree-walking evaluator,
//! each verified against a mathematical model of its behaviour.
use vstd::prelude::*;

pub mod ast;
pub mod environment;
pub mod evaluation;
pub mod numerics;
pub mod parser;
pub mod render;
pub mod text;
pub mod tokenizer;

use crate::ast::{NylispError, NylispExpression, exprs_model};
use crate::environment::{builtin_env, builtin_frame};
use crate::evaluation::{EnvModel, Evaluator, outs_model, progs_rel};
use crate::parser::{Parser, parse_programs_spec, results_model};
use crate::tokenizer::{Tokenizer, tokenize_spec};

verus! {

/// Splits program text into tokens.
pub fn tokenize_nylisp(plaintext: String) -> (tokens: Vec<String>)
    ensures
        tokens.deep_view() == tokenize_spec(plaintext.view()),
{
    let tokenizer_obj = Tokenizer::new(plaintext);
    tokenizer_obj.tokenize()
}

/// Parses tokens into expression trees, one entry per top-level form.
pub fn parse_nylisps(tokens: Vec<String>) -> (r: Vec<Result<NylispExpression, NylispError>>)
    ensures
        results_model(r.view()) == parse_programs_spec(tokens.deep_view()),
{
    let parser = Parser::new();
    parser.parse_programs(tokens)
}

/// Evaluates a batch of expressions against a fresh builtin environment,
/// one outcome per expression.
pub fn evaluate_nylisp(ast: Vec<NylispExpression>) -> (r: Vec<
    Result<NylispExpression, NylispError>,
>)
    ensures
        exists|env2: EnvModel|
            #[trigger] progs_rel(
                exprs_model(ast.view()),
                seq![builtin_frame()],
                outs_model(r.view()),
                env2,
            ),
{
    let mut env = builtin_env();
    proof {
        assert(env.view() =~= seq![builtin_frame()]);
    }
    let mut evaluator = Evaluator::new(ast);
    let r = evaluator.eval_programs(&mut env);
    proof {
        assert(progs_rel(
            exprs_model(ast.view()),
            seq![builtin_frame()],
            outs_model(r.view()),
            env.view(),
        ));
    }
    r
}

} // verus!

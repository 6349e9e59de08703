//! Recursive-descent parser from tokens to expression trees, with one
//! token of lookahead. Malformed nesting surfaces as a parse error,
//! never as a panic.
use vstd::prelude::*;

use crate::ast::{ExprModel, NylispError, NylispExpression, exprs_model, lemma_exprs_model_index};
use crate::numerics::{f64_parse, parse_bits};
use crate::text::is_char_token;
use crate::tokenizer::{FALSE_TOKEN, LPAREN, QUOTE, RPAREN, TRUE_TOKEN};

verus! {

/// The message for a close delimiter with no open one.
pub open spec fn unexpected_close_msg() -> Seq<char> {
    "unexpected ')'".view()
}

/// The message for input that ends while a form is still open.
pub open spec fn end_of_input_msg() -> Seq<char> {
    "unexpected end of input".view()
}

/// What one non-delimiter token stands for: a number when the float
/// parser accepts it, else a boolean literal, else a symbol.
pub open spec fn atom_model(t: Seq<char>) -> ExprModel {
    if parse_bits(t) is Some {
        ExprModel::Number(parse_bits(t)->Some_0)
    } else if t == seq![TRUE_TOKEN] {
        ExprModel::Boolean(true)
    } else if t == seq![FALSE_TOKEN] {
        ExprModel::Boolean(false)
    } else {
        ExprModel::Symbol(t)
    }
}

/// Parsing one form from the front of the token sequence: the parsed
/// expression and the number of tokens consumed, or a parse error.
pub open spec fn parse_one_spec(ts: Seq<Seq<char>>) -> Result<(ExprModel, nat), Seq<char>>
    decreases ts.len(), 0int,
{
    if ts.len() == 0 {
        Err(end_of_input_msg())
    } else if ts[0] == seq![LPAREN] {
        match parse_list_spec(ts.skip(1)) {
            Ok((elems, k)) => Ok((ExprModel::List(elems), (1 + k) as nat)),
            Err(m) => Err(m),
        }
    } else if ts[0] == seq![QUOTE] {
        match parse_one_spec(ts.skip(1)) {
            Ok((e, k)) => Ok((ExprModel::Quote(Box::new(e)), (1 + k) as nat)),
            Err(m) => Err(m),
        }
    } else if ts[0] == seq![RPAREN] {
        Err(unexpected_close_msg())
    } else {
        Ok((atom_model(ts[0]), 1))
    }
}

/// Parsing list elements up to and including the matching close
/// delimiter: the element models and the number of tokens consumed.
pub open spec fn parse_list_spec(ts: Seq<Seq<char>>) -> Result<(Seq<ExprModel>, nat), Seq<char>>
    decreases ts.len(), 1int,
{
    if ts.len() == 0 {
        Err(end_of_input_msg())
    } else if ts[0] == seq![RPAREN] {
        Ok((Seq::empty(), 1))
    } else {
        match parse_one_spec(ts) {
            Ok((e, k)) => if 1 <= k <= ts.len() {
                match parse_list_spec(ts.skip(k as int)) {
                    Ok((elems, k2)) => Ok((seq![e] + elems, (k + k2) as nat)),
                    Err(m) => Err(m),
                }
            } else {
                Err(end_of_input_msg())
            },
            Err(m) => Err(m),
        }
    }
}

/// A successful parse consumes at least one and at most all tokens.
pub proof fn lemma_parse_consumes(ts: Seq<Seq<char>>)
    ensures
        parse_one_spec(ts) matches Ok(r) ==> 1 <= r.1 <= ts.len(),
        parse_list_spec(ts) matches Ok(r) ==> 1 <= r.1 <= ts.len(),
    decreases ts.len(),
{
    if ts.len() > 0 {
        lemma_parse_consumes(ts.skip(1));
        if !(ts[0] == seq![RPAREN]) && parse_one_spec(ts) is Ok {
            let k = parse_one_spec(ts)->Ok_0.1;
            if 1 <= k <= ts.len() {
                lemma_parse_consumes(ts.skip(k as int));
            }
        }
    }
}

/// Parsing every top-level form: one entry per form, and after an error
/// entry nothing more.
pub open spec fn parse_programs_spec(ts: Seq<Seq<char>>) -> Seq<Result<ExprModel, Seq<char>>>
    decreases ts.len(),
{
    match parse_one_spec(ts) {
        Err(m) => seq![Err(m)],
        Ok((e, k)) => if k < ts.len() && 1 <= k {
            seq![Ok(e)] + parse_programs_spec(ts.skip(k as int))
        } else {
            seq![Ok(e)]
        },
    }
}

/// A copy of the tokens after the first.
fn tail_tokens(tokens: &Vec<String>) -> (r: Vec<String>)
    requires
        tokens.len() >= 1,
    ensures
        r.deep_view() == tokens.deep_view().skip(1),
{
    let mut r: Vec<String> = Vec::new();
    let mut i: usize = 1;
    while i < tokens.len()
        invariant
            1 <= i <= tokens.len(),
            r.view().len() == i - 1,
            forall|j: int| 0 <= j < i - 1 ==> r.view()[j].view() == tokens.deep_view()[j + 1],
        decreases tokens.len() - i,
    {
        r.push(tokens[i].clone());
        i = i + 1;
    }
    proof {
        assert(r.deep_view() =~= tokens.deep_view().skip(1));
    }
    r
}

#[derive(Debug, PartialEq, Eq, Structural, Copy, Clone)]
pub struct Parser {}

impl Parser {
    pub fn new() -> (p: Parser)
        ensures
            p == (Parser {  }),
    {
        Parser {  }
    }

    /// Parse one form from the front of the tokens and hand back the
    /// remaining tokens, or the parse error that `parse_one_spec` gives.
    pub fn parse_program(self, tokens: Vec<String>) -> (r: Result<
        (NylispExpression, Vec<String>),
        NylispError,
    >)
        ensures
            match r {
                Ok(p) => exists|k: nat|
                    parse_one_spec(tokens.deep_view()) == Ok::<_, Seq<char>>((p.0.view(), k))
                        && p.1.deep_view() == tokens.deep_view().skip(k as int),
                Err(e) => parse_one_spec(tokens.deep_view()) == Err::<(ExprModel, nat), _>(
                    e.view(),
                ),
            },
        decreases tokens.len(), 0int,
    {
        let ghost td = tokens.deep_view();
        if tokens.len() == 0 {
            proof {
                assert(td.len() == 0);
            }
            return Err(NylispError::Because(String::from_str("unexpected end of input")));
        }
        proof {
            assert(td[0] == tokens[0].view());
        }
        if is_char_token(&tokens[0], LPAREN) {
            let rest = tail_tokens(&tokens);
            match self.parse_list(rest) {
                Ok((elems, rest2)) => {
                    proof {
                        lemma_parse_consumes(td.skip(1));
                        let k2 = choose|k2: nat|
                            parse_list_spec(td.skip(1)) == Ok::<_, Seq<char>>((
                                exprs_model(elems.view()),
                                k2,
                            )) && rest2.deep_view() == td.skip(1).skip(k2 as int);
                        assert(1 <= k2 <= td.skip(1).len());
                        assert(td.skip(1).skip(k2 as int) =~= td.skip(1 + k2 as int));
                        lemma_exprs_model_index(elems.view());
                        assert(parse_one_spec(td) == Ok::<_, Seq<char>>((
                            NylispExpression::List(elems).view(),
                            (1 + k2) as nat,
                        )));
                    }
                    Ok((NylispExpression::List(elems), rest2))
                },
                Err(e) => Err(e),
            }
        } else if is_char_token(&tokens[0], QUOTE) {
            let rest = tail_tokens(&tokens);
            match self.parse_program(rest) {
                Ok((e, rest2)) => {
                    proof {
                        lemma_parse_consumes(td.skip(1));
                        let k2 = choose|k2: nat|
                            parse_one_spec(td.skip(1)) == Ok::<_, Seq<char>>((e.view(), k2))
                                && rest2.deep_view() == td.skip(1).skip(k2 as int);
                        assert(1 <= k2 <= td.skip(1).len());
                        assert(td.skip(1).skip(k2 as int) =~= td.skip(1 + k2 as int));
                    }
                    Ok((NylispExpression::Quote(Box::new(e)), rest2))
                },
                Err(e) => Err(e),
            }
        } else if is_char_token(&tokens[0], RPAREN) {
            Err(NylispError::Because(String::from_str("unexpected ')'")))
        } else {
            let atom = self.parse_atom(tokens[0].clone());
            let rest = tail_tokens(&tokens);
            Ok((atom, rest))
        }
    }

    /// Parse list elements up to the matching close delimiter.
    fn parse_list(self, tokens: Vec<String>) -> (r: Result<
        (Vec<NylispExpression>, Vec<String>),
        NylispError,
    >)
        ensures
            match r {
                Ok(p) => exists|k: nat|
                    parse_list_spec(tokens.deep_view()) == Ok::<_, Seq<char>>((
                        exprs_model(p.0.view()),
                        k,
                    )) && p.1.deep_view() == tokens.deep_view().skip(k as int),
                Err(e) => parse_list_spec(tokens.deep_view()) == Err::<(Seq<ExprModel>, nat), _>(
                    e.view(),
                ),
            },
        decreases tokens.len(), 1int,
    {
        let ghost td = tokens.deep_view();
        if tokens.len() == 0 {
            return Err(NylispError::Because(String::from_str("unexpected end of input")));
        }
        if is_char_token(&tokens[0], RPAREN) {
            let rest = tail_tokens(&tokens);
            let elems: Vec<NylispExpression> = Vec::new();
            proof {
                assert(exprs_model(elems.view()) =~= Seq::<ExprModel>::empty());
            }
            return Ok((elems, rest));
        }
        match self.parse_program(tokens) {
            Ok((e, rest)) => {
                let ghost k = choose|k: nat|
                    parse_one_spec(td) == Ok::<_, Seq<char>>((e.view(), k)) && rest.deep_view()
                        == td.skip(k as int);
                proof {
                    lemma_parse_consumes(td);
                }
                proof {
                    assert(rest.view().len() < tokens.len());
                }
                match self.parse_list(rest) {
                    Ok((mut elems, rest2)) => {
                        proof {
                            lemma_parse_consumes(td.skip(k as int));
                        }
                        let ghost k2 = choose|k2: nat|
                            parse_list_spec(td.skip(k as int)) == Ok::<_, Seq<char>>((
                                exprs_model(elems.view()),
                                k2,
                            )) && rest2.deep_view() == td.skip(k as int).skip(k2 as int);
                        let ghost before = elems.view();
                        let ghost ev = e.view();
                        let mut combined: Vec<NylispExpression> = Vec::new();
                        combined.push(e);
                        combined.append(&mut elems);
                        proof {
                            lemma_exprs_model_index(before);
                            lemma_exprs_model_index(combined.view());
                            assert(combined.view() =~= seq![combined.view()[0]] + before);
                            assert(exprs_model(combined.view()) =~= seq![ev] + exprs_model(
                                before,
                            ));
                            assert(td.skip(k as int).skip(k2 as int) =~= td.skip(k as int + k2 as int));
                        }
                        Ok((combined, rest2))
                    },
                    Err(err) => Err(err),
                }
            },
            Err(err) => Err(err),
        }
    }

    /// One token as an atom: a number when the float parser accepts the
    /// text, else a boolean literal, else a symbol.
    fn parse_atom(self, token: String) -> (r: NylispExpression)
        ensures
            r.view() == atom_model(token.view()),
    {
        match f64_parse(&token) {
            Some(bits) => NylispExpression::Number(bits),
            None => {
                if is_char_token(&token, TRUE_TOKEN) {
                    NylispExpression::Boolean(true)
                } else if is_char_token(&token, FALSE_TOKEN) {
                    NylispExpression::Boolean(false)
                } else {
                    NylispExpression::Symbol(token)
                }
            },
        }
    }

    /// Parse every top-level form, stopping after the first parse error.
    pub fn parse_programs(self, tokens: Vec<String>) -> (r: Vec<
        Result<NylispExpression, NylispError>,
    >)
        ensures
            results_model(r.view()) == parse_programs_spec(tokens.deep_view()),
        decreases tokens.len(),
    {
        let ghost td = tokens.deep_view();
        match self.parse_program(tokens) {
            Err(e) => {
                let mut out: Vec<Result<NylispExpression, NylispError>> = Vec::new();
                out.push(Err(e));
                proof {
                    assert(results_model(out.view()) =~= parse_programs_spec(td));
                }
                out
            },
            Ok((e, rest)) => {
                let ghost k = choose|k: nat|
                    parse_one_spec(td) == Ok::<_, Seq<char>>((e.view(), k)) && rest.deep_view()
                        == td.skip(k as int);
                proof {
                    lemma_parse_consumes(td);
                    assert(parse_one_spec(td) == Ok::<_, Seq<char>>((e.view(), k))
                        && rest.deep_view() == td.skip(k as int));
                    assert(1 <= k <= td.len());
                    assert(rest.deep_view().len() == rest.view().len());
                    assert(td.skip(k as int).len() == td.len() - k);
                }
                if rest.len() == 0 {
                    let mut out: Vec<Result<NylispExpression, NylispError>> = Vec::new();
                    out.push(Ok(e));
                    proof {
                        assert(results_model(out.view()) =~= parse_programs_spec(td));
                    }
                    out
                } else {
                    proof {
                        assert(rest.view().len() < tokens.len());
                    }
                    let mut tail = self.parse_programs(rest);
                    let ghost before = tail.view();
                    let ghost ev = e.view();
                    let mut out: Vec<Result<NylispExpression, NylispError>> = Vec::new();
                    out.push(Ok(e));
                    out.append(&mut tail);
                    proof {
                        assert(results_model(out.view()) =~= seq![
                            Ok::<ExprModel, Seq<char>>(ev),
                        ] + results_model(before));
                        assert(results_model(out.view()) =~= parse_programs_spec(td));
                    }
                    out
                }
            },
        }
    }
}

/// The models of a sequence of parse results.
pub open spec fn results_model(s: Seq<Result<NylispExpression, NylispError>>) -> Seq<
    Result<ExprModel, Seq<char>>,
> {
    s.map_values(
        |r: Result<NylispExpression, NylispError>|
            match r {
                Ok(e) => Ok(e.view()),
                Err(m) => Err(m.view()),
            },
    )
}

} // verus!

//! The tree-walking evaluator: special forms, function application,
//! closure calls and block scoping, each pinned by a big-step relation
//! over expression and environment models.
use vstd::prelude::*;

use crate::ast::{Environment, ExprModel, Frame, NylispError, NylispExpression, expr_model,
    exprs_model, frame_model, lemma_exprs_model_index, lookup_model};
use crate::environment::builtin_rel;
use crate::render::{render, render_items};
use crate::text::{dec_str, is_char_token, u64_to_string};
use crate::tokenizer::{CLOSURE_TOKEN, IF_TOKEN, SCOPED_LET_TOKEN, VAR_TOKEN};

verus! {

/// How deep evaluation may recurse before it reports an error instead of
/// exhausting the stack.
pub const MAX_EVAL_DEPTH: u64 = 1000;

/// The model of the frame chain.
pub type EnvModel = Seq<Map<Seq<char>, ExprModel>>;

/// The model of one evaluation outcome.
pub type OutModel = Result<ExprModel, Seq<char>>;

pub open spec fn out_model(r: Result<NylispExpression, NylispError>) -> OutModel {
    match r {
        Ok(v) => Ok(v.view()),
        Err(e) => Err(e.view()),
    }
}

/// One fuel step down, stopping at zero.
pub open spec fn sub_fuel(f: nat) -> nat {
    if f == 0 {
        0
    } else {
        (f - 1) as nat
    }
}

pub open spec fn depth_msg() -> Seq<char> {
    "recursion depth exceeded".view()
}

pub open spec fn not_found_msg(s: Seq<char>) -> Seq<char> {
    "symbol ".view() + s + " not found in environment".view()
}

pub open spec fn not_function_msg(head: ExprModel) -> Seq<char> {
    "not a function: ".view() + render(head)
}

pub open spec fn unsupported_msg(e: ExprModel) -> Seq<char> {
    "unsupported expression type: ".view() + render(e)
}

pub open spec fn if_arity_msg(n: nat) -> Seq<char> {
    "🐶 requires 3 arguments, got ".view() + dec_str(n)
}

pub open spec fn if_type_msg(c: ExprModel) -> Seq<char> {
    "🐶 requires a boolean condition, got ".view() + render(c)
}

pub open spec fn var_arity_msg(n: nat) -> Seq<char> {
    "🌷 requires 2 arguments, got ".view() + dec_str(n)
}

pub open spec fn var_type_msg(e: ExprModel) -> Seq<char> {
    "🌷 requires a symbol as first argument, got ".view() + render(e)
}

pub open spec fn closure_form_arity_msg(n: nat) -> Seq<char> {
    "🏨 requires 2 arguments, got ".view() + dec_str(n)
}

pub open spec fn closure_call_arity_msg(p: nat, a: nat) -> Seq<char> {
    "🏨 requires the same number of arguments as parameters, got ".view() + dec_str(p)
        + " and ".view() + dec_str(a)
}

pub open spec fn lets_arity_msg(n: nat) -> Seq<char> {
    "🍙 requires 2 arguments, got ".view() + dec_str(n)
}

pub open spec fn lets_pair_count_msg(n: nat) -> Seq<char> {
    "🍙 requires a list of 2 elements, got ".view() + dec_str(n)
}

pub open spec fn lets_pair_msg(e: ExprModel) -> Seq<char> {
    "🍙 requires a list of 2 elements, got ".view() + render(e)
}

pub open spec fn lets_head_msg(e: ExprModel) -> Seq<char> {
    "🍙 first element should be a list, but got ".view() + render(e)
}

pub open spec fn expected_symbol_expr_msg(e: ExprModel) -> Seq<char> {
    "expected symbol, but got ".view() + render(e)
}

pub open spec fn expected_symbol_list_msg(items: Seq<ExprModel>) -> Seq<char> {
    "expected symbol, but got ".view() + render_items(items)
}

pub open spec fn expected_list_param_msg(e: ExprModel) -> Seq<char> {
    "expected list, but got ".view() + render(e)
}

/// Whether a list head is one of the four special-form keywords.
pub open spec fn is_special(head: ExprModel) -> bool {
    head matches ExprModel::Symbol(s) && (s == seq![IF_TOKEN] || s == seq![VAR_TOKEN] || s
        == seq![CLOSURE_TOKEN] || s == seq![SCOPED_LET_TOKEN])
}

/// Whether every element is a symbol, and their names.
pub open spec fn all_symbols(es: Seq<ExprModel>) -> bool {
    forall|i: int| 0 <= i < es.len() ==> es[i] is Symbol
}

pub open spec fn names_of(es: Seq<ExprModel>) -> Seq<Seq<char>> {
    es.map_values(|e: ExprModel| e->Symbol_0)
}

/// The call frame binding parameter names to argument values in order;
/// a repeated name keeps its later value.
pub open spec fn bind_frame(names: Seq<Seq<char>>, vals: Seq<ExprModel>) -> Map<
    Seq<char>,
    ExprModel,
>
    decreases names.len(),
{
    if names.len() == 0 {
        Map::empty()
    } else {
        bind_frame(names.drop_last(), vals.drop_last()).insert(names.last(), vals.last())
    }
}

/// The big-step evaluation relation: `eval_rel(e, env, fuel, out, env2)`
/// holds exactly of the outcomes and final environments that evaluating
/// `e` in `env` may produce. Every case but the `random` builtin is
/// deterministic.
#[verifier::opaque]
pub open spec fn eval_rel(e: ExprModel, env: EnvModel, fuel: nat, out: OutModel, env2: EnvModel) -> bool
    decreases fuel, 3int, 0int,
{
    if fuel == 0 {
        out == Err::<ExprModel, Seq<char>>(depth_msg()) && env2 == env
    } else {
        match e {
            ExprModel::Quote(q) => out == Ok::<ExprModel, Seq<char>>(*q) && env2 == env,
            ExprModel::Symbol(s) => match lookup_model(env, s) {
                Some(v) => out == Ok::<ExprModel, Seq<char>>(v) && env2 == env,
                None => out == Err::<ExprModel, Seq<char>>(not_found_msg(s)) && env2 == env,
            },
            ExprModel::Number(_) => out == Ok::<ExprModel, Seq<char>>(e) && env2 == env,
            ExprModel::Boolean(_) => out == Ok::<ExprModel, Seq<char>>(e) && env2 == env,
            ExprModel::Text(_) => out == Ok::<ExprModel, Seq<char>>(e) && env2 == env,
            ExprModel::Function(_) => out == Ok::<ExprModel, Seq<char>>(e) && env2 == env,
            ExprModel::List(l) => if l.len() == 0 {
                out == Ok::<ExprModel, Seq<char>>(ExprModel::Boolean(false)) && env2 == env
            } else if is_special(l[0]) {
                special_rel(l[0]->Symbol_0, l.drop_first(), env, fuel, out, env2)
            } else {
                app_rel(l[0], l.drop_first(), env, fuel, out, env2)
            },
            _ => out == Err::<ExprModel, Seq<char>>(unsupported_msg(e)) && env2 == env,
        }
    }
}

/// Evaluating the head of an application and applying the result.
#[verifier::opaque]
pub open spec fn app_rel(
    head: ExprModel,
    rest: Seq<ExprModel>,
    env: EnvModel,
    fuel: nat,
    out: OutModel,
    env2: EnvModel,
) -> bool
    decreases fuel, 2int, 0int,
{
    if fuel == 0 {
        out == Err::<ExprModel, Seq<char>>(depth_msg()) && env2 == env
    } else {
        ||| exists|m: Seq<char>, henv: EnvModel|
            #![all_triggers]
            {
                &&& eval_rel(head, env, sub_fuel(fuel), Err(m), henv)
                &&& out == Err::<ExprModel, Seq<char>>(m)
                &&& env2 == henv
            }
        ||| exists|hv: ExprModel, henv: EnvModel|
            #![all_triggers]
            {
                &&& eval_rel(head, env, sub_fuel(fuel), Ok(hv), henv)
                &&& apply_rel(head, hv, rest, henv, fuel, out, env2)
            }
    }
}

/// What applying an evaluated head to unevaluated arguments may produce.
#[verifier::opaque]
pub open spec fn apply_rel(
    head: ExprModel,
    hv: ExprModel,
    rest: Seq<ExprModel>,
    env: EnvModel,
    fuel: nat,
    out: OutModel,
    env2: EnvModel,
) -> bool
    decreases fuel, 1int, 1int,
{
    if fuel == 0 {
        out == Err::<ExprModel, Seq<char>>(depth_msg()) && env2 == env
    } else {
    match hv {
        ExprModel::Function(f) => {
            ||| exists|m: Seq<char>, aenv: EnvModel|
                {
                    &&& #[trigger] evlist_rel(rest, env, fuel, Err(m), aenv)
                    &&& out == Err::<ExprModel, Seq<char>>(m)
                    &&& env2 == aenv
                }
            ||| exists|vals: Seq<ExprModel>, aenv: EnvModel|
                {
                    &&& #[trigger] evlist_rel(rest, env, fuel, Ok(vals), aenv)
                    &&& builtin_rel(f, vals, out)
                    &&& env2 == aenv
                }
        },
        ExprModel::Closure { args: params, body } => closure_rel(
            *params,
            *body,
            rest,
            env,
            fuel,
            out,
            env2,
        ),
        _ => out == Err::<ExprModel, Seq<char>>(not_function_msg(head)) && env2 == env,
    }
    }
}

/// What calling a closure may produce: the parameters must be a list of
/// symbols, the arity must match, the arguments are evaluated in the
/// caller's environment, and the body runs in a fresh child frame that
/// is discarded afterward.
#[verifier::opaque]
pub open spec fn closure_rel(
    params: ExprModel,
    body: ExprModel,
    argexprs: Seq<ExprModel>,
    env: EnvModel,
    fuel: nat,
    out: OutModel,
    env2: EnvModel,
) -> bool
    decreases fuel, 1int, 0int,
{
    if fuel == 0 {
        out == Err::<ExprModel, Seq<char>>(depth_msg()) && env2 == env
    } else if !(params is List) {
        out == Err::<ExprModel, Seq<char>>(expected_list_param_msg(params)) && env2 == env
    } else if !all_symbols(params->List_0) {
        out == Err::<ExprModel, Seq<char>>(expected_symbol_list_msg(params->List_0)) && env2 == env
    } else if params->List_0.len() != argexprs.len() {
        out == Err::<ExprModel, Seq<char>>(
            closure_call_arity_msg(params->List_0.len(), argexprs.len()),
        ) && env2 == env
    } else {
        ||| exists|m: Seq<char>, aenv: EnvModel|
            {
                &&& #[trigger] evlist_rel(argexprs, env, fuel, Err(m), aenv)
                &&& out == Err::<ExprModel, Seq<char>>(m)
                &&& env2 == aenv
            }
        ||| exists|vals: Seq<ExprModel>, aenv: EnvModel, benv: EnvModel|
            {
                &&& #[trigger] evlist_rel(argexprs, env, fuel, Ok(vals), aenv)
                &&& #[trigger] eval_rel(
                    body,
                    aenv.push(bind_frame(names_of(params->List_0), vals)),
                    sub_fuel(fuel),
                    out,
                    benv,
                )
                &&& benv.len() >= 1
                &&& env2 == benv.drop_last()
            }
    }
}

/// Building a `scoped-let` frame from its bindings and running the body
/// in it; the frame is discarded afterward.
#[verifier::opaque]
pub open spec fn lets_rel(
    vars: Seq<ExprModel>,
    bodyexpr: ExprModel,
    env: EnvModel,
    fuel: nat,
    out: OutModel,
    env2: EnvModel,
) -> bool
    decreases fuel, 2int, 0int,
{
    if fuel == 0 {
        out == Err::<ExprModel, Seq<char>>(depth_msg()) && env2 == env
    } else {
        ||| exists|bo: Result<Map<Seq<char>, ExprModel>, Seq<char>>, e1: EnvModel|
            #![all_triggers]
            {
                &&& bind_rel(vars, env, fuel, bo, e1)
                &&& bo is Err
                &&& out == Err::<ExprModel, Seq<char>>(bo->Err_0)
                &&& env2 == e1
            }
        ||| exists|fr: Map<Seq<char>, ExprModel>, e1: EnvModel, benv: EnvModel|
            #![all_triggers]
            {
                &&& bind_rel(vars, env, fuel, Ok(fr), e1)
                &&& eval_rel(bodyexpr, e1.push(fr), sub_fuel(fuel), out, benv)
                &&& benv.len() >= 1
                &&& env2 == benv.drop_last()
            }
    }
}

/// Evaluating a sequence of expressions left to right, each with one
/// fuel step less, threading the environment through.
#[verifier::opaque]
pub open spec fn evlist_rel(
    es: Seq<ExprModel>,
    env: EnvModel,
    fuel: nat,
    out: Result<Seq<ExprModel>, Seq<char>>,
    env2: EnvModel,
) -> bool
    decreases fuel, 0int, es.len(),
{
    if fuel == 0 {
        out == Err::<Seq<ExprModel>, Seq<char>>(depth_msg()) && env2 == env
    } else if es.len() == 0 {
        out == Ok::<Seq<ExprModel>, Seq<char>>(Seq::empty()) && env2 == env
    } else {
        ||| exists|m: Seq<char>, e1: EnvModel|
            {
                &&& #[trigger] eval_rel(es[0], env, sub_fuel(fuel), Err(m), e1)
                &&& out == Err::<Seq<ExprModel>, Seq<char>>(m)
                &&& env2 == e1
            }
        ||| exists|v: ExprModel, e1: EnvModel, vals: Seq<ExprModel>|
            #![all_triggers]
            {
                &&& eval_rel(es[0], env, sub_fuel(fuel), Ok(v), e1)
                &&& evlist_rel(es.drop_first(), e1, fuel, Ok(vals), env2)
                &&& out == Ok::<Seq<ExprModel>, Seq<char>>(seq![v] + vals)
            }
        ||| exists|v: ExprModel, e1: EnvModel, m: Seq<char>|
            #![all_triggers]
            {
                &&& eval_rel(es[0], env, sub_fuel(fuel), Ok(v), e1)
                &&& evlist_rel(es.drop_first(), e1, fuel, Err(m), env2)
                &&& out == Err::<Seq<ExprModel>, Seq<char>>(m)
            }
    }
}

/// One well-shaped `scoped-let` binding: a two-element list whose head
/// is a symbol.
pub open spec fn well_formed_pair(e: ExprModel) -> bool {
    e is List && e->List_0.len() == 2 && e->List_0[0] is Symbol
}

/// The error reported for the first malformed binding.
pub open spec fn bad_pair_msg(e: ExprModel) -> Seq<char> {
    if !(e is List) {
        lets_pair_msg(e)
    } else if e->List_0.len() != 2 {
        lets_pair_count_msg(e->List_0.len())
    } else {
        expected_symbol_expr_msg(e->List_0[0])
    }
}

/// The length of the longest well-shaped prefix of the bindings.
pub open spec fn good_prefix(vars: Seq<ExprModel>) -> int
    decreases vars.len(),
{
    if vars.len() == 0 {
        0
    } else if !well_formed_pair(vars[0]) {
        0
    } else {
        1 + good_prefix(vars.drop_first())
    }
}

#[verifier::spinoff_prover]
#[verifier::rlimit(100)]
pub proof fn lemma_good_prefix(vars: Seq<ExprModel>)
    ensures
        0 <= good_prefix(vars) <= vars.len(),
        forall|i: int| 0 <= i < good_prefix(vars) ==> well_formed_pair(#[trigger] vars[i]),
        good_prefix(vars) < vars.len() ==> !well_formed_pair(vars[good_prefix(vars)]),
    decreases vars.len(),
{
    if vars.len() > 0 && well_formed_pair(vars[0]) {
        lemma_good_prefix(vars.drop_first());
        assert forall|i: int| 0 <= i < good_prefix(vars) implies well_formed_pair(
            #[trigger] vars[i],
        ) by {
            if i > 0 {
                assert(vars.drop_first()[i - 1] == vars[i]);
            }
        }
        if good_prefix(vars) < vars.len() {
            assert(vars.drop_first()[good_prefix(vars) - 1] == vars[good_prefix(vars)]);
        }
    }
}

/// The names and value expressions of well-shaped bindings.
pub open spec fn pair_names(vars: Seq<ExprModel>) -> Seq<Seq<char>> {
    vars.map_values(|e: ExprModel| e->List_0[0]->Symbol_0)
}

pub open spec fn pair_values(vars: Seq<ExprModel>) -> Seq<ExprModel> {
    vars.map_values(|e: ExprModel| e->List_0[1])
}

/// Building the new frame of a `scoped-let`: the shape of every binding
/// is checked first; then the values are evaluated left to right in the
/// enclosing environment and bound to their names in order.
#[verifier::opaque]
pub open spec fn bind_rel(
    vars: Seq<ExprModel>,
    env: EnvModel,
    fuel: nat,
    out: Result<Map<Seq<char>, ExprModel>, Seq<char>>,
    env2: EnvModel,
) -> bool
    decreases fuel, 1int, 0int,
{
    if good_prefix(vars) < vars.len() {
        out == Err::<Map<Seq<char>, ExprModel>, Seq<char>>(bad_pair_msg(vars[good_prefix(vars)]))
            && env2 == env
    } else {
        ||| exists|m: Seq<char>, e1: EnvModel|
            {
                &&& #[trigger] evlist_rel(pair_values(vars), env, fuel, Err(m), e1)
                &&& out == Err::<Map<Seq<char>, ExprModel>, Seq<char>>(m)
                &&& env2 == e1
            }
        ||| exists|vals: Seq<ExprModel>, e1: EnvModel|
            {
                &&& #[trigger] evlist_rel(pair_values(vars), env, fuel, Ok(vals), e1)
                &&& out == Ok::<Map<Seq<char>, ExprModel>, Seq<char>>(
                    bind_frame(pair_names(vars), vals),
                )
                &&& env2 == e1
            }
    }
}

/// What each of the four special forms may produce.
#[verifier::opaque]
pub open spec fn special_rel(
    s: Seq<char>,
    args: Seq<ExprModel>,
    env: EnvModel,
    fuel: nat,
    out: OutModel,
    env2: EnvModel,
) -> bool
    decreases fuel, 2int, 1int,
{
    let f1 = sub_fuel(fuel);
    if fuel == 0 {
        out == Err::<ExprModel, Seq<char>>(depth_msg()) && env2 == env
    } else if s == seq![IF_TOKEN] {
        if args.len() != 3 {
            out == Err::<ExprModel, Seq<char>>(if_arity_msg(args.len())) && env2 == env
        } else {
            ||| exists|m: Seq<char>, e1: EnvModel|
                {
                    &&& #[trigger] eval_rel(args[0], env, f1, Err(m), e1)
                    &&& out == Err::<ExprModel, Seq<char>>(m)
                    &&& env2 == e1
                }
            ||| exists|c: ExprModel, e1: EnvModel, m: Seq<char>, e2: EnvModel|
                {
                    &&& #[trigger] eval_rel(args[0], env, f1, Ok(c), e1)
                    &&& #[trigger] eval_rel(args[1], e1, f1, Err(m), e2)
                    &&& out == Err::<ExprModel, Seq<char>>(m)
                    &&& env2 == e2
                }
            ||| exists|c: ExprModel, e1: EnvModel, t: ExprModel, e2: EnvModel, m: Seq<char>, e3: EnvModel|
                {
                    &&& #[trigger] eval_rel(args[0], env, f1, Ok(c), e1)
                    &&& #[trigger] eval_rel(args[1], e1, f1, Ok(t), e2)
                    &&& #[trigger] eval_rel(args[2], e2, f1, Err(m), e3)
                    &&& out == Err::<ExprModel, Seq<char>>(m)
                    &&& env2 == e3
                }
            ||| exists|c: ExprModel, e1: EnvModel, t: ExprModel, e2: EnvModel, u: ExprModel, e3: EnvModel|
                {
                    &&& #[trigger] eval_rel(args[0], env, f1, Ok(c), e1)
                    &&& #[trigger] eval_rel(args[1], e1, f1, Ok(t), e2)
                    &&& #[trigger] eval_rel(args[2], e2, f1, Ok(u), e3)
                    &&& env2 == e3
                    &&& match c {
                        ExprModel::Boolean(b) => out == Ok::<ExprModel, Seq<char>>(
                            if b {
                                t
                            } else {
                                u
                            },
                        ),
                        _ => out == Err::<ExprModel, Seq<char>>(if_type_msg(c)),
                    }
                }
        }
    } else if s == seq![VAR_TOKEN] {
        if args.len() != 2 {
            out == Err::<ExprModel, Seq<char>>(var_arity_msg(args.len())) && env2 == env
        } else {
            ||| exists|m: Seq<char>, e1: EnvModel|
                {
                    &&& #[trigger] eval_rel(args[1], env, f1, Err(m), e1)
                    &&& out == Err::<ExprModel, Seq<char>>(m)
                    &&& env2 == e1
                }
            ||| exists|v: ExprModel, e1: EnvModel|
                {
                    &&& #[trigger] eval_rel(args[1], env, f1, Ok(v), e1)
                    &&& match args[0] {
                        ExprModel::Symbol(name) => {
                            &&& e1.len() >= 1
                            &&& env2 == e1.update(e1.len() - 1, e1.last().insert(name, v))
                            &&& out == Ok::<ExprModel, Seq<char>>(
                                ExprModel::List(
                                    seq![
                                        ExprModel::Symbol(name),
                                        v,
                                        ExprModel::Boolean(true),
                                    ],
                                ),
                            )
                        },
                        _ => out == Err::<ExprModel, Seq<char>>(var_type_msg(args[0])) && env2
                            == e1,
                    }
                }
        }
    } else if s == seq![CLOSURE_TOKEN] {
        if args.len() != 2 {
            out == Err::<ExprModel, Seq<char>>(closure_form_arity_msg(args.len())) && env2 == env
        } else {
            out == Ok::<ExprModel, Seq<char>>(
                ExprModel::Closure { args: Box::new(args[0]), body: Box::new(args[1]) },
            ) && env2 == env
        }
    } else {
        if args.len() != 2 {
            out == Err::<ExprModel, Seq<char>>(lets_arity_msg(args.len())) && env2 == env
        } else {
            match args[0] {
                ExprModel::List(vars) => lets_rel(vars, args[1], env, fuel, out, env2),
                _ => out == Err::<ExprModel, Seq<char>>(lets_head_msg(args[0])) && env2 == env,
            }
        }
    }
}


/// Evaluating a batch of top-level forms in order: one outcome per form,
/// the environment threaded through the whole batch.
#[verifier::opaque]
pub open spec fn progs_rel(
    es: Seq<ExprModel>,
    env: EnvModel,
    outs: Seq<OutModel>,
    env2: EnvModel,
) -> bool
    decreases es.len(),
{
    if es.len() == 0 {
        outs == Seq::<OutModel>::empty() && env2 == env
    } else {
        exists|o: OutModel, e1: EnvModel|
            {
                &&& #[trigger] eval_rel(es[0], env, MAX_EVAL_DEPTH as nat, o, e1)
                &&& outs.len() >= 1
                &&& outs[0] == o
                &&& progs_rel(es.drop_first(), e1, outs.drop_first(), env2)
            }
    }
}

/// The models of a batch of evaluation outcomes.
pub open spec fn outs_model(rs: Seq<Result<NylispExpression, NylispError>>) -> Seq<OutModel> {
    rs.map_values(
        |r: Result<NylispExpression, NylispError>|
            match r {
                Ok(e) => Ok(e.view()),
                Err(m) => Err(m.view()),
            },
    )
}

pub struct Evaluator {
    pub program: Vec<NylispExpression>,
}

impl View for Evaluator {
    type V = Seq<ExprModel>;

    open spec fn view(&self) -> Seq<ExprModel> {
        exprs_model(self.program.view())
    }
}

impl Evaluator {
    pub fn new(program: Vec<NylispExpression>) -> (e: Evaluator)
        ensures
            e.view() == exprs_model(program.view()),
    {
        Evaluator { program }
    }

    /// Evaluates every top-level form in order against one environment,
    /// collecting one outcome per form.
    pub fn eval_programs(&mut self, env: &mut Environment) -> (r: Vec<
        Result<NylispExpression, NylispError>,
    >)
        requires
            old(env).frames.len() >= 1,
        ensures
            progs_rel(old(self).view(), old(env).view(), outs_model(r.view()), final(env).view()),
            final(env).frames.len() == old(env).frames.len(),
            *final(self) == *old(self),
    {
        let r = self.eval_from(0, env);
        proof {
            assert(self.view().skip(0) =~= self.view());
        }
        r
    }

    fn eval_from(&self, start: usize, env: &mut Environment) -> (r: Vec<
        Result<NylispExpression, NylispError>,
    >)
        requires
            old(env).frames.len() >= 1,
            start <= self.program.len(),
        ensures
            progs_rel(
                self.view().skip(start as int),
                old(env).view(),
                outs_model(r.view()),
                final(env).view(),
            ),
            final(env).frames.len() == old(env).frames.len(),
        decreases self.program.len() - start,
    {
        let ghost em = self.view();
        proof {
            reveal_with_fuel(progs_rel, 1);
            lemma_exprs_model_index(self.program.view());
        }
        if start >= self.program.len() {
            let r: Vec<Result<NylispExpression, NylispError>> = Vec::new();
            proof {
                assert(em.skip(start as int) =~= Seq::<ExprModel>::empty());
                assert(outs_model(r.view()) =~= Seq::<OutModel>::empty());
                reveal_with_fuel(progs_rel, 1);
                assert(progs_rel(
                    em.skip(start as int),
                    old(env).view(),
                    outs_model(r.view()),
                    env.view(),
                ));
            }
            return r;
        }
        let first = self.evaluate(&self.program[start], env, MAX_EVAL_DEPTH);
        let ghost env1 = env.view();
        let ghost o0 = out_model(first);
        let mut rest = self.eval_from(start + 1, env);
        let ghost restv = rest.view();
        let mut out: Vec<Result<NylispExpression, NylispError>> = Vec::new();
        out.push(first);
        out.append(&mut rest);
        proof {
            assert(em.skip(start as int)[0] == em[start as int]);
            assert(em.skip(start as int).drop_first() =~= em.skip(start + 1));
            assert(outs_model(out.view()).len() >= 1);
            assert(outs_model(out.view())[0] == o0);
            assert(outs_model(out.view()).drop_first() =~= outs_model(restv));
            lemma_progs_cons(
                em.skip(start as int),
                old(env).view(),
                o0,
                env1,
                outs_model(out.view()),
                env.view(),
            );
        }
        out
    }

    /// Evaluates one expression: literals and quotes directly, symbols by
    /// lookup, lists as special forms or applications.
    #[verifier::rlimit(60)]
    fn evaluate(&self, exp: &NylispExpression, env: &mut Environment, fuel: u64) -> (r: Result<
        NylispExpression,
        NylispError,
    >)
        requires
            old(env).frames.len() >= 1,
        ensures
            eval_rel(exp.view(), old(env).view(), fuel as nat, out_model(r), final(env).view()),
            final(env).frames.len() == old(env).frames.len(),
        decreases fuel, 3int, 0int,
    {
        proof {
            reveal_with_fuel(eval_rel, 1);
            reveal_with_fuel(apply_rel, 1);
        }
        if fuel == 0 {
            let m = String::from_str("recursion depth exceeded");
            proof {
                reveal_with_fuel(eval_rel, 1);
                assert(eval_rel(exp.view(), old(env).view(), fuel as nat, Err(m.view()), env.view()));
            }
            return Err(NylispError::Because(m));
        }
        match exp {
            NylispExpression::Quote(q) => {
                let out = q.clone_expr();
                proof {
                    reveal_with_fuel(eval_rel, 1);
                    assert(eval_rel(exp.view(), old(env).view(), fuel as nat, Ok(out.view()), env.view()));
                }
                Ok(out)
            },
            NylispExpression::Boolean(b) => {
                let out = NylispExpression::Boolean(*b);
                proof {
                    reveal_with_fuel(eval_rel, 1);
                    assert(eval_rel(exp.view(), old(env).view(), fuel as nat, Ok(out.view()), env.view()));
                }
                Ok(out)
            },
            NylispExpression::Number(n) => {
                let out = NylispExpression::Number(*n);
                proof {
                    reveal_with_fuel(eval_rel, 1);
                    assert(eval_rel(exp.view(), old(env).view(), fuel as nat, Ok(out.view()), env.view()));
                }
                Ok(out)
            },
            NylispExpression::Text(t) => {
                let out = NylispExpression::Text(t.clone());
                proof {
                    reveal_with_fuel(eval_rel, 1);
                    assert(eval_rel(exp.view(), old(env).view(), fuel as nat, Ok(out.view()), env.view()));
                }
                Ok(out)
            },
            NylispExpression::Function(f) => {
                let out = NylispExpression::Function(*f);
                proof {
                    reveal_with_fuel(eval_rel, 1);
                    assert(eval_rel(exp.view(), old(env).view(), fuel as nat, Ok(out.view()), env.view()));
                }
                Ok(out)
            },
            NylispExpression::Symbol(name) => {
                match crate::ast::get(name.as_str(), env) {
                    Some(v) => {
                        proof {
                            reveal_with_fuel(eval_rel, 1);
                            assert(eval_rel(exp.view(), old(env).view(), fuel as nat, Ok(v.view()), env.view()));
                        }
                        Ok(v)
                    },
                    None => {
                        let mut m = String::from_str("symbol ");
                        m.append(name.as_str());
                        m.append(" not found in environment");
                        proof {
                            reveal_with_fuel(eval_rel, 1);
                            assert(m.view() == not_found_msg(name.view()));
                            assert(eval_rel(exp.view(), old(env).view(), fuel as nat, Err(m.view()), env.view()));
                        }
                        Err(NylispError::Because(m))
                    },
                }
            },
            NylispExpression::List(l) => {
                let ghost lm = exprs_model(l.view());
                proof {
                    lemma_exprs_model_index(l.view());
                }
                if l.len() == 0 {
                    proof {
                        assert(lm =~= Seq::<ExprModel>::empty());
                        reveal_with_fuel(eval_rel, 1);
                        assert(eval_rel(
                            exp.view(),
                            old(env).view(),
                            fuel as nat,
                            Ok(ExprModel::Boolean(false)),
                            env.view(),
                        ));
                    }
                    return Ok(NylispExpression::Boolean(false));
                }
                let kw: Option<char> = match &l[0] {
                    NylispExpression::Symbol(s0) => {
                        if is_char_token(s0, IF_TOKEN) {
                            Some(IF_TOKEN)
                        } else if is_char_token(s0, VAR_TOKEN) {
                            Some(VAR_TOKEN)
                        } else if is_char_token(s0, CLOSURE_TOKEN) {
                            Some(CLOSURE_TOKEN)
                        } else if is_char_token(s0, SCOPED_LET_TOKEN) {
                            Some(SCOPED_LET_TOKEN)
                        } else {
                            None
                        }
                    },
                    _ => None,
                };
                match kw {
                    Some(c) => {
                        proof {
                            assert(is_special(lm[0]));
                            assert(lm[0]->Symbol_0 == seq![c]);
                        }
                        let r = self.wait_a_minute_is_this_a_special_form(c, l, env, fuel);
                        proof {
                            assert(exprs_model(l.view()).skip(1) =~= lm.drop_first());
                            lemma_eval_special(
                                lm,
                                old(env).view(),
                                fuel as nat,
                                out_model(r),
                                env.view(),
                            );
                        }
                        r
                    },
                    None => {
                        proof {
                            assert(!is_special(lm[0]));
                        }
                        let ghost env0 = env.view();
                        let hr = self.evaluate(&l[0], env, fuel - 1);
                        proof {
                            assert(sub_fuel(fuel as nat) == (fuel - 1) as nat);
                        }
                        match hr {
                            Err(e) => {
                                proof {
                                    lemma_app_head_err(
                                        lm[0],
                                        lm.drop_first(),
                                        env0,
                                        fuel as nat,
                                        e.view(),
                                        env.view(),
                                    );
                                    lemma_eval_app(
                                        lm,
                                        env0,
                                        fuel as nat,
                                        Err(e.view()),
                                        env.view(),
                                    );
                                }
                                Err(e)
                            },
                            Ok(hv) => {
                                let ghost henv = env.view();
                                let ghost hvm = hv.view();
                                proof {
                                    assert(eval_rel(
                                        lm[0],
                                        env0,
                                        sub_fuel(fuel as nat),
                                        Ok(hvm),
                                        henv,
                                    ));
                                }
                                match hv {
                                    NylispExpression::Function(bf) => {
                                        proof {
                                            assert(hvm == ExprModel::Function(bf));
                                        }
                                        match self.eval_args(l, 1, env, fuel) {
                                            Err(e) => {
                                                proof {
                                                    assert(exprs_model(l.view()).skip(1)
                                                        =~= lm.drop_first());
                                                    assert(evlist_rel(
                                                        lm.drop_first(),
                                                        henv,
                                                        fuel as nat,
                                                        Err(e.view()),
                                                        env.view(),
                                                    ));
                                                    lemma_apply_fn_err(
                                                        lm[0],
                                                        bf,
                                                        lm.drop_first(),
                                                        henv,
                                                        fuel as nat,
                                                        e.view(),
                                                        env.view(),
                                                    );
                                                    lemma_app_apply(
                                                        lm[0],
                                                        lm.drop_first(),
                                                        env0,
                                                        fuel as nat,
                                                        hvm,
                                                        henv,
                                                        Err(e.view()),
                                                        env.view(),
                                                    );
                                                    lemma_eval_app(
                                                        lm,
                                                        env0,
                                                        fuel as nat,
                                                        Err(e.view()),
                                                        env.view(),
                                                    );
                                                }
                                                Err(e)
                                            },
                                            Ok(vals) => {
                                                let res = crate::environment::apply_builtin(
                                                    bf,
                                                    &vals,
                                                );
                                                proof {
                                                    assert(exprs_model(l.view()).skip(1)
                                                        =~= lm.drop_first());
                                                    assert(evlist_rel(
                                                        lm.drop_first(),
                                                        henv,
                                                        fuel as nat,
                                                        Ok(exprs_model(vals.view())),
                                                        env.view(),
                                                    ));
                                                    lemma_apply_fn_ok(
                                                        lm[0],
                                                        bf,
                                                        lm.drop_first(),
                                                        henv,
                                                        fuel as nat,
                                                        exprs_model(vals.view()),
                                                        env.view(),
                                                        out_model(res),
                                                    );
                                                    lemma_app_apply(
                                                        lm[0],
                                                        lm.drop_first(),
                                                        env0,
                                                        fuel as nat,
                                                        hvm,
                                                        henv,
                                                        out_model(res),
                                                        env.view(),
                                                    );
                                                    lemma_eval_app(
                                                        lm,
                                                        env0,
                                                        fuel as nat,
                                                        out_model(res),
                                                        env.view(),
                                                    );
                                                }
                                                res
                                            },
                                        }
                                    },
                                    NylispExpression::Closure { args: params, body } => {
                                        proof {
                                            assert(hvm == (ExprModel::Closure {
                                                args: Box::new(params.view()),
                                                body: Box::new(body.view()),
                                            }));
                                        }
                                        let r = self.apply_closure(&params, &body, l, env, fuel);
                                        proof {
                                            assert(exprs_model(l.view()).skip(1)
                                                =~= lm.drop_first());
                                            lemma_apply_closure(
                                                lm[0],
                                                params.view(),
                                                body.view(),
                                                lm.drop_first(),
                                                henv,
                                                fuel as nat,
                                                out_model(r),
                                                env.view(),
                                            );
                                            lemma_app_apply(
                                                lm[0],
                                                lm.drop_first(),
                                                env0,
                                                fuel as nat,
                                                hvm,
                                                henv,
                                                out_model(r),
                                                env.view(),
                                            );
                                            lemma_eval_app(
                                                lm,
                                                env0,
                                                fuel as nat,
                                                out_model(r),
                                                env.view(),
                                            );
                                        }
                                        r
                                    },
                                    _ => {
                                        let mut m = String::from_str("not a function: ");
                                        let rendered = crate::render::render_expr(&l[0]);
                                        m.append(rendered.as_str());
                                        proof {
                                            lemma_apply_not_function(
                                                lm[0],
                                                hvm,
                                                lm.drop_first(),
                                                henv,
                                                fuel as nat,
                                            );
                                            assert(m.view() == not_function_msg(lm[0]));
                                            lemma_app_apply(
                                                lm[0],
                                                lm.drop_first(),
                                                env0,
                                                fuel as nat,
                                                hvm,
                                                henv,
                                                Err(m.view()),
                                                env.view(),
                                            );
                                            lemma_eval_app(
                                                lm,
                                                env0,
                                                fuel as nat,
                                                Err(m.view()),
                                                env.view(),
                                            );
                                            assert(apply_rel(
                                                lm[0],
                                                hvm,
                                                lm.drop_first(),
                                                henv,
                                                fuel as nat,
                                                Err(m.view()),
                                                env.view(),
                                            ));
                                        }
                                        Err(NylispError::Because(m))
                                    },
                                }
                            },
                        }
                    },
                }
            },
            NylispExpression::Closure { args: ca, body: cb } => {
                let mut m = String::from_str("unsupported expression type: ");
                let rendered = crate::render::render_expr(exp);
                m.append(rendered.as_str());
                proof {
                    reveal_with_fuel(eval_rel, 1);
                    assert(eval_rel(exp.view(), old(env).view(), fuel as nat, Err(m.view()), env.view()));
                }
                Err(NylispError::Because(m))
            },
            NylispExpression::ScopedLet { variables: sv, body: sb } => {
                let mut m = String::from_str("unsupported expression type: ");
                let rendered = crate::render::render_expr(exp);
                m.append(rendered.as_str());
                proof {
                    reveal_with_fuel(eval_rel, 1);
                    assert(eval_rel(exp.view(), old(env).view(), fuel as nat, Err(m.view()), env.view()));
                }
                Err(NylispError::Because(m))
            },
        }
    }

    /// Detects and runs one of the four special forms; `list` holds the
    /// keyword at its head and the unevaluated arguments after it.
    #[verifier::rlimit(100)]
    fn wait_a_minute_is_this_a_special_form(
        &self,
        keyword: char,
        list: &Vec<NylispExpression>,
        env: &mut Environment,
        fuel: u64,
    ) -> (r: Result<NylispExpression, NylispError>)
        requires
            old(env).frames.len() >= 1,
            1 <= list.len(),
            fuel >= 1,
            keyword == IF_TOKEN || keyword == VAR_TOKEN || keyword == CLOSURE_TOKEN || keyword
                == SCOPED_LET_TOKEN,
        ensures
            special_rel(
                seq![keyword],
                exprs_model(list.view()).skip(1),
                old(env).view(),
                fuel as nat,
                out_model(r),
                final(env).view(),
            ),
            final(env).frames.len() == old(env).frames.len(),
        decreases fuel, 2int, 1int,
    {
        let ghost lm = exprs_model(list.view());
        let ghost args = lm.skip(1);
        proof {
            reveal_with_fuel(special_rel, 1);
            lemma_exprs_model_index(list.view());
            assert(args.len() == list.len() - 1);
            assert(sub_fuel(fuel as nat) == (fuel - 1) as nat);
        }
        let argc = list.len() - 1;
        if keyword == IF_TOKEN {
            if argc != 3 {
                let mut m = String::from_str("🐶 requires 3 arguments, got ");
                let num = u64_to_string(argc as u64);
                m.append(num.as_str());
                proof {
                    reveal_with_fuel(special_rel, 1);
                    assert(m.view() == if_arity_msg(args.len()));
                    assert(special_rel(
                        seq![keyword],
                        args,
                        old(env).view(),
                        fuel as nat,
                        Err(m.view()),
                        env.view(),
                    ));
                }
                return Err(NylispError::Because(m));
            }
            let ghost env0 = env.view();
            let c = match self.evaluate(&list[1], env, fuel - 1) {
                Err(e) => {
                    proof {
                        assert(args[0] == lm[1]);
                        lemma_special_if_cond_err(args, env0, fuel as nat, e.view(), env.view());
                    }
                    return Err(e);
                },
                Ok(c) => c,
            };
            let ghost env1 = env.view();
            let ghost cm = c.view();
            proof {
                assert(eval_rel(args[0], env0, sub_fuel(fuel as nat), Ok(cm), env1));
            }
            let t = match self.evaluate(&list[2], env, fuel - 1) {
                Err(e) => {
                    proof {
                        assert(args[1] == lm[2]);
                        lemma_special_if_then_err(
                            args,
                            env0,
                            fuel as nat,
                            cm,
                            env1,
                            e.view(),
                            env.view(),
                        );
                    }
                    return Err(e);
                },
                Ok(t) => t,
            };
            let ghost env2 = env.view();
            let ghost tm = t.view();
            proof {
                assert(eval_rel(args[1], env1, sub_fuel(fuel as nat), Ok(tm), env2));
            }
            let u = match self.evaluate(&list[3], env, fuel - 1) {
                Err(e) => {
                    proof {
                        assert(args[2] == lm[3]);
                        lemma_special_if_else_err(
                            args,
                            env0,
                            fuel as nat,
                            cm,
                            env1,
                            tm,
                            env2,
                            e.view(),
                            env.view(),
                        );
                    }
                    return Err(e);
                },
                Ok(u) => u,
            };
            let ghost env3 = env.view();
            let ghost um = u.view();
            proof {
                assert(eval_rel(args[2], env2, sub_fuel(fuel as nat), Ok(um), env3));
            }
            match c {
                NylispExpression::Boolean(b) => {
                    proof {
                        assert(cm == ExprModel::Boolean(b));
                        if b {
                            lemma_special_if_done(
                                args,
                                env0,
                                fuel as nat,
                                cm,
                                env1,
                                tm,
                                env2,
                                um,
                                env3,
                                Ok(tm),
                            );
                        } else {
                            lemma_special_if_done(
                                args,
                                env0,
                                fuel as nat,
                                cm,
                                env1,
                                tm,
                                env2,
                                um,
                                env3,
                                Ok(um),
                            );
                        }
                    }
                    if b {
                        Ok(t)
                    } else {
                        Ok(u)
                    }
                },
                other => {
                    let mut m = String::from_str("🐶 requires a boolean condition, got ");
                    let rendered = crate::render::render_expr(&other);
                    m.append(rendered.as_str());
                    proof {
                        assert(cm == other.view());
                        assert(m.view() == if_type_msg(cm));
                        lemma_special_if_done(
                            args,
                            env0,
                            fuel as nat,
                            cm,
                            env1,
                            tm,
                            env2,
                            um,
                            env3,
                            Err(m.view()),
                        );
                    }
                    Err(NylispError::Because(m))
                },
            }
        } else if keyword == VAR_TOKEN {
            if argc != 2 {
                let mut m = String::from_str("🌷 requires 2 arguments, got ");
                let num = u64_to_string(argc as u64);
                m.append(num.as_str());
                proof {
                    lemma_keywords_distinct();
                    reveal_with_fuel(special_rel, 1);
                    assert(m.view() == var_arity_msg(args.len()));
                    assert(special_rel(
                        seq![keyword],
                        args,
                        old(env).view(),
                        fuel as nat,
                        Err(m.view()),
                        env.view(),
                    ));
                }
                return Err(NylispError::Because(m));
            }
            let ghost env0 = env.view();
            let v = match self.evaluate(&list[2], env, fuel - 1) {
                Err(e) => {
                    proof {
                        assert(args[1] == lm[2]);
                        lemma_special_var_val_err(args, env0, fuel as nat, e.view(), env.view());
                    }
                    return Err(e);
                },
                Ok(v) => v,
            };
            let ghost env1 = env.view();
            let ghost vm = v.view();
            proof {
                assert(eval_rel(args[1], env0, sub_fuel(fuel as nat), Ok(vm), env1));
            }
            match &list[1] {
                NylispExpression::Symbol(name) => {
                    let confirmed = v.clone_expr();
                    env.insert(name.clone(), v);
                    let mut record: Vec<NylispExpression> = Vec::new();
                    record.push(NylispExpression::Symbol(name.clone()));
                    record.push(confirmed);
                    record.push(NylispExpression::Boolean(true));
                    proof {
                        lemma_exprs_model_index(record.view());
                        assert(args[0] == lm[1]);
                        assert(args[0] == ExprModel::Symbol(name.view()));
                        assert(exprs_model(record.view()) =~= seq![
                            ExprModel::Symbol(name.view()),
                            vm,
                            ExprModel::Boolean(true),
                        ]);
                        lemma_special_var_done(
                            args,
                            env0,
                            fuel as nat,
                            vm,
                            env1,
                            Ok(ExprModel::List(exprs_model(record.view()))),
                            env.view(),
                        );
                        assert(env.view().len() == old(env).view().len());
                        assert(env.frames.len() == old(env).frames.len());
                    }
                    Ok(NylispExpression::List(record))
                },
                other => {
                    let mut m = String::from_str("🌷 requires a symbol as first argument, got ");
                    let rendered = crate::render::render_expr(other);
                    m.append(rendered.as_str());
                    proof {
                        assert(args[0] == lm[1]);
                        assert(!(args[0] is Symbol));
                        assert(m.view() == var_type_msg(args[0]));
                        lemma_special_var_done(
                            args,
                            env0,
                            fuel as nat,
                            vm,
                            env1,
                            Err(m.view()),
                            env.view(),
                        );
                    }
                    Err(NylispError::Because(m))
                },
            }
        } else if keyword == CLOSURE_TOKEN {
            if argc != 2 {
                let mut m = String::from_str("🏨 requires 2 arguments, got ");
                let num = u64_to_string(argc as u64);
                m.append(num.as_str());
                proof {
                    lemma_keywords_distinct();
                    reveal_with_fuel(special_rel, 1);
                    assert(m.view() == closure_form_arity_msg(args.len()));
                    assert(special_rel(
                        seq![keyword],
                        args,
                        old(env).view(),
                        fuel as nat,
                        Err(m.view()),
                        env.view(),
                    ));
                }
                return Err(NylispError::Because(m));
            }
            let out = NylispExpression::Closure {
                args: Box::new(list[1].clone_expr()),
                body: Box::new(list[2].clone_expr()),
            };
            proof {
                lemma_keywords_distinct();
                reveal_with_fuel(special_rel, 1);
                assert(args[0] == lm[1]);
                assert(args[1] == lm[2]);
                assert(out.view() == (ExprModel::Closure {
                    args: Box::new(args[0]),
                    body: Box::new(args[1]),
                }));
                assert(special_rel(
                    seq![keyword],
                    args,
                    old(env).view(),
                    fuel as nat,
                    Ok(out.view()),
                    env.view(),
                ));
            }
            Ok(out)
        } else {
            if argc != 2 {
                let mut m = String::from_str("🍙 requires 2 arguments, got ");
                let num = u64_to_string(argc as u64);
                m.append(num.as_str());
                proof {
                    lemma_keywords_distinct();
                    reveal_with_fuel(special_rel, 1);
                    assert(seq![keyword] == seq![SCOPED_LET_TOKEN]);
                    assert(m.view() == lets_arity_msg(args.len()));
                    assert(special_rel(
                        seq![keyword],
                        args,
                        old(env).view(),
                        fuel as nat,
                        Err(m.view()),
                        env.view(),
                    ));
                }
                return Err(NylispError::Because(m));
            }
            proof {
                assert(args[0] == lm[1]);
                assert(args[1] == lm[2]);
            }
            match &list[1] {
                NylispExpression::List(vars) => {
                    let ghost env0 = env.view();
                    let ghost vm = exprs_model(vars.view());
                    proof {
                        lemma_exprs_model_index(vars.view());
                        assert(args[0] == ExprModel::List(vm));
                    }
                    match self.new_scoped_let_env(vars, env, fuel) {
                        Err(e) => {
                            proof {
                                lemma_lets_bind_err(
                                    vm,
                                    args[1],
                                    env0,
                                    fuel as nat,
                                    e.view(),
                                    env.view(),
                                );
                                lemma_special_lets(
                                    args,
                                    vm,
                                    env0,
                                    fuel as nat,
                                    Err(e.view()),
                                    env.view(),
                                );
                            }
                            Err(e)
                        },
                        Ok(frame) => {
                            let ghost env1 = env.view();
                            let ghost fr = crate::ast::frame_view(frame);
                            env.frames.push(frame);
                            proof {
                                assert(env.view() =~= env1.push(fr));
                            }
                            let r = self.evaluate(&list[2], env, fuel - 1);
                            let ghost benv = env.view();
                            let _popped = env.frames.pop();
                            proof {
                                assert(benv.len() == env1.len() + 1);
                                assert(env.view() =~= benv.drop_last());
                                assert(env.frames.len() == old(env).frames.len());
                                lemma_lets_done(
                                    vm,
                                    args[1],
                                    env0,
                                    fuel as nat,
                                    fr,
                                    env1,
                                    out_model(r),
                                    benv,
                                );
                                lemma_special_lets(
                                    args,
                                    vm,
                                    env0,
                                    fuel as nat,
                                    out_model(r),
                                    env.view(),
                                );
                            }
                            r
                        },
                    }
                },
                other => {
                    let mut m = String::from_str("🍙 first element should be a list, but got ");
                    let rendered = crate::render::render_expr(other);
                    m.append(rendered.as_str());
                    proof {
                        assert(!(args[0] is List));
                        lemma_keywords_distinct();
                        reveal_with_fuel(special_rel, 1);
                        assert(m.view() == lets_head_msg(args[0]));
                        assert(special_rel(
                            seq![keyword],
                            args,
                            old(env).view(),
                            fuel as nat,
                            Err(m.view()),
                            env.view(),
                        ));
                    }
                    Err(NylispError::Because(m))
                },
            }
        }
    }

    /// Builds the new frame of a `scoped-let`: first every binding's
    /// shape is checked, then the values are evaluated left to right in
    /// the enclosing environment and bound to their names.
    #[verifier::loop_isolation(false)]
    fn new_scoped_let_env(
        &self,
        vars: &Vec<NylispExpression>,
        env: &mut Environment,
        fuel: u64,
    ) -> (r: Result<Frame, NylispError>)
        requires
            old(env).frames.len() >= 1,
            fuel >= 1,
        ensures
            match r {
                Ok(fr) => bind_rel(
                    exprs_model(vars.view()),
                    old(env).view(),
                    fuel as nat,
                    Ok(crate::ast::frame_view(fr)),
                    final(env).view(),
                ),
                Err(e) => bind_rel(
                    exprs_model(vars.view()),
                    old(env).view(),
                    fuel as nat,
                    Err(e.view()),
                    final(env).view(),
                ),
            },
            final(env).frames.len() == old(env).frames.len(),
        decreases fuel, 1int, 0int,
    {
        let ghost vm = exprs_model(vars.view());
        proof {
            lemma_exprs_model_index(vars.view());
            lemma_good_prefix(vm);
        }
        let mut names: Vec<String> = Vec::new();
        let mut values: Vec<NylispExpression> = Vec::new();
        let mut i: usize = 0;
        while i < vars.len()
            invariant
                i <= vars.len(),
                names.view().len() == i as int,
                values.view().len() == i as int,
                forall|k: int| 0 <= k < i ==> well_formed_pair(#[trigger] vm[k]),
                forall|k: int|
                    0 <= k < i ==> names.deep_view()[k] == (#[trigger] vm[k])->List_0[0]->Symbol_0,
                forall|k: int|
                    0 <= k < i ==> expr_model(#[trigger] values.view()[k]) == vm[k]->List_0[1],
            decreases vars.len() - i,
        {
            match &vars[i] {
                NylispExpression::List(pair) => {
                    proof {
                        lemma_exprs_model_index(pair.view());
                        assert(vm[i as int] == ExprModel::List(exprs_model(pair.view())));
                    }
                    if pair.len() != 2 {
                        let mut m = String::from_str("🍙 requires a list of 2 elements, got ");
                        let num = u64_to_string(pair.len() as u64);
                        m.append(num.as_str());
                        proof {
                            assert(!well_formed_pair(vm[i as int]));
                            assert(good_prefix(vm) == i as int);
                            lemma_bind_shape_err(vm, old(env).view(), fuel as nat);
                        }
                        return Err(NylispError::Because(m));
                    }
                    match &pair[0] {
                        NylispExpression::Symbol(nm) => {
                            proof {
                                assert(exprs_model(pair.view())[0] == ExprModel::Symbol(nm.view()));
                                assert(well_formed_pair(vm[i as int]));
                            }
                            names.push(nm.clone());
                            values.push(pair[1].clone_expr());
                        },
                        other => {
                            let mut m = String::from_str("expected symbol, but got ");
                            let rendered = crate::render::render_expr(other);
                            m.append(rendered.as_str());
                            proof {
                                assert(exprs_model(pair.view())[0] == expr_model(pair.view()[0]));
                                assert(!well_formed_pair(vm[i as int]));
                                assert(good_prefix(vm) == i as int);
                                lemma_bind_shape_err(vm, old(env).view(), fuel as nat);
                            }
                            return Err(NylispError::Because(m));
                        },
                    }
                },
                other => {
                    let mut m = String::from_str("🍙 requires a list of 2 elements, got ");
                    let rendered = crate::render::render_expr(other);
                    m.append(rendered.as_str());
                    proof {
                        assert(!well_formed_pair(vm[i as int]));
                        assert(good_prefix(vm) == i as int);
                        lemma_bind_shape_err(vm, old(env).view(), fuel as nat);
                    }
                    return Err(NylispError::Because(m));
                },
            }
            i = i + 1;
        }
        proof {
            assert(good_prefix(vm) == vm.len());
            lemma_exprs_model_index(values.view());
            assert(exprs_model(values.view()) =~= pair_values(vm));
            assert(names.deep_view() =~= pair_names(vm));
        }
        let ghost env0 = env.view();
        let vals = match self.eval_args(&values, 0, env, fuel) {
            Err(e) => {
                proof {
                    assert(exprs_model(values.view()).skip(0) =~= pair_values(vm));
                    lemma_bind_vals_err(vm, env0, fuel as nat, e.view(), env.view());
                }
                return Err(e);
            },
            Ok(vals) => vals,
        };
        let ghost valsm = exprs_model(vals.view());
        proof {
            assert(exprs_model(values.view()).skip(0) =~= pair_values(vm));
            assert(evlist_rel(pair_values(vm), env0, fuel as nat, Ok(valsm), env.view()));
            lemma_exprs_model_index(vals.view());
        }
        let mut frame: Frame = Vec::new();
        let mut j: usize = 0;
        let ghost nmseq = pair_names(vm);
        while j < names.len()
            invariant
                j <= names.len(),
                names.len() == vals.len(),
                crate::ast::frame_view(frame) == bind_frame(
                    nmseq.take(j as int),
                    valsm.take(j as int),
                ),
            decreases names.len() - j,
        {
            let ghost before = crate::ast::frame_view(frame);
            let ghost fentries = Seq::new(
                frame.view().len(),
                |k: int| (frame[k].0.view(), frame[k].1.view()),
            );
            frame.push((names[j].clone(), vals[j].clone_expr()));
            proof {
                let newentries = Seq::new(
                    frame.view().len(),
                    |k: int| (frame[k].0.view(), frame[k].1.view()),
                );
                assert(newentries.drop_last() =~= fentries);
                assert(crate::ast::frame_view(frame) == before.insert(
                    names.deep_view()[j as int],
                    valsm[j as int],
                ));
                assert(nmseq.take(j + 1).drop_last() =~= nmseq.take(j as int));
                assert(valsm.take(j + 1).drop_last() =~= valsm.take(j as int));
                assert(nmseq.take(j + 1).last() == nmseq[j as int]);
                assert(valsm.take(j + 1).last() == valsm[j as int]);
            }
            j = j + 1;
        }
        proof {
            assert(nmseq.take(names.view().len() as int) =~= nmseq);
            assert(valsm.take(names.view().len() as int) =~= valsm);
            lemma_bind_done(vm, env0, fuel as nat, valsm, env.view());
        }
        Ok(frame)
    }

    /// The name inside a symbol, or the type error the evaluator reports.
    fn str_from_symbol(&self, e: &NylispExpression) -> (r: Result<String, NylispError>)
        ensures
            match r {
                Ok(nm) => e.view() is Symbol && nm.view() == e.view()->Symbol_0,
                Err(er) => !(e.view() is Symbol) && er.view() == expected_symbol_expr_msg(e.view()),
            },
    {
        match e {
            NylispExpression::Symbol(s) => Ok(s.clone()),
            _ => {
                let mut m = String::from_str("expected symbol, but got ");
                let rendered = crate::render::render_expr(e);
                m.append(rendered.as_str());
                Err(NylispError::Because(m))
            },
        }
    }

    /// The parameter names of a closure: the expression must be a list
    /// of symbols.
    #[verifier::loop_isolation(false)]
    fn strs_from_list_of_symbols(&self, list: &NylispExpression) -> (r: Result<
        Vec<String>,
        NylispError,
    >)
        ensures
            match r {
                Ok(names) => list.view() is List && all_symbols(list.view()->List_0)
                    && names.deep_view() == names_of(list.view()->List_0),
                Err(e) => if list.view() is List {
                    !all_symbols(list.view()->List_0) && e.view() == expected_symbol_list_msg(
                        list.view()->List_0,
                    )
                } else {
                    e.view() == expected_list_param_msg(list.view())
                },
            },
    {
        match list {
            NylispExpression::List(items) => {
                let ghost im = exprs_model(items.view());
                proof {
                    lemma_exprs_model_index(items.view());
                }
                let mut names: Vec<String> = Vec::new();
                let mut i: usize = 0;
                while i < items.len()
                    invariant
                        i <= items.len(),
                        names.view().len() == i as int,
                        forall|k: int| 0 <= k < i ==> (#[trigger] im[k]) is Symbol,
                        forall|k: int|
                            0 <= k < i ==> names.deep_view()[k] == (#[trigger] im[k])->Symbol_0,
                    decreases items.len() - i,
                {
                    match &items[i] {
                        NylispExpression::Symbol(s) => {
                            proof {
                                assert(im[i as int] == ExprModel::Symbol(s.view()));
                            }
                            names.push(s.clone());
                        },
                        _ => {
                            proof {
                                assert(!(im[i as int] is Symbol));
                            }
                            let mut m = String::from_str("expected symbol, but got ");
                            let rendered = crate::render::render_exprs(items);
                            m.append(rendered.as_str());
                            return Err(NylispError::Because(m));
                        },
                    }
                    i = i + 1;
                }
                proof {
                    assert(names.deep_view() =~= names_of(im));
                }
                Ok(names)
            },
            _ => {
                let mut m = String::from_str("expected list, but got ");
                let rendered = crate::render::render_expr(list);
                m.append(rendered.as_str());
                Err(NylispError::Because(m))
            },
        }
    }

    /// Applies a closure: checks the parameter list and arity, evaluates
    /// the arguments in the caller's environment, binds them in a fresh
    /// child frame, runs the body there, and discards the frame.
    #[verifier::loop_isolation(false)]
    fn apply_closure(
        &self,
        params: &NylispExpression,
        body: &NylispExpression,
        list: &Vec<NylispExpression>,
        env: &mut Environment,
        fuel: u64,
    ) -> (r: Result<NylispExpression, NylispError>)
        requires
            old(env).frames.len() >= 1,
            1 <= list.len(),
            fuel >= 1,
        ensures
            closure_rel(
                params.view(),
                body.view(),
                exprs_model(list.view()).skip(1),
                old(env).view(),
                fuel as nat,
                out_model(r),
                final(env).view(),
            ),
            final(env).frames.len() == old(env).frames.len(),
        decreases fuel, 2int, 0int,
    {
        let ghost argexprs = exprs_model(list.view()).skip(1);
        proof {
            reveal_with_fuel(closure_rel, 1);
            lemma_exprs_model_index(list.view());
        }
        let names = match self.strs_from_list_of_symbols(params) {
            Err(e) => {
                proof {
                    reveal_with_fuel(closure_rel, 1);
                    assert(closure_rel(
                        params.view(),
                        body.view(),
                        argexprs,
                        old(env).view(),
                        fuel as nat,
                        Err(e.view()),
                        env.view(),
                    ));
                }
                return Err(e);
            },
            Ok(names) => names,
        };
        if names.len() != list.len() - 1 {
            let mut m = String::from_str(
                "🏨 requires the same number of arguments as parameters, got ",
            );
            let p = u64_to_string(names.len() as u64);
            m.append(p.as_str());
            m.append(" and ");
            let a = u64_to_string((list.len() - 1) as u64);
            m.append(a.as_str());
            proof {
                assert(names.deep_view().len() == names_of(params.view()->List_0).len());
                assert(params.view()->List_0.len() == names.len());
                assert(argexprs.len() == list.len() - 1);
                reveal_with_fuel(closure_rel, 1);
                assert(m.view() == closure_call_arity_msg(
                    params.view()->List_0.len(),
                    argexprs.len(),
                ));
                assert(closure_rel(
                    params.view(),
                    body.view(),
                    argexprs,
                    old(env).view(),
                    fuel as nat,
                    Err(m.view()),
                    env.view(),
                ));
            }
            return Err(NylispError::Because(m));
        }
        let ghost env0 = env.view();
        let vals = match self.eval_args(list, 1, env, fuel) {
            Err(e) => {
                proof {
                    assert(evlist_rel(argexprs, env0, fuel as nat, Err(e.view()), env.view()));
                    lemma_closure_args_err(
                        params.view()->List_0,
                        body.view(),
                        argexprs,
                        env0,
                        fuel as nat,
                        e.view(),
                        env.view(),
                    );
                }
                return Err(e);
            },
            Ok(vals) => vals,
        };
        let ghost aenv = env.view();
        let ghost valsm = exprs_model(vals.view());
        proof {
            assert(evlist_rel(argexprs, env0, fuel as nat, Ok(valsm), aenv));
            lemma_exprs_model_index(vals.view());
        }
        let mut frame: Frame = Vec::new();
        let mut i: usize = 0;
        let ghost nm = names_of(params.view()->List_0);
        while i < names.len()
            invariant
                i <= names.len(),
                names.len() == vals.len(),
                crate::ast::frame_view(frame) == bind_frame(
                    nm.take(i as int),
                    valsm.take(i as int),
                ),
            decreases names.len() - i,
        {
            let ghost before = crate::ast::frame_view(frame);
            let ghost fentries = Seq::new(
                frame.view().len(),
                |k: int| (frame[k].0.view(), frame[k].1.view()),
            );
            frame.push((names[i].clone(), vals[i].clone_expr()));
            proof {
                let newentries = Seq::new(
                    frame.view().len(),
                    |k: int| (frame[k].0.view(), frame[k].1.view()),
                );
                assert(newentries.drop_last() =~= fentries);
                assert(crate::ast::frame_view(frame) == before.insert(
                    names.deep_view()[i as int],
                    valsm[i as int],
                ));
                assert(nm.take(i + 1).drop_last() =~= nm.take(i as int));
                assert(valsm.take(i + 1).drop_last() =~= valsm.take(i as int));
                assert(nm.take(i + 1).last() == nm[i as int]);
                assert(valsm.take(i + 1).last() == valsm[i as int]);
            }
            i = i + 1;
        }
        proof {
            assert(nm.take(names.view().len() as int) =~= nm);
            assert(valsm.take(names.view().len() as int) =~= valsm);
        }
        env.frames.push(frame);
        proof {
            assert(env.view() =~= aenv.push(bind_frame(nm, valsm)));
        }
        let r = self.evaluate(body, env, fuel - 1);
        let ghost benv = env.view();
        let _popped = env.frames.pop();
        proof {
            assert(env.view() =~= benv.drop_last());
            assert(sub_fuel(fuel as nat) == (fuel - 1) as nat);
            lemma_closure_body(
                params.view()->List_0,
                body.view(),
                argexprs,
                env0,
                fuel as nat,
                valsm,
                aenv,
                out_model(r),
                benv,
            );
        }
        r
    }


    /// Evaluates the argument expressions after `start` left to right in
    /// the caller's environment.
    fn eval_args(&self, list: &Vec<NylispExpression>, start: usize, env: &mut Environment, fuel: u64) -> (r:
        Result<Vec<NylispExpression>, NylispError>)
        requires
            old(env).frames.len() >= 1,
            start <= list.len(),
            fuel >= 1,
        ensures
            match r {
                Ok(vals) => vals.len() == list.len() - start && evlist_rel(
                    exprs_model(list.view()).skip(start as int),
                    old(env).view(),
                    fuel as nat,
                    Ok(exprs_model(vals.view())),
                    final(env).view(),
                ),
                Err(e) => evlist_rel(
                    exprs_model(list.view()).skip(start as int),
                    old(env).view(),
                    fuel as nat,
                    Err(e.view()),
                    final(env).view(),
                ),
            },
            final(env).frames.len() == old(env).frames.len(),
        decreases fuel, 0int, list.len() - start,
    {
        let ghost lm = exprs_model(list.view());
        let ghost es = lm.skip(start as int);
        proof {
            reveal_with_fuel(evlist_rel, 1);
            lemma_exprs_model_index(list.view());
        }
        if start >= list.len() {
            let vals: Vec<NylispExpression> = Vec::new();
            proof {
                assert(es =~= Seq::<ExprModel>::empty());
                assert(exprs_model(vals.view()) =~= Seq::<ExprModel>::empty());
                reveal_with_fuel(evlist_rel, 1);
                assert(evlist_rel(
                    es,
                    old(env).view(),
                    fuel as nat,
                    Ok(exprs_model(vals.view())),
                    env.view(),
                ));
            }
            return Ok(vals);
        }
        let ghost env0 = env.view();
        match self.evaluate(&list[start], env, fuel - 1) {
            Err(e) => {
                proof {
                    assert(es[0] == lm[start as int]);
                    lemma_evlist_head_err(es, env0, fuel as nat, e.view(), env.view());
                }
                Err(e)
            },
            Ok(v) => {
                let ghost env1 = env.view();
                let ghost vm = v.view();
                proof {
                    assert(es[0] == lm[start as int]);
                    assert(eval_rel(es[0], env0, sub_fuel(fuel as nat), Ok(vm), env1));
                    assert(es.drop_first() =~= lm.skip(start + 1));
                }
                match self.eval_args(list, start + 1, env, fuel) {
                    Err(e) => {
                        proof {
                            lemma_evlist_cons_err(
                                es,
                                env0,
                                fuel as nat,
                                vm,
                                env1,
                                e.view(),
                                env.view(),
                            );
                        }
                        Err(e)
                    },
                    Ok(mut vs) => {
                        let ghost vsv = vs.view();
                        let ghost vsm = exprs_model(vs.view());
                        let ghost vexp = v;
                        let mut out: Vec<NylispExpression> = Vec::new();
                        out.push(v);
                        out.append(&mut vs);
                        proof {
                            lemma_exprs_model_index(out.view());
                            lemma_exprs_model_index(vsv);
                            assert(out.view() =~= seq![vexp] + vsv);
                            assert(exprs_model(out.view()) =~= seq![vm] + vsm);
                            lemma_evlist_cons_ok(
                                es,
                                env0,
                                fuel as nat,
                                vm,
                                env1,
                                vsm,
                                env.view(),
                            );
                            assert(evlist_rel(
                                es,
                                env0,
                                fuel as nat,
                                Ok(exprs_model(out.view())),
                                env.view(),
                            ));
                        }
                        Ok(out)
                    },
                }
            },
        }
    }
}




/// Introduction lemmas for the evaluation relations: each packages one
/// constructor case of a relation, so the evaluator's proofs stay small.
#[verifier::spinoff_prover]
#[verifier::rlimit(100)]
proof fn lemma_apply_fn_err(
    h: ExprModel,
    f: crate::ast::BuiltinFn,
    rest: Seq<ExprModel>,
    env: EnvModel,
    fuel: nat,
    m: Seq<char>,
    aenv: EnvModel,
)
    requires
        fuel > 0,
        evlist_rel(rest, env, fuel, Err(m), aenv),
    ensures
        apply_rel(h, ExprModel::Function(f), rest, env, fuel, Err(m), aenv),
{
    reveal_with_fuel(apply_rel, 1);
    assert(evlist_rel(rest, env, fuel, Err(m), aenv));
}

#[verifier::spinoff_prover]
#[verifier::rlimit(100)]
proof fn lemma_apply_fn_ok(
    h: ExprModel,
    f: crate::ast::BuiltinFn,
    rest: Seq<ExprModel>,
    env: EnvModel,
    fuel: nat,
    vals: Seq<ExprModel>,
    aenv: EnvModel,
    out: OutModel,
)
    requires
        fuel > 0,
        evlist_rel(rest, env, fuel, Ok(vals), aenv),
        builtin_rel(f, vals, out),
    ensures
        apply_rel(h, ExprModel::Function(f), rest, env, fuel, out, aenv),
{
    reveal_with_fuel(apply_rel, 1);
    assert(evlist_rel(rest, env, fuel, Ok(vals), aenv));
}

#[verifier::spinoff_prover]
#[verifier::rlimit(100)]
proof fn lemma_apply_closure(
    h: ExprModel,
    params: ExprModel,
    body: ExprModel,
    rest: Seq<ExprModel>,
    env: EnvModel,
    fuel: nat,
    out: OutModel,
    env2: EnvModel,
)
    requires
        fuel > 0,
        closure_rel(params, body, rest, env, fuel, out, env2),
    ensures
        apply_rel(
            h,
            ExprModel::Closure { args: Box::new(params), body: Box::new(body) },
            rest,
            env,
            fuel,
            out,
            env2,
        ),
{
    reveal_with_fuel(apply_rel, 1);
}

#[verifier::spinoff_prover]
#[verifier::rlimit(100)]
proof fn lemma_apply_not_function(
    h: ExprModel,
    hv: ExprModel,
    rest: Seq<ExprModel>,
    env: EnvModel,
    fuel: nat,
)
    requires
        fuel > 0,
        !(hv is Function),
        !(hv is Closure),
    ensures
        apply_rel(h, hv, rest, env, fuel, Err(not_function_msg(h)), env),
{
    reveal_with_fuel(apply_rel, 1);
}




#[verifier::spinoff_prover]
#[verifier::rlimit(100)]
proof fn lemma_eval_special(
    l: Seq<ExprModel>,
    env: EnvModel,
    fuel: nat,
    out: OutModel,
    env2: EnvModel,
)
    requires
        fuel > 0,
        l.len() > 0,
        is_special(l[0]),
        special_rel(l[0]->Symbol_0, l.drop_first(), env, fuel, out, env2),
    ensures
        eval_rel(ExprModel::List(l), env, fuel, out, env2),
{
    reveal_with_fuel(eval_rel, 1);
}

#[verifier::spinoff_prover]
#[verifier::rlimit(100)]
proof fn lemma_special_if_cond_err(
    args: Seq<ExprModel>,
    env: EnvModel,
    fuel: nat,
    m: Seq<char>,
    e1: EnvModel,
)
    requires
        fuel > 0,
        args.len() == 3,
        eval_rel(args[0], env, sub_fuel(fuel), Err(m), e1),
    ensures
        special_rel(seq![IF_TOKEN], args, env, fuel, Err(m), e1),
{
    reveal_with_fuel(special_rel, 1);
    assert(eval_rel(args[0], env, sub_fuel(fuel), Err(m), e1));
}

#[verifier::spinoff_prover]
#[verifier::rlimit(100)]
proof fn lemma_special_if_then_err(
    args: Seq<ExprModel>,
    env: EnvModel,
    fuel: nat,
    c: ExprModel,
    e1: EnvModel,
    m: Seq<char>,
    e2: EnvModel,
)
    requires
        fuel > 0,
        args.len() == 3,
        eval_rel(args[0], env, sub_fuel(fuel), Ok(c), e1),
        eval_rel(args[1], e1, sub_fuel(fuel), Err(m), e2),
    ensures
        special_rel(seq![IF_TOKEN], args, env, fuel, Err(m), e2),
{
    reveal_with_fuel(special_rel, 1);
    assert(eval_rel(args[0], env, sub_fuel(fuel), Ok(c), e1));
}

#[verifier::spinoff_prover]
#[verifier::rlimit(100)]
proof fn lemma_special_if_else_err(
    args: Seq<ExprModel>,
    env: EnvModel,
    fuel: nat,
    c: ExprModel,
    e1: EnvModel,
    t: ExprModel,
    e2: EnvModel,
    m: Seq<char>,
    e3: EnvModel,
)
    requires
        fuel > 0,
        args.len() == 3,
        eval_rel(args[0], env, sub_fuel(fuel), Ok(c), e1),
        eval_rel(args[1], e1, sub_fuel(fuel), Ok(t), e2),
        eval_rel(args[2], e2, sub_fuel(fuel), Err(m), e3),
    ensures
        special_rel(seq![IF_TOKEN], args, env, fuel, Err(m), e3),
{
    reveal_with_fuel(special_rel, 1);
    assert(eval_rel(args[0], env, sub_fuel(fuel), Ok(c), e1));
}

#[verifier::spinoff_prover]
#[verifier::rlimit(100)]
proof fn lemma_special_if_done(
    args: Seq<ExprModel>,
    env: EnvModel,
    fuel: nat,
    c: ExprModel,
    e1: EnvModel,
    t: ExprModel,
    e2: EnvModel,
    u: ExprModel,
    e3: EnvModel,
    out: OutModel,
)
    requires
        fuel > 0,
        args.len() == 3,
        eval_rel(args[0], env, sub_fuel(fuel), Ok(c), e1),
        eval_rel(args[1], e1, sub_fuel(fuel), Ok(t), e2),
        eval_rel(args[2], e2, sub_fuel(fuel), Ok(u), e3),
        match c {
            ExprModel::Boolean(b) => out == Ok::<ExprModel, Seq<char>>(
                if b {
                    t
                } else {
                    u
                },
            ),
            _ => out == Err::<ExprModel, Seq<char>>(if_type_msg(c)),
        },
    ensures
        special_rel(seq![IF_TOKEN], args, env, fuel, out, e3),
{
    reveal_with_fuel(special_rel, 1);
    assert(eval_rel(args[0], env, sub_fuel(fuel), Ok(c), e1));
}

#[verifier::spinoff_prover]
#[verifier::rlimit(100)]
proof fn lemma_special_var_val_err(
    args: Seq<ExprModel>,
    env: EnvModel,
    fuel: nat,
    m: Seq<char>,
    e1: EnvModel,
)
    requires
        fuel > 0,
        args.len() == 2,
        eval_rel(args[1], env, sub_fuel(fuel), Err(m), e1),
    ensures
        special_rel(seq![VAR_TOKEN], args, env, fuel, Err(m), e1),
{
    reveal_with_fuel(special_rel, 1);
    broadcast use vstd::seq::group_seq_axioms;

    assert(seq![IF_TOKEN][0] == IF_TOKEN);
    assert(seq![VAR_TOKEN][0] == VAR_TOKEN);
    assert(seq![CLOSURE_TOKEN][0] == CLOSURE_TOKEN);
    assert(seq![SCOPED_LET_TOKEN][0] == SCOPED_LET_TOKEN);
    assert(seq![VAR_TOKEN] != seq![IF_TOKEN]);
    assert(seq![SCOPED_LET_TOKEN] != seq![IF_TOKEN]);
    assert(seq![SCOPED_LET_TOKEN] != seq![VAR_TOKEN]);
    assert(seq![SCOPED_LET_TOKEN] != seq![CLOSURE_TOKEN]);
    assert(eval_rel(args[1], env, sub_fuel(fuel), Err(m), e1));
}

#[verifier::spinoff_prover]
#[verifier::rlimit(100)]
proof fn lemma_special_var_done(
    args: Seq<ExprModel>,
    env: EnvModel,
    fuel: nat,
    v: ExprModel,
    e1: EnvModel,
    out: OutModel,
    env2: EnvModel,
)
    requires
        fuel > 0,
        args.len() == 2,
        eval_rel(args[1], env, sub_fuel(fuel), Ok(v), e1),
        match args[0] {
            ExprModel::Symbol(name) => {
                &&& e1.len() >= 1
                &&& env2 == e1.update(e1.len() - 1, e1.last().insert(name, v))
                &&& out == Ok::<ExprModel, Seq<char>>(
                    ExprModel::List(seq![ExprModel::Symbol(name), v, ExprModel::Boolean(true)]),
                )
            },
            _ => out == Err::<ExprModel, Seq<char>>(var_type_msg(args[0])) && env2 == e1,
        },
    ensures
        special_rel(seq![VAR_TOKEN], args, env, fuel, out, env2),
{
    reveal_with_fuel(special_rel, 1);
    broadcast use vstd::seq::group_seq_axioms;

    assert(seq![IF_TOKEN][0] == IF_TOKEN);
    assert(seq![VAR_TOKEN][0] == VAR_TOKEN);
    assert(seq![CLOSURE_TOKEN][0] == CLOSURE_TOKEN);
    assert(seq![SCOPED_LET_TOKEN][0] == SCOPED_LET_TOKEN);
    assert(seq![VAR_TOKEN] != seq![IF_TOKEN]);
    assert(seq![SCOPED_LET_TOKEN] != seq![IF_TOKEN]);
    assert(seq![SCOPED_LET_TOKEN] != seq![VAR_TOKEN]);
    assert(seq![SCOPED_LET_TOKEN] != seq![CLOSURE_TOKEN]);
    assert(eval_rel(args[1], env, sub_fuel(fuel), Ok(v), e1));
}



#[verifier::spinoff_prover]
#[verifier::rlimit(100)]
proof fn lemma_evlist_head_err(
    es: Seq<ExprModel>,
    env: EnvModel,
    fuel: nat,
    m: Seq<char>,
    e1: EnvModel,
)
    requires
        fuel > 0,
        es.len() > 0,
        eval_rel(es[0], env, sub_fuel(fuel), Err(m), e1),
    ensures
        evlist_rel(es, env, fuel, Err(m), e1),
{
    broadcast use vstd::seq::group_seq_axioms;

    reveal_with_fuel(evlist_rel, 1);
    assert(eval_rel(es[0], env, sub_fuel(fuel), Err(m), e1));
}

#[verifier::spinoff_prover]
#[verifier::rlimit(100)]
proof fn lemma_evlist_cons_ok(
    es: Seq<ExprModel>,
    env: EnvModel,
    fuel: nat,
    v: ExprModel,
    e1: EnvModel,
    vals: Seq<ExprModel>,
    env2: EnvModel,
)
    requires
        fuel > 0,
        es.len() > 0,
        eval_rel(es[0], env, sub_fuel(fuel), Ok(v), e1),
        evlist_rel(es.drop_first(), e1, fuel, Ok(vals), env2),
    ensures
        evlist_rel(es, env, fuel, Ok(seq![v] + vals), env2),
{
    broadcast use vstd::seq::group_seq_axioms;

    reveal_with_fuel(evlist_rel, 1);
    assert(eval_rel(es[0], env, sub_fuel(fuel), Ok(v), e1));
    assert(evlist_rel(es.drop_first(), e1, fuel, Ok(vals), env2));
}

#[verifier::spinoff_prover]
#[verifier::rlimit(100)]
proof fn lemma_evlist_cons_err(
    es: Seq<ExprModel>,
    env: EnvModel,
    fuel: nat,
    v: ExprModel,
    e1: EnvModel,
    m: Seq<char>,
    env2: EnvModel,
)
    requires
        fuel > 0,
        es.len() > 0,
        eval_rel(es[0], env, sub_fuel(fuel), Ok(v), e1),
        evlist_rel(es.drop_first(), e1, fuel, Err(m), env2),
    ensures
        evlist_rel(es, env, fuel, Err(m), env2),
{
    broadcast use vstd::seq::group_seq_axioms;

    reveal_with_fuel(evlist_rel, 1);
    assert(eval_rel(es[0], env, sub_fuel(fuel), Ok(v), e1));
    assert(evlist_rel(es.drop_first(), e1, fuel, Err(m), env2));
}

#[verifier::spinoff_prover]
#[verifier::rlimit(100)]
proof fn lemma_closure_body(
    params: Seq<ExprModel>,
    body: ExprModel,
    argexprs: Seq<ExprModel>,
    env: EnvModel,
    fuel: nat,
    vals: Seq<ExprModel>,
    aenv: EnvModel,
    out: OutModel,
    benv: EnvModel,
)
    requires
        fuel > 0,
        all_symbols(params),
        params.len() == argexprs.len(),
        evlist_rel(argexprs, env, fuel, Ok(vals), aenv),
        eval_rel(body, aenv.push(bind_frame(names_of(params), vals)), sub_fuel(fuel), out, benv),
        benv.len() >= 1,
    ensures
        closure_rel(
            ExprModel::List(params),
            body,
            argexprs,
            env,
            fuel,
            out,
            benv.drop_last(),
        ),
{
    broadcast use vstd::seq::group_seq_axioms;

    reveal_with_fuel(closure_rel, 1);
    assert(evlist_rel(argexprs, env, fuel, Ok(vals), aenv));
}

#[verifier::spinoff_prover]
#[verifier::rlimit(100)]
proof fn lemma_closure_args_err(
    params: Seq<ExprModel>,
    body: ExprModel,
    argexprs: Seq<ExprModel>,
    env: EnvModel,
    fuel: nat,
    m: Seq<char>,
    aenv: EnvModel,
)
    requires
        fuel > 0,
        all_symbols(params),
        params.len() == argexprs.len(),
        evlist_rel(argexprs, env, fuel, Err(m), aenv),
    ensures
        closure_rel(ExprModel::List(params), body, argexprs, env, fuel, Err(m), aenv),
{
    broadcast use vstd::seq::group_seq_axioms;

    reveal_with_fuel(closure_rel, 1);
    assert(evlist_rel(argexprs, env, fuel, Err(m), aenv));
}



#[verifier::spinoff_prover]
#[verifier::rlimit(100)]
proof fn lemma_progs_cons(
    es: Seq<ExprModel>,
    env: EnvModel,
    o: OutModel,
    e1: EnvModel,
    outs: Seq<OutModel>,
    env2: EnvModel,
)
    requires
        es.len() > 0,
        eval_rel(es[0], env, MAX_EVAL_DEPTH as nat, o, e1),
        outs.len() >= 1,
        outs[0] == o,
        progs_rel(es.drop_first(), e1, outs.drop_first(), env2),
    ensures
        progs_rel(es, env, outs, env2),
{
    reveal_with_fuel(progs_rel, 1);
    assert(eval_rel(es[0], env, MAX_EVAL_DEPTH as nat, o, e1));
}




#[verifier::spinoff_prover]
#[verifier::rlimit(100)]
proof fn lemma_bind_shape_err(vars: Seq<ExprModel>, env: EnvModel, fuel: nat)
    requires
        good_prefix(vars) < vars.len(),
    ensures
        bind_rel(vars, env, fuel, Err(bad_pair_msg(vars[good_prefix(vars)])), env),
{
    reveal_with_fuel(bind_rel, 1);
}

#[verifier::spinoff_prover]
#[verifier::rlimit(100)]
proof fn lemma_bind_vals_err(
    vars: Seq<ExprModel>,
    env: EnvModel,
    fuel: nat,
    m: Seq<char>,
    e1: EnvModel,
)
    requires
        good_prefix(vars) == vars.len(),
        evlist_rel(pair_values(vars), env, fuel, Err(m), e1),
    ensures
        bind_rel(vars, env, fuel, Err(m), e1),
{
    reveal_with_fuel(bind_rel, 1);
    assert(evlist_rel(pair_values(vars), env, fuel, Err(m), e1));
}

#[verifier::spinoff_prover]
#[verifier::rlimit(100)]
proof fn lemma_bind_done(
    vars: Seq<ExprModel>,
    env: EnvModel,
    fuel: nat,
    vals: Seq<ExprModel>,
    e1: EnvModel,
)
    requires
        good_prefix(vars) == vars.len(),
        evlist_rel(pair_values(vars), env, fuel, Ok(vals), e1),
    ensures
        bind_rel(vars, env, fuel, Ok(bind_frame(pair_names(vars), vals)), e1),
{
    reveal_with_fuel(bind_rel, 1);
    assert(evlist_rel(pair_values(vars), env, fuel, Ok(vals), e1));
}


#[verifier::spinoff_prover]
proof fn lemma_eval_app(l: Seq<ExprModel>, env: EnvModel, fuel: nat, out: OutModel, env2: EnvModel)
    requires
        fuel > 0,
        l.len() > 0,
        !is_special(l[0]),
        app_rel(l[0], l.drop_first(), env, fuel, out, env2),
    ensures
        eval_rel(ExprModel::List(l), env, fuel, out, env2),
{
    reveal_with_fuel(eval_rel, 1);
}

#[verifier::spinoff_prover]
proof fn lemma_app_head_err(
    head: ExprModel,
    rest: Seq<ExprModel>,
    env: EnvModel,
    fuel: nat,
    m: Seq<char>,
    henv: EnvModel,
)
    requires
        fuel > 0,
        eval_rel(head, env, sub_fuel(fuel), Err(m), henv),
    ensures
        app_rel(head, rest, env, fuel, Err(m), henv),
{
    reveal_with_fuel(app_rel, 1);
    assert(eval_rel(head, env, sub_fuel(fuel), Err(m), henv));
}

#[verifier::spinoff_prover]
proof fn lemma_app_apply(
    head: ExprModel,
    rest: Seq<ExprModel>,
    env: EnvModel,
    fuel: nat,
    hv: ExprModel,
    henv: EnvModel,
    out: OutModel,
    env2: EnvModel,
)
    requires
        fuel > 0,
        eval_rel(head, env, sub_fuel(fuel), Ok(hv), henv),
        apply_rel(head, hv, rest, henv, fuel, out, env2),
    ensures
        app_rel(head, rest, env, fuel, out, env2),
{
    reveal_with_fuel(app_rel, 1);
    assert(eval_rel(head, env, sub_fuel(fuel), Ok(hv), henv));
}

#[verifier::spinoff_prover]
proof fn lemma_special_lets(
    args: Seq<ExprModel>,
    vars: Seq<ExprModel>,
    env: EnvModel,
    fuel: nat,
    out: OutModel,
    env2: EnvModel,
)
    requires
        fuel > 0,
        args.len() == 2,
        args[0] == ExprModel::List(vars),
        lets_rel(vars, args[1], env, fuel, out, env2),
    ensures
        special_rel(seq![SCOPED_LET_TOKEN], args, env, fuel, out, env2),
{
    reveal_with_fuel(special_rel, 1);
    broadcast use vstd::seq::group_seq_axioms;

    assert(seq![IF_TOKEN][0] == IF_TOKEN);
    assert(seq![VAR_TOKEN][0] == VAR_TOKEN);
    assert(seq![CLOSURE_TOKEN][0] == CLOSURE_TOKEN);
    assert(seq![SCOPED_LET_TOKEN][0] == SCOPED_LET_TOKEN);
    assert(seq![SCOPED_LET_TOKEN] != seq![IF_TOKEN]);
    assert(seq![SCOPED_LET_TOKEN] != seq![VAR_TOKEN]);
    assert(seq![SCOPED_LET_TOKEN] != seq![CLOSURE_TOKEN]);
    assert(lets_rel(args[0]->List_0, args[1], env, fuel, out, env2));
}

#[verifier::spinoff_prover]
proof fn lemma_lets_bind_err(
    vars: Seq<ExprModel>,
    bodyexpr: ExprModel,
    env: EnvModel,
    fuel: nat,
    m: Seq<char>,
    e1: EnvModel,
)
    requires
        fuel > 0,
        bind_rel(vars, env, fuel, Err(m), e1),
    ensures
        lets_rel(vars, bodyexpr, env, fuel, Err(m), e1),
{
    reveal_with_fuel(lets_rel, 1);
    let bo: Result<Map<Seq<char>, ExprModel>, Seq<char>> = Err(m);
    assert(bind_rel(vars, env, fuel, bo, e1));
    assert(bo is Err && bo->Err_0 == m);
}

#[verifier::spinoff_prover]
proof fn lemma_lets_done(
    vars: Seq<ExprModel>,
    bodyexpr: ExprModel,
    env: EnvModel,
    fuel: nat,
    fr: Map<Seq<char>, ExprModel>,
    e1: EnvModel,
    out: OutModel,
    benv: EnvModel,
)
    requires
        fuel > 0,
        bind_rel(vars, env, fuel, Ok(fr), e1),
        eval_rel(bodyexpr, e1.push(fr), sub_fuel(fuel), out, benv),
        benv.len() >= 1,
    ensures
        lets_rel(vars, bodyexpr, env, fuel, out, benv.drop_last()),
{
    reveal_with_fuel(lets_rel, 1);
    assert(bind_rel(vars, env, fuel, Ok(fr), e1));
    assert(eval_rel(bodyexpr, e1.push(fr), sub_fuel(fuel), out, benv));
}


#[verifier::spinoff_prover]
proof fn lemma_keywords_distinct()
    ensures
        seq![VAR_TOKEN] != seq![IF_TOKEN],
        seq![CLOSURE_TOKEN] != seq![IF_TOKEN],
        seq![CLOSURE_TOKEN] != seq![VAR_TOKEN],
        seq![SCOPED_LET_TOKEN] != seq![IF_TOKEN],
        seq![SCOPED_LET_TOKEN] != seq![VAR_TOKEN],
        seq![SCOPED_LET_TOKEN] != seq![CLOSURE_TOKEN],
{
    broadcast use vstd::seq::group_seq_axioms;

    assert(seq![IF_TOKEN][0] == IF_TOKEN);
    assert(seq![VAR_TOKEN][0] == VAR_TOKEN);
    assert(seq![CLOSURE_TOKEN][0] == CLOSURE_TOKEN);
    assert(seq![SCOPED_LET_TOKEN][0] == SCOPED_LET_TOKEN);
}


/// Calling a closure with the wrong number of arguments fails with the
/// arity error, for every mismatched count, before anything is
/// evaluated.
pub proof fn lemma_closure_arity_error(
    params: Seq<ExprModel>,
    body: ExprModel,
    argexprs: Seq<ExprModel>,
    env: EnvModel,
    fuel: nat,
)
    requires
        fuel > 0,
        all_symbols(params),
        params.len() != argexprs.len(),
    ensures
        closure_rel(
            ExprModel::List(params),
            body,
            argexprs,
            env,
            fuel,
            Err(closure_call_arity_msg(params.len(), argexprs.len())),
            env,
        ),
{
    reveal_with_fuel(closure_rel, 1);
}

/// An unbound symbol evaluates to exactly the not-found message, and an
/// environment with the name bound evaluates to its value, for every
/// environment and name.
pub proof fn lemma_symbol_lookup(
    name: Seq<char>,
    env: EnvModel,
    fuel: nat,
    out: OutModel,
    env2: EnvModel,
)
    requires
        fuel > 0,
        eval_rel(ExprModel::Symbol(name), env, fuel, out, env2),
    ensures
        env2 == env,
        match lookup_model(env, name) {
            Some(v) => out == Ok::<ExprModel, Seq<char>>(v),
            None => out == Err::<ExprModel, Seq<char>>(not_found_msg(name)),
        },
{
    reveal_with_fuel(eval_rel, 1);
}


/// After `var` binds a name into the innermost frame, looking that name
/// up in the resulting environment yields exactly the bound value.
pub proof fn lemma_var_binding_visible(env: EnvModel, name: Seq<char>, v: ExprModel)
    requires
        env.len() >= 1,
    ensures
        lookup_model(env.update(env.len() - 1, env.last().insert(name, v)), name) == Some(v),
{
    let env2 = env.update(env.len() - 1, env.last().insert(name, v));
    assert(env2.last() == env.last().insert(name, v));
    assert(env2.last().contains_key(name));
}

} // verus!

//! The builtin registry: the native functions of the root frame, their
//! exact semantics over IEEE-754 bit patterns, and the environment they
//! populate.
use vstd::prelude::*;

use crate::ast::{BuiltinFn, Environment, ExprModel, Frame, NylispError, NylispExpression,
    expr_model, exprs_model, frame_model, lemma_exprs_model_index};
use crate::numerics::{add_bits, sub_bits, mul_bits, div_bits, rem_bits, cmp_bits, trunc_bits,
    bits_of_int, f64_add, f64_sub, f64_mul, f64_div, f64_rem, f64_cmp, f64_to_u64, f64_from_u64,
    random_below};

verus! {

broadcast use vstd::std_specs::vec::group_vec_axioms;

/// Structural equality of two values, with IEEE-754 equality at numbers:
/// `-0.0` equals `0.0`, a NaN equals nothing.
pub open spec fn equal_model(a: ExprModel, b: ExprModel) -> bool
    decreases a,
{
    match a {
        ExprModel::Number(x) => b matches ExprModel::Number(y) && cmp_bits(x, y) == Some(0i8),
        ExprModel::Symbol(s) => b matches ExprModel::Symbol(t) && s == t,
        ExprModel::Text(s) => b matches ExprModel::Text(t) && s == t,
        ExprModel::Boolean(x) => b matches ExprModel::Boolean(y) && x == y,
        ExprModel::Function(f) => b matches ExprModel::Function(g) && f == g,
        ExprModel::Quote(qa) => b matches ExprModel::Quote(qb) && equal_model(*qa, *qb),
        ExprModel::List(la) => b matches ExprModel::List(lb) && la.len() == lb.len() && (forall|
            i: int,
        |
            0 <= i < la.len() ==> equal_model(#[trigger] la[i], lb[i])),
        ExprModel::Closure { args: aa, body: ab } => b matches ExprModel::Closure {
            args: ba,
            body: bb,
        } && equal_model(*aa, *ba) && equal_model(*ab, *bb),
        ExprModel::ScopedLet { variables: aa, body: ab } => b matches ExprModel::ScopedLet {
            variables: ba,
            body: bb,
        } && equal_model(*aa, *ba) && equal_model(*ab, *bb),
    }
}

/// Whether every argument is a number, and their bit patterns.
pub open spec fn all_numbers(args: Seq<ExprModel>) -> bool {
    forall|i: int| 0 <= i < args.len() ==> args[i] is Number
}

pub open spec fn bits_of(args: Seq<ExprModel>) -> Seq<u64> {
    args.map_values(|e: ExprModel| e->Number_0)
}

/// Whether every argument is a boolean, and their values.
pub open spec fn all_bools(args: Seq<ExprModel>) -> bool {
    forall|i: int| 0 <= i < args.len() ==> args[i] is Boolean
}

pub open spec fn bools_of(args: Seq<ExprModel>) -> Seq<bool> {
    args.map_values(|e: ExprModel| e->Boolean_0)
}

/// One step of an arithmetic builtin.
pub open spec fn arith_step(f: BuiltinFn, acc: u64, x: u64) -> u64 {
    match f {
        BuiltinFn::Plus => add_bits(acc, x),
        BuiltinFn::Minus => sub_bits(acc, x),
        BuiltinFn::Times => mul_bits(acc, x),
        BuiltinFn::Divide => div_bits(acc, x),
        _ => rem_bits(acc, x),
    }
}

/// A left fold that starts from the first argument.
pub open spec fn arith_fold(f: BuiltinFn, bits: Seq<u64>) -> u64
    decreases bits.len(),
{
    if bits.len() <= 1 {
        bits[0]
    } else {
        arith_step(f, arith_fold(f, bits.drop_last()), bits.last())
    }
}

/// Whether one double is greater than or equal to another; false when
/// they are unordered.
pub open spec fn ge_bits(a: u64, b: u64) -> bool {
    cmp_bits(a, b) == Some(0i8) || cmp_bits(a, b) == Some(1i8)
}

pub open spec fn le_bits(a: u64, b: u64) -> bool {
    cmp_bits(a, b) == Some(0i8) || cmp_bits(a, b) == Some(-1i8)
}

/// The strict chain conditions: no adjacent pair may compare the wrong
/// way, so every ordered sequence must strictly increase (or decrease).
pub open spec fn increasing_chain(bits: Seq<u64>) -> bool {
    forall|i: int| 0 <= i < bits.len() - 1 ==> !ge_bits(#[trigger] bits[i], bits[i + 1])
}

pub open spec fn decreasing_chain(bits: Seq<u64>) -> bool {
    forall|i: int| 0 <= i < bits.len() - 1 ==> !le_bits(#[trigger] bits[i], bits[i + 1])
}

/// The boolean connectives: the last argument seeds the result, and the
/// arguments before it may force it, so this is not a plain fold.
pub open spec fn and_sem(bs: Seq<bool>) -> bool {
    if exists|i: int| 0 <= i < bs.len() - 1 && !bs[i] {
        false
    } else {
        bs.last()
    }
}

pub open spec fn or_sem(bs: Seq<bool>) -> bool {
    if exists|i: int| 0 <= i < bs.len() - 1 && bs[i] {
        true
    } else {
        bs.last()
    }
}

/// The message each builtin gives when it is applied to no arguments.
pub open spec fn arity_msg(f: BuiltinFn) -> Seq<char> {
    match f {
        BuiltinFn::Plus => "+ requires at least one argument".view(),
        BuiltinFn::Minus => "- requires at least one argument".view(),
        BuiltinFn::Times => "* requires at least one argument".view(),
        BuiltinFn::Divide => "/ requires at least one argument".view(),
        BuiltinFn::Modulo => "% requires at least one argument".view(),
        BuiltinFn::Equal => "= requires at least one argument".view(),
        BuiltinFn::Less => "< requires at least one argument".view(),
        BuiltinFn::Greater => "> requires at least one argument".view(),
        BuiltinFn::BoolAnd => "😎 requires at least one argument".view(),
        BuiltinFn::BoolOr => "😕 requires at least one argument".view(),
        BuiltinFn::BoolNot => "❌ requires at least one argument".view(),
        BuiltinFn::Car => "🚗 requires exactly one argument".view(),
        BuiltinFn::Cdr => "💭 requires exactly one argument".view(),
        BuiltinFn::Random => "🎨 requires a number as first argument".view(),
    }
}

pub open spec fn expected_number_msg() -> Seq<char> {
    "expected a number".view()
}

pub open spec fn expected_boolean_msg() -> Seq<char> {
    "expected a boolean".view()
}

pub open spec fn expected_list_msg() -> Seq<char> {
    "expected a list".view()
}

pub open spec fn car_empty_msg() -> Seq<char> {
    "🚗 requires a non-empty list".view()
}

pub open spec fn random_positive_msg() -> Seq<char> {
    "🎨 requires a positive number as first argument".view()
}

/// What an arithmetic builtin returns: every argument must be a number
/// and at least one must be given; the result folds from the first
/// argument leftward.
pub open spec fn arith_result(f: BuiltinFn, args: Seq<ExprModel>) -> Result<ExprModel, Seq<char>> {
    if !all_numbers(args) {
        Err(expected_number_msg())
    } else if args.len() == 0 {
        Err(arity_msg(f))
    } else {
        Ok(ExprModel::Number(arith_fold(f, bits_of(args))))
    }
}

/// What applying a builtin to already-evaluated arguments may return.
/// Every builtin but `random` is a function of its arguments; `random`
/// returns some integer below its bound.
pub open spec fn builtin_rel(
    f: BuiltinFn,
    args: Seq<ExprModel>,
    r: Result<ExprModel, Seq<char>>,
) -> bool {
    match f {
        BuiltinFn::Plus | BuiltinFn::Minus | BuiltinFn::Times | BuiltinFn::Divide
            | BuiltinFn::Modulo => r == arith_result(f, args),
        BuiltinFn::Equal => r == if args.len() == 0 {
            Err::<ExprModel, Seq<char>>(arity_msg(f))
        } else {
            Ok(
                ExprModel::Boolean(
                    forall|i: int| 0 <= i < args.len() ==> equal_model(args[0], #[trigger] args[i]),
                ),
            )
        },
        BuiltinFn::Less => r == if !all_numbers(args) {
            Err::<ExprModel, Seq<char>>(expected_number_msg())
        } else if args.len() == 0 {
            Err::<ExprModel, Seq<char>>(arity_msg(f))
        } else {
            Ok(ExprModel::Boolean(increasing_chain(bits_of(args))))
        },
        BuiltinFn::Greater => r == if !all_numbers(args) {
            Err::<ExprModel, Seq<char>>(expected_number_msg())
        } else if args.len() == 0 {
            Err::<ExprModel, Seq<char>>(arity_msg(f))
        } else {
            Ok(ExprModel::Boolean(decreasing_chain(bits_of(args))))
        },
        BuiltinFn::BoolAnd => r == if !all_bools(args) {
            Err::<ExprModel, Seq<char>>(expected_boolean_msg())
        } else if args.len() == 0 {
            Err::<ExprModel, Seq<char>>(arity_msg(f))
        } else {
            Ok(ExprModel::Boolean(and_sem(bools_of(args))))
        },
        BuiltinFn::BoolOr => r == if !all_bools(args) {
            Err::<ExprModel, Seq<char>>(expected_boolean_msg())
        } else if args.len() == 0 {
            Err::<ExprModel, Seq<char>>(arity_msg(f))
        } else {
            Ok(ExprModel::Boolean(or_sem(bools_of(args))))
        },
        BuiltinFn::BoolNot => r == if !all_bools(args) {
            Err::<ExprModel, Seq<char>>(expected_boolean_msg())
        } else {
            Ok(ExprModel::List(bools_of(args).map_values(|b: bool| ExprModel::Boolean(!b))))
        },
        BuiltinFn::Car => r == if args.len() != 1 {
            Err::<ExprModel, Seq<char>>(arity_msg(f))
        } else if !(args[0] is List) {
            Err::<ExprModel, Seq<char>>(expected_list_msg())
        } else if args[0]->List_0.len() == 0 {
            Err::<ExprModel, Seq<char>>(car_empty_msg())
        } else {
            Ok(args[0]->List_0[0])
        },
        BuiltinFn::Cdr => r == if args.len() == 0 {
            Err::<ExprModel, Seq<char>>(arity_msg(f))
        } else if !(args[0] is List) {
            Err::<ExprModel, Seq<char>>(expected_list_msg())
        } else if args[0]->List_0.len() == 0 {
            Ok(ExprModel::List(Seq::empty()))
        } else {
            Ok(ExprModel::List(args[0]->List_0.drop_first()))
        },
        BuiltinFn::Random => if args.len() == 0 || !(args[0] is Number) {
            r == Err::<ExprModel, Seq<char>>(arity_msg(f))
        } else if trunc_bits(args[0]->Number_0) == 0 {
            r == Err::<ExprModel, Seq<char>>(random_positive_msg())
        } else {
            exists|j: u64|
                j < trunc_bits(args[0]->Number_0) && r == Ok::<ExprModel, Seq<char>>(
                    ExprModel::Number(#[trigger] bits_of_int(j)),
                )
        },
    }
}


/// Structural equality over values, with IEEE-754 equality at numbers.
#[verifier::loop_isolation(false)]
pub fn equal_expr(a: &NylispExpression, b: &NylispExpression) -> (r: bool)
    ensures
        r == equal_model(a.view(), b.view()),
    decreases a,
{
    match a {
        NylispExpression::Number(x) => match b {
            NylispExpression::Number(y) => {
                let c = f64_cmp(*x, *y);
                c == Some(0i8)
            },
            _ => false,
        },
        NylispExpression::Symbol(sa) => match b {
            NylispExpression::Symbol(sb) => *sa == *sb,
            _ => false,
        },
        NylispExpression::Text(sa) => match b {
            NylispExpression::Text(sb) => *sa == *sb,
            _ => false,
        },
        NylispExpression::Boolean(x) => match b {
            NylispExpression::Boolean(y) => *x == *y,
            _ => false,
        },
        NylispExpression::Function(f) => match b {
            NylispExpression::Function(g) => *f == *g,
            _ => false,
        },
        NylispExpression::Quote(qa) => match b {
            NylispExpression::Quote(qb) => equal_expr(qa, qb),
            _ => false,
        },
        NylispExpression::List(la) => match b {
            NylispExpression::List(lb) => {
                proof {
                    lemma_exprs_model_index(la.view());
                    lemma_exprs_model_index(lb.view());
                }
                if la.len() != lb.len() {
                    return false;
                }
                let mut i: usize = 0;
                while i < la.len()
                    invariant
                        i <= la.len(),
                        forall|k: int|
                            0 <= k < i ==> equal_model(
                                #[trigger] exprs_model(la.view())[k],
                                exprs_model(lb.view())[k],
                            ),
                    decreases la.len() - i,
                {
                    proof {
                        assert(decreases_to!(*a => *la));
                        assert(decreases_to!(*la => la[i as int]));
                    }
                    if !equal_expr(&la[i], &lb[i]) {
                        proof {
                            assert(!equal_model(
                                exprs_model(la.view())[i as int],
                                exprs_model(lb.view())[i as int],
                            ));
                        }
                        return false;
                    }
                    i = i + 1;
                }
                true
            },
            _ => false,
        },
        NylispExpression::Closure { args: aa, body: ab } => match b {
            NylispExpression::Closure { args: ba, body: bb } => equal_expr(aa, ba) && equal_expr(
                ab,
                bb,
            ),
            _ => false,
        },
        NylispExpression::ScopedLet { variables: aa, body: ab } => match b {
            NylispExpression::ScopedLet { variables: ba, body: bb } => equal_expr(aa, ba)
                && equal_expr(ab, bb),
            _ => false,
        },
    }
}

/// The numeric bit patterns of the arguments, or a report that one is
/// not a number.
#[verifier::loop_isolation(false)]
fn parse_floats(args: &Vec<NylispExpression>) -> (r: Option<Vec<u64>>)
    ensures
        match r {
            Some(bits) => all_numbers(exprs_model(args.view())) && bits.view() == bits_of(
                exprs_model(args.view()),
            ),
            None => !all_numbers(exprs_model(args.view())),
        },
{
    proof {
        lemma_exprs_model_index(args.view());
    }
    let ghost am = exprs_model(args.view());
    let mut bits: Vec<u64> = Vec::new();
    let mut i: usize = 0;
    while i < args.len()
        invariant
            i <= args.len(),
            bits.view().len() == i as int,
            forall|k: int| 0 <= k < i ==> (#[trigger] am[k]) is Number,
            forall|k: int| 0 <= k < i ==> bits.view()[k] == (#[trigger] am[k])->Number_0,
        decreases args.len() - i,
    {
        match &args[i] {
            NylispExpression::Number(n) => {
                proof {
                    assert(args.view()[i as int] == NylispExpression::Number(*n));
                    assert(am[i as int] == expr_model(args.view()[i as int]));
                    assert(am[i as int] == ExprModel::Number(*n));
                }
                bits.push(*n);
            },
            _ => {
                proof {
                    assert(am[i as int] == expr_model(args.view()[i as int]));
                    assert(!(am[i as int] is Number));
                }
                return None;
            },
        }
        i = i + 1;
    }
    proof {
        assert(bits.view() =~= bits_of(am));
    }
    Some(bits)
}

/// The boolean values of the arguments, or a report that one is not a
/// boolean.
#[verifier::loop_isolation(false)]
fn parse_bools(args: &Vec<NylispExpression>) -> (r: Option<Vec<bool>>)
    ensures
        match r {
            Some(bs) => all_bools(exprs_model(args.view())) && bs.view() == bools_of(
                exprs_model(args.view()),
            ),
            None => !all_bools(exprs_model(args.view())),
        },
{
    proof {
        lemma_exprs_model_index(args.view());
    }
    let ghost am = exprs_model(args.view());
    let mut bs: Vec<bool> = Vec::new();
    let mut i: usize = 0;
    while i < args.len()
        invariant
            i <= args.len(),
            bs.view().len() == i as int,
            forall|k: int| 0 <= k < i ==> (#[trigger] am[k]) is Boolean,
            forall|k: int| 0 <= k < i ==> bs.view()[k] == (#[trigger] am[k])->Boolean_0,
        decreases args.len() - i,
    {
        match &args[i] {
            NylispExpression::Boolean(v) => {
                proof {
                    assert(args.view()[i as int] == NylispExpression::Boolean(*v));
                    assert(am[i as int] == expr_model(args.view()[i as int]));
                    assert(am[i as int] == ExprModel::Boolean(*v));
                }
                bs.push(*v);
            },
            _ => {
                proof {
                    assert(am[i as int] == expr_model(args.view()[i as int]));
                    assert(!(am[i as int] is Boolean));
                }
                return None;
            },
        }
        i = i + 1;
    }
    proof {
        assert(bs.view() =~= bools_of(am));
    }
    Some(bs)
}

/// Folds an arithmetic operation from the first argument leftward.
#[verifier::loop_isolation(false)]
fn arith_apply(f: BuiltinFn, bits: &Vec<u64>) -> (r: u64)
    requires
        bits.len() >= 1,
    ensures
        r == arith_fold(f, bits.view()),
{
    let mut acc = bits[0];
    let mut i: usize = 1;
    proof {
        assert(bits.view().take(1) =~= seq![bits.view()[0]]);
    }
    while i < bits.len()
        invariant
            1 <= i <= bits.len(),
            acc == arith_fold(f, bits.view().take(i as int)),
        decreases bits.len() - i,
    {
        let x = bits[i];
        let stepped = match f {
            BuiltinFn::Plus => f64_add(acc, x),
            BuiltinFn::Minus => f64_sub(acc, x),
            BuiltinFn::Times => f64_mul(acc, x),
            BuiltinFn::Divide => f64_div(acc, x),
            _ => f64_rem(acc, x),
        };
        proof {
            assert(stepped == arith_step(f, acc, x));
            assert(bits.view().take(i + 1).drop_last() =~= bits.view().take(i as int));
            assert(bits.view().take(i + 1).last() == x);
        }
        acc = stepped;
        i = i + 1;
    }
    proof {
        assert(bits.view().take(bits.view().len() as int) =~= bits.view());
    }
    acc
}

/// Applies one native function to already-evaluated arguments.
#[verifier::loop_isolation(false)]
pub fn apply_builtin(f: BuiltinFn, args: &Vec<NylispExpression>) -> (r: Result<
    NylispExpression,
    NylispError,
>)
    ensures
        match r {
            Ok(v) => builtin_rel(f, exprs_model(args.view()), Ok(v.view())),
            Err(e) => builtin_rel(f, exprs_model(args.view()), Err(e.view())),
        },
{
    let ghost am = exprs_model(args.view());
    proof {
        lemma_exprs_model_index(args.view());
    }
    match f {
        BuiltinFn::Plus | BuiltinFn::Minus | BuiltinFn::Times | BuiltinFn::Divide
            | BuiltinFn::Modulo => {
            match parse_floats(args) {
                None => Err(NylispError::Because(String::from_str("expected a number"))),
                Some(bits) => {
                    if bits.len() == 0 {
                        Err(NylispError::Because(arity_text(f)))
                    } else {
                        let out = NylispExpression::Number(arith_apply(f, &bits));
                        proof {
                            assert(builtin_rel(f, am, Ok(out.view())));
                        }
                        Ok(out)
                    }
                },
            }
        },
        BuiltinFn::Equal => {
            if args.len() == 0 {
                return Err(NylispError::Because(arity_text(f)));
            }
            let mut i: usize = 0;
            let mut all = true;
            while i < args.len()
                invariant
                    i <= args.len(),
                    args.len() >= 1,
                    all == forall|k: int| 0 <= k < i ==> equal_model(am[0], #[trigger] am[k]),
                decreases args.len() - i,
            {
                let ghost prev = all;
                if !equal_expr(&args[0], &args[i]) {
                    all = false;
                    proof {
                        assert(!equal_model(am[0], am[i as int]));
                    }
                } else {
                    proof {
                        if prev {
                            assert(forall|k: int|
                                0 <= k < i + 1 ==> equal_model(am[0], #[trigger] am[k]));
                        }
                    }
                }
                i = i + 1;
            }
            proof {
                assert(builtin_rel(f, am, Ok(ExprModel::Boolean(all))));
            }
            Ok(NylispExpression::Boolean(all))
        },
        BuiltinFn::Less | BuiltinFn::Greater => {
            match parse_floats(args) {
                None => Err(NylispError::Because(String::from_str("expected a number"))),
                Some(bits) => {
                    if bits.len() == 0 {
                        return Err(NylispError::Because(arity_text(f)));
                    }
                    let want_less = match f {
                        BuiltinFn::Less => true,
                        _ => false,
                    };
                    let mut i: usize = 0;
                    let mut chain = true;
                    while i < bits.len() - 1
                        invariant
                            i <= bits.len() - 1,
                            bits.len() >= 1,
                            want_less ==> chain == forall|k: int|
                                0 <= k < i ==> !ge_bits(#[trigger] bits.view()[k], bits.view()[k + 1]),
                            !want_less ==> chain == forall|k: int|
                                0 <= k < i ==> !le_bits(#[trigger] bits.view()[k], bits.view()[k + 1]),
                        decreases bits.len() - i,
                    {
                        let ghost prev = chain;
                        let c = f64_cmp(bits[i], bits[i + 1]);
                        let bad = if want_less {
                            c == Some(0i8) || c == Some(1i8)
                        } else {
                            c == Some(0i8) || c == Some(-1i8)
                        };
                        if bad {
                            chain = false;
                        }
                        proof {
                            if want_less {
                                assert(bad == ge_bits(bits.view()[i as int], bits.view()[i + 1]));
                            } else {
                                assert(bad == le_bits(bits.view()[i as int], bits.view()[i + 1]));
                            }
                        }
                        i = i + 1;
                    }
                    proof {
                        assert(i == bits.view().len() - 1);
                        if want_less {
                            if chain {
                                assert forall|k: int|
                                    0 <= k < bits.view().len() - 1 implies !ge_bits(
                                    #[trigger] bits.view()[k],
                                    bits.view()[k + 1],
                                ) by {}
                                assert(increasing_chain(bits.view()));
                            } else {
                                let k0 = choose|k: int|
                                    0 <= k < i && ge_bits(
                                        #[trigger] bits.view()[k],
                                        bits.view()[k + 1],
                                    );
                                assert(ge_bits(bits.view()[k0], bits.view()[k0 + 1]));
                                assert(!increasing_chain(bits.view()));
                            }
                            assert(chain == increasing_chain(bits.view()));
                        } else {
                            if chain {
                                assert forall|k: int|
                                    0 <= k < bits.view().len() - 1 implies !le_bits(
                                    #[trigger] bits.view()[k],
                                    bits.view()[k + 1],
                                ) by {}
                                assert(decreasing_chain(bits.view()));
                            } else {
                                let k0 = choose|k: int|
                                    0 <= k < i && le_bits(
                                        #[trigger] bits.view()[k],
                                        bits.view()[k + 1],
                                    );
                                assert(le_bits(bits.view()[k0], bits.view()[k0 + 1]));
                                assert(!decreasing_chain(bits.view()));
                            }
                            assert(chain == decreasing_chain(bits.view()));
                        }
                        assert(builtin_rel(f, am, Ok(ExprModel::Boolean(chain))));
                    }
                    Ok(NylispExpression::Boolean(chain))
                },
            }
        },
        BuiltinFn::BoolAnd | BuiltinFn::BoolOr => {
            match parse_bools(args) {
                None => Err(NylispError::Because(String::from_str("expected a boolean"))),
                Some(bs) => {
                    if bs.len() == 0 {
                        return Err(NylispError::Because(arity_text(f)));
                    }
                    let is_and = match f {
                        BuiltinFn::BoolAnd => true,
                        _ => false,
                    };
                    let seed = bs[bs.len() - 1];
                    let mut i: usize = 0;
                    let mut forced = false;
                    while i < bs.len() - 1
                        invariant
                            bs.len() >= 1,
                            i <= bs.len() - 1,
                            is_and ==> forced == exists|k: int|
                                0 <= k < i && !(#[trigger] bs.view()[k]),
                            !is_and ==> forced == exists|k: int|
                                0 <= k < i && (#[trigger] bs.view()[k]),
                        decreases bs.len() - i,
                    {
                        let hit = if is_and {
                            !bs[i]
                        } else {
                            bs[i]
                        };
                        if hit {
                            forced = true;
                        }
                        i = i + 1;
                    }
                    let out = if forced {
                        !is_and
                    } else {
                        seed
                    };
                    proof {
                        assert(bools_of(am).last() == seed);
                        if is_and {
                            assert(out == and_sem(bools_of(am)));
                        } else {
                            assert(out == or_sem(bools_of(am)));
                        }
                        assert(builtin_rel(f, am, Ok(ExprModel::Boolean(out))));
                    }
                    Ok(NylispExpression::Boolean(out))
                },
            }
        },
        BuiltinFn::BoolNot => {
            match parse_bools(args) {
                None => Err(NylispError::Because(String::from_str("expected a boolean"))),
                Some(bs) => {
                    let mut out: Vec<NylispExpression> = Vec::new();
                    let mut i: usize = 0;
                    while i < bs.len()
                        invariant
                            i <= bs.len(),
                            out.view().len() == i as int,
                            forall|k: int|
                                0 <= k < i ==> out.view()[k] == NylispExpression::Boolean(
                                    !bs.view()[k],
                                ),
                        decreases bs.len() - i,
                    {
                        out.push(NylispExpression::Boolean(!bs[i]));
                        i = i + 1;
                    }
                    proof {
                        lemma_exprs_model_index(out.view());
                        assert(exprs_model(out.view()) =~= bools_of(am).map_values(
                            |b: bool| ExprModel::Boolean(!b),
                        ));
                        assert(builtin_rel(f, am, Ok(ExprModel::List(exprs_model(out.view())))));
                    }
                    Ok(NylispExpression::List(out))
                },
            }
        },
        BuiltinFn::Car => {
            if args.len() != 1 {
                return Err(NylispError::Because(arity_text(f)));
            }
            match &args[0] {
                NylispExpression::List(items) => {
                    proof {
                        lemma_exprs_model_index(items.view());
                        assert(args.view()[0] == NylispExpression::List(*items));
                        assert(am[0] == ExprModel::List(exprs_model(items.view())));
                    }
                    if items.len() == 0 {
                        proof {
                            assert(am[0]->List_0.len() == 0);
                        }
                        Err(NylispError::Because(String::from_str(
                            "🚗 requires a non-empty list",
                        )))
                    } else {
                        let out = items[0].clone_expr();
                        proof {
                            assert(builtin_rel(f, am, Ok(out.view())));
                        }
                        Ok(out)
                    }
                },
                _ => Err(NylispError::Because(String::from_str("expected a list"))),
            }
        },
        BuiltinFn::Cdr => {
            if args.len() == 0 {
                return Err(NylispError::Because(arity_text(f)));
            }
            match &args[0] {
                NylispExpression::List(items) => {
                    proof {
                        lemma_exprs_model_index(items.view());
                        assert(args.view()[0] == NylispExpression::List(*items));
                        assert(am[0] == ExprModel::List(exprs_model(items.view())));
                    }
                    let mut out: Vec<NylispExpression> = Vec::new();
                    let mut i: usize = 1;
                    while i < items.len()
                        invariant
                            1 <= i <= items.len() || (items.len() == 0 && i == 1),
                            out.view().len() == i - 1,
                            forall|k: int|
                                0 <= k < i - 1 ==> expr_model(#[trigger] out.view()[k])
                                    == exprs_model(items.view())[k + 1],
                        decreases items.len() - i,
                    {
                        proof {
                            assert(decreases_to!(*items => items[i as int]));
                        }
                        out.push(items[i].clone_expr());
                        i = i + 1;
                    }
                    proof {
                        lemma_exprs_model_index(out.view());
                        if items.view().len() == 0 {
                            assert(exprs_model(out.view()) =~= Seq::<ExprModel>::empty());
                        } else {
                            assert(exprs_model(out.view()) =~= exprs_model(
                                items.view(),
                            ).drop_first());
                        }
                        assert(builtin_rel(f, am, Ok(ExprModel::List(exprs_model(out.view())))));
                    }
                    Ok(NylispExpression::List(out))
                },
                _ => Err(NylispError::Because(String::from_str("expected a list"))),
            }
        },
        BuiltinFn::Random => {
            if args.len() == 0 {
                return Err(NylispError::Because(arity_text(f)));
            }
            match &args[0] {
                NylispExpression::Number(n) => {
                    proof {
                        assert(args.view()[0] == NylispExpression::Number(*n));
                        assert(am[0] == ExprModel::Number(*n));
                    }
                    let bound = f64_to_u64(*n);
                    if bound == 0 {
                        Err(NylispError::Because(String::from_str(
                            "🎨 requires a positive number as first argument",
                        )))
                    } else {
                        let j = random_below(bound);
                        let out = NylispExpression::Number(f64_from_u64(j));
                        proof {
                            assert(j < trunc_bits(am[0]->Number_0) && out.view()
                                == ExprModel::Number(bits_of_int(j)));
                            assert(builtin_rel(f, am, Ok(out.view())));
                        }
                        Ok(out)
                    }
                },
                _ => {
                    proof {
                        assert(am[0] == expr_model(args.view()[0]));
                        assert(!(am[0] is Number));
                    }
                    Err(NylispError::Because(arity_text(f)))
                },
            }
        },
    }
}

/// The exact text of each empty-argument message.
fn arity_text(f: BuiltinFn) -> (s: String)
    ensures
        s.view() == arity_msg(f),
{
    match f {
        BuiltinFn::Plus => String::from_str("+ requires at least one argument"),
        BuiltinFn::Minus => String::from_str("- requires at least one argument"),
        BuiltinFn::Times => String::from_str("* requires at least one argument"),
        BuiltinFn::Divide => String::from_str("/ requires at least one argument"),
        BuiltinFn::Modulo => String::from_str("% requires at least one argument"),
        BuiltinFn::Equal => String::from_str("= requires at least one argument"),
        BuiltinFn::Less => String::from_str("< requires at least one argument"),
        BuiltinFn::Greater => String::from_str("> requires at least one argument"),
        BuiltinFn::BoolAnd => String::from_str("😎 requires at least one argument"),
        BuiltinFn::BoolOr => String::from_str("😕 requires at least one argument"),
        BuiltinFn::BoolNot => String::from_str("❌ requires at least one argument"),
        BuiltinFn::Car => String::from_str("🚗 requires exactly one argument"),
        BuiltinFn::Cdr => String::from_str("💭 requires exactly one argument"),
        BuiltinFn::Random => String::from_str("🎨 requires a number as first argument"),
    }
}

/// The names and values of the root frame, in insertion order.
pub open spec fn builtin_entries() -> Seq<(Seq<char>, ExprModel)> {
    seq![
        ("+".view(), ExprModel::Function(BuiltinFn::Plus)),
        ("-".view(), ExprModel::Function(BuiltinFn::Minus)),
        ("*".view(), ExprModel::Function(BuiltinFn::Times)),
        ("/".view(), ExprModel::Function(BuiltinFn::Divide)),
        ("%".view(), ExprModel::Function(BuiltinFn::Modulo)),
        ("=".view(), ExprModel::Function(BuiltinFn::Equal)),
        ("<".view(), ExprModel::Function(BuiltinFn::Less)),
        (">".view(), ExprModel::Function(BuiltinFn::Greater)),
        ("😎".view(), ExprModel::Function(BuiltinFn::BoolAnd)),
        ("😕".view(), ExprModel::Function(BuiltinFn::BoolOr)),
        ("❌".view(), ExprModel::Function(BuiltinFn::BoolNot)),
        ("🚗".view(), ExprModel::Function(BuiltinFn::Car)),
        ("💭".view(), ExprModel::Function(BuiltinFn::Cdr)),
        ("🎨".view(), ExprModel::Function(BuiltinFn::Random)),
    ]
}

/// The root frame's map.
pub open spec fn builtin_frame() -> Map<Seq<char>, ExprModel> {
    frame_model(builtin_entries())
}

/// The root environment: one frame holding every native function.
pub fn builtin_env() -> (env: Environment)
    ensures
        env.view().len() == 1,
        env.view()[0] == builtin_frame(),
{
    let mut frame: Frame = Vec::new();
    frame.push((String::from_str("+"), NylispExpression::Function(BuiltinFn::Plus)));
    frame.push((String::from_str("-"), NylispExpression::Function(BuiltinFn::Minus)));
    frame.push((String::from_str("*"), NylispExpression::Function(BuiltinFn::Times)));
    frame.push((String::from_str("/"), NylispExpression::Function(BuiltinFn::Divide)));
    frame.push((String::from_str("%"), NylispExpression::Function(BuiltinFn::Modulo)));
    frame.push((String::from_str("="), NylispExpression::Function(BuiltinFn::Equal)));
    frame.push((String::from_str("<"), NylispExpression::Function(BuiltinFn::Less)));
    frame.push((String::from_str(">"), NylispExpression::Function(BuiltinFn::Greater)));
    frame.push((String::from_str("😎"), NylispExpression::Function(BuiltinFn::BoolAnd)));
    frame.push((String::from_str("😕"), NylispExpression::Function(BuiltinFn::BoolOr)));
    frame.push((String::from_str("❌"), NylispExpression::Function(BuiltinFn::BoolNot)));
    frame.push((String::from_str("🚗"), NylispExpression::Function(BuiltinFn::Car)));
    frame.push((String::from_str("💭"), NylispExpression::Function(BuiltinFn::Cdr)));
    frame.push((String::from_str("🎨"), NylispExpression::Function(BuiltinFn::Random)));
    let mut frames: Vec<Frame> = Vec::new();
    frames.push(frame);
    let env = Environment { frames };
    proof {
        let entries = Seq::new(
            env.frames[0].view().len(),
            |i: int| (env.frames[0][i].0.view(), env.frames[0][i].1.view()),
        );
        assert(entries =~= builtin_entries());
        assert(env.view() =~= seq![builtin_frame()]);
    }
    env
}


/// The comparison builtins are strictly monotonic: when every adjacent
/// pair of arguments is ordered, `<` accepts exactly the strictly
/// increasing sequences and `>` exactly the strictly decreasing ones.
pub proof fn lemma_strict_chains(bits: Seq<u64>)
    requires
        forall|i: int|
            0 <= i < bits.len() - 1 ==> {
                ||| cmp_bits(#[trigger] bits[i], bits[i + 1]) == Some(-1i8)
                ||| cmp_bits(bits[i], bits[i + 1]) == Some(0i8)
                ||| cmp_bits(bits[i], bits[i + 1]) == Some(1i8)
            },
    ensures
        increasing_chain(bits) <==> (forall|i: int|
            0 <= i < bits.len() - 1 ==> cmp_bits(#[trigger] bits[i], bits[i + 1]) == Some(-1i8)),
        decreasing_chain(bits) <==> (forall|i: int|
            0 <= i < bits.len() - 1 ==> cmp_bits(#[trigger] bits[i], bits[i + 1]) == Some(1i8)),
{
}

/// The `random` builtin, applied to a number with a positive integer
/// part, returns a number holding an integer below that part — for every
/// outcome the builtin may produce.
pub proof fn lemma_random_in_range(args: Seq<ExprModel>, r: Result<ExprModel, Seq<char>>)
    requires
        builtin_rel(BuiltinFn::Random, args, r),
        args.len() >= 1,
        args[0] is Number,
        trunc_bits(args[0]->Number_0) > 0,
    ensures
        exists|j: u64|
            j < trunc_bits(args[0]->Number_0) && r == Ok::<ExprModel, Seq<char>>(
                ExprModel::Number(#[trigger] bits_of_int(j)),
            ),
{
}

} // verus!

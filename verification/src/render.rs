//! A textual rendering of expressions for error messages, mirroring the
//! shape of a derived debug format.
use vstd::prelude::*;

use crate::ast::{ExprModel, NylispExpression, expr_model, exprs_model, lemma_exprs_model_index};
use crate::numerics::{decimal_of, f64_display};

verus! {

broadcast use vstd::std_specs::vec::group_vec_axioms;

/// The rendering of one expression.
pub open spec fn render(e: ExprModel) -> Seq<char>
    decreases e,
{
    match e {
        ExprModel::Quote(q) => "Quote(".view() + render(*q) + ")".view(),
        ExprModel::Symbol(s) => "Symbol(\"".view() + s + "\")".view(),
        ExprModel::Number(n) => "Number(".view() + decimal_of(n) + ")".view(),
        ExprModel::Boolean(b) => if b {
            "Boolean(true)".view()
        } else {
            "Boolean(false)".view()
        },
        ExprModel::Text(s) => "Text(\"".view() + s + "\")".view(),
        ExprModel::List(l) => {
            proof {
                assert(decreases_to!(e => l));
            }
            "List(".view() + render_items(l) + ")".view()
        },
        ExprModel::Function(f) => "Function".view(),
        ExprModel::Closure { args, body } => "Closure { args: ".view() + render(*args)
            + ", body: ".view() + render(*body) + " }".view(),
        ExprModel::ScopedLet { variables, body } => "ScopedLet { variables: ".view() + render(
            *variables,
        ) + ", body: ".view() + render(*body) + " }".view(),
    }
}

/// The renderings of a sequence of expressions, in brackets and
/// separated by commas.
pub open spec fn render_items(l: Seq<ExprModel>) -> Seq<char>
    decreases l,
{
    if l.len() == 0 {
        "[]".view()
    } else {
        proof {
            vstd::seq::axiom_seq_len_decreases(l, l.drop_last());
            vstd::seq::axiom_seq_index_decreases(l, l.len() - 1);
        }
        if l.len() == 1 {
            "[".view() + render(l.last()) + "]".view()
        } else {
            render_items(l.drop_last()).drop_last() + ", ".view() + render(l.last()) + "]".view()
        }
    }
}

/// A rendered item list is never empty and always closes its bracket.
pub proof fn lemma_render_items_last(l: Seq<ExprModel>)
    requires
        l.len() > 0,
    ensures
        render_items(l).len() > 0,
        render_items(l).last() == ']',
{
    reveal_strlit("[");
    reveal_strlit("]");
    reveal_strlit(", ");
    if l.len() == 1 {
        assert(render_items(l) == "[".view() + render(l.last()) + "]".view());
    } else {
        assert(render_items(l) == render_items(l.drop_last()).drop_last() + ", ".view() + render(
            l.last(),
        ) + "]".view());
    }
}

/// Renders one expression for an error message.
pub fn render_expr(e: &NylispExpression) -> (s: String)
    ensures
        s.view() == render(e.view()),
    decreases e,
{
    match e {
        NylispExpression::Quote(q) => {
            let mut s = String::from_str("Quote(");
            let inner = render_expr(q);
            s.append(inner.as_str());
            s.append(")");
            s
        },
        NylispExpression::Symbol(name) => {
            let mut s = String::from_str("Symbol(\"");
            s.append(name.as_str());
            s.append("\")");
            s
        },
        NylispExpression::Number(n) => {
            let mut s = String::from_str("Number(");
            let num = f64_display(*n);
            s.append(num.as_str());
            s.append(")");
            s
        },
        NylispExpression::Boolean(b) => {
            if *b {
                String::from_str("Boolean(true)")
            } else {
                String::from_str("Boolean(false)")
            }
        },
        NylispExpression::Text(t) => {
            let mut s = String::from_str("Text(\"");
            s.append(t.as_str());
            s.append("\")");
            s
        },
        NylispExpression::List(l) => {
            let mut s = String::from_str("List(");
            let items = render_exprs(l);
            s.append(items.as_str());
            s.append(")");
            s
        },
        NylispExpression::Function(_) => String::from_str("Function"),
        NylispExpression::Closure { args, body } => {
            let mut s = String::from_str("Closure { args: ");
            let a = render_expr(args);
            s.append(a.as_str());
            s.append(", body: ");
            let b = render_expr(body);
            s.append(b.as_str());
            s.append(" }");
            s
        },
        NylispExpression::ScopedLet { variables, body } => {
            let mut s = String::from_str("ScopedLet { variables: ");
            let a = render_expr(variables);
            s.append(a.as_str());
            s.append(", body: ");
            let b = render_expr(body);
            s.append(b.as_str());
            s.append(" }");
            s
        },
    }
}

/// Renders a sequence of expressions as a bracketed list.
#[verifier::loop_isolation(false)]
pub fn render_exprs(l: &Vec<NylispExpression>) -> (s: String)
    ensures
        s.view() == render_items(exprs_model(l.view())),
    decreases l,
{
    let ghost em = exprs_model(l.view());
    proof {
        lemma_exprs_model_index(l.view());
        reveal_strlit("[");
        reveal_strlit("]");
        reveal_strlit(", ");
    }
    if l.len() == 0 {
        proof {
            assert(em =~= Seq::<ExprModel>::empty());
        }
        return String::from_str("[]");
    }
    let mut s = String::from_str("[");
    let mut i: usize = 0;
    while i < l.len()
        invariant
            0 <= i <= l.len(),
            i == 0 ==> s.view() == "[".view(),
            i >= 1 ==> s.view() == render_items(em.take(i as int)).drop_last(),
        decreases l.len() - i,
    {
        if i > 0 {
            s.append(", ");
        }
        proof {
            assert(decreases_to!(*l => l[i as int]));
        }
        let item = render_expr(&l[i]);
        s.append(item.as_str());
        proof {
            let pre = em.take(i + 1);
            assert(pre.drop_last() =~= em.take(i as int));
            assert(pre.last() == em[i as int]);
            if i == 0 {
                assert(render_items(pre) == "[".view() + render(em[0]) + "]".view());
                assert(s.view() =~= render_items(pre).drop_last());
            } else {
                assert(render_items(pre) == render_items(em.take(i as int)).drop_last()
                    + ", ".view() + render(em[i as int]) + "]".view());
                assert(s.view() =~= render_items(pre).drop_last());
            }
        }
        i = i + 1;
    }
    proof {
        assert(em.take(l.view().len() as int) =~= em);
        lemma_render_items_last(em);
    }
    s.append("]");
    proof {
        assert(s.view() =~= render_items(em));
    }
    s
}

} // verus!

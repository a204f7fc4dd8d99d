//! Laws the engine obeys, stated over the same models that the public
//! contracts use.

use vstd::prelude::*;
use crate::expression::{SpecExpr, spec_expr_evaluate, spec_expr_use_context};
use crate::operator::BinaryOperator;
use crate::value::SpecValue;

verus! {

/// A tree built only from boolean literals, negation, and the two
/// chain operators — no identifiers and no comparisons.
pub open spec fn is_pure_boolean(e: SpecExpr) -> bool
    decreases e,
{
    match e {
        SpecExpr::Boolean(_) => true,
        SpecExpr::Binary(l, op, r) => (op == BinaryOperator::And || op == BinaryOperator::Or)
            && is_pure_boolean(*l) && is_pure_boolean(*r),
        SpecExpr::Unary(_, x) => is_pure_boolean(*x),
        _ => false,
    }
}

/// The boolean such a tree denotes under ordinary boolean algebra.
pub open spec fn boolean_algebra_value(e: SpecExpr) -> bool
    decreases e,
{
    match e {
        SpecExpr::Boolean(b) => b,
        SpecExpr::Binary(l, op, r) => if op == BinaryOperator::And {
            boolean_algebra_value(*l) && boolean_algebra_value(*r)
        } else {
            boolean_algebra_value(*l) || boolean_algebra_value(*r)
        },
        SpecExpr::Unary(_, x) => !boolean_algebra_value(*x),
        _ => arbitrary(),
    }
}

/// Law: a tree built only from `true`, `false`, `!`, `&&`, `||` and
/// parentheses evaluates without failure, to the boolean that ordinary
/// boolean algebra assigns it.
pub proof fn lemma_pure_boolean_evaluation(e: SpecExpr)
    requires
        is_pure_boolean(e),
    ensures
        spec_expr_evaluate(e) == Ok::<bool, Seq<char>>(boolean_algebra_value(e)),
    decreases e,
{
    match e {
        SpecExpr::Binary(l, op, r) => {
            lemma_pure_boolean_evaluation(*l);
            lemma_pure_boolean_evaluation(*r);
        },
        SpecExpr::Unary(_, x) => {
            lemma_pure_boolean_evaluation(*x);
        },
        _ => {},
    }
}

/// Law: context binding leaves a tree without identifiers unchanged,
/// whatever the context holds.
pub proof fn lemma_pure_boolean_binding(e: SpecExpr, m: Map<Seq<char>, SpecValue>)
    requires
        is_pure_boolean(e),
    ensures
        spec_expr_use_context(e, m) == Ok::<SpecExpr, Seq<char>>(e),
    decreases e,
{
    match e {
        SpecExpr::Binary(l, op, r) => {
            lemma_pure_boolean_binding(*l, m);
            lemma_pure_boolean_binding(*r, m);
            assert(Box::new(*l) == l);
            assert(Box::new(*r) == r);
        },
        SpecExpr::Unary(_, x) => {
            lemma_pure_boolean_binding(*x, m);
            assert(Box::new(*x) == x);
        },
        _ => {},
    }
}

/// Law: for an expression string that parses to a tree built only from
/// boolean literals, negation, chains and parentheses, the whole
/// pipeline yields the tree's ordinary boolean-algebra value, whatever
/// the context holds.
pub proof fn lemma_pure_boolean_pipeline(s: Seq<char>, e: SpecExpr, m: Map<Seq<char>, SpecValue>)
    requires
        crate::expression::spec_parse_whole(s) == Ok::<SpecExpr, Seq<char>>(e),
        is_pure_boolean(e),
    ensures
        crate::spec_evaluate(s, m) == Ok::<bool, Seq<char>>(boolean_algebra_value(e)),
{
    lemma_pure_boolean_binding(e, m);
    lemma_pure_boolean_evaluation(e);
}

/// Law: round trip through a context. For any context that binds a
/// name to a string, integer or float value `v`, binding then
/// evaluating the comparison `name == v` yields `true`, and binding
/// then evaluating `name != v` yields `false`.
pub proof fn lemma_context_round_trip(name: Seq<char>, m: Map<Seq<char>, SpecValue>)
    requires
        m.contains_key(name),
        m[name] is StringLiteral || m[name] is IntegerLiteral || m[name] is FloatLiteral,
    ensures
        ({
            let bound = SpecExpr::NonBoolean((m[name], BinaryOperator::Equals, m[name]));
            spec_expr_use_context(
                SpecExpr::NonBoolean(
                    (SpecValue::Identifier(name), BinaryOperator::Equals, m[name]),
                ),
                m,
            ) == Ok::<SpecExpr, Seq<char>>(bound) && spec_expr_evaluate(bound) == Ok::<
                bool,
                Seq<char>,
            >(true)
        }),
        ({
            let bound = SpecExpr::NonBoolean((m[name], BinaryOperator::NotEquals, m[name]));
            spec_expr_use_context(
                SpecExpr::NonBoolean(
                    (SpecValue::Identifier(name), BinaryOperator::NotEquals, m[name]),
                ),
                m,
            ) == Ok::<SpecExpr, Seq<char>>(bound) && spec_expr_evaluate(bound) == Ok::<
                bool,
                Seq<char>,
            >(false)
        }),
{
}

} // verus!

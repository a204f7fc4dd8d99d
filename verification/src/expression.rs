//! The boolean-expression tree: its grammar, context binding and
//! evaluation.
//!
//! The grammar is a chain of ordered alternatives with backtracking at
//! the alternative level: an expression is an all-`&&` chain, an
//! all-`||` chain, or a single value; mixing the two chain operators at
//! one nesting level is a parse failure, and parentheses are the
//! supported workaround.

use vstd::prelude::*;
use vstd::string::{StrSliceExecFns, StringExecFns};
use crate::Context;
use crate::non_boolean_expression::{
    NonBooleanExpression, spec_binary_non_bool, binary_non_bool_at, spec_nbe_use_context,
    spec_nbe_evaluate, bool_res_agrees,
};
use crate::operator::{BinaryOperator, UnaryOperator, spec_op_name, op_name};
use crate::scan::{
    lit1_at, lit2_at, lit_true_at, lit_false_at, spec_skip_ws, skip_ws, has_lit1, has_lit2,
    has_true, has_false,
};
use crate::value::{Identifier, Value, SpecValue, spec_identifier, identifier_at};

verus! {

/// Mathematical model of a [`BooleanExpression`] tree.
pub ghost enum SpecExpr {
    Identifier(Seq<char>),
    Boolean(bool),
    NonBoolean((SpecValue, BinaryOperator, SpecValue)),
    Binary(Box<SpecExpr>, BinaryOperator, Box<SpecExpr>),
    Unary(UnaryOperator, Box<SpecExpr>),
}

/// The top-level tree: a literal, an identifier placeholder, a
/// comparison, a chain node, or a negation.
#[derive(Debug, PartialEq)]
pub enum BooleanExpression {
    Identifier(Identifier),
    Boolean(bool),
    NonBooleanExpression(NonBooleanExpression),
    Binary(Box<BooleanExpression>, BinaryOperator, Box<BooleanExpression>),
    Unary(UnaryOperator, Box<BooleanExpression>),
}

pub open spec fn spec_expr_view(e: BooleanExpression) -> SpecExpr
    decreases e,
{
    match e {
        BooleanExpression::Identifier(id) => SpecExpr::Identifier(id@),
        BooleanExpression::Boolean(b) => SpecExpr::Boolean(b),
        BooleanExpression::NonBooleanExpression(nbe) => SpecExpr::NonBoolean(nbe@),
        BooleanExpression::Binary(l, op, r) => SpecExpr::Binary(
            Box::new(spec_expr_view(*l)),
            op,
            Box::new(spec_expr_view(*r)),
        ),
        BooleanExpression::Unary(op, x) => SpecExpr::Unary(op, Box::new(spec_expr_view(*x))),
    }
}

impl View for BooleanExpression {
    type V = SpecExpr;

    open spec fn view(&self) -> SpecExpr {
        spec_expr_view(*self)
    }
}

// ---------- context binding ----------

/// The failure message for an identifier standing in a pure-boolean
/// slot without a boolean binding.
pub open spec fn spec_bool_slot_msg(name: Seq<char>) -> Seq<char> {
    "Value should be a boolean: Identifier(\""@ + name + "\")"@
}

/// Context binding of a tree: a structure-preserving transform that
/// replaces each identifier by its context value. An identifier in a
/// pure-boolean slot must be bound to a boolean; one inside a
/// comparison keeps whatever kind the context holds. The first failure
/// aborts the whole transform.
pub open spec fn spec_expr_use_context(e: SpecExpr, m: Map<Seq<char>, SpecValue>) -> Result<
    SpecExpr,
    Seq<char>,
>
    decreases e,
{
    match e {
        SpecExpr::Identifier(name) => if m.contains_key(name) {
            match m[name] {
                SpecValue::Boolean(b) => Ok(SpecExpr::Boolean(b)),
                _ => Err(spec_bool_slot_msg(name)),
            }
        } else {
            Err(spec_bool_slot_msg(name))
        },
        SpecExpr::Boolean(_) => Ok(e),
        SpecExpr::NonBoolean(v) => match spec_nbe_use_context(v, m) {
            Ok(v2) => Ok(SpecExpr::NonBoolean(v2)),
            Err(e2) => Err(e2),
        },
        SpecExpr::Binary(l, op, r) => match spec_expr_use_context(*l, m) {
            Err(e2) => Err(e2),
            Ok(l2) => match spec_expr_use_context(*r, m) {
                Err(e2) => Err(e2),
                Ok(r2) => Ok(SpecExpr::Binary(Box::new(l2), op, Box::new(r2))),
            },
        },
        SpecExpr::Unary(op, x) => match spec_expr_use_context(*x, m) {
            Ok(x2) => Ok(SpecExpr::Unary(op, Box::new(x2))),
            Err(e2) => Err(e2),
        },
    }
}

// ---------- evaluation ----------

/// Evaluation of a fully bound tree. A chain node evaluates its left
/// side first; a left side that already decides the chain (`false` for
/// `&&`, `true` for `||`) short-circuits the right side, as the source
/// language's boolean operators do. An identifier reaching evaluation
/// means binding was skipped and is reported as an ordinary error.
pub open spec fn spec_expr_evaluate(e: SpecExpr) -> Result<bool, Seq<char>>
    decreases e,
{
    match e {
        SpecExpr::Boolean(b) => Ok(b),
        SpecExpr::Identifier(name) => Err(
            "Context should be used before evaluation: Identifier(\""@ + name + "\")"@,
        ),
        SpecExpr::NonBoolean(v) => spec_nbe_evaluate(v),
        SpecExpr::Binary(l, op, r) => match op {
            BinaryOperator::And => match spec_expr_evaluate(*l) {
                Err(e2) => Err(e2),
                Ok(lv) => if !lv {
                    Ok(false)
                } else {
                    spec_expr_evaluate(*r)
                },
            },
            BinaryOperator::Or => match spec_expr_evaluate(*l) {
                Err(e2) => Err(e2),
                Ok(lv) => if lv {
                    Ok(true)
                } else {
                    spec_expr_evaluate(*r)
                },
            },
            _ => Err("Invalid binary operator for boolean: "@ + spec_op_name(op)),
        },
        SpecExpr::Unary(op, x) => match op {
            UnaryOperator::Not => match spec_expr_evaluate(*x) {
                Ok(b) => Ok(!b),
                Err(e2) => Err(e2),
            },
        },
    }
}

impl BooleanExpression {
    /// Parses a complete expression string; input left over after the
    /// grammar stops is an error.
    pub fn try_from(value: &str) -> (r: Result<BooleanExpression, String>)
        ensures
            match r {
                Ok(e) => spec_parse_whole(value@) == Ok::<SpecExpr, Seq<char>>(e@),
                Err(m) => spec_parse_whole(value@) == Err::<SpecExpr, Seq<char>>(m@),
            },
    {
        parse_whole_boolean_expression(value)
    }

    /// Evaluates a fully context-bound tree to its boolean.
    pub fn evaluate(&self) -> (r: Result<bool, String>)
        ensures
            bool_res_agrees(r, spec_expr_evaluate(self@)),
        decreases *self, 1int,
    {
        match self {
            BooleanExpression::Boolean(b) => Ok(*b),
            BooleanExpression::Identifier(ident) => Err(
                String::from_str("Context should be used before evaluation: Identifier(\"")
                    .concat(ident.0.as_str()).concat("\")"),
            ),
            BooleanExpression::NonBooleanExpression(nbe) => nbe.evaluate(),
            BooleanExpression::Binary(lhs, op, rhs) => self.evaluate_binary(lhs, op, rhs),
            BooleanExpression::Unary(op, rhs) => self.evaluate_unary(op, rhs),
        }
    }

    /// Chain evaluation: only `&&` and `||` are valid on boolean
    /// operands, left side first, short-circuiting as `&&`/`||` do.
    fn evaluate_binary(
        &self,
        lhs: &BooleanExpression,
        op: &BinaryOperator,
        rhs: &BooleanExpression,
    ) -> (r: Result<bool, String>)
        requires
            decreases_to!(*self => *lhs),
            decreases_to!(*self => *rhs),
        ensures
            bool_res_agrees(
                r,
                spec_expr_evaluate(SpecExpr::Binary(Box::new(lhs@), *op, Box::new(rhs@))),
            ),
        decreases *self, 0int,
    {
        match op {
            BinaryOperator::And => match lhs.evaluate() {
                Err(e) => Err(e),
                Ok(lv) => if !lv {
                    Ok(false)
                } else {
                    rhs.evaluate()
                },
            },
            BinaryOperator::Or => match lhs.evaluate() {
                Err(e) => Err(e),
                Ok(lv) => if lv {
                    Ok(true)
                } else {
                    rhs.evaluate()
                },
            },
            _ => Err(
                String::from_str("Invalid binary operator for boolean: ").concat(op_name(op)),
            ),
        }
    }

    /// Negation of the operand's evaluation.
    fn evaluate_unary(&self, op: &UnaryOperator, rhs: &BooleanExpression) -> (r: Result<
        bool,
        String,
    >)
        requires
            decreases_to!(*self => *rhs),
        ensures
            bool_res_agrees(
                r,
                spec_expr_evaluate(SpecExpr::Unary(*op, Box::new(rhs@))),
            ),
        decreases *self, 0int,
    {
        match op {
            UnaryOperator::Not => match rhs.evaluate() {
                Ok(b) => Ok(!b),
                Err(e) => Err(e),
            },
        }
    }

    /// Replaces every identifier by its context value, yielding a new,
    /// fully literal tree; the first unresolved or mistyped identifier
    /// aborts the transform.
    pub fn use_context(self, context: &Context) -> (r: Result<BooleanExpression, String>)
        ensures
            match r {
                Ok(e) => spec_expr_use_context(self@, context@) == Ok::<SpecExpr, Seq<char>>(e@),
                Err(m) => spec_expr_use_context(self@, context@) == Err::<SpecExpr, Seq<char>>(
                    m@,
                ),
            },
        decreases self,
    {
        match self {
            BooleanExpression::Identifier(ident) => {
                let resolved = ident.use_context(context);
                if let Ok(Value::Boolean(b)) = resolved {
                    Ok(BooleanExpression::Boolean(b))
                } else {
                    Err(
                        String::from_str("Value should be a boolean: Identifier(\"").concat(
                            ident.0.as_str(),
                        ).concat("\")"),
                    )
                }
            },
            BooleanExpression::Boolean(_) => Ok(self),
            BooleanExpression::NonBooleanExpression(nbe) => match nbe.use_context(context) {
                Ok(n2) => Ok(BooleanExpression::NonBooleanExpression(n2)),
                Err(e) => Err(e),
            },
            BooleanExpression::Binary(lhs, op, rhs) => match (*lhs).use_context(context) {
                Err(e) => Err(e),
                Ok(l2) => match (*rhs).use_context(context) {
                    Err(e) => Err(e),
                    Ok(r2) => Ok(
                        BooleanExpression::Binary(Box::new(l2), op, Box::new(r2)),
                    ),
                },
            },
            BooleanExpression::Unary(op, x) => match (*x).use_context(context) {
                Ok(x2) => Ok(BooleanExpression::Unary(op, Box::new(x2))),
                Err(e) => Err(e),
            },
        }
    }
}

// ---------- parsing ----------

/// Agreement between an executable tree parse and its model.
pub open spec fn expr_result_agrees(
    r: Option<(usize, BooleanExpression)>,
    m: Option<(int, SpecExpr)>,
) -> bool {
    match r {
        Some(pe) => m == Some((pe.0 as int, pe.1@)),
        None => m is None,
    }
}

/// The next parse position, clamped into `(pos, n]`. In every
/// reachable run the position already lies there, so the clamp changes
/// nothing; it makes the parser's termination measure structurally
/// evident.
pub open spec fn step_pos(pos: int, p: int, n: int) -> int {
    if pos < p && p <= n {
        p
    } else if pos < n {
        pos + 1
    } else {
        n
    }
}

/// One value of the grammar: a comparison, a parenthesized
/// subexpression, a boolean literal, a negation, or an identifier; the
/// alternatives are tried in that order and are distinguished by their
/// first character.
pub open spec fn spec_boolean_value(s: Seq<char>, pos: int) -> Option<(int, SpecExpr)>
    decreases s.len() - pos, 0int,
    when 0 <= pos <= s.len()
{
    match spec_binary_non_bool(s, pos) {
        Some((p, v)) => Some((p, SpecExpr::NonBoolean(v))),
        None => if lit1_at(s, pos, '(') {
            let p1 = step_pos(pos, spec_skip_ws(s, pos + 1), s.len() as int);
            match spec_boolean_expression(s, p1) {
                Some((p2, e)) => {
                    let p3 = spec_skip_ws(s, p2);
                    if lit1_at(s, p3, ')') {
                        Some((p3 + 1, e))
                    } else {
                        None
                    }
                },
                None => None,
            }
        } else if lit_true_at(s, pos) {
            Some((pos + 4, SpecExpr::Boolean(true)))
        } else if lit_false_at(s, pos) {
            Some((pos + 5, SpecExpr::Boolean(false)))
        } else if lit1_at(s, pos, '!') {
            let p1 = step_pos(pos, spec_skip_ws(s, pos + 1), s.len() as int);
            match spec_boolean_value(s, p1) {
                Some((p2, e)) => Some(
                    (p2, SpecExpr::Unary(UnaryOperator::Not, Box::new(e))),
                ),
                None => None,
            }
        } else {
            match spec_identifier(s, pos) {
                Some((p, SpecValue::Identifier(name))) => Some((p, SpecExpr::Identifier(name))),
                _ => None,
            }
        },
    }
}

/// A homogeneous `&&` chain: a value, `&&`, then the rest of the chain
/// or a final value; right-leaning.
pub open spec fn spec_boolean_and(s: Seq<char>, pos: int) -> Option<(int, SpecExpr)>
    decreases s.len() - pos, 1int,
    when 0 <= pos <= s.len()
{
    if pos >= s.len() {
        // no value can start at the end of input
        None
    } else {
        match spec_boolean_value(s, pos) {
            None => None,
            Some((p1, lhs)) => {
                let p2 = spec_skip_ws(s, p1);
                if lit2_at(s, p2, '&', '&') {
                    let p4 = step_pos(pos, spec_skip_ws(s, p2 + 2), s.len() as int);
                    match spec_boolean_and(s, p4) {
                        Some((p5, rhs)) => Some(
                            (p5, SpecExpr::Binary(
                                Box::new(lhs),
                                BinaryOperator::And,
                                Box::new(rhs),
                            )),
                        ),
                        None => match spec_boolean_value(s, p4) {
                            Some((p5, rhs)) => Some(
                                (p5, SpecExpr::Binary(
                                    Box::new(lhs),
                                    BinaryOperator::And,
                                    Box::new(rhs),
                                )),
                            ),
                            None => None,
                        },
                    }
                } else {
                    None
                }
            },
        }
    }
}

/// A homogeneous `||` chain, shaped exactly like the `&&` chain.
pub open spec fn spec_boolean_or(s: Seq<char>, pos: int) -> Option<(int, SpecExpr)>
    decreases s.len() - pos, 1int,
    when 0 <= pos <= s.len()
{
    if pos >= s.len() {
        None
    } else {
        match spec_boolean_value(s, pos) {
            None => None,
            Some((p1, lhs)) => {
                let p2 = spec_skip_ws(s, p1);
                if lit2_at(s, p2, '|', '|') {
                    let p4 = step_pos(pos, spec_skip_ws(s, p2 + 2), s.len() as int);
                    match spec_boolean_or(s, p4) {
                        Some((p5, rhs)) => Some(
                            (p5, SpecExpr::Binary(
                                Box::new(lhs),
                                BinaryOperator::Or,
                                Box::new(rhs),
                            )),
                        ),
                        None => match spec_boolean_value(s, p4) {
                            Some((p5, rhs)) => Some(
                                (p5, SpecExpr::Binary(
                                    Box::new(lhs),
                                    BinaryOperator::Or,
                                    Box::new(rhs),
                                )),
                            ),
                            None => None,
                        },
                    }
                } else {
                    None
                }
            },
        }
    }
}

/// An expression: an all-`&&` chain, an all-`||` chain, or a single
/// value, tried in that order. The two chain operators never mix at one
/// nesting level.
pub open spec fn spec_boolean_expression(s: Seq<char>, pos: int) -> Option<(int, SpecExpr)>
    decreases s.len() - pos, 2int,
    when 0 <= pos <= s.len()
{
    match spec_boolean_and(s, pos) {
        Some(r) => Some(r),
        None => match spec_boolean_or(s, pos) {
            Some(r) => Some(r),
            None => spec_boolean_value(s, pos),
        },
    }
}

/// A whole-input parse: the expression must consume every character;
/// a partial parse is a trailing-input error naming the remainder.
pub open spec fn spec_parse_whole(s: Seq<char>) -> Result<SpecExpr, Seq<char>> {
    match spec_boolean_expression(s, 0) {
        Some((p, e)) => if p == s.len() {
            Ok(e)
        } else {
            Err("Expected end of input, found: \""@ + s.subrange(p, s.len() as int) + "\""@)
        },
        None => Err("Syntax error in expression: \""@ + s + "\""@),
    }
}

pub(crate) fn boolean_value_at(s: &str, pos: usize) -> (r: Option<(usize, BooleanExpression)>)
    requires
        pos <= s@.len(),
    ensures
        expr_result_agrees(r, spec_boolean_value(s@, pos as int)),
        r matches Some(pe) ==> pos < pe.0 <= s@.len(),
    decreases s@.len() - pos, 0int,
{
    let n = s.unicode_len();
    match binary_non_bool_at(s, pos) {
        Some((p, nbe)) => Some((p, BooleanExpression::NonBooleanExpression(nbe))),
        None => {
            if has_lit1(s, pos, '(') {
                let p1 = skip_ws(s, pos + 1);
                proof {
                    assert(step_pos(pos as int, spec_skip_ws(s@, pos as int + 1), s@.len() as int)
                        == p1 as int);
                }
                match boolean_expression_at(s, p1) {
                    Some((p2, e)) => {
                        let p3 = skip_ws(s, p2);
                        if has_lit1(s, p3, ')') {
                            Some((p3 + 1, e))
                        } else {
                            None
                        }
                    },
                    None => None,
                }
            } else if has_true(s, pos) {
                Some((pos + 4, BooleanExpression::Boolean(true)))
            } else if has_false(s, pos) {
                Some((pos + 5, BooleanExpression::Boolean(false)))
            } else if has_lit1(s, pos, '!') {
                let p1 = skip_ws(s, pos + 1);
                proof {
                    assert(step_pos(pos as int, spec_skip_ws(s@, pos as int + 1), s@.len() as int)
                        == p1 as int);
                }
                match boolean_value_at(s, p1) {
                    Some((p2, e)) => Some(
                        (p2, BooleanExpression::Unary(UnaryOperator::Not, Box::new(e))),
                    ),
                    None => None,
                }
            } else {
                match identifier_at(s, pos) {
                    Some((p, v)) => match v {
                        Value::Identifier(id) => Some((p, BooleanExpression::Identifier(id))),
                        _ => None,
                    },
                    None => None,
                }
            }
        },
    }
}

/// Parses one value of the grammar.
pub fn boolean_value(input: &str) -> (r: Option<(usize, BooleanExpression)>)
    ensures
        expr_result_agrees(r, spec_boolean_value(input@, 0)),
{
    boolean_value_at(input, 0)
}

pub(crate) fn boolean_and_at(s: &str, pos: usize) -> (r: Option<(usize, BooleanExpression)>)
    requires
        pos <= s@.len(),
    ensures
        expr_result_agrees(r, spec_boolean_and(s@, pos as int)),
        r matches Some(pe) ==> pos < pe.0 <= s@.len(),
    decreases s@.len() - pos, 1int,
{
    let n = s.unicode_len();
    if pos >= n {
        return None;
    }
    match boolean_value_at(s, pos) {
        None => None,
        Some((p1, lhs)) => {
            let p2 = skip_ws(s, p1);
            if has_lit2(s, p2, '&', '&') {
                let p4 = skip_ws(s, p2 + 2);
                proof {
                    assert(step_pos(pos as int, spec_skip_ws(s@, p2 as int + 2), s@.len() as int)
                        == p4 as int);
                }
                match boolean_and_at(s, p4) {
                    Some((p5, rhs)) => Some(
                        (p5, BooleanExpression::Binary(
                            Box::new(lhs),
                            BinaryOperator::And,
                            Box::new(rhs),
                        )),
                    ),
                    None => match boolean_value_at(s, p4) {
                        Some((p5, rhs)) => Some(
                            (p5, BooleanExpression::Binary(
                                Box::new(lhs),
                                BinaryOperator::And,
                                Box::new(rhs),
                            )),
                        ),
                        None => None,
                    },
                }
            } else {
                None
            }
        },
    }
}

/// Parses an all-`&&` chain.
pub fn boolean_and(input: &str) -> (r: Option<(usize, BooleanExpression)>)
    ensures
        expr_result_agrees(r, spec_boolean_and(input@, 0)),
{
    boolean_and_at(input, 0)
}

pub(crate) fn boolean_or_at(s: &str, pos: usize) -> (r: Option<(usize, BooleanExpression)>)
    requires
        pos <= s@.len(),
    ensures
        expr_result_agrees(r, spec_boolean_or(s@, pos as int)),
        r matches Some(pe) ==> pos < pe.0 <= s@.len(),
    decreases s@.len() - pos, 1int,
{
    let n = s.unicode_len();
    if pos >= n {
        return None;
    }
    match boolean_value_at(s, pos) {
        None => None,
        Some((p1, lhs)) => {
            let p2 = skip_ws(s, p1);
            if has_lit2(s, p2, '|', '|') {
                let p4 = skip_ws(s, p2 + 2);
                proof {
                    assert(step_pos(pos as int, spec_skip_ws(s@, p2 as int + 2), s@.len() as int)
                        == p4 as int);
                }
                match boolean_or_at(s, p4) {
                    Some((p5, rhs)) => Some(
                        (p5, BooleanExpression::Binary(
                            Box::new(lhs),
                            BinaryOperator::Or,
                            Box::new(rhs),
                        )),
                    ),
                    None => match boolean_value_at(s, p4) {
                        Some((p5, rhs)) => Some(
                            (p5, BooleanExpression::Binary(
                                Box::new(lhs),
                                BinaryOperator::Or,
                                Box::new(rhs),
                            )),
                        ),
                        None => None,
                    },
                }
            } else {
                None
            }
        },
    }
}

/// Parses an all-`||` chain.
pub fn boolean_or(input: &str) -> (r: Option<(usize, BooleanExpression)>)
    ensures
        expr_result_agrees(r, spec_boolean_or(input@, 0)),
{
    boolean_or_at(input, 0)
}

pub(crate) fn boolean_expression_at(s: &str, pos: usize) -> (r: Option<(usize, BooleanExpression)>)
    requires
        pos <= s@.len(),
    ensures
        expr_result_agrees(r, spec_boolean_expression(s@, pos as int)),
        r matches Some(pe) ==> pos < pe.0 <= s@.len(),
    decreases s@.len() - pos, 2int,
{
    match boolean_and_at(s, pos) {
        Some(r) => Some(r),
        None => match boolean_or_at(s, pos) {
            Some(r) => Some(r),
            None => boolean_value_at(s, pos),
        },
    }
}

/// Parses an expression: an `&&` chain, a `||` chain, or a single
/// value.
pub fn boolean_expression(input: &str) -> (r: Option<(usize, BooleanExpression)>)
    ensures
        expr_result_agrees(r, spec_boolean_expression(input@, 0)),
{
    boolean_expression_at(input, 0)
}

/// Parses a complete expression string, requiring the grammar to
/// consume the entire input.
pub fn parse_whole_boolean_expression(input: &str) -> (r: Result<BooleanExpression, String>)
    ensures
        match r {
            Ok(e) => spec_parse_whole(input@) == Ok::<SpecExpr, Seq<char>>(e@),
            Err(m) => spec_parse_whole(input@) == Err::<SpecExpr, Seq<char>>(m@),
        },
{
    let n = input.unicode_len();
    match boolean_expression_at(input, 0) {
        Some((p, e)) => if p == n {
            Ok(e)
        } else {
            let rem = input.substring_char(p, n);
            Err(String::from_str("Expected end of input, found: \"").concat(rem).concat("\""))
        },
        None => Err(
            String::from_str("Syntax error in expression: \"").concat(input).concat("\""),
        ),
    }
}

} // verus!

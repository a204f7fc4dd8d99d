//! A comparison between two non-boolean operands, evaluating to a
//! boolean.
//!
//! Evaluation dispatches on the kind of the left operand: string and
//! integer comparisons have their own paths, and every remaining kind
//! falls through to the float path, which then reports a kind mismatch
//! unless both operands really are floats.

use vstd::prelude::*;
use vstd::string::StringExecFns;
use crate::Context;
use crate::float_value::{spec_float_lt, spec_float_eq};
use crate::operator::{
    BinaryOperator, spec_op_name, op_name, spec_binary_operator_number,
    spec_binary_operator_string, binary_operator_number_at, binary_operator_string_at,
};
use crate::regex_match::{regex_valid, regex_matches, regex_is_match};
use crate::scan::{spec_skip_ws, skip_ws};
use crate::value::{
    Value, SpecValue, spec_value_use_context, spec_integer, spec_float, spec_string, integer_at,
    float_at, string_at,
};

verus! {

/// A comparison node: left operand, comparison operator, right operand.
#[derive(Debug, PartialEq)]
pub struct NonBooleanExpression(pub Value, pub BinaryOperator, pub Value);

impl View for NonBooleanExpression {
    type V = (SpecValue, BinaryOperator, SpecValue);

    open spec fn view(&self) -> (SpecValue, BinaryOperator, SpecValue) {
        (self.0@, self.1, self.2@)
    }
}

/// Agreement between an executable boolean outcome and its model: same
/// success, same boolean, same failure message.
pub open spec fn bool_res_agrees(r: Result<bool, String>, m: Result<bool, Seq<char>>) -> bool {
    match r {
        Ok(b) => m == Ok::<bool, Seq<char>>(b),
        Err(e) => m == Err::<bool, Seq<char>>(e@),
    }
}

/// The kind tag of an operand, as it appears in error messages.
pub open spec fn spec_kind_name(v: SpecValue) -> Seq<char> {
    match v {
        SpecValue::Identifier(_) => "Identifier"@,
        SpecValue::StringLiteral(_) => "StringLiteral"@,
        SpecValue::IntegerLiteral(_) => "IntegerLiteral"@,
        SpecValue::FloatLiteral(_) => "FloatLiteral"@,
        SpecValue::Boolean(_) => "Boolean"@,
    }
}

fn kind_name(v: &Value) -> (r: &'static str)
    ensures
        r@ == spec_kind_name(v@),
{
    match v {
        Value::Identifier(_) => "Identifier",
        Value::StringLiteral(_) => "StringLiteral",
        Value::IntegerLiteral(_) => "IntegerLiteral",
        Value::FloatLiteral(_) => "FloatLiteral",
        Value::Boolean(_) => "Boolean",
    }
}

/// The message naming a malformed operand pair, e.g. for a comparison
/// whose sides resolved to different kinds.
pub open spec fn spec_pair_msg(prefix: Seq<char>, l: SpecValue, r: SpecValue) -> Seq<char> {
    prefix + spec_kind_name(l) + " vs "@ + spec_kind_name(r)
}

fn pair_msg(prefix: &str, l: &Value, r: &Value) -> (res: String)
    ensures
        res@ == spec_pair_msg(prefix@, l@, r@),
{
    String::from_str(prefix).concat(kind_name(l)).concat(" vs ").concat(kind_name(r))
}

// ---------- evaluation ----------

pub open spec fn spec_eval_string(v: (SpecValue, BinaryOperator, SpecValue)) -> Result<
    bool,
    Seq<char>,
> {
    match (v.0, v.2) {
        (SpecValue::StringLiteral(a), SpecValue::StringLiteral(b)) => match v.1 {
            BinaryOperator::Equals => Ok(a == b),
            BinaryOperator::NotEquals => Ok(a != b),
            BinaryOperator::RegexMatch => if regex_valid(b) {
                Ok(regex_matches(b, a))
            } else {
                Err("Invalid regex: "@ + b)
            },
            _ => Err("Invalid binary operator for string: "@ + spec_op_name(v.1)),
        },
        _ => Err(spec_pair_msg("Not a Binary String expression: "@, v.0, v.2)),
    }
}

pub open spec fn spec_eval_integer(v: (SpecValue, BinaryOperator, SpecValue)) -> Result<
    bool,
    Seq<char>,
> {
    match (v.0, v.2) {
        (SpecValue::IntegerLiteral(a), SpecValue::IntegerLiteral(b)) => match v.1 {
            BinaryOperator::Equals => Ok(a == b),
            BinaryOperator::NotEquals => Ok(a != b),
            BinaryOperator::LessThan => Ok(a < b),
            BinaryOperator::GreaterThan => Ok(a > b),
            BinaryOperator::LessEqual => Ok(a <= b),
            BinaryOperator::GreaterEqual => Ok(a >= b),
            _ => Err("Invalid binary operator for number: "@ + spec_op_name(v.1)),
        },
        _ => Err(spec_pair_msg("Not a Binary Integer expression: "@, v.0, v.2)),
    }
}

pub open spec fn spec_eval_float(v: (SpecValue, BinaryOperator, SpecValue)) -> Result<
    bool,
    Seq<char>,
> {
    match (v.0, v.2) {
        (SpecValue::FloatLiteral(a), SpecValue::FloatLiteral(b)) => match v.1 {
            BinaryOperator::Equals => Ok(spec_float_eq(a, b)),
            BinaryOperator::NotEquals => Ok(!spec_float_eq(a, b)),
            BinaryOperator::LessThan => Ok(spec_float_lt(a, b)),
            BinaryOperator::GreaterThan => Ok(spec_float_lt(b, a)),
            BinaryOperator::LessEqual => Ok(!spec_float_lt(b, a)),
            BinaryOperator::GreaterEqual => Ok(!spec_float_lt(a, b)),
            _ => Err("Invalid binary operator for number: "@ + spec_op_name(v.1)),
        },
        _ => Err(spec_pair_msg("Not a Binary Float expression: "@, v.0, v.2)),
    }
}

/// Evaluation of a comparison: dispatch on the kind of the left
/// operand, with every kind other than string and integer falling
/// through to the float path.
pub open spec fn spec_nbe_evaluate(v: (SpecValue, BinaryOperator, SpecValue)) -> Result<
    bool,
    Seq<char>,
> {
    if v.0 is StringLiteral {
        spec_eval_string(v)
    } else if v.0 is IntegerLiteral {
        spec_eval_integer(v)
    } else {
        spec_eval_float(v)
    }
}

impl NonBooleanExpression {
    /// Evaluates a fully context-bound comparison.
    pub fn evaluate(&self) -> (r: Result<bool, String>)
        ensures
            bool_res_agrees(r, spec_nbe_evaluate(self@)),
    {
        if let Value::StringLiteral(_) = self.0 {
            self.eval_string()
        } else if let Value::IntegerLiteral(_) = self.0 {
            self.eval_integer()
        } else {
            self.eval_float()
        }
    }

    /// String comparison: literal equality, inequality, or a regex
    /// match of the right operand anywhere in the left.
    pub fn eval_string(&self) -> (r: Result<bool, String>)
        ensures
            bool_res_agrees(r, spec_eval_string(self@)),
    {
        if let (Value::StringLiteral(lhs), Value::StringLiteral(rhs)) = (&self.0, &self.2) {
            match self.1 {
                BinaryOperator::Equals => Ok(*lhs == *rhs),
                BinaryOperator::NotEquals => Ok(!(*lhs == *rhs)),
                BinaryOperator::RegexMatch => match regex_is_match(lhs.as_str(), rhs.as_str()) {
                    Some(b) => Ok(b),
                    None => Err(String::from_str("Invalid regex: ").concat(rhs.as_str())),
                },
                _ => Err(
                    String::from_str("Invalid binary operator for string: ").concat(
                        op_name(&self.1),
                    ),
                ),
            }
        } else {
            Err(pair_msg("Not a Binary String expression: ", &self.0, &self.2))
        }
    }

    /// Integer comparison with the six relational operators.
    pub fn eval_integer(&self) -> (r: Result<bool, String>)
        ensures
            bool_res_agrees(r, spec_eval_integer(self@)),
    {
        if let (Value::IntegerLiteral(lhs), Value::IntegerLiteral(rhs)) = (&self.0, &self.2) {
            match self.1 {
                BinaryOperator::Equals => Ok(*lhs == *rhs),
                BinaryOperator::NotEquals => Ok(*lhs != *rhs),
                BinaryOperator::LessThan => Ok(*lhs < *rhs),
                BinaryOperator::GreaterThan => Ok(*lhs > *rhs),
                BinaryOperator::LessEqual => Ok(*lhs <= *rhs),
                BinaryOperator::GreaterEqual => Ok(*lhs >= *rhs),
                _ => Err(
                    String::from_str("Invalid binary operator for number: ").concat(
                        op_name(&self.1),
                    ),
                ),
            }
        } else {
            Err(pair_msg("Not a Binary Integer expression: ", &self.0, &self.2))
        }
    }

    /// Float comparison with the six relational operators; reached by
    /// any operand kind other than string and integer, and failing with
    /// a kind mismatch unless both operands are floats.
    pub fn eval_float(&self) -> (r: Result<bool, String>)
        ensures
            bool_res_agrees(r, spec_eval_float(self@)),
    {
        if let (Value::FloatLiteral(lhs), Value::FloatLiteral(rhs)) = (&self.0, &self.2) {
            match self.1 {
                BinaryOperator::Equals => Ok(lhs.num_eq(rhs)),
                BinaryOperator::NotEquals => Ok(!lhs.num_eq(rhs)),
                BinaryOperator::LessThan => Ok(lhs.num_lt(rhs)),
                BinaryOperator::GreaterThan => Ok(rhs.num_lt(lhs)),
                BinaryOperator::LessEqual => Ok(!rhs.num_lt(lhs)),
                BinaryOperator::GreaterEqual => Ok(!lhs.num_lt(rhs)),
                _ => Err(
                    String::from_str("Invalid binary operator for number: ").concat(
                        op_name(&self.1),
                    ),
                ),
            }
        } else {
            Err(pair_msg("Not a Binary Float expression: ", &self.0, &self.2))
        }
    }

    /// Resolves both operands through the context, left first.
    pub fn use_context(self, context: &Context) -> (r: Result<NonBooleanExpression, String>)
        ensures
            match r {
                Ok(e) => spec_nbe_use_context(self@, context@) == Ok::<
                    (SpecValue, BinaryOperator, SpecValue),
                    Seq<char>,
                >(e@),
                Err(m) => spec_nbe_use_context(self@, context@) == Err::<
                    (SpecValue, BinaryOperator, SpecValue),
                    Seq<char>,
                >(m@),
            },
    {
        let NonBooleanExpression(lhs, op, rhs) = self;
        match lhs.use_context(context) {
            Err(e) => Err(e),
            Ok(l) => match rhs.use_context(context) {
                Err(e) => Err(e),
                Ok(r) => Ok(NonBooleanExpression(l, op, r)),
            },
        }
    }
}

/// Context binding of a comparison: both operands are resolved, the
/// left one first, and the first failure aborts the transform.
pub open spec fn spec_nbe_use_context(
    v: (SpecValue, BinaryOperator, SpecValue),
    m: Map<Seq<char>, SpecValue>,
) -> Result<(SpecValue, BinaryOperator, SpecValue), Seq<char>> {
    match spec_value_use_context(v.0, m) {
        Err(e) => Err(e),
        Ok(l) => match spec_value_use_context(v.2, m) {
            Err(e) => Err(e),
            Ok(r) => Ok((l, v.1, r)),
        },
    }
}

// ---------- parsing ----------

/// Agreement between an executable comparison parse and its model.
pub open spec fn nbe_result_agrees(
    r: Option<(usize, NonBooleanExpression)>,
    m: Option<(int, (SpecValue, BinaryOperator, SpecValue))>,
) -> bool {
    match r {
        Some(pe) => m == Some((pe.0 as int, pe.1@)),
        None => m is None,
    }
}

/// The integer alternative: integer operands around a number operator.
pub open spec fn spec_nbe_integer_alt(s: Seq<char>, pos: int) -> Option<
    (int, (SpecValue, BinaryOperator, SpecValue)),
> {
    match spec_integer(s, pos) {
        None => None,
        Some((p1, v1)) => {
            let p2 = spec_skip_ws(s, p1);
            match spec_binary_operator_number(s, p2) {
                None => None,
                Some((p3, op)) => {
                    let p4 = spec_skip_ws(s, p3);
                    match spec_integer(s, p4) {
                        None => None,
                        Some((p5, v2)) => Some((p5, (v1, op, v2))),
                    }
                },
            }
        },
    }
}

/// The float alternative: float operands around a number operator.
pub open spec fn spec_nbe_float_alt(s: Seq<char>, pos: int) -> Option<
    (int, (SpecValue, BinaryOperator, SpecValue)),
> {
    match spec_float(s, pos) {
        None => None,
        Some((p1, v1)) => {
            let p2 = spec_skip_ws(s, p1);
            match spec_binary_operator_number(s, p2) {
                None => None,
                Some((p3, op)) => {
                    let p4 = spec_skip_ws(s, p3);
                    match spec_float(s, p4) {
                        None => None,
                        Some((p5, v2)) => Some((p5, (v1, op, v2))),
                    }
                },
            }
        },
    }
}

/// The string alternative: string operands around a string operator.
pub open spec fn spec_nbe_string_alt(s: Seq<char>, pos: int) -> Option<
    (int, (SpecValue, BinaryOperator, SpecValue)),
> {
    match spec_string(s, pos) {
        None => None,
        Some((p1, v1)) => {
            let p2 = spec_skip_ws(s, p1);
            match spec_binary_operator_string(s, p2) {
                None => None,
                Some((p3, op)) => {
                    let p4 = spec_skip_ws(s, p3);
                    match spec_string(s, p4) {
                        None => None,
                        Some((p5, v2)) => Some((p5, (v1, op, v2))),
                    }
                },
            }
        },
    }
}

/// A comparison is parsed by trying the integer, float and string
/// alternatives in that order; the order decides which literal kind a
/// pair of bare identifiers is provisionally read under.
pub open spec fn spec_binary_non_bool(s: Seq<char>, pos: int) -> Option<
    (int, (SpecValue, BinaryOperator, SpecValue)),
> {
    match spec_nbe_integer_alt(s, pos) {
        Some(r) => Some(r),
        None => match spec_nbe_float_alt(s, pos) {
            Some(r) => Some(r),
            None => spec_nbe_string_alt(s, pos),
        },
    }
}

fn nbe_integer_alt(s: &str, pos: usize) -> (r: Option<(usize, NonBooleanExpression)>)
    requires
        pos <= s@.len(),
    ensures
        nbe_result_agrees(r, spec_nbe_integer_alt(s@, pos as int)),
        r matches Some(pe) ==> pos < pe.0 <= s@.len(),
{
    match integer_at(s, pos) {
        None => None,
        Some((p1, v1)) => {
            let p2 = skip_ws(s, p1);
            match binary_operator_number_at(s, p2) {
                None => None,
                Some((p3, op)) => {
                    let p4 = skip_ws(s, p3);
                    match integer_at(s, p4) {
                        None => None,
                        Some((p5, v2)) => Some((p5, NonBooleanExpression(v1, op, v2))),
                    }
                },
            }
        },
    }
}

fn nbe_float_alt(s: &str, pos: usize) -> (r: Option<(usize, NonBooleanExpression)>)
    requires
        pos <= s@.len(),
    ensures
        nbe_result_agrees(r, spec_nbe_float_alt(s@, pos as int)),
        r matches Some(pe) ==> pos < pe.0 <= s@.len(),
{
    match float_at(s, pos) {
        None => None,
        Some((p1, v1)) => {
            let p2 = skip_ws(s, p1);
            match binary_operator_number_at(s, p2) {
                None => None,
                Some((p3, op)) => {
                    let p4 = skip_ws(s, p3);
                    match float_at(s, p4) {
                        None => None,
                        Some((p5, v2)) => Some((p5, NonBooleanExpression(v1, op, v2))),
                    }
                },
            }
        },
    }
}

fn nbe_string_alt(s: &str, pos: usize) -> (r: Option<(usize, NonBooleanExpression)>)
    requires
        pos <= s@.len(),
    ensures
        nbe_result_agrees(r, spec_nbe_string_alt(s@, pos as int)),
        r matches Some(pe) ==> pos < pe.0 <= s@.len(),
{
    match string_at(s, pos) {
        None => None,
        Some((p1, v1)) => {
            let p2 = skip_ws(s, p1);
            match binary_operator_string_at(s, p2) {
                None => None,
                Some((p3, op)) => {
                    let p4 = skip_ws(s, p3);
                    match string_at(s, p4) {
                        None => None,
                        Some((p5, v2)) => Some((p5, NonBooleanExpression(v1, op, v2))),
                    }
                },
            }
        },
    }
}

pub(crate) fn binary_non_bool_at(s: &str, pos: usize) -> (r: Option<(usize, NonBooleanExpression)>)
    requires
        pos <= s@.len(),
    ensures
        nbe_result_agrees(r, spec_binary_non_bool(s@, pos as int)),
        r matches Some(pe) ==> pos < pe.0 <= s@.len(),
{
    match nbe_integer_alt(s, pos) {
        Some(r) => Some(r),
        None => match nbe_float_alt(s, pos) {
            Some(r) => Some(r),
            None => nbe_string_alt(s, pos),
        },
    }
}

/// Parses a comparison of two same-kind operands, trying the integer,
/// float and string alternatives in order.
pub fn binary_non_bool(input: &str) -> (r: Option<(usize, NonBooleanExpression)>)
    ensures
        nbe_result_agrees(r, spec_binary_non_bool(input@, 0)),
{
    binary_non_bool_at(input, 0)
}

} // verus!

//! Operator tables: the textual operator tokens and their tagged
//! representations, with one token parser per syntactic position.
//!
//! Token alternatives are tried in table order with first-match-wins and
//! no backtracking inside the table; a two-character token stands before
//! its one-character prefix, so `<=` and `>=` are matched whole.

use vstd::prelude::*;
use vstd::string::{StrSliceExecFns, StringExecFns};
use crate::scan::{lit1_at, lit2_at};

verus! {

#[derive(Debug, PartialEq, Eq, Structural, Clone, Copy)]
pub enum BinaryOperator {
    Equals,
    NotEquals,
    LessThan,
    GreaterThan,
    LessEqual,
    GreaterEqual,
    And,
    Or,
    RegexMatch,
}

pub open spec fn spec_op_name(op: BinaryOperator) -> Seq<char> {
    match op {
        BinaryOperator::Equals => "Equals"@,
        BinaryOperator::NotEquals => "NotEquals"@,
        BinaryOperator::LessThan => "LessThan"@,
        BinaryOperator::GreaterThan => "GreaterThan"@,
        BinaryOperator::LessEqual => "LessEqual"@,
        BinaryOperator::GreaterEqual => "GreaterEqual"@,
        BinaryOperator::And => "And"@,
        BinaryOperator::Or => "Or"@,
        BinaryOperator::RegexMatch => "RegexMatch"@,
    }
}

/// The operator's tag name, as it appears in error messages.
pub fn op_name(op: &BinaryOperator) -> (r: &'static str)
    ensures
        r@ == spec_op_name(*op),
{
    match op {
        BinaryOperator::Equals => "Equals",
        BinaryOperator::NotEquals => "NotEquals",
        BinaryOperator::LessThan => "LessThan",
        BinaryOperator::GreaterThan => "GreaterThan",
        BinaryOperator::LessEqual => "LessEqual",
        BinaryOperator::GreaterEqual => "GreaterEqual",
        BinaryOperator::And => "And",
        BinaryOperator::Or => "Or",
        BinaryOperator::RegexMatch => "RegexMatch",
    }
}

pub open spec fn spec_binary_operator_from(t: Seq<char>) -> Result<BinaryOperator, Seq<char>> {
    if t == seq!['=', '='] {
        Ok(BinaryOperator::Equals)
    } else if t == seq!['!', '='] {
        Ok(BinaryOperator::NotEquals)
    } else if t == seq!['<'] {
        Ok(BinaryOperator::LessThan)
    } else if t == seq!['>'] {
        Ok(BinaryOperator::GreaterThan)
    } else if t == seq!['<', '='] {
        Ok(BinaryOperator::LessEqual)
    } else if t == seq!['>', '='] {
        Ok(BinaryOperator::GreaterEqual)
    } else if t == seq!['&', '&'] {
        Ok(BinaryOperator::And)
    } else if t == seq!['|', '|'] {
        Ok(BinaryOperator::Or)
    } else if t == seq!['=', '~'] {
        Ok(BinaryOperator::RegexMatch)
    } else {
        Err("Unknown operator: "@ + t)
    }
}

fn err_unknown_operator(value: &str) -> (r: String)
    ensures
        r@ == "Unknown operator: "@ + value@,
{
    String::from_str("Unknown operator: ").concat(value)
}

impl BinaryOperator {
    /// Converts a recognized operator token to its tag; an unrecognized
    /// token is reported as unknown.
    pub fn try_from(value: &str) -> (r: Result<BinaryOperator, String>)
        ensures
            match r {
                Ok(op) => spec_binary_operator_from(value@) == Ok::<BinaryOperator, Seq<char>>(op),
                Err(m) => spec_binary_operator_from(value@) == Err::<BinaryOperator, Seq<char>>(
                    m@,
                ),
            },
    {
        let n = value.unicode_len();
        if n == 1 {
            let c0 = value.get_char(0);
            if c0 == '<' {
                proof {
                    assert(value@ =~= seq!['<']);
                }
                return Ok(BinaryOperator::LessThan);
            }
            if c0 == '>' {
                proof {
                    assert(value@ =~= seq!['>']);
                }
                return Ok(BinaryOperator::GreaterThan);
            }
        } else if n == 2 {
            let c0 = value.get_char(0);
            let c1 = value.get_char(1);
            if c0 == '=' && c1 == '=' {
                proof {
                    assert(value@ =~= seq!['=', '=']);
                }
                return Ok(BinaryOperator::Equals);
            }
            if c0 == '!' && c1 == '=' {
                proof {
                    assert(value@ =~= seq!['!', '=']);
                }
                return Ok(BinaryOperator::NotEquals);
            }
            if c0 == '<' && c1 == '=' {
                proof {
                    assert(value@ =~= seq!['<', '=']);
                }
                return Ok(BinaryOperator::LessEqual);
            }
            if c0 == '>' && c1 == '=' {
                proof {
                    assert(value@ =~= seq!['>', '=']);
                }
                return Ok(BinaryOperator::GreaterEqual);
            }
            if c0 == '&' && c1 == '&' {
                proof {
                    assert(value@ =~= seq!['&', '&']);
                }
                return Ok(BinaryOperator::And);
            }
            if c0 == '|' && c1 == '|' {
                proof {
                    assert(value@ =~= seq!['|', '|']);
                }
                return Ok(BinaryOperator::Or);
            }
            if c0 == '=' && c1 == '~' {
                proof {
                    assert(value@ =~= seq!['=', '~']);
                }
                return Ok(BinaryOperator::RegexMatch);
            }
        }
        Err(err_unknown_operator(value))
    }
}

#[derive(Debug, PartialEq, Eq, Structural, Clone, Copy)]
pub enum UnaryOperator {
    Not,
}

pub open spec fn spec_unary_operator_from(t: Seq<char>) -> Result<UnaryOperator, Seq<char>> {
    if t == seq!['!'] {
        Ok(UnaryOperator::Not)
    } else {
        Err("Unknown operator: "@ + t)
    }
}

impl UnaryOperator {
    pub fn try_from(value: &str) -> (r: Result<UnaryOperator, String>)
        ensures
            match r {
                Ok(op) => spec_unary_operator_from(value@) == Ok::<UnaryOperator, Seq<char>>(op),
                Err(m) => spec_unary_operator_from(value@) == Err::<UnaryOperator, Seq<char>>(m@),
            },
    {
        let n = value.unicode_len();
        if n == 1 {
            let c0 = value.get_char(0);
            if c0 == '!' {
                proof {
                    assert(value@ =~= seq!['!']);
                }
                return Ok(UnaryOperator::Not);
            }
        }
        Err(err_unknown_operator(value))
    }
}

// ---------- token parsers, one per syntactic position ----------

pub open spec fn op_result_agrees(
    r: Option<(usize, BinaryOperator)>,
    m: Option<(int, BinaryOperator)>,
) -> bool {
    match r {
        Some(po) => m == Some((po.0 as int, po.1)),
        None => m is None,
    }
}

/// Operator tokens accepted between two number operands.
pub open spec fn spec_binary_operator_number(s: Seq<char>, pos: int) -> Option<
    (int, BinaryOperator),
> {
    if lit2_at(s, pos, '=', '=') {
        Some((pos + 2, BinaryOperator::Equals))
    } else if lit2_at(s, pos, '!', '=') {
        Some((pos + 2, BinaryOperator::NotEquals))
    } else if lit2_at(s, pos, '<', '=') {
        Some((pos + 2, BinaryOperator::LessEqual))
    } else if lit2_at(s, pos, '>', '=') {
        Some((pos + 2, BinaryOperator::GreaterEqual))
    } else if lit1_at(s, pos, '<') {
        Some((pos + 1, BinaryOperator::LessThan))
    } else if lit1_at(s, pos, '>') {
        Some((pos + 1, BinaryOperator::GreaterThan))
    } else {
        None
    }
}

pub(crate) fn binary_operator_number_at(s: &str, pos: usize) -> (r: Option<(usize, BinaryOperator)>)
    requires
        pos <= s@.len(),
    ensures
        op_result_agrees(r, spec_binary_operator_number(s@, pos as int)),
        r matches Some(po) ==> pos < po.0 <= s@.len(),
{
    let n = s.unicode_len();
    if pos < n {
        let c0 = s.get_char(pos);
        let two = pos + 1 < n;
        if c0 == '=' && two && s.get_char(pos + 1) == '=' {
            return Some((pos + 2, BinaryOperator::Equals));
        }
        if c0 == '!' && two && s.get_char(pos + 1) == '=' {
            return Some((pos + 2, BinaryOperator::NotEquals));
        }
        if c0 == '<' && two && s.get_char(pos + 1) == '=' {
            return Some((pos + 2, BinaryOperator::LessEqual));
        }
        if c0 == '>' && two && s.get_char(pos + 1) == '=' {
            return Some((pos + 2, BinaryOperator::GreaterEqual));
        }
        if c0 == '<' {
            return Some((pos + 1, BinaryOperator::LessThan));
        }
        if c0 == '>' {
            return Some((pos + 1, BinaryOperator::GreaterThan));
        }
    }
    None
}

/// Parses a number-comparison operator token.
pub fn binary_operator_number(input: &str) -> (r: Option<(usize, BinaryOperator)>)
    ensures
        op_result_agrees(r, spec_binary_operator_number(input@, 0)),
{
    binary_operator_number_at(input, 0)
}

/// Operator tokens accepted between two string operands.
pub open spec fn spec_binary_operator_string(s: Seq<char>, pos: int) -> Option<
    (int, BinaryOperator),
> {
    if lit2_at(s, pos, '=', '=') {
        Some((pos + 2, BinaryOperator::Equals))
    } else if lit2_at(s, pos, '!', '=') {
        Some((pos + 2, BinaryOperator::NotEquals))
    } else if lit2_at(s, pos, '=', '~') {
        Some((pos + 2, BinaryOperator::RegexMatch))
    } else {
        None
    }
}

pub(crate) fn binary_operator_string_at(s: &str, pos: usize) -> (r: Option<(usize, BinaryOperator)>)
    requires
        pos <= s@.len(),
    ensures
        op_result_agrees(r, spec_binary_operator_string(s@, pos as int)),
        r matches Some(po) ==> pos < po.0 <= s@.len(),
{
    let n = s.unicode_len();
    if pos < n && pos + 1 < n {
        let c0 = s.get_char(pos);
        let c1 = s.get_char(pos + 1);
        if c0 == '=' && c1 == '=' {
            return Some((pos + 2, BinaryOperator::Equals));
        }
        if c0 == '!' && c1 == '=' {
            return Some((pos + 2, BinaryOperator::NotEquals));
        }
        if c0 == '=' && c1 == '~' {
            return Some((pos + 2, BinaryOperator::RegexMatch));
        }
    }
    None
}

/// Parses a string-comparison operator token.
pub fn binary_operator_string(input: &str) -> (r: Option<(usize, BinaryOperator)>)
    ensures
        op_result_agrees(r, spec_binary_operator_string(input@, 0)),
{
    binary_operator_string_at(input, 0)
}

pub open spec fn spec_binary_and_operator(s: Seq<char>, pos: int) -> Option<
    (int, BinaryOperator),
> {
    if lit2_at(s, pos, '&', '&') {
        Some((pos + 2, BinaryOperator::And))
    } else {
        None
    }
}

pub(crate) fn binary_and_operator_at(s: &str, pos: usize) -> (r: Option<(usize, BinaryOperator)>)
    requires
        pos <= s@.len(),
    ensures
        op_result_agrees(r, spec_binary_and_operator(s@, pos as int)),
        r matches Some(po) ==> pos < po.0 <= s@.len(),
{
    let n = s.unicode_len();
    if pos < n && pos + 1 < n && s.get_char(pos) == '&' && s.get_char(pos + 1) == '&' {
        Some((pos + 2, BinaryOperator::And))
    } else {
        None
    }
}

/// Parses the logical-and operator token `&&`.
pub fn binary_and_operator(input: &str) -> (r: Option<(usize, BinaryOperator)>)
    ensures
        op_result_agrees(r, spec_binary_and_operator(input@, 0)),
{
    binary_and_operator_at(input, 0)
}

pub open spec fn spec_binary_or_operator(s: Seq<char>, pos: int) -> Option<(int, BinaryOperator)> {
    if lit2_at(s, pos, '|', '|') {
        Some((pos + 2, BinaryOperator::Or))
    } else {
        None
    }
}

pub(crate) fn binary_or_operator_at(s: &str, pos: usize) -> (r: Option<(usize, BinaryOperator)>)
    requires
        pos <= s@.len(),
    ensures
        op_result_agrees(r, spec_binary_or_operator(s@, pos as int)),
        r matches Some(po) ==> pos < po.0 <= s@.len(),
{
    let n = s.unicode_len();
    if pos < n && pos + 1 < n && s.get_char(pos) == '|' && s.get_char(pos + 1) == '|' {
        Some((pos + 2, BinaryOperator::Or))
    } else {
        None
    }
}

/// Parses the logical-or operator token `||`.
pub fn binary_or_operator(input: &str) -> (r: Option<(usize, BinaryOperator)>)
    ensures
        op_result_agrees(r, spec_binary_or_operator(input@, 0)),
{
    binary_or_operator_at(input, 0)
}

pub open spec fn spec_unary_operator_primary(s: Seq<char>, pos: int) -> Option<
    (int, UnaryOperator),
> {
    if lit1_at(s, pos, '!') {
        Some((pos + 1, UnaryOperator::Not))
    } else {
        None
    }
}

pub(crate) fn unary_operator_primary_at(s: &str, pos: usize) -> (r: Option<(usize, UnaryOperator)>)
    requires
        pos <= s@.len(),
    ensures
        match r {
            Some(po) => spec_unary_operator_primary(s@, pos as int) == Some((po.0 as int, po.1))
                && pos < po.0 <= s@.len(),
            None => spec_unary_operator_primary(s@, pos as int) is None,
        },
{
    let n = s.unicode_len();
    if pos < n && s.get_char(pos) == '!' {
        Some((pos + 1, UnaryOperator::Not))
    } else {
        None
    }
}

/// Parses the unary negation operator token `!`.
pub fn unary_operator_primary(input: &str) -> (r: Option<(usize, UnaryOperator)>)
    ensures
        match r {
            Some(po) => spec_unary_operator_primary(input@, 0) == Some((po.0 as int, po.1)),
            None => spec_unary_operator_primary(input@, 0) is None,
        },
{
    unary_operator_primary_at(input, 0)
}

} // verus!

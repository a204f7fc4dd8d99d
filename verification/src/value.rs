//! Literals and identifiers: the operands of a comparison.
//!
//! Each parser follows the grammar's ordered-alternative rule: a literal
//! form is tried first and an identifier is accepted in its place, so a
//! bare name is syntactically fine wherever a literal is expected and the
//! kind check is deferred to evaluation time.

use vstd::prelude::*;
use vstd::string::{StrSliceExecFns, StringExecFns};
use crate::{Context, ContextValue};
use crate::float_value::{FloatValue, SpecFloat, MAX_FLOAT_SCALE, pow10_i128};
use crate::scan::{
    lit1_at, lit_true_at, lit_false_at, spec_scan_digits, spec_scan_ident, spec_scan_string_body,
    digit_seq_val, pow10, lemma_scan_digits_props, lemma_digit_seq_val_bounds,
    lemma_digit_seq_val_concat, lemma_pow10_pos, lemma_pow10_mono, lemma_pow10_18, scan_digits,
    scan_ident, scan_string_body, has_lit1, has_true, has_false, parse_digits_i64,
};

verus! {

/// An unresolved name, to be replaced by a context lookup before
/// evaluation.
#[derive(Debug, PartialEq)]
pub struct Identifier(pub String);

impl View for Identifier {
    type V = Seq<char>;

    open spec fn view(&self) -> Seq<char> {
        self.0@
    }
}

impl Identifier {
    pub fn from(value: &str) -> (r: Identifier)
        ensures
            r@ == value@,
    {
        Identifier(value.to_owned())
    }

    /// Resolves this name in `context`: the bound value on a hit, an
    /// identifier-not-found failure naming the identifier on a miss.
    pub fn use_context(&self, context: &Context) -> (r: Result<Value, String>)
        ensures
            match r {
                Ok(v) => spec_value_use_context(SpecValue::Identifier(self@), context@)
                    == Ok::<SpecValue, Seq<char>>(v@),
                Err(m) => spec_value_use_context(SpecValue::Identifier(self@), context@)
                    == Err::<SpecValue, Seq<char>>(m@),
            },
    {
        match context.get(&self.0) {
            Some(val) => Ok(Value::from(val)),
            None => Err(
                String::from_str("Identifier not found in context: ").concat(self.0.as_str()),
            ),
        }
    }
}

/// Mathematical model of a [`Value`].
pub ghost enum SpecValue {
    Identifier(Seq<char>),
    StringLiteral(Seq<char>),
    IntegerLiteral(int),
    FloatLiteral(SpecFloat),
    Boolean(bool),
}

/// A literal operand, or an identifier standing in for one.
#[derive(Debug, PartialEq)]
pub enum Value {
    Identifier(Identifier),
    StringLiteral(String),
    IntegerLiteral(i64),
    FloatLiteral(FloatValue),
    Boolean(bool),
}

impl View for Value {
    type V = SpecValue;

    open spec fn view(&self) -> SpecValue {
        match self {
            Value::Identifier(id) => SpecValue::Identifier(id@),
            Value::StringLiteral(t) => SpecValue::StringLiteral(t@),
            Value::IntegerLiteral(i) => SpecValue::IntegerLiteral(*i as int),
            Value::FloatLiteral(f) => SpecValue::FloatLiteral(f@),
            Value::Boolean(b) => SpecValue::Boolean(*b),
        }
    }
}

/// Context binding of one operand: an identifier is replaced by the
/// value bound to its name, any literal is kept as it is.
pub open spec fn spec_value_use_context(v: SpecValue, m: Map<Seq<char>, SpecValue>) -> Result<
    SpecValue,
    Seq<char>,
> {
    match v {
        SpecValue::Identifier(name) => if m.contains_key(name) {
            Ok(m[name])
        } else {
            Err("Identifier not found in context: "@ + name)
        },
        _ => Ok(v),
    }
}

impl Value {
    /// Converts a caller-supplied context value to the internal
    /// representation of the same value.
    pub fn from(value: &ContextValue) -> (r: Value)
        ensures
            r@ == value@,
    {
        match value {
            ContextValue::String(s) => Value::StringLiteral(s.clone()),
            ContextValue::Integer(i) => Value::IntegerLiteral(*i),
            ContextValue::Float(f) => Value::FloatLiteral(*f),
            ContextValue::Boolean(b) => Value::Boolean(*b),
        }
    }

    /// Resolves an identifier operand through the context; any other
    /// operand is already a literal and is returned unchanged.
    pub fn use_context(self, context: &Context) -> (r: Result<Value, String>)
        ensures
            match r {
                Ok(v) => spec_value_use_context(self@, context@) == Ok::<SpecValue, Seq<char>>(
                    v@,
                ),
                Err(m) => spec_value_use_context(self@, context@) == Err::<SpecValue, Seq<char>>(
                    m@,
                ),
            },
    {
        match self {
            Value::Identifier(identifier) => identifier.use_context(context),
            _ => Ok(self),
        }
    }
}

/// Agreement between an executable parse result and its model: same
/// success, same end position, same parsed value.
pub open spec fn val_result_agrees(r: Option<(usize, Value)>, m: Option<(int, SpecValue)>) -> bool {
    match r {
        Some(pv) => m == Some((pv.0 as int, pv.1@)),
        None => m is None,
    }
}

// ---------- identifier ----------

/// `true` and `false` are reserved for boolean literals and refused as
/// identifiers.
pub open spec fn is_reserved_word(t: Seq<char>) -> bool {
    t == seq!['t', 'r', 'u', 'e'] || t == seq!['f', 'a', 'l', 's', 'e']
}

pub open spec fn spec_identifier(s: Seq<char>, pos: int) -> Option<(int, SpecValue)>
    recommends
        0 <= pos <= s.len(),
{
    let end = spec_scan_ident(s, pos);
    if end > pos {
        let text = s.subrange(pos, end);
        if is_reserved_word(text) {
            None
        } else {
            Some((end, SpecValue::Identifier(text)))
        }
    } else {
        None
    }
}

fn reserved_word(s: &str, pos: usize, end: usize) -> (r: bool)
    requires
        pos <= end <= s@.len(),
    ensures
        r == is_reserved_word(s@.subrange(pos as int, end as int)),
{
    let ghost text = s@.subrange(pos as int, end as int);
    proof {
        assert(seq!['t', 'r', 'u', 'e'].len() == 4);
        assert(seq!['f', 'a', 'l', 's', 'e'].len() == 5);
    }
    let len = end - pos;
    if len == 4 {
        let r = s.get_char(pos) == 't' && s.get_char(pos + 1) == 'r' && s.get_char(pos + 2) == 'u'
            && s.get_char(pos + 3) == 'e';
        proof {
            if r {
                assert(text =~= seq!['t', 'r', 'u', 'e']);
            } else {
                assert(text != seq!['t', 'r', 'u', 'e']);
                assert(text.len() != 5);
            }
        }
        r
    } else if len == 5 {
        let r = s.get_char(pos) == 'f' && s.get_char(pos + 1) == 'a' && s.get_char(pos + 2) == 'l'
            && s.get_char(pos + 3) == 's' && s.get_char(pos + 4) == 'e';
        proof {
            if r {
                assert(text =~= seq!['f', 'a', 'l', 's', 'e']);
            } else {
                assert(text != seq!['f', 'a', 'l', 's', 'e']);
            }
        }
        r
    } else {
        proof {
            assert(text.len() != 4 && text.len() != 5);
        }
        false
    }
}

pub(crate) fn identifier_at(s: &str, pos: usize) -> (r: Option<(usize, Value)>)
    requires
        pos <= s@.len(),
    ensures
        val_result_agrees(r, spec_identifier(s@, pos as int)),
        r matches Some(pv) ==> pos < pv.0 <= s@.len(),
{
    let end = scan_ident(s, pos);
    if end > pos {
        if reserved_word(s, pos, end) {
            None
        } else {
            let text = s.substring_char(pos, end).to_owned();
            Some((end, Value::Identifier(Identifier(text))))
        }
    } else {
        None
    }
}

/// Parses an identifier: one or more ASCII letters, `.` or `_`, refusing
/// the reserved words `true` and `false`.
pub fn identifier(input: &str) -> (r: Option<(usize, Value)>)
    ensures
        val_result_agrees(r, spec_identifier(input@, 0)),
{
    identifier_at(input, 0)
}

// ---------- integer literal ----------

pub open spec fn spec_integer(s: Seq<char>, pos: int) -> Option<(int, SpecValue)>
    recommends
        0 <= pos <= s.len(),
{
    let end = spec_scan_digits(s, pos);
    if end > pos {
        let v = digit_seq_val(s.subrange(pos, end));
        if v <= i64::MAX {
            Some((end, SpecValue::IntegerLiteral(v)))
        } else {
            None
        }
    } else {
        spec_identifier(s, pos)
    }
}

pub(crate) fn integer_at(s: &str, pos: usize) -> (r: Option<(usize, Value)>)
    requires
        pos <= s@.len(),
    ensures
        val_result_agrees(r, spec_integer(s@, pos as int)),
        r matches Some(pv) ==> pos < pv.0 <= s@.len(),
{
    let end = scan_digits(s, pos);
    if end > pos {
        proof {
            lemma_scan_digits_props(s@, pos as int);
        }
        match parse_digits_i64(s, pos, end) {
            Some(v) => Some((end, Value::IntegerLiteral(v))),
            None => None,
        }
    } else {
        identifier_at(s, pos)
    }
}

/// Parses an integer literal (one or more digits read as an `i64`), with
/// identifier fallback.
pub fn integer(input: &str) -> (r: Option<(usize, Value)>)
    ensures
        val_result_agrees(r, spec_integer(input@, 0)),
{
    integer_at(input, 0)
}

// ---------- float literal ----------

pub open spec fn spec_float(s: Seq<char>, pos: int) -> Option<(int, SpecValue)>
    recommends
        0 <= pos <= s.len(),
{
    let e1 = spec_scan_digits(s, pos);
    if e1 > pos && lit1_at(s, e1, '.') {
        let e2 = spec_scan_digits(s, e1 + 1);
        if e2 > e1 + 1 {
            let scale = e2 - e1 - 1;
            let m = digit_seq_val(s.subrange(pos, e1) + s.subrange(e1 + 1, e2));
            if scale <= MAX_FLOAT_SCALE as int && m <= i64::MAX {
                Some(
                    (e2, SpecValue::FloatLiteral(
                        SpecFloat { mantissa: m, scale: scale as nat },
                    )),
                )
            } else {
                None
            }
        } else {
            spec_identifier(s, pos)
        }
    } else {
        spec_identifier(s, pos)
    }
}

pub(crate) fn float_at(s: &str, pos: usize) -> (r: Option<(usize, Value)>)
    requires
        pos <= s@.len(),
    ensures
        val_result_agrees(r, spec_float(s@, pos as int)),
        r matches Some(pv) ==> pos < pv.0 <= s@.len(),
{
    let n = s.unicode_len();
    let e1 = scan_digits(s, pos);
    if e1 > pos && has_lit1(s, e1, '.') {
        let e2 = scan_digits(s, e1 + 1);
        if e2 > e1 + 1 {
            let scale = e2 - e1 - 1;
            let ghost ints = s@.subrange(pos as int, e1 as int);
            let ghost fracs = s@.subrange(e1 as int + 1, e2 as int);
            proof {
                lemma_scan_digits_props(s@, pos as int);
                lemma_scan_digits_props(s@, e1 as int + 1);
                lemma_digit_seq_val_concat(ints, fracs);
                lemma_digit_seq_val_bounds(ints);
                lemma_digit_seq_val_bounds(fracs);
                lemma_pow10_pos(fracs.len());
            }
            if scale <= MAX_FLOAT_SCALE as usize {
                proof {
                    lemma_pow10_mono(fracs.len(), 18);
                    lemma_pow10_18();
                }
                let m1o = parse_digits_i64(s, pos, e1);
                let m2o = parse_digits_i64(s, e1 + 1, e2);
                match (m1o, m2o) {
                    (Some(m1), Some(m2)) => {
                        let p = pow10_i128(scale as u8);
                        proof {
                            lemma_combine_in_range(m1 as int, p as int, m2 as int);
                            assert(digit_seq_val(ints) * pow10(fracs.len()) == m1 * p);
                        }
                        let total = (m1 as i128) * p + (m2 as i128);
                        if total <= i64::MAX as i128 {
                            match FloatValue::new(total as i64, scale as u8) {
                                Some(f) => Some((e2, Value::FloatLiteral(f))),
                                None => {
                                    proof {
                                        assert(false);
                                    }
                                    None
                                },
                            }
                        } else {
                            None
                        }
                    },
                    (None, _) => {
                        proof {
                            let vi = digit_seq_val(ints);
                            let pf = pow10(fracs.len());
                            assert(vi * pf >= vi) by (nonlinear_arith)
                                requires
                                    vi >= 0 && pf >= 1,
                            ;
                        }
                        None
                    },
                    (_, None) => {
                        proof {
                            assert(false);
                        }
                        None
                    },
                }
            } else {
                None
            }
        } else {
            identifier_at(s, pos)
        }
    } else {
        identifier_at(s, pos)
    }
}

proof fn lemma_combine_in_range(m1: int, p: int, m2: int)
    requires
        0 <= m1 <= i64::MAX,
        1 <= p <= 1_000_000_000_000_000_000,
        0 <= m2 <= 1_000_000_000_000_000_000,
    ensures
        0 <= m1 * p + m2 < i128::MAX,
{
    assert(0 <= m1 * p + m2 < i128::MAX) by (nonlinear_arith)
        requires
            0 <= m1 <= 9_223_372_036_854_775_807,
            1 <= p <= 1_000_000_000_000_000_000,
            0 <= m2 <= 1_000_000_000_000_000_000,
    ;
}

/// Parses a float literal (`digits '.' digits`, kept as an exact
/// decimal), with identifier fallback.
pub fn float(input: &str) -> (r: Option<(usize, Value)>)
    ensures
        val_result_agrees(r, spec_float(input@, 0)),
{
    float_at(input, 0)
}

// ---------- string literal ----------

pub open spec fn spec_string(s: Seq<char>, pos: int) -> Option<(int, SpecValue)>
    recommends
        0 <= pos <= s.len(),
{
    if lit1_at(s, pos, '\'') {
        let end = spec_scan_string_body(s, pos + 1);
        if end > pos + 1 && end < s.len() {
            Some((end + 1, SpecValue::StringLiteral(s.subrange(pos + 1, end))))
        } else {
            spec_identifier(s, pos)
        }
    } else {
        spec_identifier(s, pos)
    }
}

pub(crate) fn string_at(s: &str, pos: usize) -> (r: Option<(usize, Value)>)
    requires
        pos <= s@.len(),
    ensures
        val_result_agrees(r, spec_string(s@, pos as int)),
        r matches Some(pv) ==> pos < pv.0 <= s@.len(),
{
    let n = s.unicode_len();
    if has_lit1(s, pos, '\'') {
        let end = scan_string_body(s, pos + 1);
        if end > pos + 1 && end < n {
            let text = s.substring_char(pos + 1, end).to_owned();
            Some((end + 1, Value::StringLiteral(text)))
        } else {
            identifier_at(s, pos)
        }
    } else {
        identifier_at(s, pos)
    }
}

/// Parses a string literal: at least one character between single
/// quotes, with identifier fallback.
pub fn string(input: &str) -> (r: Option<(usize, Value)>)
    ensures
        val_result_agrees(r, spec_string(input@, 0)),
{
    string_at(input, 0)
}

// ---------- boolean literal ----------

pub open spec fn spec_boolean(s: Seq<char>, pos: int) -> Option<(int, SpecValue)>
    recommends
        0 <= pos <= s.len(),
{
    if lit_true_at(s, pos) {
        Some((pos + 4, SpecValue::Boolean(true)))
    } else if lit_false_at(s, pos) {
        Some((pos + 5, SpecValue::Boolean(false)))
    } else {
        spec_identifier(s, pos)
    }
}

pub(crate) fn boolean_at(s: &str, pos: usize) -> (r: Option<(usize, Value)>)
    requires
        pos <= s@.len(),
    ensures
        val_result_agrees(r, spec_boolean(s@, pos as int)),
        r matches Some(pv) ==> pos < pv.0 <= s@.len(),
{
    let n = s.unicode_len();
    if has_true(s, pos) {
        Some((pos + 4, Value::Boolean(true)))
    } else if has_false(s, pos) {
        Some((pos + 5, Value::Boolean(false)))
    } else {
        identifier_at(s, pos)
    }
}

/// Parses a boolean literal (`true` or `false`), with identifier
/// fallback.
pub fn boolean(input: &str) -> (r: Option<(usize, Value)>)
    ensures
        val_result_agrees(r, spec_boolean(input@, 0)),
{
    boolean_at(input, 0)
}

} // verus!

//! A small textual logical-expression language evaluated against a
//! caller-supplied mapping of named values.
//!
//! Callers hand [`evaluate`] an expression string and a [`Context`] and
//! receive either `true`/`false` or a descriptive failure message. The
//! pipeline is: parse to a tree with identifier placeholders, replace
//! every identifier by its context value, then evaluate the fully
//! literal tree.

use vstd::prelude::*;

pub mod expression;
pub mod float_value;
pub mod laws;
pub mod non_boolean_expression;
pub mod operator;
pub mod regex_match;
pub mod scan;
pub mod value;

use crate::float_value::FloatValue;
use crate::value::SpecValue;
use crate::expression::{
    parse_whole_boolean_expression, spec_parse_whole, spec_expr_use_context, spec_expr_evaluate,
};

verus! {

/// A typed value supplied by the caller for one identifier.
pub enum ContextValue {
    String(String),
    Integer(i64),
    Float(FloatValue),
    Boolean(bool),
}

impl View for ContextValue {
    type V = SpecValue;

    open spec fn view(&self) -> SpecValue {
        match self {
            ContextValue::String(s) => SpecValue::StringLiteral(s@),
            ContextValue::Integer(i) => SpecValue::IntegerLiteral(*i as int),
            ContextValue::Float(f) => SpecValue::FloatLiteral(f@),
            ContextValue::Boolean(b) => SpecValue::Boolean(*b),
        }
    }
}

/// A mapping from identifier names to typed values, read-only for the
/// duration of one [`evaluate`] call. A later insert for the same name
/// replaces the earlier value.
pub struct Context {
    entries: Vec<(String, ContextValue)>,
}

/// The mapping denoted by a list of entries; a later entry wins over an
/// earlier one with the same name.
spec fn map_of(s: Seq<(String, ContextValue)>) -> Map<Seq<char>, SpecValue>
    decreases s.len(),
{
    if s.len() == 0 {
        Map::empty()
    } else {
        map_of(s.drop_last()).insert(s.last().0@, s.last().1@)
    }
}

proof fn lemma_map_of_last_match(s: Seq<(String, ContextValue)>, k: Seq<char>, j: int)
    requires
        0 <= j < s.len(),
        s[j].0@ == k,
        forall|l: int| j < l < s.len() ==> s[l].0@ != k,
    ensures
        map_of(s).contains_key(k),
        map_of(s)[k] == s[j].1@,
    decreases s.len(),
{
    if j < s.len() - 1 {
        lemma_map_of_last_match(s.drop_last(), k, j);
        assert(s.last().0@ != k);
    }
}

proof fn lemma_map_of_no_match(s: Seq<(String, ContextValue)>, k: Seq<char>)
    requires
        forall|l: int| 0 <= l < s.len() ==> s[l].0@ != k,
    ensures
        !map_of(s).contains_key(k),
    decreases s.len(),
{
    if s.len() > 0 {
        lemma_map_of_no_match(s.drop_last(), k);
    }
}

impl View for Context {
    type V = Map<Seq<char>, SpecValue>;

    closed spec fn view(&self) -> Map<Seq<char>, SpecValue> {
        map_of(self.entries@)
    }
}

impl Context {
    pub fn new() -> (r: Context)
        ensures
            r@ == Map::<Seq<char>, SpecValue>::empty(),
    {
        Context { entries: Vec::new() }
    }

    /// Binds `name` to `value`, replacing any earlier binding.
    pub fn insert(&mut self, name: String, value: ContextValue)
        ensures
            final(self)@ == old(self)@.insert(name@, value@),
    {
        self.entries.push((name, value));
        proof {
            assert(self.entries@.drop_last() =~= old(self).entries@);
        }
    }

    /// Looks `name` up, yielding the value bound to it, if any.
    pub fn get(&self, name: &String) -> (r: Option<&ContextValue>)
        ensures
            match r {
                Some(v) => self@.contains_key(name@) && v@ == self@[name@],
                None => !self@.contains_key(name@),
            },
    {
        let n = self.entries.len();
        let mut i: usize = n;
        while i > 0
            invariant
                i <= n,
                n == self.entries.len(),
                forall|l: int| i <= l < n ==> self.entries@[l].0@ != name@,
            decreases i,
    {
            i = i - 1;
            let entry = &self.entries[i];
            if entry.0 == *name {
                proof {
                    lemma_map_of_last_match(self.entries@, name@, i as int);
                }
                return Some(&entry.1);
            }
        }
        proof {
            lemma_map_of_no_match(self.entries@, name@);
        }
        None
    }
}

/// The outcome of the whole pipeline on `s` under the mapping `m`:
/// parse, bind the context, evaluate.
pub open spec fn spec_evaluate(s: Seq<char>, m: Map<Seq<char>, SpecValue>) -> Result<
    bool,
    Seq<char>,
> {
    match spec_parse_whole(s) {
        Err(e) => Err(e),
        Ok(expr) => match spec_expr_use_context(expr, m) {
            Err(e) => Err(e),
            Ok(bound) => spec_expr_evaluate(bound),
        },
    }
}

/// Evaluates `expression` against `context`, yielding the boolean it
/// denotes, or a message describing the first failure: a syntax error,
/// trailing input, an unresolved or mistyped identifier, a comparison
/// of mismatched kinds, an operator invalid for its operand kind, or an
/// invalid regular expression.
pub fn evaluate(expression: &str, context: &Context) -> (r: Result<bool, String>)
    ensures
        match r {
            Ok(b) => spec_evaluate(expression@, context@) == Ok::<bool, Seq<char>>(b),
            Err(m) => spec_evaluate(expression@, context@) == Err::<bool, Seq<char>>(m@),
        },
{
    match parse_whole_boolean_expression(expression) {
        Err(e) => Err(e),
        Ok(expr) => match expr.use_context(context) {
            Err(e) => Err(e),
            Ok(bound) => bound.evaluate(),
        },
    }
}

} // verus!

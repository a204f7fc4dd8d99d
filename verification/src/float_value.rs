//! Exact decimal numbers standing in for the language's float literals.
//!
//! A float literal in the grammar is `digits '.' digits`, so every value
//! that can appear is a finite decimal. It is kept exactly as an integer
//! mantissa together with a decimal scale: the denoted number is
//! `mantissa / 10^scale`. Comparisons are exact numeric comparisons,
//! carried out by cross-multiplication.

use vstd::prelude::*;
use crate::scan::{pow10, lemma_pow10_pos, lemma_pow10_mono, lemma_pow10_18};

verus! {

/// Mathematical model of a decimal value: `mantissa / 10^scale`.
pub ghost struct SpecFloat {
    pub mantissa: int,
    pub scale: nat,
}

/// The denoted numbers compare as `a < b` exactly when the
/// cross-multiplied integer mantissas do.
pub open spec fn spec_float_lt(a: SpecFloat, b: SpecFloat) -> bool {
    a.mantissa * pow10(b.scale) < b.mantissa * pow10(a.scale)
}

pub open spec fn spec_float_eq(a: SpecFloat, b: SpecFloat) -> bool {
    a.mantissa * pow10(b.scale) == b.mantissa * pow10(a.scale)
}

/// Largest scale a `FloatValue` may carry; keeps cross-multiplication
/// inside `i128`.
pub const MAX_FLOAT_SCALE: u8 = 18;

/// An exact decimal number: `mantissa / 10^scale`, with `scale` at most
/// [`MAX_FLOAT_SCALE`].
#[derive(Debug, Clone, Copy, PartialEq)]
pub struct FloatValue {
    mantissa: i64,
    scale: u8,
}

impl View for FloatValue {
    type V = SpecFloat;

    closed spec fn view(&self) -> SpecFloat {
        SpecFloat { mantissa: self.mantissa as int, scale: self.scale as nat }
    }
}

impl FloatValue {
    #[verifier::type_invariant]
    spec fn type_inv(self) -> bool {
        self.scale <= MAX_FLOAT_SCALE
    }

    /// Builds the decimal `mantissa / 10^scale`; refuses a scale beyond
    /// [`MAX_FLOAT_SCALE`].
    pub fn new(mantissa: i64, scale: u8) -> (r: Option<FloatValue>)
        ensures
            match r {
                Some(f) => scale <= MAX_FLOAT_SCALE && f@ == (SpecFloat {
                    mantissa: mantissa as int,
                    scale: scale as nat,
                }),
                None => scale > MAX_FLOAT_SCALE,
            },
    {
        if scale <= MAX_FLOAT_SCALE {
            Some(FloatValue { mantissa, scale })
        } else {
            None
        }
    }

    pub fn num_lt(&self, other: &FloatValue) -> (r: bool)
        ensures
            r == spec_float_lt(self@, other@),
    {
        let (x, y) = self.cross(other);
        x < y
    }

    pub fn num_eq(&self, other: &FloatValue) -> (r: bool)
        ensures
            r == spec_float_eq(self@, other@),
    {
        let (x, y) = self.cross(other);
        x == y
    }

    /// Cross-multiplied mantissas of the two decimals, on a common scale.
    fn cross(&self, other: &FloatValue) -> (r: (i128, i128))
        ensures
            r.0 == self@.mantissa * pow10(other@.scale),
            r.1 == other@.mantissa * pow10(self@.scale),
    {
        proof {
            use_type_invariant(*self);
            use_type_invariant(*other);
        }
        let pa = pow10_i128(other.scale);
        let pb = pow10_i128(self.scale);
        proof {
            lemma_cross_in_range(self.mantissa as int, pa as int);
            lemma_cross_in_range(other.mantissa as int, pb as int);
        }
        ((self.mantissa as i128) * pa, (other.mantissa as i128) * pb)
    }
}

proof fn lemma_cross_in_range(m: int, p: int)
    requires
        i64::MIN <= m <= i64::MAX,
        1 <= p <= 1_000_000_000_000_000_000,
    ensures
        i128::MIN <= m * p <= i128::MAX,
{
    assert(i128::MIN <= m * p <= i128::MAX) by (nonlinear_arith)
        requires
            -9_223_372_036_854_775_808 <= m <= 9_223_372_036_854_775_807,
            1 <= p <= 1_000_000_000_000_000_000,
    ;
}

pub(crate) fn pow10_i128(e: u8) -> (r: i128)
    requires
        e <= 18,
    ensures
        r == pow10(e as nat),
        1 <= r <= 1_000_000_000_000_000_000,
{
    proof {
        lemma_pow10_18();
    }
    let mut r: i128 = 1;
    let mut i: u8 = 0;
    while i < e
        invariant
            i <= e <= 18,
            r == pow10(i as nat),
        decreases e - i,
    {
        proof {
            lemma_pow10_18();
            lemma_pow10_mono(i as nat + 1, 18);
            lemma_pow10_pos(i as nat);
            assert(pow10(i as nat + 1) == 10 * pow10(i as nat));
        }
        r = r * 10;
        i = i + 1;
    }
    proof {
        lemma_pow10_mono(e as nat, 18);
        lemma_pow10_pos(e as nat);
    }
    r
}

} // verus!

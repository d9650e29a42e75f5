//! Exact rational numbers used for gains and samples.
//!
//! An executable rational [`Rat`] holds a numerator and a positive
//! denominator as 64-bit integers; its mathematical view [`Ratio`] holds
//! them as unbounded integers. Values are not reduced to lowest terms:
//! two representations denote the same number when cross-multiplication
//! agrees, which [`Ratio::same_value`] captures.

use vstd::prelude::*;

verus! {

/// The mathematical value of a rational: an unbounded numerator and
/// denominator. Well-formed values have a positive denominator.
pub ghost struct Ratio {
    pub num: int,
    pub den: int,
}

impl Ratio {
    /// A well-formed rational has a positive denominator.
    pub open spec fn wf(self) -> bool {
        self.den >= 1
    }

    /// Two representations denote the same number exactly when
    /// cross-multiplication agrees.
    pub open spec fn same_value(self, other: Ratio) -> bool {
        self.num * other.den == other.num * self.den
    }

    /// The rational with numerator `n` and denominator 1.
    pub open spec fn from_int(n: int) -> Ratio {
        Ratio { num: n, den: 1 }
    }

    /// Exact sum, on the product of the two denominators.
    pub open spec fn plus(self, other: Ratio) -> Ratio {
        Ratio { num: self.num * other.den + other.num * self.den, den: self.den * other.den }
    }

    /// Exact difference, on the product of the two denominators.
    pub open spec fn minus(self, other: Ratio) -> Ratio {
        Ratio { num: self.num * other.den - other.num * self.den, den: self.den * other.den }
    }

    /// Exact product.
    pub open spec fn times(self, other: Ratio) -> Ratio {
        Ratio { num: self.num * other.num, den: self.den * other.den }
    }

    /// Exact product with an integer.
    pub open spec fn times_int(self, k: int) -> Ratio {
        Ratio { num: self.num * k, den: self.den }
    }

    /// Exact quotient by a positive integer.
    pub open spec fn div_int(self, k: int) -> Ratio {
        Ratio { num: self.num, den: self.den * k }
    }
}

/// An executable rational number. The denominator is kept positive by
/// every constructor of this crate.
#[derive(Clone, Copy, Debug)]
pub struct Rat {
    pub num: i64,
    pub den: i64,
}

impl View for Rat {
    type V = Ratio;

    open spec fn view(&self) -> Ratio {
        Ratio { num: self.num as int, den: self.den as int }
    }
}

impl Rat {
    /// Builds the rational `num / den`.
    pub fn new(num: i64, den: i64) -> (r: Rat)
        requires
            den >= 1,
        ensures
            r@ == (Ratio { num: num as int, den: den as int }),
            r@.wf(),
    {
        Rat { num, den }
    }

    /// Builds the rational `n / 1`.
    pub fn from_int(n: i64) -> (r: Rat)
        ensures
            r@ == Ratio::from_int(n as int),
            r@.wf(),
    {
        Rat { num: n, den: 1 }
    }

    /// The numerator.
    pub fn num(&self) -> (r: i64)
        ensures
            r == self@.num,
    {
        self.num
    }

    /// The denominator.
    pub fn den(&self) -> (r: i64)
        ensures
            r == self@.den,
    {
        self.den
    }

    /// Decides whether two representations denote the same number, by
    /// cross-multiplication in 128-bit arithmetic.
    pub fn value_eq(&self, other: &Rat) -> (r: bool)
        ensures
            r == self@.same_value(other@),
    {
        proof {
            lemma_i64_product_bounded(self@.num, other@.den);
            lemma_i64_product_bounded(other@.num, self@.den);
        }
        (self.num as i128) * (other.den as i128) == (other.num as i128) * (self.den as i128)
    }
}

/// A product of positive factors is positive and no smaller than either
/// factor.
pub proof fn lemma_pos_product(a: int, b: int)
    by (nonlinear_arith)
    requires
        a >= 1,
        b >= 1,
    ensures
        a * b >= 1,
        a <= a * b,
        b <= a * b,
{
}

/// The product of two values in 64-bit range stays well inside 128-bit
/// range.
pub proof fn lemma_i64_product_bounded(a: int, b: int)
    by (nonlinear_arith)
    requires
        i64::MIN <= a <= i64::MAX,
        i64::MIN <= b <= i64::MAX,
    ensures
        -0x40000000000000000000000000000000 <= a * b <= 0x40000000000000000000000000000000,
{
}

} // verus!

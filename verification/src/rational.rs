//! Exact non-negative rational arithmetic for monetary amounts.
//!
//! Gas prices enter the library as integer wei, but interpolating between
//! anchor points and bumping by a fractional factor produce values that are
//! not whole wei.  [`Ratio`] keeps such amounts exact as `num / den` pairs so
//! that every contract in the crate can speak about the precise mathematical
//! value.  Operations carry `requires` clauses that rule out `u128` overflow;
//! the callers in this crate discharge them from the bounds of their inputs.

use vstd::prelude::*;

verus! {

/// Mathematical value of a rational amount: a pair of unbounded integers.
pub ghost struct Rat {
    pub num: int,
    pub den: int,
}

impl Rat {
    /// A meaningful rational has a positive denominator.
    pub open spec fn wf(self) -> bool {
        self.den >= 1
    }

    /// `self <= other`, by cross multiplication.
    pub open spec fn le(self, other: Rat) -> bool {
        self.num * other.den <= other.num * self.den
    }

    /// `self < other`, by cross multiplication.
    pub open spec fn lt(self, other: Rat) -> bool {
        self.num * other.den < other.num * self.den
    }

    /// The two pairs denote the same rational value.
    pub open spec fn same_value(self, other: Rat) -> bool {
        self.num * other.den == other.num * self.den
    }

    /// Exact sum, on the product of the denominators.
    pub open spec fn plus(self, other: Rat) -> Rat {
        Rat { num: self.num * other.den + other.num * self.den, den: self.den * other.den }
    }

    /// Exact product.
    pub open spec fn times(self, other: Rat) -> Rat {
        Rat { num: self.num * other.num, den: self.den * other.den }
    }

    /// The value rounded up to a whole number (for non-negative values).
    pub open spec fn ceil_value(self) -> int {
        (self.num + self.den - 1) / self.den
    }

    /// The value rounded down to a whole number (for non-negative values).
    pub open spec fn floor_value(self) -> int {
        self.num / self.den
    }

    /// The rational denoting the whole number `n`.
    pub open spec fn from_int(n: int) -> Rat {
        Rat { num: n, den: 1 }
    }
}

/// An exact non-negative rational number, e.g. an amount of wei per gas.
///
/// The representation is not normalized: `4/2` and `2/1` denote the same
/// value and compare equal under [`Ratio::le`].  The denominator is always
/// at least one.
#[derive(Clone, Copy, Debug)]
pub struct Ratio {
    num: u128,
    den: u128,
}

impl View for Ratio {
    type V = Rat;

    closed spec fn view(&self) -> Rat {
        Rat { num: self.num as int, den: self.den as int }
    }
}

impl Ratio {
    /// Builds the exact rational `num / den`.
    pub fn new(num: u128, den: u128) -> (r: Ratio)
        requires
            den >= 1,
        ensures
            r@.num == num,
            r@.den == den,
    {
        Ratio { num, den }
    }

    /// Builds the rational denoting the whole number `n`.
    pub fn from_int(n: u128) -> (r: Ratio)
        ensures
            r@ == Rat::from_int(n as int),
    {
        Ratio { num: n, den: 1 }
    }

    /// The numerator of the representation.
    pub fn num_val(&self) -> (r: u128)
        ensures
            r == self@.num,
    {
        self.num
    }

    /// The denominator of the representation.
    pub fn den_val(&self) -> (r: u128)
        ensures
            r == self@.den,
    {
        self.den
    }

    /// `self <= other`, decided exactly by cross multiplication.
    pub fn le(&self, other: &Ratio) -> (r: bool)
        requires
            self@.num * other@.den <= u128::MAX,
            other@.num * self@.den <= u128::MAX,
        ensures
            r == self@.le(other@),
    {
        self.num * other.den <= other.num * self.den
    }

    /// `self < other`, decided exactly by cross multiplication.
    pub fn lt(&self, other: &Ratio) -> (r: bool)
        requires
            self@.num * other@.den <= u128::MAX,
            other@.num * self@.den <= u128::MAX,
        ensures
            r == self@.lt(other@),
    {
        self.num * other.den < other.num * self.den
    }

    /// The two representations denote the same value, decided exactly by
    /// cross multiplication.
    pub fn same_value_as(&self, other: &Ratio) -> (r: bool)
        requires
            self@.num * other@.den <= u128::MAX,
            other@.num * self@.den <= u128::MAX,
        ensures
            r == self@.same_value(other@),
    {
        self.num * other.den == other.num * self.den
    }

    /// Exact sum.
    pub fn plus(&self, other: &Ratio) -> (r: Ratio)
        requires
            self@.num * other@.den + other@.num * self@.den <= u128::MAX,
            self@.den * other@.den <= u128::MAX,
        ensures
            r@ == self@.plus(other@),
    {
        Ratio { num: self.num * other.den + other.num * self.den, den: self.den * other.den }
    }

    /// Exact product.
    pub fn times(&self, other: &Ratio) -> (r: Ratio)
        requires
            self@.num * other@.num <= u128::MAX,
            self@.den * other@.den <= u128::MAX,
        ensures
            r@ == self@.times(other@),
    {
        Ratio { num: self.num * other.num, den: self.den * other.den }
    }

    /// The smaller of the two values (the first on a tie).
    pub fn min_of(&self, other: &Ratio) -> (r: Ratio)
        requires
            self@.num * other@.den <= u128::MAX,
            other@.num * self@.den <= u128::MAX,
        ensures
            self@.le(other@) ==> r == *self,
            !self@.le(other@) ==> r == *other,
    {
        if self.le(other) {
            *self
        } else {
            *other
        }
    }

    /// The value rounded up to a whole number of wei.
    pub fn ceil_to_int(&self) -> (r: u128)
        requires
            self@.wf(),
            self@.num + self@.den <= u128::MAX,
        ensures
            r == self@.ceil_value(),
    {
        (self.num + self.den - 1) / self.den
    }

    /// The value rounded down to a whole number of wei.
    pub fn floor_to_int(&self) -> (r: u128)
        requires
            self@.wf(),
        ensures
            r == self@.floor_value(),
    {
        self.num / self.den
    }
}

/// Ordering on rational values is transitive.
pub proof fn lemma_le_trans(a: Rat, b: Rat, c: Rat)
    by (nonlinear_arith)
    requires
        a.wf(),
        b.wf(),
        c.wf(),
        a.le(b),
        b.le(c),
    ensures
        a.le(c),
{
}

/// A value at most a second one stays below anything the second is below.
pub proof fn lemma_le_lt_trans(a: Rat, b: Rat, c: Rat)
    by (nonlinear_arith)
    requires
        a.wf(),
        b.wf(),
        c.wf(),
        a.le(b),
        b.lt(c),
    ensures
        a.lt(c),
{
}

/// Every `Ratio` denotes a non-negative value.
pub proof fn lemma_ratio_nonneg(r: Ratio)
    ensures
        Rat::from_int(0).le(r@),
{
}

/// On whole numbers the rational order is the integer order.
pub proof fn lemma_from_int_le(a: int, b: int)
    by (nonlinear_arith)
    ensures
        Rat::from_int(a).le(Rat::from_int(b)) <==> a <= b,
{
}

} // verus!

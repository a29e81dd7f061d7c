//! The fee data model: EIP-1559 gas prices and combined estimates.
//!
//! All amounts are exact rationals in wei per gas.  The operations are pure;
//! each states its result exactly, and the overflow side conditions in the
//! `requires` clauses only reflect the limits of `u128` arithmetic.

use vstd::prelude::*;

use crate::rational::{Rat, Ratio};
use crate::Error;

verus! {

/// EIP-1559 gas price.
#[derive(Clone, Copy, Debug)]
pub struct GasPrice1559 {
    /// Estimated base fee for the pending block (the block currently mined).
    pub base_fee_per_gas: Ratio,
    /// Maximum gas price the sender is willing to pay for the transaction.
    pub max_fee_per_gas: Ratio,
    /// Priority fee used to incentivize miners in case of congestion.
    pub max_priority_fee_per_gas: Ratio,
}

impl GasPrice1559 {
    /// All three fields denote well-formed rationals.
    pub open spec fn wf(self) -> bool {
        &&& self.base_fee_per_gas@.wf()
        &&& self.max_fee_per_gas@.wf()
        &&& self.max_priority_fee_per_gas@.wf()
    }

    /// The EIP-1559 validity rules: the maximum fee covers both the priority
    /// fee and the base fee.
    pub open spec fn valid_spec(self) -> bool {
        &&& self.max_priority_fee_per_gas@.le(self.max_fee_per_gas@)
        &&& self.base_fee_per_gas@.le(self.max_fee_per_gas@)
    }

    /// Estimates the effective gas price under current network conditions:
    /// the smaller of the maximum fee and `max_priority + base`.
    ///
    /// The gas price of a mined transaction can differ, because the base fee
    /// changes between estimation and inclusion.
    pub fn effective_gas_price(&self) -> (r: Ratio)
        requires
            ({
                let b = self.base_fee_per_gas@;
                let p = self.max_priority_fee_per_gas@;
                let m = self.max_fee_per_gas@;
                &&& p.num * b.den + b.num * p.den <= u128::MAX
                &&& p.den * b.den <= u128::MAX
                &&& m.num * (p.den * b.den) <= u128::MAX
                &&& (p.num * b.den + b.num * p.den) * m.den <= u128::MAX
            }),
        ensures
            ({
                let sum = self.max_priority_fee_per_gas@.plus(self.base_fee_per_gas@);
                &&& (self.max_fee_per_gas@.le(sum) ==> r == self.max_fee_per_gas)
                &&& (!self.max_fee_per_gas@.le(sum) ==> r@ == sum)
            }),
    {
        let sum = self.max_priority_fee_per_gas.plus(&self.base_fee_per_gas);
        self.max_fee_per_gas.min_of(&sum)
    }

    /// Decides the EIP-1559 validity rules:
    /// `max_fee_per_gas >= max_priority_fee_per_gas` and
    /// `max_fee_per_gas >= base_fee_per_gas`.
    pub fn is_valid(&self) -> (r: bool)
        requires
            ({
                let b = self.base_fee_per_gas@;
                let p = self.max_priority_fee_per_gas@;
                let m = self.max_fee_per_gas@;
                &&& p.num * m.den <= u128::MAX
                &&& m.num * p.den <= u128::MAX
                &&& b.num * m.den <= u128::MAX
                &&& m.num * b.den <= u128::MAX
            }),
        ensures
            r == self.valid_spec(),
    {
        self.max_priority_fee_per_gas.le(&self.max_fee_per_gas) && self.base_fee_per_gas.le(
            &self.max_fee_per_gas,
        )
    }

    /// Checks validity and wraps the result: the price itself when valid,
    /// an `InvalidInput` error otherwise.
    pub fn validate(self) -> (r: Result<Self, Error>)
        requires
            ({
                let b = self.base_fee_per_gas@;
                let p = self.max_priority_fee_per_gas@;
                let m = self.max_fee_per_gas@;
                &&& p.num * m.den <= u128::MAX
                &&& m.num * p.den <= u128::MAX
                &&& b.num * m.den <= u128::MAX
                &&& m.num * b.den <= u128::MAX
            }),
        ensures
            r is Ok <==> self.valid_spec(),
            r is Ok ==> r->Ok_0 == self,
            r is Err ==> r->Err_0 is InvalidInput,
    {
        if self.is_valid() {
            Ok(self)
        } else {
            Err(Error::InvalidInput("invalid gas price values".to_owned()))
        }
    }

    /// Bumps both maximum fields by the given factor; the base fee is left
    /// unchanged.
    pub fn bump(self, factor: &Ratio) -> (r: Self)
        requires
            ({
                let p = self.max_priority_fee_per_gas@;
                let m = self.max_fee_per_gas@;
                &&& m.num * factor@.num <= u128::MAX
                &&& m.den * factor@.den <= u128::MAX
                &&& p.num * factor@.num <= u128::MAX
                &&& p.den * factor@.den <= u128::MAX
            }),
        ensures
            r.base_fee_per_gas == self.base_fee_per_gas,
            r.max_fee_per_gas@ == self.max_fee_per_gas@.times(factor@),
            r.max_priority_fee_per_gas@ == self.max_priority_fee_per_gas@.times(factor@),
    {
        Self {
            max_fee_per_gas: self.max_fee_per_gas.times(factor),
            max_priority_fee_per_gas: self.max_priority_fee_per_gas.times(factor),
            ..self
        }
    }

    /// Rounds both maximum fields up to whole wei; the base fee is left
    /// unchanged.
    pub fn ceil(self) -> (r: Self)
        requires
            self.max_fee_per_gas@.wf(),
            self.max_priority_fee_per_gas@.wf(),
            self.max_fee_per_gas@.num + self.max_fee_per_gas@.den <= u128::MAX,
            self.max_priority_fee_per_gas@.num + self.max_priority_fee_per_gas@.den <= u128::MAX,
        ensures
            r.base_fee_per_gas == self.base_fee_per_gas,
            r.max_fee_per_gas@ == Rat::from_int(self.max_fee_per_gas@.ceil_value()),
            r.max_priority_fee_per_gas@ == Rat::from_int(
                self.max_priority_fee_per_gas@.ceil_value(),
            ),
    {
        Self {
            max_fee_per_gas: Ratio::from_int(self.max_fee_per_gas.ceil_to_int()),
            max_priority_fee_per_gas: Ratio::from_int(self.max_priority_fee_per_gas.ceil_to_int()),
            ..self
        }
    }

    /// Clamps the maximum fee to `cap` and the priority fee to the clamped
    /// maximum fee, so that `max_fee >= max_priority` holds afterwards.
    pub fn limit_cap(self, cap: &Ratio) -> (r: Self)
        requires
            ({
                let p = self.max_priority_fee_per_gas@;
                let m = self.max_fee_per_gas@;
                let c = cap@;
                &&& m.num * c.den <= u128::MAX
                &&& c.num * m.den <= u128::MAX
                &&& p.num * m.den <= u128::MAX
                &&& m.num * p.den <= u128::MAX
                &&& p.num * c.den <= u128::MAX
                &&& c.num * p.den <= u128::MAX
            }),
        ensures
            ({
                let m = self.max_fee_per_gas@;
                let p = self.max_priority_fee_per_gas@;
                let capped = if m.le(cap@) {
                    m
                } else {
                    cap@
                };
                &&& r.base_fee_per_gas == self.base_fee_per_gas
                &&& r.max_fee_per_gas@ == capped
                &&& r.max_priority_fee_per_gas@ == (if p.le(capped) {
                    p
                } else {
                    capped
                })
                &&& r.max_priority_fee_per_gas@.le(r.max_fee_per_gas@)
            }),
    {
        let capped = self.max_fee_per_gas.min_of(cap);
        Self {
            max_fee_per_gas: capped,
            max_priority_fee_per_gas: self.max_priority_fee_per_gas.min_of(&capped),
            ..self
        }
    }

    /// The two prices denote the same values, field by field.
    pub open spec fn same_price_spec(self, other: GasPrice1559) -> bool {
        &&& self.base_fee_per_gas@.same_value(other.base_fee_per_gas@)
        &&& self.max_fee_per_gas@.same_value(other.max_fee_per_gas@)
        &&& self.max_priority_fee_per_gas@.same_value(other.max_priority_fee_per_gas@)
    }

    /// Decides whether two prices denote the same values, field by field.
    pub fn same_price(&self, other: &GasPrice1559) -> (r: bool)
        requires
            rat_cmp_fits(self.base_fee_per_gas@, other.base_fee_per_gas@),
            rat_cmp_fits(self.max_fee_per_gas@, other.max_fee_per_gas@),
            rat_cmp_fits(self.max_priority_fee_per_gas@, other.max_priority_fee_per_gas@),
        ensures
            r == self.same_price_spec(*other),
    {
        self.base_fee_per_gas.same_value_as(&other.base_fee_per_gas)
            && self.max_fee_per_gas.same_value_as(&other.max_fee_per_gas)
            && self.max_priority_fee_per_gas.same_value_as(&other.max_priority_fee_per_gas)
    }
}

impl Default for GasPrice1559 {
    /// The all-zero gas price.
    fn default() -> (r: Self)
        ensures
            r.base_fee_per_gas@ == Rat::from_int(0),
            r.max_fee_per_gas@ == Rat::from_int(0),
            r.max_priority_fee_per_gas@ == Rat::from_int(0),
    {
        Self {
            base_fee_per_gas: Ratio::from_int(0),
            max_fee_per_gas: Ratio::from_int(0),
            max_priority_fee_per_gas: Ratio::from_int(0),
        }
    }
}

/// The cross products of the two rationals fit in `u128`.
pub open spec fn rat_cmp_fits(a: Rat, b: Rat) -> bool {
    &&& a.num * b.den <= u128::MAX
    &&& b.num * a.den <= u128::MAX
}

/// A gas price estimate: a legacy single price, and the EIP-1559 triple when
/// the chain supports it.
#[derive(Clone, Copy, Debug)]
pub struct EstimatedGasPrice {
    /// Single gas price for a pre-EIP-1559 transaction.
    pub legacy: Ratio,
    /// EIP-1559 price, when the fee source provides one.
    pub eip1559: Option<GasPrice1559>,
}

impl EstimatedGasPrice {
    /// All fields denote well-formed rationals.
    pub open spec fn wf(self) -> bool {
        &&& self.legacy@.wf()
        &&& (self.eip1559 is Some ==> self.eip1559->0.wf())
    }

    /// The transaction's upper bound on the total gas price paid: the
    /// EIP-1559 maximum fee when present, the legacy price otherwise.
    pub fn cap(&self) -> (r: Ratio)
        ensures
            self.eip1559 is Some ==> r == self.eip1559->0.max_fee_per_gas,
            self.eip1559 is None ==> r == self.legacy,
    {
        match &self.eip1559 {
            Some(eip) => eip.max_fee_per_gas,
            None => self.legacy,
        }
    }

    /// The miner-visible extra payment per gas: the EIP-1559 priority fee
    /// when present, the legacy price otherwise.
    pub fn tip(&self) -> (r: Ratio)
        ensures
            self.eip1559 is Some ==> r == self.eip1559->0.max_priority_fee_per_gas,
            self.eip1559 is None ==> r == self.legacy,
    {
        match &self.eip1559 {
            Some(eip) => eip.max_priority_fee_per_gas,
            None => self.legacy,
        }
    }

    /// The effective gas price: the EIP-1559 effective price when present,
    /// the legacy price otherwise.
    pub fn effective_gas_price(&self) -> (r: Ratio)
        requires
            ({
                self.eip1559 is Some ==> {
                    let b = self.eip1559->0.base_fee_per_gas@;
                    let p = self.eip1559->0.max_priority_fee_per_gas@;
                    let m = self.eip1559->0.max_fee_per_gas@;
                    &&& p.num * b.den + b.num * p.den <= u128::MAX
                    &&& p.den * b.den <= u128::MAX
                    &&& m.num * (p.den * b.den) <= u128::MAX
                    &&& (p.num * b.den + b.num * p.den) * m.den <= u128::MAX
                }
            }),
        ensures
            self.eip1559 is Some ==> {
                let eip = self.eip1559->0;
                let sum = eip.max_priority_fee_per_gas@.plus(eip.base_fee_per_gas@);
                &&& (eip.max_fee_per_gas@.le(sum) ==> r == eip.max_fee_per_gas)
                &&& (!eip.max_fee_per_gas@.le(sum) ==> r@ == sum)
            },
            self.eip1559 is None ==> r == self.legacy,
    {
        match &self.eip1559 {
            Some(eip) => eip.effective_gas_price(),
            None => self.legacy,
        }
    }

    /// Bumps the legacy price and both EIP-1559 maximum fields by the given
    /// factor.
    pub fn bump(self, factor: &Ratio) -> (r: Self)
        requires
            self.legacy@.num * factor@.num <= u128::MAX,
            self.legacy@.den * factor@.den <= u128::MAX,
            self.eip1559 is Some ==> {
                let p = self.eip1559->0.max_priority_fee_per_gas@;
                let m = self.eip1559->0.max_fee_per_gas@;
                &&& m.num * factor@.num <= u128::MAX
                &&& m.den * factor@.den <= u128::MAX
                &&& p.num * factor@.num <= u128::MAX
                &&& p.den * factor@.den <= u128::MAX
            },
        ensures
            r.legacy@ == self.legacy@.times(factor@),
            r.eip1559 is Some <==> self.eip1559 is Some,
            self.eip1559 is Some ==> {
                let eip = self.eip1559->0;
                let bumped = r.eip1559->0;
                &&& bumped.base_fee_per_gas == eip.base_fee_per_gas
                &&& bumped.max_fee_per_gas@ == eip.max_fee_per_gas@.times(factor@)
                &&& bumped.max_priority_fee_per_gas@ == eip.max_priority_fee_per_gas@.times(
                    factor@,
                )
            },
    {
        Self {
            legacy: self.legacy.times(factor),
            eip1559: match self.eip1559 {
                Some(eip) => Some(eip.bump(factor)),
                None => None,
            },
        }
    }

    /// Rounds the legacy price and both EIP-1559 maximum fields up to whole
    /// wei.
    pub fn ceil(self) -> (r: Self)
        requires
            self.wf(),
            self.legacy@.num + self.legacy@.den <= u128::MAX,
            self.eip1559 is Some ==> {
                let p = self.eip1559->0.max_priority_fee_per_gas@;
                let m = self.eip1559->0.max_fee_per_gas@;
                &&& m.num + m.den <= u128::MAX
                &&& p.num + p.den <= u128::MAX
            },
        ensures
            r.legacy@ == Rat::from_int(self.legacy@.ceil_value()),
            r.eip1559 is Some <==> self.eip1559 is Some,
            self.eip1559 is Some ==> {
                let eip = self.eip1559->0;
                let ceiled = r.eip1559->0;
                &&& ceiled.base_fee_per_gas == eip.base_fee_per_gas
                &&& ceiled.max_fee_per_gas@ == Rat::from_int(eip.max_fee_per_gas@.ceil_value())
                &&& ceiled.max_priority_fee_per_gas@ == Rat::from_int(
                    eip.max_priority_fee_per_gas@.ceil_value(),
                )
            },
    {
        Self {
            legacy: Ratio::from_int(self.legacy.ceil_to_int()),
            eip1559: match self.eip1559 {
                Some(eip) => Some(eip.ceil()),
                None => None,
            },
        }
    }

    /// Clamps the legacy price and the EIP-1559 maximum fee to `cap`, and
    /// the priority fee to the clamped maximum fee.
    pub fn limit_cap(self, cap: &Ratio) -> (r: Self)
        requires
            rat_cmp_fits(self.legacy@, cap@),
            self.eip1559 is Some ==> {
                let p = self.eip1559->0.max_priority_fee_per_gas@;
                let m = self.eip1559->0.max_fee_per_gas@;
                let c = cap@;
                &&& m.num * c.den <= u128::MAX
                &&& c.num * m.den <= u128::MAX
                &&& p.num * m.den <= u128::MAX
                &&& m.num * p.den <= u128::MAX
                &&& p.num * c.den <= u128::MAX
                &&& c.num * p.den <= u128::MAX
            },
        ensures
            (self.legacy@.le(cap@) ==> r.legacy == self.legacy),
            (!self.legacy@.le(cap@) ==> r.legacy == *cap),
            r.eip1559 is Some <==> self.eip1559 is Some,
            self.eip1559 is Some ==> {
                let eip = self.eip1559->0;
                let capped_price = r.eip1559->0;
                let m = eip.max_fee_per_gas@;
                let p = eip.max_priority_fee_per_gas@;
                let capped = if m.le(cap@) {
                    m
                } else {
                    cap@
                };
                &&& capped_price.base_fee_per_gas == eip.base_fee_per_gas
                &&& capped_price.max_fee_per_gas@ == capped
                &&& capped_price.max_priority_fee_per_gas@ == (if p.le(capped) {
                    p
                } else {
                    capped
                })
                &&& capped_price.max_priority_fee_per_gas@.le(capped_price.max_fee_per_gas@)
            },
    {
        Self {
            legacy: self.legacy.min_of(cap),
            eip1559: match self.eip1559 {
                Some(eip) => Some(eip.limit_cap(cap)),
                None => None,
            },
        }
    }

    /// Multiplies the cap by the given coefficient to improve the odds of
    /// inclusion: the EIP-1559 maximum fee when present, the legacy price
    /// otherwise.
    pub fn bump_cap(self, factor: &Ratio) -> (r: Self)
        requires
            self.eip1559 is None ==> {
                &&& self.legacy@.num * factor@.num <= u128::MAX
                &&& self.legacy@.den * factor@.den <= u128::MAX
            },
            self.eip1559 is Some ==> {
                let m = self.eip1559->0.max_fee_per_gas@;
                &&& m.num * factor@.num <= u128::MAX
                &&& m.den * factor@.den <= u128::MAX
            },
        ensures
            self.eip1559 is None ==> r.eip1559 is None && r.legacy@ == self.legacy@.times(factor@),
            self.eip1559 is Some ==> {
                let eip = self.eip1559->0;
                let bumped = r.eip1559->0;
                &&& r.legacy == self.legacy
                &&& r.eip1559 is Some
                &&& bumped.base_fee_per_gas == eip.base_fee_per_gas
                &&& bumped.max_priority_fee_per_gas == eip.max_priority_fee_per_gas
                &&& bumped.max_fee_per_gas@ == eip.max_fee_per_gas@.times(factor@)
            },
    {
        match self.eip1559 {
            Some(eip) => Self {
                eip1559: Some(
                    GasPrice1559 { max_fee_per_gas: eip.max_fee_per_gas.times(factor), ..eip },
                ),
                ..self
            },
            None => Self { legacy: self.legacy.times(factor), ..self },
        }
    }

    /// The two estimates denote the same values, field by field.
    pub open spec fn same_price_spec(self, other: EstimatedGasPrice) -> bool {
        &&& self.legacy@.same_value(other.legacy@)
        &&& (self.eip1559 is Some <==> other.eip1559 is Some)
        &&& (self.eip1559 is Some && other.eip1559 is Some ==> self.eip1559->0.same_price_spec(
            other.eip1559->0,
        ))
    }

    /// Decides whether two estimates denote the same values, field by field.
    pub fn same_price(&self, other: &EstimatedGasPrice) -> (r: bool)
        requires
            rat_cmp_fits(self.legacy@, other.legacy@),
            self.eip1559 is Some && other.eip1559 is Some ==> {
                let a = self.eip1559->0;
                let b = other.eip1559->0;
                &&& rat_cmp_fits(a.base_fee_per_gas@, b.base_fee_per_gas@)
                &&& rat_cmp_fits(a.max_fee_per_gas@, b.max_fee_per_gas@)
                &&& rat_cmp_fits(a.max_priority_fee_per_gas@, b.max_priority_fee_per_gas@)
            },
        ensures
            r == self.same_price_spec(*other),
    {
        if !self.legacy.same_value_as(&other.legacy) {
            return false;
        }
        match (&self.eip1559, &other.eip1559) {
            (Some(a), Some(b)) => a.same_price(b),
            (None, None) => true,
            _ => false,
        }
    }
}

impl Default for EstimatedGasPrice {
    /// The all-zero legacy estimate, with no EIP-1559 price.
    fn default() -> (r: Self)
        ensures
            r.legacy@ == Rat::from_int(0),
            r.eip1559 is None,
    {
        Self { legacy: Ratio::from_int(0), eip1559: None }
    }
}

/// Rounding a whole-valued rational up changes nothing: applying `ceil`
/// a second time is the identity, and a value that is already whole (as
/// both maximum fields are after [`GasPrice1559::ceil`]) is its own
/// ceiling.  So bumping and rounding up is idempotent after one
/// application, for every well-formed value.
pub proof fn lemma_ceil_idempotent(r: Rat)
    requires
        r.wf(),
    ensures
        Rat::from_int(r.ceil_value()).ceil_value() == r.ceil_value(),
        r.den == 1 ==> r.ceil_value() == r.num && Rat::from_int(r.ceil_value()) == r,
{
}

/// Clamping preserves the EIP-1559 inequalities, as
/// [`GasPrice1559::limit_cap`] computes it: the clamped maximum fee covers
/// the clamped priority fee for every cap, and still covers the base fee
/// whenever the cap does.  (A cap below the base fee necessarily pushes
/// the maximum fee below the base fee.)
pub proof fn lemma_limit_cap_preserves_validity(base: Rat, max_fee: Rat, priority: Rat, cap: Rat)
    requires
        base.wf(),
        max_fee.wf(),
        priority.wf(),
        cap.wf(),
    ensures
        ({
            let capped = if max_fee.le(cap) {
                max_fee
            } else {
                cap
            };
            let capped_priority = if priority.le(capped) {
                priority
            } else {
                capped
            };
            &&& capped_priority.le(capped)
            &&& base.le(max_fee) && base.le(cap) ==> base.le(capped)
        }),
{
}

} // verus!

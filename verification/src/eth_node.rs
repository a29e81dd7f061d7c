//! Estimator over a blockchain node's legacy gas-price answer.
//!
//! The node call itself is performed by the embedding program; the quote
//! it yields is the answer verbatim, with no EIP-1559 price and no
//! caching (the node is assumed cheap to ask).

use vstd::prelude::*;

use crate::gas_price::EstimatedGasPrice;
use crate::rational::{Rat, Ratio};

verus! {

/// Builds the quote from the node's legacy gas-price answer, in wei: the
/// answer itself as the legacy price, and no EIP-1559 price.
pub fn estimate_with_limits(gas_limit: u64, time_limit_ms: u64, gas_price_wei: u128) -> (r:
    EstimatedGasPrice)
    ensures
        r.legacy@ == Rat::from_int(gas_price_wei as int),
        r.eip1559 is None,
{
    EstimatedGasPrice { legacy: Ratio::from_int(gas_price_wei), eip1559: None }
}

} // verus!

//! Priority composition of estimators: try an ordered list of sources and
//! take the first that succeeds.
//!
//! The embedding program queries its estimators in order and stops at the
//! first success; [`first_success`] is that rule on the collected
//! outcomes, so the two agree on every prefix of outcomes the program
//! observed.

use vstd::prelude::*;

use crate::gas_price::EstimatedGasPrice;
use crate::Error;

verus! {

/// Picks the first successful estimate of the ordered outcomes; when every
/// source failed, the last failure; when there is no source at all,
/// `NoEstimators`.
pub fn first_success(mut results: Vec<Result<EstimatedGasPrice, Error>>) -> (r: Result<
    EstimatedGasPrice,
    Error,
>)
    ensures
        results@.len() == 0 ==> r == Result::<EstimatedGasPrice, Error>::Err(Error::NoEstimators),
        (exists|i: int| 0 <= i < results@.len() && (#[trigger] results@[i]) is Ok) ==> exists|
            i: int,
        |
            {
                &&& 0 <= i < results@.len()
                &&& (#[trigger] results@[i]) is Ok
                &&& r == results@[i]
                &&& forall|j: int| 0 <= j < i ==> (#[trigger] results@[j]) is Err
            },
        results@.len() > 0 && (forall|i: int|
            0 <= i < results@.len() ==> (#[trigger] results@[i]) is Err) ==> r == results@[
            results@.len() - 1
        ],
{
    let n = results.len();
    if n == 0 {
        return Err(Error::NoEstimators);
    }
    let mut k: usize = 0;
    while k < n
        invariant
            n == results@.len(),
            n > 0,
            k <= n,
            forall|j: int| 0 <= j < k ==> (#[trigger] results@[j]) is Err,
        decreases n - k,
    {
        match &results[k] {
            Ok(price) => {
                return Ok(*price);
            },
            Err(_) => {},
        }
        k = k + 1;
    }
    results.remove(n - 1)
}

} // verus!

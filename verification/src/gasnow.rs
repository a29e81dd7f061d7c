//! Estimator over a polled HTTP vendor that reports four price tiers.
//!
//! The vendor's tiers correspond to fixed expected inclusion times (rapid,
//! fast, standard, slow); an estimate interpolates between them at the
//! caller's time budget.  A small cache keeps the last fetch outcome so
//! that the vendor is asked at most once per rate-limit window; errors are
//! cached too.

use vstd::prelude::*;

use crate::gas_price::EstimatedGasPrice;
use crate::linear_interpolation::{anchors, interpolate, is_interpolation, Point, MAX_Y};
use crate::rational::{Rat, Ratio};
use crate::Error;

verus! {

/// Minimum milliseconds between two fetches from the vendor.
pub const RATE_LIMIT_MS: u64 = 15_000;

/// Largest time budget accepted by the estimator (2^40 ms).
pub const MAX_TIME_LIMIT_MS: u64 = 0x100_0000_0000;

/// Expected inclusion time of the rapid tier, in milliseconds.
pub const RAPID_MS: u64 = 15_000;

/// Expected inclusion time of the fast tier, in milliseconds.
pub const FAST_MS: u64 = 60_000;

/// Expected inclusion time of the standard tier, in milliseconds.
pub const STANDARD_MS: u64 = 300_000;

/// Expected inclusion time of the slow tier, in milliseconds.
pub const SLOW_MS: u64 = 600_000;

/// The vendor's four price tiers, in wei.
#[derive(Clone, Copy, Debug, PartialEq, Eq, Structural)]
pub struct ResponseData {
    pub rapid: u128,
    pub fast: u128,
    pub standard: u128,
    pub slow: u128,
}

/// The vendor's full response.
#[derive(Clone, Copy, Debug, PartialEq, Eq, Structural)]
pub struct Response {
    /// The vendor's status code.
    pub code: u32,
    /// The price tiers.
    pub data: ResponseData,
}

/// All four tiers fit the interpolator's range.
pub open spec fn response_data_wf(d: ResponseData) -> bool {
    &&& d.rapid <= MAX_Y
    &&& d.fast <= MAX_Y
    &&& d.standard <= MAX_Y
    &&& d.slow <= MAX_Y
}

/// The anchor sequence of the four tiers: expected inclusion time in
/// seconds against price in wei, fastest first.
pub open spec fn tier_anchors(d: ResponseData) -> Seq<(Rat, int)> {
    seq![
        (Rat { num: RAPID_MS as int, den: 1000 }, d.rapid as int),
        (Rat { num: FAST_MS as int, den: 1000 }, d.fast as int),
        (Rat { num: STANDARD_MS as int, den: 1000 }, d.standard as int),
        (Rat { num: SLOW_MS as int, den: 1000 }, d.slow as int),
    ]
}

/// Derives a quote from the given tier prices: the legacy price is the
/// interpolation over the four tier anchors at the time budget, and no
/// EIP-1559 price is reported.
pub fn estimate_with_limits(
    gas_limit: u64,
    time_limit_ms: u64,
    response: &ResponseData,
) -> (r: Result<EstimatedGasPrice, Error>)
    requires
        time_limit_ms <= MAX_TIME_LIMIT_MS,
        response_data_wf(*response),
    ensures
        r is Ok,
        r->Ok_0.eip1559 is None,
        is_interpolation(
            tier_anchors(*response),
            Rat { num: time_limit_ms as int, den: 1000 },
            r->Ok_0.legacy@,
        ),
{
    let t = Ratio::new(time_limit_ms as u128, 1000);
    let mut points: Vec<Point> = Vec::new();
    points.push(Point { x: Ratio::new(RAPID_MS as u128, 1000), y: response.rapid });
    points.push(Point { x: Ratio::new(FAST_MS as u128, 1000), y: response.fast });
    points.push(Point { x: Ratio::new(STANDARD_MS as u128, 1000), y: response.standard });
    points.push(Point { x: Ratio::new(SLOW_MS as u128, 1000), y: response.slow });
    proof {
        assert(anchors(points@) =~= tier_anchors(*response));
    }
    let legacy = match interpolate(&t, &points) {
        Ok(v) => v,
        Err(_) => {
            // Unreachable: four anchors are always enough.
            return Err(Error::InvalidInput("interpolation requires at least two points".to_owned()));
        },
    };
    Ok(EstimatedGasPrice { legacy, eip1559: None })
}

/// The last fetch outcome, with the time at which the request was made.
/// A failed fetch is cached as `None`: the vendor is not asked again
/// before the rate-limit window has passed.
#[derive(Clone, Copy, Debug)]
pub struct CachedResponse {
    /// Milliseconds of the embedder's monotonic clock at which the request
    /// was sent.
    pub time: u64,
    /// The response, or `None` when the fetch failed.
    pub data: Option<Response>,
}

impl CachedResponse {
    /// The cache entry still counts as fresh at time `now`: the rate-limit
    /// window has not passed.  A cache time in the future (the clock moved
    /// between callers) counts as fresh as well.
    pub open spec fn is_fresh(self, now: u64) -> bool {
        now < self.time + RATE_LIMIT_MS
    }
}

/// The polled tier-price estimator: remembers the last fetch outcome so
/// that the vendor is asked at most once per rate-limit window.  The
/// embedding program supplies the fetch itself and the clock.
#[derive(Debug)]
pub struct GasNowGasStation {
    /// The last fetch outcome, if any fetch was made yet.
    pub last_response: Option<CachedResponse>,
}

impl GasNowGasStation {
    /// Whatever response the station has cached fits the interpolator's
    /// range.
    pub open spec fn wf(self) -> bool {
        self.last_response is Some && self.last_response->0.data is Some ==> response_data_wf(
            self.last_response->0.data->0.data,
        )
    }
    /// A station that has not fetched anything yet.
    pub fn new() -> (r: GasNowGasStation)
        ensures
            r.last_response is None,
    {
        GasNowGasStation { last_response: None }
    }

    /// Returns the gas price the station trusts at time `now_ms`, fetching
    /// through `fetch` only when the cached outcome has expired.
    ///
    /// A cached response within the rate-limit window is returned as is; a
    /// cached failure within the window yields `Upstream` without a new
    /// fetch.  Otherwise `fetch` is called and its outcome both returned
    /// and cached, a failure as `None`.
    pub fn gas_price_with_cache<F: FnOnce() -> Result<Response, Error>>(
        &mut self,
        now_ms: u64,
        fetch: F,
    ) -> (r: Result<Response, Error>)
        requires
            call_requires(fetch, ()),
        ensures
            ({
                let cached = old(self).last_response;
                if cached is Some && cached->0.is_fresh(now_ms) {
                    &&& *final(self) == *old(self)
                    &&& (cached->0.data is Some ==> r == Result::<Response, Error>::Ok(
                        cached->0.data->0,
                    ))
                    &&& (cached->0.data is None ==> r is Err && r->Err_0 is Upstream)
                } else {
                    exists|outcome: Result<Response, Error>|
                        {
                            &&& #[trigger] call_ensures(fetch, (), outcome)
                            &&& r == outcome
                            &&& final(self).last_response == Some(
                                CachedResponse {
                                    time: now_ms,
                                    data: if outcome is Ok {
                                        Some(outcome->Ok_0)
                                    } else {
                                        None
                                    },
                                },
                            )
                        }
                }
            }),
    {
        let refetch = match &self.last_response {
            Some(cached) => !(now_ms <= cached.time || now_ms - cached.time < RATE_LIMIT_MS),
            None => true,
        };
        if !refetch {
            let cached = match &self.last_response {
                Some(cached) => *cached,
                None => {
                    // Unreachable: refetch is true when nothing is cached.
                    return Err(Error::NotReady);
                },
            };
            match cached.data {
                Some(response) => Ok(response),
                None => Err(
                    Error::Upstream(
                        "previous gasnow response was error and cache has not yet expired".to_owned(),
                    ),
                ),
            }
        } else {
            let result = fetch();
            let data = match &result {
                Ok(response) => Some(*response),
                Err(_) => None,
            };
            self.last_response = Some(CachedResponse { time: now_ms, data });
            result
        }
    }

    /// Estimates the gas price for the given time budget at time `now_ms`,
    /// fetching through `fetch` only when the cached outcome has expired.
    ///
    /// On success the returned quote carries no EIP-1559 price and its
    /// legacy price is the tier interpolation of a response that came from
    /// the cache or from `fetch`.
    pub fn estimate_with_limits<F: FnOnce() -> Result<Response, Error>>(
        &mut self,
        gas_limit: u64,
        time_limit_ms: u64,
        now_ms: u64,
        fetch: F,
    ) -> (r: Result<EstimatedGasPrice, Error>)
        requires
            old(self).wf(),
            time_limit_ms <= MAX_TIME_LIMIT_MS,
            call_requires(fetch, ()),
            forall|outcome: Result<Response, Error>|
                #[trigger] call_ensures(fetch, (), outcome) && outcome is Ok
                    ==> response_data_wf(outcome->Ok_0.data),
        ensures
            final(self).wf(),
            r is Ok ==> r->Ok_0.eip1559 is None,
            ({
                let cached = old(self).last_response;
                let t = Rat { num: time_limit_ms as int, den: 1000 };
                if cached is Some && cached->0.is_fresh(now_ms) {
                    &&& *final(self) == *old(self)
                    &&& (cached->0.data is Some ==> r is Ok && is_interpolation(
                        tier_anchors(cached->0.data->0.data),
                        t,
                        r->Ok_0.legacy@,
                    ))
                    &&& (cached->0.data is None ==> r is Err && r->Err_0 is Upstream)
                } else {
                    exists|outcome: Result<Response, Error>|
                        {
                            &&& #[trigger] call_ensures(fetch, (), outcome)
                            &&& final(self).last_response == Some(
                                CachedResponse {
                                    time: now_ms,
                                    data: if outcome is Ok {
                                        Some(outcome->Ok_0)
                                    } else {
                                        None
                                    },
                                },
                            )
                            &&& (outcome is Ok ==> r is Ok && is_interpolation(
                                tier_anchors(outcome->Ok_0.data),
                                t,
                                r->Ok_0.legacy@,
                            ))
                            &&& (outcome is Err ==> r == Result::<
                                EstimatedGasPrice,
                                Error,
                            >::Err(outcome->Err_0))
                        }
                }
            }),
    {
        let response = match self.gas_price_with_cache(now_ms, fetch) {
            Ok(response) => response,
            Err(e) => {
                return Err(e);
            },
        };
        estimate_with_limits(gas_limit, time_limit_ms, &response.data)
    }
}

} // verus!

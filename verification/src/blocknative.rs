//! Estimator over a polled HTTP vendor that reports, per upcoming block, a
//! set of gas prices with inclusion confidences.
//!
//! The embedding program fetches the vendor's JSON on a fixed cadence,
//! converts the gwei figures to whole wei, and stores the result in a
//! [`CachedResponse`]; [`estimate_with_limits`] derives a quote from that
//! snapshot alone and never performs I/O.  A confidence of `c` percent is
//! mapped to the time anchor `15s / (c / 100)`: higher confidence means a
//! shorter expected inclusion time.

use vstd::prelude::*;

use crate::gas_price::{EstimatedGasPrice, GasPrice1559};
use crate::linear_interpolation::{anchors, interpolate, is_interpolation, Point, MAX_Y};
use crate::rational::{Rat, Ratio};
use crate::Error;

verus! {

broadcast use vstd::seq_lib::group_to_multiset_ensures, vstd::multiset::group_multiset_axioms;

/// Expected seconds between consecutive blocks, in milliseconds.
pub const TIME_PER_BLOCK_MS: u64 = 15_000;

/// Cadence of the background refresher, in milliseconds.
pub const RATE_LIMIT_MS: u64 = 10_000;

/// Age past which a cached response is considered stale, in milliseconds.
pub const CACHED_RESPONSE_VALIDITY_MS: u64 = 60_000;

/// Largest time budget (about 34 years) accepted by the estimators.
pub const MAX_TIME_LIMIT_MS: u64 = 0x100_0000_0000;

/// One estimated price from the vendor, in whole wei, with the vendor's
/// confidence that it suffices for inclusion in the next block.
#[derive(Clone, Copy, Debug)]
pub struct EstimatedPrice {
    /// Inclusion probability, in whole percent.
    pub confidence: u64,
    /// Legacy gas price, in wei.
    pub price: u128,
    /// EIP-1559 priority fee, in wei.
    pub max_priority_fee_per_gas: u128,
    /// EIP-1559 maximum fee, in wei.
    pub max_fee_per_gas: u128,
}

/// The vendor's prices for one upcoming block.
#[derive(Clone, Debug)]
pub struct BlockPrice {
    /// The price candidates, in no guaranteed order.
    pub estimated_prices: Vec<EstimatedPrice>,
    /// Base fee of the block, in wei.
    pub base_fee_per_gas: u128,
}

/// The vendor's full response.
#[derive(Clone, Debug)]
pub struct Response {
    /// Prices per upcoming block; the first entry is the next block.
    pub block_prices: Vec<BlockPrice>,
}

/// The vendor's most recent successful response, with the time it was
/// received.  The background refresher swaps in a new value on every
/// successful fetch and keeps the previous one on failure.
#[derive(Clone, Debug)]
pub struct CachedResponse {
    /// Milliseconds of the embedder's monotonic clock at which the response
    /// was received.
    pub time: u64,
    /// The response itself.
    pub data: Response,
}

impl CachedResponse {
    /// The snapshot is older than the validity window at time `now`.
    pub open spec fn is_stale(self, now: u64) -> bool {
        now > self.time + CACHED_RESPONSE_VALIDITY_MS
    }
}

/// A single price entry is usable by the estimator: the confidence is a
/// positive percentage and the wei amounts fit the interpolator's range.
pub open spec fn price_entry_wf(p: EstimatedPrice) -> bool {
    &&& 1 <= p.confidence <= 100
    &&& p.price <= MAX_Y
    &&& p.max_fee_per_gas <= MAX_Y
    &&& p.max_priority_fee_per_gas <= p.max_fee_per_gas
}

/// Every price entry of every block is usable.
pub open spec fn response_wf(r: Response) -> bool {
    forall|b: int, i: int|
        0 <= b < r.block_prices@.len() && 0 <= i
            < (#[trigger] r.block_prices@[b]).estimated_prices@.len() ==> price_entry_wf(
            #[trigger] r.block_prices@[b].estimated_prices@[i],
        )
}

/// The entries are ordered by descending confidence.
pub open spec fn sorted_by_confidence_desc(s: Seq<EstimatedPrice>) -> bool {
    forall|i: int, j: int|
        0 <= i <= j < s.len() ==> (#[trigger] s[i]).confidence >= (#[trigger] s[j]).confidence
}

/// The time anchor of a confidence of `c` percent: `15s / (c / 100)`,
/// i.e. `1500 / c` seconds.
pub open spec fn confidence_x(c: u64) -> Rat {
    Rat { num: 1500, den: c as int }
}

/// The legacy-price anchor sequence of the given entries.
pub open spec fn legacy_anchors(s: Seq<EstimatedPrice>) -> Seq<(Rat, int)> {
    Seq::new(s.len(), |i: int| (confidence_x(s[i].confidence), s[i].price as int))
}

/// The maximum-fee anchor sequence of the given entries.
pub open spec fn max_fee_anchors(s: Seq<EstimatedPrice>) -> Seq<(Rat, int)> {
    Seq::new(s.len(), |i: int| (confidence_x(s[i].confidence), s[i].max_fee_per_gas as int))
}

/// The priority-fee anchor sequence of the given entries.
pub open spec fn max_priority_anchors(s: Seq<EstimatedPrice>) -> Seq<(Rat, int)> {
    Seq::new(
        s.len(),
        |i: int| (confidence_x(s[i].confidence), s[i].max_priority_fee_per_gas as int),
    )
}

/// Sorts price entries by descending confidence (the vendor does not
/// guarantee any order).  The result holds exactly the given entries.
pub fn sort_prices_descending(prices: &Vec<EstimatedPrice>) -> (r: Vec<EstimatedPrice>)
    ensures
        sorted_by_confidence_desc(r@),
        r@.to_multiset() == prices@.to_multiset(),
        r@.len() == prices@.len(),
{
    let mut rest: Vec<EstimatedPrice> = Vec::new();
    let mut k: usize = 0;
    while k < prices.len()
        invariant
            k <= prices@.len(),
            rest@ == prices@.subrange(0, k as int),
        decreases prices@.len() - k,
    {
        rest.push(prices[k]);
        proof {
            assert(rest@ =~= prices@.subrange(0, k + 1));
        }
        k = k + 1;
    }
    proof {
        assert(rest@ =~= prices@);
    }
    let mut out: Vec<EstimatedPrice> = Vec::new();
    proof {
        vstd::multiset::lemma_multiset_empty_len::<EstimatedPrice>(out@.to_multiset());
        assert(out@.to_multiset().add(rest@.to_multiset()) =~= prices@.to_multiset());
    }
    while rest.len() > 0
        invariant
            out@.to_multiset().add(rest@.to_multiset()) == prices@.to_multiset(),
            out@.len() + rest@.len() == prices@.len(),
            sorted_by_confidence_desc(out@),
            forall|a: int, b: int|
                0 <= a < out@.len() && 0 <= b < rest@.len() ==> (#[trigger] out@[a]).confidence
                    >= (#[trigger] rest@[b]).confidence,
        decreases rest@.len(),
    {
        // Select the first entry of maximal confidence.
        let mut m: usize = 0;
        let mut j: usize = 1;
        while j < rest.len()
            invariant
                rest@.len() > 0,
                m < rest@.len(),
                j <= rest@.len(),
                forall|q: int|
                    0 <= q < j ==> (#[trigger] rest@[q]).confidence <= rest@[
                        m as int
                    ].confidence,
            decreases rest@.len() - j,
        {
            if rest[j].confidence > rest[m].confidence {
                m = j;
            }
            j = j + 1;
        }
        let ghost old_out = out@;
        let ghost old_rest = rest@;
        let p = rest.remove(m);
        out.push(p);
        proof {
            assert(old_rest.contains(p));
            assert(old_rest.to_multiset().count(p) > 0);
            assert(out@.to_multiset() =~= old_out.to_multiset().insert(p));
            assert(rest@.to_multiset() =~= old_rest.to_multiset().remove(p));
            assert(out@.to_multiset().add(rest@.to_multiset()) =~= prices@.to_multiset());
        }
    }
    out
}

/// Derives a quote from the most recent cached vendor response, with the
/// embedder's monotonic clock reading `now_ms`.
///
/// Fails with `Stale` when the snapshot is past its validity window, with
/// `NotReady` when it holds no block, and with `InvalidInput` when the
/// first block carries fewer than two prices; succeeds otherwise, with the
/// three price curves interpolated at `time_limit_ms` over the anchors of
/// the entries sorted by descending confidence, and the block's base fee.
pub fn estimate_with_limits(
    time_limit_ms: u64,
    cached_response: &CachedResponse,
    now_ms: u64,
) -> (r: Result<EstimatedGasPrice, Error>)
    requires
        time_limit_ms <= MAX_TIME_LIMIT_MS,
        response_wf(cached_response.data),
    ensures
        r is Ok <==> {
            &&& !cached_response.is_stale(now_ms)
            &&& cached_response.data.block_prices@.len() > 0
            &&& cached_response.data.block_prices@[0].estimated_prices@.len() >= 2
        },
        cached_response.is_stale(now_ms) ==> r == Result::<EstimatedGasPrice, Error>::Err(
            Error::Stale,
        ),
        !cached_response.is_stale(now_ms) && cached_response.data.block_prices@.len() == 0
            ==> r == Result::<EstimatedGasPrice, Error>::Err(Error::NotReady),
        !cached_response.is_stale(now_ms) && cached_response.data.block_prices@.len() > 0
            && cached_response.data.block_prices@[0].estimated_prices@.len() < 2 ==> r is Err
            && r->Err_0 is InvalidInput,
        r is Ok ==> is_block_estimate(
            cached_response.data.block_prices@[0],
            time_limit_ms,
            r->Ok_0,
        ),
{
    let age = if now_ms >= cached_response.time {
        now_ms - cached_response.time
    } else {
        0
    };
    if age > CACHED_RESPONSE_VALIDITY_MS {
        return Err(Error::Stale);
    }
    if cached_response.data.block_prices.len() == 0 {
        return Err(Error::NotReady);
    }
    let block = &cached_response.data.block_prices[0];
    estimate_block(block, time_limit_ms)
}

/// `price` is the quote that the first vendor block yields for the given
/// time budget: each curve is the interpolation, at the budget, over the
/// anchors of some descending-confidence ordering of the block's entries,
/// and the base fee is the block's.
pub open spec fn is_block_estimate(block: BlockPrice, time_limit_ms: u64, price: EstimatedGasPrice) -> bool {
    exists|s: Seq<EstimatedPrice>|
        {
            let t = Rat { num: time_limit_ms as int, den: 1000 };
            &&& s.to_multiset() == block.estimated_prices@.to_multiset()
            &&& #[trigger] sorted_by_confidence_desc(s)
            &&& s.len() == block.estimated_prices@.len()
            &&& is_interpolation(legacy_anchors(s), t, price.legacy@)
            &&& price.eip1559 is Some
            &&& is_interpolation(max_fee_anchors(s), t, price.eip1559->0.max_fee_per_gas@)
            &&& is_interpolation(
                max_priority_anchors(s),
                t,
                price.eip1559->0.max_priority_fee_per_gas@,
            )
            &&& price.eip1559->0.base_fee_per_gas@ == Rat::from_int(block.base_fee_per_gas as int)
        }
}

/// Interpolates the three price curves of one block at the time budget.
fn estimate_block(block: &BlockPrice, time_limit_ms: u64) -> (r: Result<EstimatedGasPrice, Error>)
    requires
        time_limit_ms <= MAX_TIME_LIMIT_MS,
        forall|i: int|
            0 <= i < block.estimated_prices@.len() ==> price_entry_wf(
                #[trigger] block.estimated_prices@[i],
            ),
    ensures
        r is Ok <==> block.estimated_prices@.len() >= 2,
        r is Err ==> r->Err_0 is InvalidInput,
        r is Ok ==> is_block_estimate(*block, time_limit_ms, r->Ok_0),
{
    let sorted_list = sort_prices_descending(&block.estimated_prices);
    proof {
        lemma_multiset_entries_wf(block.estimated_prices@, sorted_list@);
    }
    let t = Ratio::new(time_limit_ms as u128, 1000);
    let mut legacy_points: Vec<Point> = Vec::new();
    let mut max_fee_points: Vec<Point> = Vec::new();
    let mut max_priority_points: Vec<Point> = Vec::new();
    let mut k: usize = 0;
    while k < sorted_list.len()
        invariant
            k <= sorted_list@.len(),
            forall|i: int|
                0 <= i < sorted_list@.len() ==> price_entry_wf(#[trigger] sorted_list@[i]),
            legacy_points@.len() == k,
            max_fee_points@.len() == k,
            max_priority_points@.len() == k,
            forall|i: int|
                0 <= i < k ==> (#[trigger] legacy_points@[i]).x@ == confidence_x(
                    sorted_list@[i].confidence,
                ) && legacy_points@[i].y == sorted_list@[i].price,
            forall|i: int|
                0 <= i < k ==> (#[trigger] max_fee_points@[i]).x@ == confidence_x(
                    sorted_list@[i].confidence,
                ) && max_fee_points@[i].y == sorted_list@[i].max_fee_per_gas,
            forall|i: int|
                0 <= i < k ==> (#[trigger] max_priority_points@[i]).x@ == confidence_x(
                    sorted_list@[i].confidence,
                ) && max_priority_points@[i].y == sorted_list@[i].max_priority_fee_per_gas,
        decreases sorted_list@.len() - k,
    {
        let entry = sorted_list[k];
        assert(price_entry_wf(sorted_list@[k as int]));
        let x = Ratio::new(1500, entry.confidence as u128);
        legacy_points.push(Point { x, y: entry.price });
        max_fee_points.push(Point { x, y: entry.max_fee_per_gas });
        max_priority_points.push(Point { x, y: entry.max_priority_fee_per_gas });
        k = k + 1;
    }
    proof {
        assert(anchors(legacy_points@) =~= legacy_anchors(sorted_list@));
        assert(anchors(max_fee_points@) =~= max_fee_anchors(sorted_list@));
        assert(anchors(max_priority_points@) =~= max_priority_anchors(sorted_list@));
    }
    proof {
        assert(sorted_list@.subrange(0, sorted_list@.len() as int) =~= sorted_list@);
        lemma_anchor_seqs_usable(sorted_list@);
    }
    let legacy = match interpolate(&t, &legacy_points) {
        Ok(v) => v,
        Err(e) => {
            return Err(e);
        },
    };
    let max_fee_per_gas = match interpolate(&t, &max_fee_points) {
        Ok(v) => v,
        Err(e) => {
            return Err(e);
        },
    };
    let max_priority_fee_per_gas = match interpolate(&t, &max_priority_points) {
        Ok(v) => v,
        Err(e) => {
            return Err(e);
        },
    };
    let price = EstimatedGasPrice {
        legacy,
        eip1559: Some(
            GasPrice1559 {
                max_fee_per_gas,
                max_priority_fee_per_gas,
                base_fee_per_gas: Ratio::from_int(block.base_fee_per_gas),
            },
        ),
    };
    proof {
        let s = sorted_list@;
        let tq = Rat { num: time_limit_ms as int, den: 1000 };
        assert(s.to_multiset() == block.estimated_prices@.to_multiset() && sorted_by_confidence_desc(
            s,
        ) && s.len() == block.estimated_prices@.len() && is_interpolation(
            legacy_anchors(s),
            tq,
            price.legacy@,
        ) && price.eip1559 is Some && is_interpolation(
            max_fee_anchors(s),
            tq,
            price.eip1559->0.max_fee_per_gas@,
        ) && is_interpolation(
            max_priority_anchors(s),
            tq,
            price.eip1559->0.max_priority_fee_per_gas@,
        ) && price.eip1559->0.base_fee_per_gas@ == Rat::from_int(block.base_fee_per_gas as int));
    }
    Ok(price)
}

/// Every quote this estimator derives offers a cap that covers the tip:
/// each vendor entry's maximum fee covers its priority fee, and
/// interpolation is monotone in the y coordinate, so the interpolated
/// maximum fee covers the interpolated priority fee.
pub proof fn lemma_estimate_cap_covers_tip(
    block: BlockPrice,
    time_limit_ms: u64,
    price: EstimatedGasPrice,
)
    requires
        time_limit_ms <= MAX_TIME_LIMIT_MS,
        forall|i: int|
            0 <= i < block.estimated_prices@.len() ==> price_entry_wf(
                #[trigger] block.estimated_prices@[i],
            ),
        block.estimated_prices@.len() >= 1,
        is_block_estimate(block, time_limit_ms, price),
    ensures
        price.eip1559 is Some,
        price.eip1559->0.max_priority_fee_per_gas@.le(price.eip1559->0.max_fee_per_gas@),
{
    let t = Rat { num: time_limit_ms as int, den: 1000 };
    let s = choose|s: Seq<EstimatedPrice>|
        {
            &&& s.to_multiset() == block.estimated_prices@.to_multiset()
            &&& #[trigger] sorted_by_confidence_desc(s)
            &&& s.len() == block.estimated_prices@.len()
            &&& is_interpolation(legacy_anchors(s), t, price.legacy@)
            &&& price.eip1559 is Some
            &&& is_interpolation(max_fee_anchors(s), t, price.eip1559->0.max_fee_per_gas@)
            &&& is_interpolation(
                max_priority_anchors(s),
                t,
                price.eip1559->0.max_priority_fee_per_gas@,
            )
            &&& price.eip1559->0.base_fee_per_gas@ == Rat::from_int(block.base_fee_per_gas as int)
        };
    lemma_multiset_entries_wf(block.estimated_prices@, s);
    lemma_anchor_seqs_usable(s);
    assert forall|i: int| 0 <= i < s.len() implies (#[trigger] max_priority_anchors(s)[i]).1
        <= (#[trigger] max_fee_anchors(s)[i]).1 by {
        assert(price_entry_wf(s[i]));
    }
    crate::linear_interpolation::lemma_interpolation_monotone(
        max_priority_anchors(s),
        max_fee_anchors(s),
        t,
        price.eip1559->0.max_priority_fee_per_gas@,
        price.eip1559->0.max_fee_per_gas@,
    );
}

/// Entry well-formedness carries over to any reordering: two sequences with
/// the same multiset have well-formed entries together.
proof fn lemma_multiset_entries_wf(orig: Seq<EstimatedPrice>, sorted_list: Seq<EstimatedPrice>)
    requires
        sorted_list.to_multiset() == orig.to_multiset(),
        forall|i: int| 0 <= i < orig.len() ==> price_entry_wf(#[trigger] orig[i]),
    ensures
        forall|i: int| 0 <= i < sorted_list.len() ==> price_entry_wf(#[trigger] sorted_list[i]),
{
    assert forall|i: int| 0 <= i < sorted_list.len() implies price_entry_wf(
        #[trigger] sorted_list[i],
    ) by {
        assert(sorted_list.to_multiset().count(sorted_list[i]) > 0);
        assert(orig.to_multiset().count(sorted_list[i]) > 0);
        assert(orig.contains(sorted_list[i]));
        let w = choose|w: int| 0 <= w < orig.len() && orig[w] == sorted_list[i];
        assert(price_entry_wf(orig[w]));
    }
}

/// The anchor sequences of a descending-confidence entry list are sorted by
/// ascending x and lie within the interpolator's range.
proof fn lemma_anchor_seqs_usable(s: Seq<EstimatedPrice>)
    requires
        forall|i: int| 0 <= i < s.len() ==> price_entry_wf(#[trigger] s[i]),
        sorted_by_confidence_desc(s),
    ensures
        crate::linear_interpolation::anchors_bounded(legacy_anchors(s)),
        crate::linear_interpolation::anchors_sorted(legacy_anchors(s)),
        crate::linear_interpolation::anchors_bounded(max_fee_anchors(s)),
        crate::linear_interpolation::anchors_sorted(max_fee_anchors(s)),
        crate::linear_interpolation::anchors_bounded(max_priority_anchors(s)),
        crate::linear_interpolation::anchors_sorted(max_priority_anchors(s)),
{
    assert forall|i: int, j: int| 0 <= i <= j < s.len() implies confidence_x(
        (#[trigger] s[i]).confidence,
    ).le(confidence_x((#[trigger] s[j]).confidence)) by {
        assert(s[i].confidence >= s[j].confidence);
        assert(1500 * (s[j].confidence as int) <= 1500 * (s[i].confidence as int));
    }
}

} // verus!

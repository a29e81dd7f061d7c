//! Native fee oracle: computes EIP-1559 fee suggestions per time horizon
//! from a node's recent fee history, by percentile analysis of block
//! rewards and an exponentially time-weighted sampling of base fees.
//!
//! The node RPC itself is injected by the embedding program; this module
//! holds the whole computation.  Weights and the sampling curve are
//! evaluated in fixed-point integer arithmetic on the scale
//! [`CURVE_SCALE`]; priority-fee selection and all wei amounts are exact.

use vstd::prelude::*;

use vstd::arithmetic::div_mod::{lemma_div_is_ordered, lemma_fundamental_div_mod};
use vstd::arithmetic::mul::{lemma_mul_inequality, lemma_mul_is_commutative, lemma_mul_upper_bound};

use crate::gas_price::{EstimatedGasPrice, GasPrice1559};
use crate::linear_interpolation::{anchors, interpolate, is_interpolation, Point, MAX_Y};
use crate::rational::{Rat, Ratio};
use crate::Error;

verus! {

broadcast use vstd::seq_lib::group_to_multiset_ensures, vstd::multiset::group_multiset_axioms;

/// Age past which a cached suggestion list is considered stale, in
/// milliseconds.
pub const CACHED_RESPONSE_VALIDITY_MS: u64 = 60_000;

/// Cadence of the background refresher, in milliseconds (the rate limit of
/// public Ethereum nodes).
pub const RATE_LIMIT_MS: u64 = 5_000;

/// Utilization, in permille, above which a block counts as full.
pub const FULL_BLOCK_PERMILLE: u32 = 900;

/// Largest base fee or reward, in wei per gas, the oracle accepts (2^50).
pub const MAX_FEE_WEI: u128 = 0x4_0000_0000_0000;

/// Largest number of blocks of fee history the oracle accepts.
pub const MAX_HISTORY_BLOCKS: usize = 1024;

/// Parameters of the native fee oracle.
#[derive(Clone, Debug)]
pub struct Params {
    /// Lower end of the sampled percentile range of the exponentially
    /// weighted base-fee history, in percent.
    pub sample_min_percentile: u64,
    /// Upper end of the sampled percentile range, in percent.
    pub sample_max_percentile: u64,
    /// Highest reward percentile requested from each individual block.
    pub max_reward_percentile: usize,
    /// Economical priority fee selection point, in percent of the sorted
    /// block reward list.
    pub min_block_percentile: u64,
    /// Urgent priority fee selection point, in percent of the sorted block
    /// reward list.
    pub max_block_percentile: u64,
    /// Highest time factor in the returned list of suggestions.
    pub max_time_factor: u64,
    /// Extra priority fee offered in case of an expected base-fee rise.
    pub extra_priority_fee_ratio: Ratio,
    /// A small boost added to every selected reward, in wei.
    pub extra_priority_fee_boost: u64,
    /// Priority fee offered when there are no recent transactions, in wei.
    pub fallback_priority_fee: u64,
    /// Coefficient the cap of every suggestion is multiplied with, to
    /// increase the chance of inclusion.
    pub bump_cap_coefficient: Ratio,
    /// Number of blocks of fee history per refresh.
    pub fee_history_blocks: u64,
}

impl Params {
    /// The parameters keep every computation of the oracle in range.
    pub open spec fn wf(self) -> bool {
        &&& 0 <= self.sample_min_percentile < self.sample_max_percentile <= 100
        &&& self.max_reward_percentile <= 128
        &&& self.min_block_percentile <= self.max_block_percentile <= 100
        &&& 1 <= self.max_time_factor <= 0x100_0000_0000
        &&& self.extra_priority_fee_ratio@.wf()
        &&& 0 <= self.extra_priority_fee_ratio@.num <= self.extra_priority_fee_ratio@.den
        &&& self.extra_priority_fee_ratio@.den <= 0x100
        &&& self.extra_priority_fee_boost <= 0x100_0000_0000
        &&& self.fallback_priority_fee <= MAX_FEE_WEI as u64
        &&& self.bump_cap_coefficient@.wf()
        &&& 1 <= self.fee_history_blocks
    }
}

impl Default for Params {
    /// The default parameters of the oracle.
    fn default() -> (r: Self)
        ensures
            r.sample_min_percentile == 10,
            r.sample_max_percentile == 30,
            r.max_reward_percentile == 20,
            r.min_block_percentile == 30,
            r.max_block_percentile == 60,
            r.max_time_factor == 128,
            r.extra_priority_fee_ratio@ == (Rat { num: 1, den: 4 }),
            r.extra_priority_fee_boost == 1559,
            r.fallback_priority_fee == 2_000_000_000,
            r.bump_cap_coefficient@ == (Rat { num: 2, den: 1 }),
            r.fee_history_blocks == 300,
            r.wf(),
    {
        Self {
            sample_min_percentile: 10,
            sample_max_percentile: 30,
            max_reward_percentile: 20,
            min_block_percentile: 30,
            max_block_percentile: 60,
            max_time_factor: 128,
            extra_priority_fee_ratio: Ratio::new(1, 4),
            extra_priority_fee_boost: 1559,
            fallback_priority_fee: 2_000_000_000,
            bump_cap_coefficient: Ratio::new(2, 1),
            fee_history_blocks: 300,
        }
    }
}

/// One fee-history frame as the node reports it: base fees for the
/// requested blocks plus the pending block, utilization per requested
/// block, and optionally the reward percentiles per block.
#[derive(Clone, Debug)]
pub struct FeeHistory {
    /// Number of the oldest block in the frame.
    pub oldest_block: u64,
    /// Base fee per block, in wei; one more entry than blocks, the last
    /// being the pending block.
    pub base_fee_per_gas: Vec<u128>,
    /// Utilization per block, in permille.
    pub gas_used_ratio: Vec<u32>,
    /// Reward percentiles per block, in wei, when they were requested.
    pub reward: Option<Vec<Vec<u128>>>,
}

impl FeeHistory {
    /// The frame's amounts fit the oracle's arithmetic range.
    pub open spec fn wf(self) -> bool {
        &&& self.base_fee_per_gas@.len() <= MAX_HISTORY_BLOCKS
        &&& forall|i: int|
            0 <= i < self.base_fee_per_gas@.len() ==> #[trigger] self.base_fee_per_gas@[i]
                <= MAX_FEE_WEI
    }
}

/// The block at `index` can contribute a priority-fee sample: it was
/// neither empty nor over the full-block threshold.
pub open spec fn usable_block(permille: u32) -> bool {
    permille != 0 && permille <= FULL_BLOCK_PERMILLE
}

/// Counts the consecutive blocks, walking backward from `last_index`, that
/// are suitable for priority-fee sampling (utilization neither zero nor
/// above the full-block threshold), up to `need_blocks` many.
///
/// Fails with `InvalidInput` exactly when `last_index` is out of range.
pub fn max_block_count(gas_used_ratio: &Vec<u32>, last_index: usize, need_blocks: usize) -> (r:
    Result<usize, Error>)
    ensures
        r is Ok <==> last_index < gas_used_ratio@.len(),
        r is Err ==> r->Err_0 is InvalidInput && r->Err_0->InvalidInput_0@
            == "max_block_count invalid input"@,
        r is Ok ==> {
            let c = r->Ok_0 as int;
            let limit = if last_index + 1 <= need_blocks {
                last_index + 1
            } else {
                need_blocks as int
            };
            &&& 0 <= c <= limit
            &&& forall|i: int| 0 <= i < c ==> usable_block(#[trigger] gas_used_ratio@[last_index - i])
            &&& c < limit ==> !usable_block(gas_used_ratio@[last_index - c])
        },
{
    if last_index >= gas_used_ratio.len() {
        return Err(Error::InvalidInput("max_block_count invalid input".to_owned()));
    }
    let limit: usize = if last_index + 1 <= need_blocks {
        last_index + 1
    } else {
        need_blocks
    };
    let mut count: usize = 0;
    while count < limit
        invariant
            limit == (if last_index + 1 <= need_blocks {
                last_index + 1
            } else {
                need_blocks as int
            }),
            limit <= last_index + 1,
            last_index < gas_used_ratio@.len(),
            0 <= count <= limit,
            forall|i: int| 0 <= i < count ==> usable_block(#[trigger] gas_used_ratio@[last_index - i]),
        decreases limit - count,
    {
        let permille = gas_used_ratio[last_index - count];
        if permille == 0 || permille > FULL_BLOCK_PERMILLE {
            return Ok(count);
        }
        count = count + 1;
    }
    Ok(count)
}

/// The reward list index that the priority-fee selection picks: the
/// economical percentile plus the urgent share shrunk by the time factor,
/// `floor((len - 1) * (minp + (maxp - minp) / tf) / 100)`.
pub open spec fn priority_fee_index(len: int, time_factor: int, params: Params) -> int {
    (len - 1) * (params.min_block_percentile * time_factor + params.max_block_percentile
        - params.min_block_percentile) / (100 * time_factor)
}

/// Suggests a priority fee from the sorted per-block reward percentiles:
/// the reward at the time-factor-dependent percentile of the list, plus the
/// configured boost; the fallback fee when no rewards were observed.
pub fn suggest_priority_fee(rewards: &Vec<u64>, time_factor: u64, params: &Params) -> (r: u64)
    requires
        params.wf(),
        1 <= time_factor <= params.max_time_factor,
        forall|i: int| 0 <= i < rewards@.len() ==> #[trigger] rewards@[i] <= MAX_FEE_WEI as u64,
    ensures
        rewards@.len() == 0 ==> r == params.fallback_priority_fee,
        rewards@.len() > 0 ==> 0 <= priority_fee_index(
            rewards@.len() as int,
            time_factor as int,
            *params,
        ) < rewards@.len(),
        rewards@.len() > 0 ==> r == rewards@[priority_fee_index(
            rewards@.len() as int,
            time_factor as int,
            *params,
        )] + params.extra_priority_fee_boost,
        r == selected_priority(rewards@, time_factor as int, *params),
{
    if rewards.len() == 0 {
        return params.fallback_priority_fee;
    }
    let len_minus_one = (rewards.len() - 1) as u128;
    proof {
        lemma_mul_upper_bound(
            params.min_block_percentile as int,
            100,
            time_factor as int,
            0x100_0000_0000,
        );
        lemma_mul_inequality(1, time_factor as int, params.min_block_percentile as int);
        lemma_mul_is_commutative(params.min_block_percentile as int, time_factor as int);
    }
    let weight: u128 = params.min_block_percentile as u128 * time_factor as u128
        + params.max_block_percentile as u128 - params.min_block_percentile as u128;
    proof {
        lemma_mul_upper_bound(
            len_minus_one as int,
            0xFFFF_FFFF_FFFF_FFFF,
            weight as int,
            0x8000_0000_0000,
        );
    }
    let numerator: u128 = len_minus_one * weight;
    let denominator: u128 = 100 * time_factor as u128;
    let index_wide: u128 = numerator / denominator;
    proof {
        lemma_priority_fee_index_in_range(
            rewards@.len() as int,
            time_factor as int,
            *params,
        );
    }
    let index: usize = index_wide as usize;
    rewards[index] + params.extra_priority_fee_boost
}

/// The selected index always lies within the reward list.
proof fn lemma_priority_fee_index_in_range(len: int, time_factor: int, params: Params)
    by (nonlinear_arith)
    requires
        params.wf(),
        1 <= time_factor,
        1 <= len,
    ensures
        0 <= priority_fee_index(len, time_factor, params) <= len - 1,
{
    let weight = params.min_block_percentile * time_factor + params.max_block_percentile
        - params.min_block_percentile;
    assert(0 <= weight <= 100 * time_factor);
    lemma_div_is_ordered(
        (len - 1) * weight,
        (len - 1) * (100 * time_factor),
        100 * time_factor,
    );
    assert((len - 1) * (100 * time_factor) / (100 * time_factor) == len - 1);
    lemma_div_pos((len - 1) * weight, 100 * time_factor);
}

/// A quotient of non-negative values is non-negative.
proof fn lemma_div_pos(x: int, d: int)
    by (nonlinear_arith)
    requires
        x >= 0,
        d >= 1,
    ensures
        x / d >= 0,
{
}

/// Quotients respect the cross-multiplied order of their fractions:
/// `x2 / d2 <= x1 / d1` whenever `x2 * d1 <= x1 * d2`.
proof fn lemma_div_cross(x1: int, d1: int, x2: int, d2: int)
    requires
        x1 >= 0,
        x2 >= 0,
        d1 >= 1,
        d2 >= 1,
        x2 * d1 <= x1 * d2,
    ensures
        x2 / d2 <= x1 / d1,
{
    let q1 = x1 / d1;
    let r1 = x1 % d1;
    let q2 = x2 / d2;
    let r2 = x2 % d2;
    lemma_fundamental_div_mod(x1, d1);
    lemma_fundamental_div_mod(x2, d2);
    vstd::arithmetic::div_mod::lemma_mod_division_less_than_divisor(x1, d1);
    vstd::arithmetic::div_mod::lemma_mod_division_less_than_divisor(x2, d2);
    lemma_div_pos(x2, d2);
    if q2 > q1 {
        assert(false) by (nonlinear_arith)
            requires
                x1 == d1 * q1 + r1,
                x2 == d2 * q2 + r2,
                0 <= r1 < d1,
                0 <= r2 < d2,
                q2 >= q1 + 1,
                q2 >= 0,
                x2 * d1 <= x1 * d2,
                d1 >= 1,
                d2 >= 1,
        ;
    }
}

/// Shrinking the time factor never lowers the selected reward index: the
/// urgent share of the percentile grows as the horizon narrows.
proof fn lemma_priority_index_monotone(len: int, tf_small: int, tf_big: int, params: Params)
    requires
        params.wf(),
        1 <= tf_small <= tf_big,
        1 <= len,
    ensures
        priority_fee_index(len, tf_big, params) <= priority_fee_index(len, tf_small, params),
{
    let minp = params.min_block_percentile as int;
    let spread = params.max_block_percentile as int - minp;
    let x_small = (len - 1) * (minp * tf_small + spread);
    let x_big = (len - 1) * (minp * tf_big + spread);
    assert(x_big * (100 * tf_small) <= x_small * (100 * tf_big) && x_small >= 0 && x_big >= 0)
        by (nonlinear_arith)
        requires
            x_small == (len - 1) * (minp * tf_small + spread),
            x_big == (len - 1) * (minp * tf_big + spread),
            0 <= minp,
            0 <= spread,
            1 <= tf_small <= tf_big,
            1 <= len,
    ;
    lemma_div_cross(x_small, 100 * tf_small, x_big, 100 * tf_big);
}

/// The priority fee the selection yields for the given time factor over
/// the sorted reward list.
pub open spec fn selected_priority(rewards: Seq<u64>, time_factor: int, params: Params) -> int {
    if rewards.len() == 0 {
        params.fallback_priority_fee as int
    } else {
        rewards[priority_fee_index(rewards.len() as int, time_factor, params)]
            + params.extra_priority_fee_boost
    }
}

/// Narrowing the time horizon never lowers the selected priority fee.
proof fn lemma_selected_priority_monotone(
    rewards: Seq<u64>,
    tf_small: int,
    tf_big: int,
    params: Params,
)
    requires
        params.wf(),
        1 <= tf_small <= tf_big,
        sorted_ascending_u64(rewards),
    ensures
        selected_priority(rewards, tf_big, params) <= selected_priority(rewards, tf_small, params),
{
    if rewards.len() > 0 {
        lemma_priority_index_monotone(rewards.len() as int, tf_small, tf_big, params);
        lemma_priority_fee_index_in_range(rewards.len() as int, tf_small, params);
        lemma_priority_fee_index_in_range(rewards.len() as int, tf_big, params);
    }
}

/// The values are ordered ascending.
pub open spec fn sorted_ascending_u64(s: Seq<u64>) -> bool {
    forall|i: int, j: int| 0 <= i <= j < s.len() ==> s[i] <= s[j]
}

/// Sorts reward values ascending.  The result holds exactly the given
/// values.
pub fn sort_rewards_ascending(rewards: &Vec<u64>) -> (r: Vec<u64>)
    ensures
        sorted_ascending_u64(r@),
        r@.to_multiset() == rewards@.to_multiset(),
        r@.len() == rewards@.len(),
{
    let mut rest: Vec<u64> = Vec::new();
    let mut k: usize = 0;
    while k < rewards.len()
        invariant
            k <= rewards@.len(),
            rest@ == rewards@.subrange(0, k as int),
        decreases rewards@.len() - k,
    {
        rest.push(rewards[k]);
        proof {
            assert(rest@ =~= rewards@.subrange(0, k + 1));
        }
        k = k + 1;
    }
    proof {
        assert(rest@ =~= rewards@);
        vstd::multiset::lemma_multiset_empty_len::<u64>(Seq::<u64>::empty().to_multiset());
    }
    let mut out: Vec<u64> = Vec::new();
    proof {
        vstd::multiset::lemma_multiset_empty_len::<u64>(out@.to_multiset());
        assert(out@.to_multiset().add(rest@.to_multiset()) =~= rewards@.to_multiset());
    }
    while rest.len() > 0
        invariant
            out@.to_multiset().add(rest@.to_multiset()) == rewards@.to_multiset(),
            out@.len() + rest@.len() == rewards@.len(),
            sorted_ascending_u64(out@),
            forall|a: int, b: int|
                0 <= a < out@.len() && 0 <= b < rest@.len() ==> out@[a] <= rest@[b],
        decreases rest@.len(),
    {
        let mut m: usize = 0;
        let mut j: usize = 1;
        while j < rest.len()
            invariant
                rest@.len() > 0,
                m < rest@.len(),
                j <= rest@.len(),
                forall|q: int| 0 <= q < j ==> rest@[m as int] <= #[trigger] rest@[q],
            decreases rest@.len() - j,
        {
            if rest[j] < rest[m] {
                m = j;
            }
            j = j + 1;
        }
        let ghost old_out = out@;
        let ghost old_rest = rest@;
        let p = rest.remove(m);
        out.push(p);
        proof {
            assert(old_rest.contains(p));
            assert(old_rest.to_multiset().count(p) > 0);
            assert(out@.to_multiset() =~= old_out.to_multiset().insert(p));
            assert(rest@.to_multiset() =~= old_rest.to_multiset().remove(p));
            assert(out@.to_multiset().add(rest@.to_multiset()) =~= rewards@.to_multiset());
        }
    }
    out
}

/// Scale of the fixed-point weight and curve arithmetic: values in `[0, 1]`
/// are held as integers in `[0, CURVE_SCALE]`.
pub const CURVE_SCALE: u64 = 1_000_000_000;

/// One full turn on the curve scale: `2 * pi * CURVE_SCALE`, rounded down.
pub const TWO_PI_FIXED: u64 = 6_283_185_307;

/// A quarter turn on the curve scale, rounded down.
pub const QUARTER_TURN_FIXED: u64 = 1_570_796_326;

/// The truncated exponential series `CURVE_SCALE * e^(1 / td)`, twelve
/// terms, every division rounded down.
pub open spec fn exp_series_fix(td: int) -> int {
    let t0 = CURVE_SCALE as int;
    let t1 = t0 / (td * 1);
    let t2 = t1 / (td * 2);
    let t3 = t2 / (td * 3);
    let t4 = t3 / (td * 4);
    let t5 = t4 / (td * 5);
    let t6 = t5 / (td * 6);
    let t7 = t6 / (td * 7);
    let t8 = t7 / (td * 8);
    let t9 = t8 / (td * 9);
    let t10 = t9 / (td * 10);
    let t11 = t10 / (td * 11);
    let t12 = t11 / (td * 12);
    t0 + t1 + t2 + t3 + t4 + t5 + t6 + t7 + t8 + t9 + t10 + t11 + t12
}

/// The fixed-point value of `e^(-1 / td)`: the scale squared over the
/// series for `e^(1 / td)`.
pub open spec fn exp_neg_fix(td: int) -> int {
    (CURVE_SCALE as int * CURVE_SCALE as int) / exp_series_fix(td)
}

/// Computes `e^(-1 / td)` on the curve scale: the per-block decay of the
/// exponential time weighting.
fn exp_neg_recip(td: u64) -> (r: u64)
    requires
        1 <= td <= 0x100_0000_0000,
    ensures
        r == exp_neg_fix(td as int),
        r <= CURVE_SCALE,
{
    let t0: u64 = CURVE_SCALE;
    let t1 = t0 / (td * 1);
    proof {
        vstd::arithmetic::div_mod::lemma_div_nonincreasing(t0 as int, td as int * 1);
    }
    let t2 = t1 / (td * 2);
    proof {
        vstd::arithmetic::div_mod::lemma_div_nonincreasing(t1 as int, td as int * 2);
    }
    let t3 = t2 / (td * 3);
    proof {
        vstd::arithmetic::div_mod::lemma_div_nonincreasing(t2 as int, td as int * 3);
    }
    let t4 = t3 / (td * 4);
    proof {
        vstd::arithmetic::div_mod::lemma_div_nonincreasing(t3 as int, td as int * 4);
    }
    let t5 = t4 / (td * 5);
    proof {
        vstd::arithmetic::div_mod::lemma_div_nonincreasing(t4 as int, td as int * 5);
    }
    let t6 = t5 / (td * 6);
    proof {
        vstd::arithmetic::div_mod::lemma_div_nonincreasing(t5 as int, td as int * 6);
    }
    let t7 = t6 / (td * 7);
    proof {
        vstd::arithmetic::div_mod::lemma_div_nonincreasing(t6 as int, td as int * 7);
    }
    let t8 = t7 / (td * 8);
    proof {
        vstd::arithmetic::div_mod::lemma_div_nonincreasing(t7 as int, td as int * 8);
    }
    let t9 = t8 / (td * 9);
    proof {
        vstd::arithmetic::div_mod::lemma_div_nonincreasing(t8 as int, td as int * 9);
    }
    let t10 = t9 / (td * 10);
    proof {
        vstd::arithmetic::div_mod::lemma_div_nonincreasing(t9 as int, td as int * 10);
    }
    let t11 = t10 / (td * 11);
    proof {
        vstd::arithmetic::div_mod::lemma_div_nonincreasing(t10 as int, td as int * 11);
    }
    let t12 = t11 / (td * 12);
    proof {
        vstd::arithmetic::div_mod::lemma_div_nonincreasing(t11 as int, td as int * 12);
    }
    let series: u64 = t0 + t1 + t2 + t3 + t4 + t5 + t6 + t7 + t8 + t9 + t10 + t11 + t12;
    proof {
        vstd::arithmetic::div_mod::lemma_div_is_ordered_by_denominator(
            CURVE_SCALE as int * CURVE_SCALE as int,
            CURVE_SCALE as int,
            series as int,
        );
    }
    (CURVE_SCALE * CURVE_SCALE) / series
}

/// The `k`-th power of the decay `q` on the curve scale, every
/// multiplication rounded down.
pub open spec fn pow_fix(q: int, k: nat) -> int
    decreases k,
{
    if k == 0 {
        CURVE_SCALE as int
    } else {
        pow_fix(q, (k - 1) as nat) * q / (CURVE_SCALE as int)
    }
}

/// Tabulates the powers of the decay `q` up to exponent `l - 1`.
fn pow_table(q: u64, l: usize) -> (r: Vec<u64>)
    requires
        q <= CURVE_SCALE,
        1 <= l <= MAX_HISTORY_BLOCKS,
    ensures
        r@.len() == l,
        forall|k: int| 0 <= k < l ==> #[trigger] r@[k] == pow_fix(q as int, k as nat),
        forall|k: int| 0 <= k < l ==> #[trigger] r@[k] <= CURVE_SCALE,
{
    let mut out: Vec<u64> = Vec::new();
    out.push(CURVE_SCALE);
    let mut k: usize = 1;
    while k < l
        invariant
            1 <= k <= l,
            q <= CURVE_SCALE,
            out@.len() == k,
            forall|i: int| 0 <= i < k ==> #[trigger] out@[i] == pow_fix(q as int, i as nat),
            forall|i: int| 0 <= i < k ==> #[trigger] out@[i] <= CURVE_SCALE,
        decreases l - k,
    {
        let prev = out[k - 1];
        proof {
            lemma_mul_upper_bound(prev as int, CURVE_SCALE as int, q as int, CURVE_SCALE as int);
            lemma_div_is_ordered(
                prev as int * q as int,
                CURVE_SCALE as int * CURVE_SCALE as int,
                CURVE_SCALE as int,
            );
        }
        let next: u64 = prev * q / CURVE_SCALE;
        out.push(next);
        k = k + 1;
    }
    out
}

/// The sum of the first `l` powers of the decay `q` on the curve scale.
pub open spec fn pow_sum(q: int, l: int) -> int
    decreases l,
{
    if l <= 0 {
        0
    } else {
        pow_sum(q, l - 1) + pow_fix(q, (l - 1) as nat)
    }
}

/// Sums the power table; the first entry alone contributes a full scale
/// unit, so the total is positive.
fn sum_pows(pows: &Vec<u64>, q: u64) -> (r: u128)
    requires
        1 <= pows@.len() <= MAX_HISTORY_BLOCKS,
        forall|k: int| 0 <= k < pows@.len() ==> #[trigger] pows@[k] == pow_fix(q as int, k as nat),
        forall|k: int| 0 <= k < pows@.len() ==> #[trigger] pows@[k] <= CURVE_SCALE,
    ensures
        CURVE_SCALE <= r <= pows@.len() * (CURVE_SCALE as int),
        r == pow_sum(q as int, pows@.len() as int),
{
    let mut total: u128 = 0;
    let mut k: usize = 0;
    while k < pows.len()
        invariant
            k <= pows@.len(),
            pows@.len() <= MAX_HISTORY_BLOCKS,
            forall|i: int| 0 <= i < pows@.len() ==> #[trigger] pows@[i] == pow_fix(q as int, i as nat),
            forall|i: int| 0 <= i < pows@.len() ==> #[trigger] pows@[i] <= CURVE_SCALE,
            total <= k * (CURVE_SCALE as int),
            k >= 1 ==> total >= CURVE_SCALE,
            total == pow_sum(q as int, k as int),
        decreases pows@.len() - k,
    {
        total = total + pows[k] as u128;
        k = k + 1;
    }
    total
}

/// The state of the exponentially weighted walk over the fee order, from
/// element `k` on: cumulative weight, positive and negative accumulator,
/// and the last curve value; yields the accumulators at the walk's end
/// (all elements seen, or the curve saturated).
pub open spec fn weighted_walk(
    base_fee: Seq<u128>,
    order: Seq<usize>,
    q: int,
    total: int,
    smin: int,
    smax: int,
    k: int,
    cum: int,
    pos: int,
    neg: int,
    last_curve: int,
) -> (int, int)
    decreases order.len() - k,
{
    if k < 0 || k >= order.len() {
        (pos, neg)
    } else {
        let l = base_fee.len() as int;
        let w = pow_fix(q, (l - 1 - order[k]) as nat);
        let cum2 = cum + w;
        let curve = sampling_curve_fix(100 * cum2, total, smin, smax);
        let fee = base_fee[order[k] as int] as int;
        let pos2 = if curve >= last_curve {
            pos + (curve - last_curve) * fee
        } else {
            pos
        };
        let neg2 = if curve >= last_curve {
            neg
        } else {
            neg + (last_curve - curve) * fee
        };
        if curve >= CURVE_SCALE {
            (pos2, neg2)
        } else {
            weighted_walk(base_fee, order, q, total, smin, smax, k + 1, cum2, pos2, neg2, curve)
        }
    }
}

/// The value the weighted walk yields: the clamped difference of the
/// accumulators, scaled back down to whole wei.
pub open spec fn weighted_walk_value(
    base_fee: Seq<u128>,
    order: Seq<usize>,
    q: int,
    total: int,
    params: Params,
) -> int {
    let walk = weighted_walk(
        base_fee,
        order,
        q,
        total,
        params.sample_min_percentile as int,
        params.sample_max_percentile as int,
        0,
        0,
        0,
        0,
        0,
    );
    if walk.0 > walk.1 {
        (walk.0 - walk.1) / (CURVE_SCALE as int)
    } else {
        0
    }
}

/// The truncated cosine series on the curve scale, for angles in the first
/// quarter turn: `cos(x / CURVE_SCALE)`, six terms, every division rounded
/// down.  The result may undershoot zero slightly near the quarter turn.
pub open spec fn cos_quarter_fix(x: int) -> int {
    let s = CURVE_SCALE as int;
    let x2 = x * x / s;
    let t1 = x2 / 2;
    let t2 = t1 * x2 / (12 * s);
    let t3 = t2 * x2 / (30 * s);
    let t4 = t3 * x2 / (56 * s);
    let t5 = t4 * x2 / (90 * s);
    s - t1 + t2 - t3 + t4 - t5
}

/// Computes the truncated cosine series for an angle within the first
/// quarter turn.
fn cos_quarter(x: u64) -> (r: i128)
    requires
        x <= QUARTER_TURN_FIXED,
    ensures
        r == cos_quarter_fix(x as int),
        -2 * (CURVE_SCALE as int) <= r <= 2 * (CURVE_SCALE as int),
{
    let s: u128 = CURVE_SCALE as u128;
    proof {
        lemma_mul_upper_bound(
            x as int,
            QUARTER_TURN_FIXED as int,
            x as int,
            QUARTER_TURN_FIXED as int,
        );
        lemma_cos_terms_small(x as int);
    }
    let x2: u128 = (x as u128 * x as u128) / s;
    let t1: u128 = x2 / 2;
    let t2: u128 = t1 * x2 / (12 * s);
    let t3: u128 = t2 * x2 / (30 * s);
    let t4: u128 = t3 * x2 / (56 * s);
    let t5: u128 = t4 * x2 / (90 * s);
    CURVE_SCALE as i128 - t1 as i128 + t2 as i128 - t3 as i128 + t4 as i128 - t5 as i128
}

/// The cosine series terms stay small for angles within the first quarter
/// turn, so the alternating sum stays within twice the scale.
proof fn lemma_cos_terms_small(x: int)
    requires
        0 <= x <= QUARTER_TURN_FIXED,
    ensures
        ({
            let s = CURVE_SCALE as int;
            let x2 = x * x / s;
            let t1 = x2 / 2;
            let t2 = t1 * x2 / (12 * s);
            let t3 = t2 * x2 / (30 * s);
            let t4 = t3 * x2 / (56 * s);
            let t5 = t4 * x2 / (90 * s);
            &&& 0 <= x2 <= 2_467_401_110
            &&& 0 <= t1 <= 1_233_700_555
            &&& 0 <= t2 <= 253_669_509
            &&& 0 <= t3 <= 20_863_480
            &&& 0 <= t4 <= 919_260
            &&& 0 <= t5 <= 25_202
            &&& t1 * x2 <= 8_000_000_000_000_000_000
            &&& t2 * x2 <= 8_000_000_000_000_000_000
            &&& t3 * x2 <= 8_000_000_000_000_000_000
            &&& t4 * x2 <= 8_000_000_000_000_000_000
        }),
{
    let s = CURVE_SCALE as int;
    let x2 = x * x / s;
    assert(x * x <= 2_467_401_110_467_401_110) by (nonlinear_arith)
        requires
            0 <= x <= QUARTER_TURN_FIXED,
    ;
    lemma_div_is_ordered(x * x, 2_467_401_110_467_401_110, s);
    let t1 = x2 / 2;
    lemma_mul_upper_bound(t1, 1_233_700_555, x2, 2_467_401_110);
    lemma_div_is_ordered(t1 * x2, 1_233_700_555int * 2_467_401_110, 12 * s);
    let t2 = t1 * x2 / (12 * s);
    lemma_mul_upper_bound(t2, 253_669_509, x2, 2_467_401_110);
    lemma_div_is_ordered(t2 * x2, 253_669_509int * 2_467_401_110, 30 * s);
    let t3 = t2 * x2 / (30 * s);
    lemma_mul_upper_bound(t3, 20_863_480, x2, 2_467_401_110);
    lemma_div_is_ordered(t3 * x2, 20_863_480int * 2_467_401_110, 56 * s);
    let t4 = t3 * x2 / (56 * s);
    lemma_mul_upper_bound(t4, 919_260, x2, 2_467_401_110);
    lemma_div_is_ordered(t4 * x2, 919_260int * 2_467_401_110, 90 * s);
}

/// Folds a cosine value on the curve scale into a curve value:
/// `(1 - cos) / 2`, clamped into `[0, CURVE_SCALE]` against the slight
/// overshoot of the truncated series.
pub open spec fn curve_from_cos_fix(c: int) -> int {
    let s = CURVE_SCALE as int;
    let d = if c >= s {
        0
    } else {
        s - c
    };
    let h = d / 2;
    if h > s {
        s
    } else {
        h
    }
}

/// The fixed-point angle of the turn fraction `wn / wd`, clamped to the
/// first quarter turn.
pub open spec fn quarter_angle_fix(wn: int, wd: int) -> int {
    let a = TWO_PI_FIXED as int * wn / wd;
    if a > QUARTER_TURN_FIXED as int {
        QUARTER_TURN_FIXED as int
    } else {
        a
    }
}

/// The raised-cosine sampling curve on the curve scale, for the percentile
/// `pn / pd` and the range `smin..smax`: zero at or below `smin`, one at or
/// above `smax`, and `(1 - cos((p - smin) * 2 * pi / (smax - smin))) / 2`
/// in between, evaluated by quadrant so that the quarter, half and
/// three-quarter turns are exact.
pub open spec fn sampling_curve_fix(pn: int, pd: int, smin: int, smax: int) -> int {
    let s = CURVE_SCALE as int;
    if pn <= smin * pd {
        0
    } else if pn >= smax * pd {
        s
    } else {
        let vn = pn - smin * pd;
        let vd = (smax - smin) * pd;
        if 4 * vn < vd {
            curve_from_cos_fix(cos_quarter_fix(quarter_angle_fix(vn, vd)))
        } else if 4 * vn == vd {
            s / 2
        } else if 2 * vn < vd {
            curve_from_cos_fix(-cos_quarter_fix(quarter_angle_fix(vd - 2 * vn, 2 * vd)))
        } else if 2 * vn == vd {
            s
        } else if 4 * vn < 3 * vd {
            curve_from_cos_fix(-cos_quarter_fix(quarter_angle_fix(2 * vn - vd, 2 * vd)))
        } else if 4 * vn == 3 * vd {
            s / 2
        } else {
            curve_from_cos_fix(cos_quarter_fix(quarter_angle_fix(vd - vn, vd)))
        }
    }
}

/// Folds a cosine value into a curve value, clamped into
/// `[0, CURVE_SCALE]`.
fn curve_from_cos(c: i128) -> (r: u64)
    requires
        -3 * (CURVE_SCALE as int) <= c <= 3 * (CURVE_SCALE as int),
    ensures
        r == curve_from_cos_fix(c as int),
        r <= CURVE_SCALE,
{
    if c >= CURVE_SCALE as i128 {
        0
    } else {
        let d: u128 = (CURVE_SCALE as i128 - c) as u128;
        let h = d / 2;
        if h > CURVE_SCALE as u128 {
            CURVE_SCALE
        } else {
            h as u64
        }
    }
}

/// Computes the fixed-point angle of the turn fraction `wn / wd`, clamped
/// to the first quarter turn.
fn quarter_angle(wn: u128, wd: u128) -> (r: u64)
    requires
        1 <= wd,
        wn <= 0x4000_0000_0000_0000,
        wd <= 0x4000_0000_0000_0000,
    ensures
        r == quarter_angle_fix(wn as int, wd as int),
        r <= QUARTER_TURN_FIXED,
{
    proof {
        lemma_mul_upper_bound(
            TWO_PI_FIXED as int,
            TWO_PI_FIXED as int,
            wn as int,
            0x4000_0000_0000_0000,
        );
    }
    let a: u128 = TWO_PI_FIXED as u128 * wn / wd;
    if a > QUARTER_TURN_FIXED as u128 {
        QUARTER_TURN_FIXED
    } else {
        a as u64
    }
}

/// Evaluates the raised-cosine sampling curve at the percentile `p` on the
/// curve scale: zero at or below the lower sampling percentile, one at or
/// above the upper one, and the raised cosine of the position within the
/// range in between, exact at the quarter turns.
pub fn sampling_curve(p: &Ratio, params: &Params) -> (r: u64)
    requires
        params.wf(),
        p@.wf(),
        0 <= p@.num <= 0x1_0000_0000_0000_0000,
        p@.den <= 0x40_0000_0000_0000,
    ensures
        r == sampling_curve_fix(
            p@.num,
            p@.den,
            params.sample_min_percentile as int,
            params.sample_max_percentile as int,
        ),
        r <= CURVE_SCALE,
        p@.num <= params.sample_min_percentile * p@.den ==> r == 0,
        p@.num >= params.sample_max_percentile * p@.den ==> r == CURVE_SCALE,
        4 * (p@.num - params.sample_min_percentile * p@.den) == (params.sample_max_percentile
            - params.sample_min_percentile) * p@.den ==> r == CURVE_SCALE / 2,
{
    let pn = p.num_val();
    let pd = p.den_val();
    let smin = params.sample_min_percentile as u128;
    let smax = params.sample_max_percentile as u128;
    proof {
        lemma_mul_upper_bound(smin as int, 100, pd as int, 0x40_0000_0000_0000);
        lemma_mul_upper_bound(smax as int, 100, pd as int, 0x40_0000_0000_0000);
        lemma_mul_inequality(smin as int, smax as int, pd as int);
        lemma_range_product(smin as int, smax as int, pd as int);
    }
    if pn <= smin * pd {
        return 0;
    }
    if pn >= smax * pd {
        return CURVE_SCALE;
    }
    let vn: u128 = pn - smin * pd;
    let vd: u128 = (smax - smin) * pd;
    if 4 * vn < vd {
        curve_from_cos(cos_quarter(quarter_angle(vn, vd)))
    } else if 4 * vn == vd {
        CURVE_SCALE / 2
    } else if 2 * vn < vd {
        curve_from_cos(-cos_quarter(quarter_angle(vd - 2 * vn, 2 * vd)))
    } else if 2 * vn == vd {
        CURVE_SCALE
    } else if 4 * vn < 3 * vd {
        curve_from_cos(-cos_quarter(quarter_angle(2 * vn - vd, 2 * vd)))
    } else if 4 * vn == 3 * vd {
        CURVE_SCALE / 2
    } else {
        curve_from_cos(cos_quarter(quarter_angle(vd - vn, vd)))
    }
}

/// The width of the sampling range scaled by the denominator distributes
/// over the subtraction and is positive.
proof fn lemma_range_product(smin: int, smax: int, pd: int)
    by (nonlinear_arith)
    requires
        0 <= smin < smax,
        1 <= pd,
    ensures
        (smax - smin) * pd == smax * pd - smin * pd,
        1 <= (smax - smin) * pd,
{
}

/// One step of the weighted base-fee accumulation keeps the running sum
/// below the current curve value times the current fee: the fees only grow
/// along the walk, so replacing the old bound's fee by the new one only
/// widens it.
proof fn lemma_weight_step(pos: int, neg: int, lc: int, c: int, pf: int, f: int)
    by (nonlinear_arith)
    requires
        pos - neg <= lc * pf,
        0 <= lc,
        0 <= c,
        0 <= pf <= f,
    ensures
        c >= lc ==> pos + (c - lc) * f - neg <= c * f,
        c < lc ==> pos - (neg + (lc - c) * f) <= c * f,
{
}

/// Predicts the lowest base fee to offer for the given time horizon: an
/// average of the recent base fees in the sampled percentile range of the
/// exponentially time-weighted history, walked in ascending fee order.
///
/// A zero `time_div` yields the pending block's base fee.  Otherwise the
/// result never exceeds the largest fee the walk reaches; an empty walk
/// yields zero.
pub fn predict_min_base_fee(
    base_fee: &Vec<u128>,
    order: &Vec<usize>,
    time_div: u64,
    params: &Params,
) -> (r: u128)
    requires
        params.wf(),
        time_div <= 0x100_0000_0000,
        1 <= base_fee@.len() <= MAX_HISTORY_BLOCKS,
        forall|i: int| 0 <= i < base_fee@.len() ==> #[trigger] base_fee@[i] <= 2 * MAX_FEE_WEI,
        order@.len() <= base_fee@.len(),
        indices_in_range(order@, base_fee@.len() as int),
        indices_sorted_by_fee(order@, base_fee@),
    ensures
        time_div == 0 ==> r == base_fee@[base_fee@.len() - 1],
        time_div >= 1 && order@.len() == 0 ==> r == 0,
        time_div >= 1 ==> r <= 2 * MAX_FEE_WEI,
        time_div >= 1 && order@.len() > 0 ==> r <= base_fee@[order@[order@.len() - 1] as int],
        time_div >= 1 ==> r == weighted_walk_value(
            base_fee@,
            order@,
            exp_neg_fix(time_div as int),
            pow_sum(exp_neg_fix(time_div as int), base_fee@.len() as int),
            *params,
        ),
{
    if time_div == 0 {
        return base_fee[base_fee.len() - 1];
    }
    let l = base_fee.len();
    let q = exp_neg_recip(time_div);
    let pows = pow_table(q, l);
    let total = sum_pows(&pows, q);
    let mut cum: u128 = 0;
    let mut pos: u128 = 0;
    let mut neg: u128 = 0;
    let mut last_curve: u64 = 0;
    let ghost mut prev_fee: int = 0int;
    let ghost smin = params.sample_min_percentile as int;
    let ghost smax = params.sample_max_percentile as int;
    let mut idx: usize = 0;
    while idx < order.len()
        invariant_except_break
            params.wf(),
            smin == params.sample_min_percentile as int,
            smax == params.sample_max_percentile as int,
            l == base_fee@.len(),
            1 <= l <= MAX_HISTORY_BLOCKS,
            forall|i: int| 0 <= i < base_fee@.len() ==> #[trigger] base_fee@[i] <= 2 * MAX_FEE_WEI,
            order@.len() <= l,
            indices_in_range(order@, l as int),
            indices_sorted_by_fee(order@, base_fee@),
            pows@.len() == l,
            forall|k: int| 0 <= k < l ==> #[trigger] pows@[k] <= CURVE_SCALE,
            forall|k: int| 0 <= k < l ==> #[trigger] pows@[k] == pow_fix(q as int, k as nat),
            CURVE_SCALE <= total <= l * (CURVE_SCALE as int),
            idx <= order@.len(),
            cum <= idx * 1_000_000_000,
            last_curve <= CURVE_SCALE,
            pos <= idx * 2_251_799_813_685_248_000_000_000,
            neg <= idx * 2_251_799_813_685_248_000_000_000,
            pos as int - neg as int <= last_curve * prev_fee,
            0 <= prev_fee <= 2 * MAX_FEE_WEI,
            idx > 0 ==> prev_fee == base_fee@[order@[idx - 1] as int],
            idx == 0 ==> prev_fee == 0 && last_curve == 0 && pos == 0 && neg == 0,
            idx == order@.len() && order@.len() > 0 ==> pos as int - neg as int
                <= 1_000_000_000 * base_fee@[order@[order@.len() - 1] as int],
            weighted_walk(
                base_fee@,
                order@,
                q as int,
                total as int,
                smin,
                smax,
                0,
                0,
                0,
                0,
                0,
            ) == weighted_walk(
                base_fee@,
                order@,
                q as int,
                total as int,
                smin,
                smax,
                idx as int,
                cum as int,
                pos as int,
                neg as int,
                last_curve as int,
            ),
        ensures
            order@.len() == 0 ==> pos == 0 && neg == 0,
            order@.len() > 0 ==> pos as int - neg as int <= 1_000_000_000 * base_fee@[
                order@[order@.len() - 1] as int
            ],
            weighted_walk(base_fee@, order@, q as int, total as int, smin, smax, 0, 0, 0, 0, 0)
                == (pos as int, neg as int),
        decreases order@.len() - idx,
    {
        let ghost cum0 = cum as int;
        let ghost pos0 = pos as int;
        let ghost neg0 = neg as int;
        let ghost lc0 = last_curve as int;
        let oe = order[idx];
        let w = pows[l - 1 - oe];
        cum = cum + w as u128;
        let percentile = Ratio::new(100 * cum, total);
        let curve = sampling_curve(&percentile, params);
        let fee = base_fee[oe];
        proof {
            assert(prev_fee <= fee) by {
                if idx > 0 {
                    assert(base_fee@[order@[idx - 1] as int] <= base_fee@[order@[idx as int] as int]);
                }
            }
            lemma_weight_step(
                pos as int,
                neg as int,
                last_curve as int,
                curve as int,
                prev_fee,
                fee as int,
            );
        }
        if curve >= last_curve {
            let delta: u128 = (curve - last_curve) as u128;
            proof {
                lemma_mul_upper_bound(delta as int, 1_000_000_000, fee as int, 2_251_799_813_685_248);
            }
            pos = pos + delta * fee;
        } else {
            let delta: u128 = (last_curve - curve) as u128;
            proof {
                lemma_mul_upper_bound(delta as int, 1_000_000_000, fee as int, 2_251_799_813_685_248);
            }
            neg = neg + delta * fee;
        }
        proof {
            prev_fee = fee as int;
        }
        last_curve = curve;
        if curve >= CURVE_SCALE {
            proof {
                assert(weighted_walk(
                    base_fee@,
                    order@,
                    q as int,
                    total as int,
                    smin,
                    smax,
                    idx as int,
                    cum0,
                    pos0,
                    neg0,
                    lc0,
                ) == (pos as int, neg as int));
                assert(base_fee@[order@[idx as int] as int] <= base_fee@[
                    order@[order@.len() - 1] as int
                ]);
                lemma_mul_inequality(
                    base_fee@[order@[idx as int] as int] as int,
                    base_fee@[order@[order@.len() - 1] as int] as int,
                    1_000_000_000,
                );
                lemma_mul_is_commutative(base_fee@[order@[idx as int] as int] as int, 1_000_000_000);
                lemma_mul_is_commutative(
                    base_fee@[order@[order@.len() - 1] as int] as int,
                    1_000_000_000,
                );
            }
            break ;
        }
        idx = idx + 1;
        proof {
            assert(weighted_walk(
                base_fee@,
                order@,
                q as int,
                total as int,
                smin,
                smax,
                idx - 1,
                cum0,
                pos0,
                neg0,
                lc0,
            ) == weighted_walk(
                base_fee@,
                order@,
                q as int,
                total as int,
                smin,
                smax,
                idx as int,
                cum as int,
                pos as int,
                neg as int,
                last_curve as int,
            ));
            if idx == order@.len() {
                lemma_mul_inequality(
                    last_curve as int,
                    1_000_000_000,
                    base_fee@[order@[idx - 1] as int] as int,
                );
                lemma_mul_is_commutative(last_curve as int, base_fee@[order@[idx - 1] as int] as int);
                lemma_mul_is_commutative(1_000_000_000, base_fee@[order@[idx - 1] as int] as int);
            }
        }
    }
    if pos > neg {
        let diff = pos - neg;
        proof {
            if order@.len() > 0 {
                let flast = base_fee@[order@[order@.len() - 1] as int] as int;
                lemma_div_is_ordered(diff as int, 1_000_000_000 * flast, 1_000_000_000);
                vstd::arithmetic::div_mod::lemma_div_multiples_vanish(flast, 1_000_000_000);
            }
        }
        diff / (CURVE_SCALE as u128)
    } else {
        0
    }
}

/// The base fee the weighted sampling sees at `i`: the pending block's
/// fee biased by the exact factor 9/8 (rounded down), and a full block's
/// fee replaced by its successor's, carried backward through runs of full
/// blocks.
pub open spec fn carried_base_fee(base: Seq<u128>, ratios: Seq<u32>, i: int) -> int
    decreases base.len() - i,
{
    if i < 0 || i >= base.len() {
        0
    } else if i == base.len() - 1 {
        base[i] * 9 / 8
    } else if 0 <= i < ratios.len() && ratios[i] > FULL_BLOCK_PERMILLE {
        carried_base_fee(base, ratios, i + 1)
    } else {
        base[i] as int
    }
}

/// The whole adjusted base-fee list the weighted sampling runs over.
pub open spec fn adjusted_fees(base: Seq<u128>, ratios: Seq<u32>) -> Seq<u128> {
    Seq::new(base.len(), |i: int| carried_base_fee(base, ratios, i) as u128)
}

/// The base-fee prediction for one time factor: the biased pending fee for
/// the most urgent horizon, and the exponentially weighted walk over the
/// adjusted history for every wider one.
pub open spec fn horizon_prediction(
    history: FeeHistory,
    order_used: Seq<usize>,
    time_factor: int,
    params: Params,
) -> int {
    let adjusted = adjusted_fees(history.base_fee_per_gas@, history.gas_used_ratio@);
    if time_factor <= 1 {
        adjusted[adjusted.len() - 1] as int
    } else {
        weighted_walk_value(
            adjusted,
            order_used,
            exp_neg_fix(time_factor - 1),
            pow_sum(exp_neg_fix(time_factor - 1), adjusted.len() as int),
            params,
        )
    }
}

/// The whole-wei cap of an emitted suggestion.
pub open spec fn suggestion_cap(e: EstimatedGasPrice) -> int {
    e.eip1559->0.max_fee_per_gas@.num
}

/// The whole-wei priority fee of an emitted suggestion.
pub open spec fn suggestion_tip(e: EstimatedGasPrice) -> int {
    e.eip1559->0.max_priority_fee_per_gas@.num
}

/// The largest of the first `k + 1` predictions, and zero for an empty
/// prefix: the base fee the suggestions never fall back below.
pub open spec fn max_prediction_upto(preds: Seq<int>, k: int) -> int
    decreases k + 1,
{
    if k < 0 {
        0
    } else {
        let prev = max_prediction_upto(preds, k - 1);
        if preds[k] > prev {
            preds[k]
        } else {
            prev
        }
    }
}

/// Extending the prediction sequence does not change the maxima of its
/// prefixes.
proof fn lemma_max_prediction_prefix(preds: Seq<int>, p: int, k: int)
    requires
        k < preds.len(),
    ensures
        max_prediction_upto(preds.push(p), k) == max_prediction_upto(preds, k),
    decreases k + 1,
{
    if k >= 0 {
        lemma_max_prediction_prefix(preds, p, k - 1);
    }
}

/// The emitted entry at walk step `k` carries exactly the values the
/// suggestion rule derives from the prediction prefix: the cap is the
/// running maximum prediction plus the selected priority fee, and the tip
/// adds the configured share of the distance between that maximum and this
/// step's prediction.
pub open spec fn suggestion_values_match(
    entry: (u64, EstimatedGasPrice),
    preds: Seq<int>,
    k: int,
    rewards: Seq<u64>,
    params: Params,
) -> bool {
    let selected = selected_priority(rewards, entry.0 as int, params);
    let adopted = max_prediction_upto(preds, k);
    let extra = (adopted - preds[k]) * params.extra_priority_fee_ratio@.num
        / params.extra_priority_fee_ratio@.den;
    &&& suggestion_cap(entry.1) == adopted + selected
    &&& suggestion_tip(entry.1) == selected + extra
}

/// A single emitted suggestion: no legacy price, an EIP-1559 price whose
/// base fee is the pending block's raw base fee, whole-wei maximum fields,
/// and a priority fee the maximum fee covers.
pub open spec fn suggestion_wf(e: EstimatedGasPrice, pending: int) -> bool {
    &&& e.legacy@ == Rat::from_int(0)
    &&& e.eip1559 is Some
    &&& e.eip1559->0.base_fee_per_gas@ == Rat::from_int(pending)
    &&& e.eip1559->0.max_fee_per_gas@.den == 1
    &&& e.eip1559->0.max_priority_fee_per_gas@.den == 1
    &&& 0 <= e.eip1559->0.max_priority_fee_per_gas@.num <= e.eip1559->0.max_fee_per_gas@.num
    &&& e.eip1559->0.max_fee_per_gas@.num <= MAX_Y
}

/// Produces the fee suggestion list from one cheap fee-history frame and
/// the collected reward samples: one entry per time factor, halving from
/// the configured maximum down to one, most patient horizon first.
///
/// Succeeds exactly when the frame pairs every utilization entry with a
/// base fee (one extra base fee for the pending block).  The pending base
/// fee is biased upward by the exact factor 9/8 (rounded down to whole
/// wei) and full blocks inherit their successor's base fee before the
/// weighted sampling; the emitted entries carry the frame's raw pending
/// base fee.  Each entry's cap is the largest base-fee prediction among
/// the at-most-as-patient horizons plus the selected priority fee, and its
/// tip adds the configured share of the distance between that maximum and
/// the entry's own prediction; the predictions are the weighted walk over
/// the adjusted history in ascending fee order (the order among equal fees
/// is the one freedom the contract leaves).
pub fn suggest_fee(fee_history: &FeeHistory, rewards: &Vec<u64>, params: &Params) -> (r: Result<
    Vec<(u64, EstimatedGasPrice)>,
    Error,
>)
    requires
        params.wf(),
        fee_history.wf(),
        sorted_ascending_u64(rewards@),
        forall|i: int| 0 <= i < rewards@.len() ==> #[trigger] rewards@[i] <= MAX_FEE_WEI as u64,
    ensures
        r is Ok <==> fee_history.base_fee_per_gas@.len() == fee_history.gas_used_ratio@.len() + 1,
        r is Err ==> r->Err_0 is InvalidInput,
        r is Ok ==> {
            let out = r->Ok_0@;
            let pending = fee_history.base_fee_per_gas@[fee_history.base_fee_per_gas@.len()
                - 1] as int;
            &&& out.len() >= 1
            &&& out[0].0 == 1
            &&& out[out.len() - 1].0 == params.max_time_factor
            &&& (forall|i: int, j: int| 0 <= i < j < out.len() ==> (#[trigger] out[i]).0 < (
            #[trigger] out[j]).0)
            &&& (forall|k: int| 0 <= k < out.len() - 1 ==> (#[trigger] out[k]).0 == out[k + 1].0
                / 2)
            &&& (forall|k: int| 0 <= k < out.len() ==> suggestion_wf((#[trigger] out[k]).1, pending))
            &&& (forall|i: int, j: int|
                0 <= i <= j < out.len() ==> suggestion_cap((#[trigger] out[j]).1)
                    <= suggestion_cap((#[trigger] out[i]).1))
            &&& exists|preds: Seq<int>, order_used: Seq<usize>|
                #![trigger preds.len(), order_used.len()]
                {
                    let adjusted = adjusted_fees(
                        fee_history.base_fee_per_gas@,
                        fee_history.gas_used_ratio@,
                    );
                    &&& order_used.len() == adjusted.len()
                    &&& indices_in_range(order_used, adjusted.len() as int)
                    &&& indices_sorted_by_fee(order_used, adjusted)
                    &&& indices_permutation(order_used, adjusted.len() as int)
                    &&& preds.len() == out.len()
                    &&& (forall|k: int| 0 <= k < preds.len() ==> 0 <= #[trigger] preds[k] <= 2
                        * MAX_FEE_WEI)
                    &&& (forall|k: int|
                        0 <= k < preds.len() ==> #[trigger] preds[k] == horizon_prediction(
                            *fee_history,
                            order_used,
                            out[out.len() - 1 - k].0 as int,
                            *params,
                        ))
                    &&& (forall|k: int|
                        0 <= k < out.len() ==> suggestion_values_match(
                            #[trigger] out[k],
                            preds,
                            out.len() - 1 - k,
                            rewards@,
                            *params,
                        ))
                }
        },
{
    let n_base = fee_history.base_fee_per_gas.len();
    let n_ratio = fee_history.gas_used_ratio.len();
    if n_base == 0 || n_base - 1 != n_ratio {
        return Err(
            Error::InvalidInput("base_fee_per_gas not paired with gas_used_ratio".to_owned()),
        );
    }
    // Work on a copy of the base fees; the emitted entries keep the raw
    // pending base fee.
    let mut base_fee: Vec<u128> = Vec::new();
    let mut k: usize = 0;
    while k < n_base
        invariant
            k <= n_base,
            n_base == fee_history.base_fee_per_gas@.len(),
            fee_history.wf(),
            base_fee@ == fee_history.base_fee_per_gas@.subrange(0, k as int),
        decreases n_base - k,
    {
        base_fee.push(fee_history.base_fee_per_gas[k]);
        proof {
            assert(base_fee@ =~= fee_history.base_fee_per_gas@.subrange(0, k + 1));
        }
        k = k + 1;
    }
    proof {
        assert(base_fee@ =~= fee_history.base_fee_per_gas@);
    }
    let pending_raw: u128 = base_fee[n_base - 1];
    // The pending block is assumed to end up full: bias its base fee up by
    // the exact rational 9/8, rounded down to whole wei.
    base_fee.set(n_base - 1, pending_raw * 9 / 8);
    proof {
        lemma_div_is_ordered(pending_raw as int * 9, 8 * (2 * MAX_FEE_WEI as int), 8);
        vstd::arithmetic::div_mod::lemma_div_multiples_vanish(2 * MAX_FEE_WEI as int, 8);
    }
    // If a block was full, the minimal priority fee might not get in:
    // carry its successor's base fee backward.
    let mut i: usize = n_ratio;
    while i > 0
        invariant
            i <= n_ratio,
            n_base == n_ratio + 1,
            n_base == fee_history.base_fee_per_gas@.len(),
            n_ratio == fee_history.gas_used_ratio@.len(),
            fee_history.wf(),
            base_fee@.len() == n_base,
            forall|j: int| 0 <= j < i ==> #[trigger] base_fee@[j]
                == fee_history.base_fee_per_gas@[j],
            forall|j: int|
                i <= j < n_base ==> #[trigger] base_fee@[j] == carried_base_fee(
                    fee_history.base_fee_per_gas@,
                    fee_history.gas_used_ratio@,
                    j,
                ),
            forall|j: int| 0 <= j < n_base ==> #[trigger] base_fee@[j] <= 2 * MAX_FEE_WEI,
        decreases i,
    {
        i = i - 1;
        if fee_history.gas_used_ratio[i] > FULL_BLOCK_PERMILLE {
            let succ = base_fee[i + 1];
            base_fee.set(i, succ);
        }
    }
    proof {
        assert(base_fee@ =~= adjusted_fees(
            fee_history.base_fee_per_gas@,
            fee_history.gas_used_ratio@,
        ));
    }
    let order = sort_indices_by_fee(&base_fee);
    let mut result: Vec<(u64, EstimatedGasPrice)> = Vec::new();
    let mut max_base_fee: u128 = 0;
    let mut time_factor: u64 = params.max_time_factor;
    let ghost mut prev_priority: int = 0int;
    let ghost mut prev_mbf: int = 0int;
    let ghost mut preds: Seq<int> = Seq::empty();
    while time_factor >= 1
        invariant
            params.wf(),
            fee_history.wf(),
            sorted_ascending_u64(rewards@),
            forall|q: int| 0 <= q < rewards@.len() ==> #[trigger] rewards@[q] <= MAX_FEE_WEI as u64,
            1 <= n_base <= MAX_HISTORY_BLOCKS,
            base_fee@.len() == n_base,
            forall|j: int| 0 <= j < n_base ==> #[trigger] base_fee@[j] <= 2 * MAX_FEE_WEI,
            order@.len() == n_base,
            indices_in_range(order@, n_base as int),
            indices_sorted_by_fee(order@, base_fee@),
            pending_raw <= MAX_FEE_WEI,
            time_factor <= params.max_time_factor,
            max_base_fee <= 2 * MAX_FEE_WEI,
            result@.len() == 0 <==> time_factor == params.max_time_factor,
            result@.len() > 0 ==> result@[0].0 == params.max_time_factor,
            result@.len() > 0 ==> time_factor == result@[result@.len() - 1].0 / 2,
            forall|a: int| 0 <= a < result@.len() ==> (#[trigger] result@[a]).0 > time_factor,
            forall|a: int, b: int|
                0 <= a < b < result@.len() ==> (#[trigger] result@[a]).0 > (#[trigger] result@[b]).0,
            forall|a: int|
                0 <= a < result@.len() - 1 ==> (#[trigger] result@[a + 1]).0 == result@[a].0 / 2,
            forall|a: int|
                0 <= a < result@.len() ==> suggestion_wf(
                    (#[trigger] result@[a]).1,
                    pending_raw as int,
                ),
            result@.len() > 0 ==> prev_priority == selected_priority(
                rewards@,
                result@[result@.len() - 1].0 as int,
                *params,
            ),
            result@.len() > 0 ==> prev_mbf <= max_base_fee,
            result@.len() > 0 ==> suggestion_cap(result@[result@.len() - 1].1) == prev_mbf
                + prev_priority,
            forall|a: int, b: int|
                0 <= a <= b < result@.len() ==> suggestion_cap((#[trigger] result@[a]).1)
                    <= suggestion_cap((#[trigger] result@[b]).1),
            n_base == fee_history.base_fee_per_gas@.len(),
            n_ratio == fee_history.gas_used_ratio@.len(),
            base_fee@ == adjusted_fees(
                fee_history.base_fee_per_gas@,
                fee_history.gas_used_ratio@,
            ),
            preds.len() == result@.len(),
            forall|k: int| 0 <= k < preds.len() ==> 0 <= #[trigger] preds[k] <= 2 * MAX_FEE_WEI,
            forall|k: int|
                0 <= k < preds.len() ==> #[trigger] preds[k] == horizon_prediction(
                    *fee_history,
                    order@,
                    result@[k].0 as int,
                    *params,
                ),
            max_base_fee as int == max_prediction_upto(preds, preds.len() - 1),
            forall|k: int|
                0 <= k < result@.len() ==> suggestion_values_match(
                    #[trigger] result@[k],
                    preds,
                    k,
                    rewards@,
                    *params,
                ),
        decreases time_factor,
    {
        let priority_base: u64 = suggest_priority_fee(rewards, time_factor, params);
        proof {
            if result@.len() > 0 {
                // The previous entry's (wider) horizon selected at most
                // this horizon's priority fee.
                lemma_selected_priority_monotone(
                    rewards@,
                    time_factor as int,
                    result@[result@.len() - 1].0 as int,
                    *params,
                );
            }
        }
        let predicted: u128 = predict_min_base_fee(&base_fee, &order, time_factor - 1, params);
        proof {
            let old_preds = preds;
            preds = preds.push(predicted as int);
            assert forall|k: int| 0 <= k < old_preds.len() implies max_prediction_upto(preds, k)
                == max_prediction_upto(old_preds, k) by {
                lemma_max_prediction_prefix(old_preds, predicted as int, k);
            }
        }
        let min_base_fee: u128;
        let extra_fee: u128;
        if predicted > max_base_fee {
            max_base_fee = predicted;
            min_base_fee = predicted;
            extra_fee = 0;
            proof {
                let last = preds.len() - 1;
                assert(max_prediction_upto(preds, last) == (if preds[last]
                    > max_prediction_upto(preds, last - 1) {
                    preds[last]
                } else {
                    max_prediction_upto(preds, last - 1)
                }));
                assert(max_prediction_upto(preds, last) == preds[last]);
                vstd::arithmetic::div_mod::lemma_div_of0(params.extra_priority_fee_ratio@.den);
                assert(extra_fee as int == (max_prediction_upto(preds, last) - preds[last])
                    * params.extra_priority_fee_ratio@.num
                    / params.extra_priority_fee_ratio@.den);
            }
        } else {
            // A narrower window predicting a lower base fee hints at a
            // price dip: keep the higher suggestion and offer extra
            // priority fee to get included during the dip.
            let diff = max_base_fee - predicted;
            let rn = params.extra_priority_fee_ratio.num_val();
            let rd = params.extra_priority_fee_ratio.den_val();
            proof {
                lemma_mul_upper_bound(diff as int, 2 * MAX_FEE_WEI as int, rn as int, 0x100);
                lemma_mul_inequality(rn as int, rd as int, diff as int);
                lemma_mul_is_commutative(rn as int, diff as int);
                lemma_mul_is_commutative(rd as int, diff as int);
                lemma_div_is_ordered(diff as int * rn as int, diff as int * rd as int, rd as int);
                vstd::arithmetic::div_mod::lemma_div_multiples_vanish(diff as int, rd as int);
            }
            min_base_fee = max_base_fee;
            extra_fee = diff * rn / rd;
            proof {
                let last = preds.len() - 1;
                assert(max_prediction_upto(preds, last) == (if preds[last]
                    > max_prediction_upto(preds, last - 1) {
                    preds[last]
                } else {
                    max_prediction_upto(preds, last - 1)
                }));
                assert(max_prediction_upto(preds, last) == max_base_fee as int);
                assert(extra_fee as int == (max_prediction_upto(preds, last) - preds[last])
                    * params.extra_priority_fee_ratio@.num
                    / params.extra_priority_fee_ratio@.den);
            }
        }
        proof {
            assert(min_base_fee as int == max_prediction_upto(preds, preds.len() - 1));
        }
        let priority_fee: u128 = priority_base as u128 + extra_fee;
        let max_fee: u128 = min_base_fee + priority_base as u128;
        let entry = EstimatedGasPrice {
            legacy: Ratio::from_int(0),
            eip1559: Some(
                GasPrice1559 {
                    base_fee_per_gas: Ratio::from_int(pending_raw),
                    max_fee_per_gas: Ratio::from_int(max_fee),
                    max_priority_fee_per_gas: Ratio::from_int(priority_fee),
                },
            ),
        };
        result.push((time_factor, entry));
        proof {
            prev_priority = priority_base as int;
            prev_mbf = max_base_fee as int;
        }
        time_factor = time_factor / 2;
    }
    // Reverse so that the most patient horizon (smallest fees) comes
    // first.
    let mut out: Vec<(u64, EstimatedGasPrice)> = Vec::new();
    let n_res = result.len();
    let mut j: usize = n_res;
    while j > 0
        invariant
            j <= n_res,
            n_res == result@.len(),
            out@.len() == n_res - j,
            forall|a: int| 0 <= a < out@.len() ==> #[trigger] out@[a] == result@[n_res - 1 - a],
        decreases j,
    {
        j = j - 1;
        out.push(result[j]);
    }
    proof {
        let res = result@;
        let o = out@;
        let n = res.len() as int;
        assert(n >= 1);
        assert(res[n - 1].0 == 1) by {
            assert(time_factor == 0);
            assert(time_factor == res[n - 1].0 / 2);
            assert(res[n - 1].0 > time_factor);
        }
        assert(o[0].0 == 1);
        assert(o[o.len() - 1].0 == params.max_time_factor);
        assert forall|a: int, b: int| 0 <= a < b < o.len() implies (#[trigger] o[a]).0 < (
        #[trigger] o[b]).0 by {
            assert(o[a] == res[n - 1 - a]);
            assert(o[b] == res[n - 1 - b]);
            assert(res[n - 1 - b].0 > res[n - 1 - a].0);
        }
        assert forall|c: int| 0 <= c < o.len() - 1 implies (#[trigger] o[c]).0 == o[c + 1].0
            / 2 by {
            assert(o[c] == res[n - 1 - c]);
            assert(o[c + 1] == res[n - 2 - c]);
            assert(res[(n - 2 - c) + 1].0 == res[n - 2 - c].0 / 2);
        }
        assert forall|c: int| 0 <= c < o.len() implies suggestion_wf(
            (#[trigger] o[c]).1,
            pending_raw as int,
        ) by {
            assert(o[c] == res[n - 1 - c]);
            assert(suggestion_wf(res[n - 1 - c].1, pending_raw as int));
        }
        assert forall|a: int, b: int| 0 <= a <= b < o.len() implies suggestion_cap(
            (#[trigger] o[b]).1,
        ) <= suggestion_cap((#[trigger] o[a]).1) by {
            assert(o[a] == res[n - 1 - a]);
            assert(o[b] == res[n - 1 - b]);
            assert(suggestion_cap(res[n - 1 - b].1) <= suggestion_cap(res[n - 1 - a].1));
        }
        assert forall|c: int| 0 <= c < o.len() implies suggestion_values_match(
            #[trigger] o[c],
            preds,
            o.len() - 1 - c,
            rewards@,
            *params,
        ) by {
            assert(o[c] == res[n - 1 - c]);
            assert(suggestion_values_match(res[n - 1 - c], preds, n - 1 - c, rewards@, *params));
        }
        assert forall|k: int| 0 <= k < preds.len() implies #[trigger] preds[k]
            == horizon_prediction(*fee_history, order@, o[o.len() - 1 - k].0 as int, *params) by {
            assert(o[n - 1 - k] == res[k]);
        }
    }
    Ok(out)
}

/// One priority-fee sample as the library takes it from the node: the
/// value's 64-bit low word, capped at [`MAX_FEE_WEI`] to keep later
/// arithmetic in range; zero means no sample.
pub open spec fn reward_sample(value: u128) -> u64 {
    let low = value as u64;
    if low > MAX_FEE_WEI as u64 {
        MAX_FEE_WEI as u64
    } else {
        low
    }
}

/// The positive samples among the first `count` percentiles of one reward
/// row, in percentile order.
pub open spec fn row_samples(row: Seq<u128>, count: int) -> Seq<u64>
    decreases count,
{
    if count <= 0 {
        Seq::empty()
    } else {
        let prev = row_samples(row, count - 1);
        let sample = reward_sample(row[count - 1]);
        if sample > 0 {
            prev.push(sample)
        } else {
            prev
        }
    }
}

/// The samples of the first `n` rows of a reward frame, row by row.
pub open spec fn frame_samples_upto(rows: Seq<Vec<u128>>, count: int, n: int) -> Seq<u64>
    decreases n,
{
    if n <= 0 {
        Seq::empty()
    } else {
        frame_samples_upto(rows, count, n - 1) + row_samples(rows[n - 1]@, count)
    }
}

/// The samples of a whole reward frame: for every block row, the positive
/// samples among its first `count` percentiles.
pub open spec fn frame_samples(rows: Seq<Vec<u128>>, count: int) -> Seq<u64> {
    frame_samples_upto(rows, count, rows.len() as int)
}

/// The samples of a sequence of absorbed reward frames, in absorption
/// order; each transcript entry pairs the walk position and requested
/// block count with the frame the fetch returned.
pub open spec fn transcript_samples(
    frames: Seq<(usize, usize, Vec<Vec<u128>>)>,
    count: int,
) -> Seq<u64>
    decreases frames.len(),
{
    if frames.len() == 0 {
        Seq::empty()
    } else {
        transcript_samples(frames.drop_last(), count) + frame_samples(frames.last().2@, count)
    }
}

/// Every transcript entry describes one fetched run: a non-empty batch of
/// at most five usable blocks walked backward from its position in the
/// utilization history, later entries at strictly older positions, every
/// reward row long enough for the configured percentiles.
pub open spec fn reward_transcript_wf(
    frames: Seq<(usize, usize, Vec<Vec<u128>>)>,
    ratios: Seq<u32>,
    params: Params,
) -> bool {
    &&& (forall|i: int|
        0 <= i < frames.len() ==> {
            let entry = #[trigger] frames[i];
            &&& 1 <= entry.1 <= 5
            &&& entry.1 <= entry.0 + 1
            &&& entry.0 < ratios.len()
            &&& (forall|j: int| 0 <= j < entry.1 ==> usable_block(#[trigger] ratios[entry.0 - j]))
            &&& (forall|rj: int|
                0 <= rj < entry.2@.len() ==> (#[trigger] entry.2@[rj])@.len()
                    >= params.max_reward_percentile + 1)
        })
    &&& (forall|i: int, j: int|
        0 <= i < j < frames.len() ==> (#[trigger] frames[j]).0 < (#[trigger] frames[i]).0)
}

/// Every transcript entry is an answer the fetch hook can give to its own
/// request: `block_count` blocks ending at block `first_block + position`.
pub open spec fn frames_fetched<F: Fn(u64, u64) -> Result<Option<Vec<Vec<u128>>>, Error>>(
    frames: Seq<(usize, usize, Vec<Vec<u128>>)>,
    fetch: F,
    first_block: u64,
) -> bool {
    forall|i: int|
        0 <= i < frames.len() ==> call_ensures(
            fetch,
            ((#[trigger] frames[i]).1 as u64, (first_block + frames[i].0) as u64),
            Result::<Option<Vec<Vec<u128>>>, Error>::Ok(Some(frames[i].2)),
        )
}

/// The number of blocks the first `n` transcript entries sampled.
pub open spec fn sum_block_counts(frames: Seq<(usize, usize, Vec<Vec<u128>>)>, n: int) -> int
    decreases n,
{
    if n <= 0 {
        0
    } else {
        sum_block_counts(frames, n - 1) + frames[n - 1].1
    }
}

/// Extending the transcript does not change the block counts of its
/// prefixes.
proof fn lemma_sum_block_counts_prefix(
    frames: Seq<(usize, usize, Vec<Vec<u128>>)>,
    entry: (usize, usize, Vec<Vec<u128>>),
    n: int,
)
    requires
        n <= frames.len(),
    ensures
        sum_block_counts(frames.push(entry), n) == sum_block_counts(frames, n),
    decreases n,
{
    if n > 0 {
        lemma_sum_block_counts_prefix(frames, entry, n - 1);
    }
}

/// The fetch hook can only answer well: every outcome it admits is a
/// success, and any frame it hands back carries at least `count`
/// percentiles in every reward row.
pub open spec fn fetch_only_full_frames<
    F: Fn(u64, u64) -> Result<Option<Vec<Vec<u128>>>, Error>,
>(fetch: F, count: int) -> bool {
    forall|bc: u64, hb: u64, out: Result<Option<Vec<Vec<u128>>>, Error>|
        #[trigger] call_ensures(fetch, (bc, hb), out) ==> out is Ok && (out->Ok_0 is Some
            ==> forall|rj: int|
                0 <= rj < out->Ok_0->0@.len() ==> (#[trigger] out->Ok_0->0@[rj])@.len() >= count)
}

/// Extracts the priority-fee samples of one reward frame: for every block
/// row, the positive samples among percentiles
/// `0..=max_reward_percentile`, each the node value's 64-bit low word
/// capped at [`MAX_FEE_WEI`], in row and percentile order.
///
/// Succeeds exactly when every row carries at least
/// `max_reward_percentile + 1` percentiles; a shorter row is a `Decode`
/// error.
pub fn extract_frame_samples(rows: &Vec<Vec<u128>>, params: &Params) -> (r: Result<Vec<u64>, Error>)
    requires
        params.wf(),
    ensures
        r is Ok <==> (forall|i: int|
            0 <= i < rows@.len() ==> (#[trigger] rows@[i])@.len() >= params.max_reward_percentile
                + 1),
        r is Err ==> r->Err_0 is Decode,
        r is Ok ==> r->Ok_0@ == frame_samples(rows@, params.max_reward_percentile + 1),
        r is Ok ==> forall|i: int|
            0 <= i < r->Ok_0@.len() ==> 0 < #[trigger] r->Ok_0@[i] <= MAX_FEE_WEI as u64,
{
    let count = params.max_reward_percentile + 1;
    let mut out: Vec<u64> = Vec::new();
    let mut bi: usize = 0;
    while bi < rows.len()
        invariant
            params.wf(),
            count == params.max_reward_percentile + 1,
            bi <= rows@.len(),
            forall|i: int| 0 <= i < bi ==> (#[trigger] rows@[i])@.len() >= count,
            out@ == frame_samples_upto(rows@, count as int, bi as int),
            forall|i: int| 0 <= i < out@.len() ==> 0 < #[trigger] out@[i] <= MAX_FEE_WEI as u64,
        decreases rows@.len() - bi,
    {
        let row = &rows[bi];
        if row.len() < count {
            return Err(Error::Decode("fee history reward percentiles are missing".to_owned()));
        }
        let ghost out_before = out@;
        let mut pi: usize = 0;
        while pi < count
            invariant
                params.wf(),
                count == params.max_reward_percentile + 1,
                bi < rows@.len(),
                row@ == rows@[bi as int]@,
                row@.len() >= count,
                pi <= count,
                out@ == out_before + row_samples(row@, pi as int),
                forall|i: int| 0 <= i < out@.len() ==> 0 < #[trigger] out@[i] <= MAX_FEE_WEI
                    as u64,
            decreases count - pi,
        {
            let reward_wide: u128 = row[pi];
            let reward: u64 = #[verifier::truncate] (reward_wide as u64);
            let capped: u64 = if reward > MAX_FEE_WEI as u64 {
                MAX_FEE_WEI as u64
            } else {
                reward
            };
            proof {
                assert(capped == reward_sample(reward_wide));
            }
            if capped > 0 {
                out.push(capped);
            }
            proof {
                assert(out@ =~= out_before + row_samples(row@, pi + 1));
            }
            pi = pi + 1;
        }
        proof {
            assert(out@ =~= frame_samples_upto(rows@, count as int, bi + 1));
        }
        bi = bi + 1;
    }
    proof {
        assert(out@ == frame_samples(rows@, count as int));
    }
    Ok(out)
}

/// Collects positive per-block reward samples for the priority-fee
/// percentile analysis, walking the utilization history backward in runs
/// of non-full, non-empty blocks; `fetch` performs one reward-percentile
/// fee-history request for a run, given its block count and highest block
/// number, and yields `None` when the node reports no rewards.
///
/// Sampling stops after five non-full blocks, at the history's start, at a
/// frame without rewards, or at a short frame.  On success the result
/// holds, sorted ascending, exactly the samples extracted (as
/// [`frame_samples`] states) from frames that `fetch` returned for
/// strictly-older-and-older runs of usable blocks: the first run ends at
/// the newest usable block, each run is non-empty and at most five blocks
/// ending at block `first_block + ptr` for its walk position `ptr`, and
/// each request was issued while fewer than five blocks had been sampled.
/// A history with no usable block at all asks the node nothing and
/// succeeds empty, and a fetch hook that can only answer with full frames
/// never makes the collection fail.  A reward row shorter than the
/// configured percentile count is a `Decode` error; fetch failures
/// propagate.
pub fn collect_rewards<F: Fn(u64, u64) -> Result<Option<Vec<Vec<u128>>>, Error>>(
    fetch: F,
    first_block: u64,
    gas_used_ratio: &Vec<u32>,
    params: &Params,
) -> (r: Result<Vec<u64>, Error>)
    requires
        params.wf(),
        1 <= gas_used_ratio@.len() <= MAX_HISTORY_BLOCKS,
        first_block + gas_used_ratio@.len() <= u64::MAX,
        forall|bc: u64, hb: u64| #[trigger] call_requires(fetch, (bc, hb)),
    ensures
        (forall|i: int|
            0 <= i < gas_used_ratio@.len() ==> !usable_block(#[trigger] gas_used_ratio@[i]))
            ==> r is Ok && r->Ok_0@.len() == 0,
        fetch_only_full_frames(fetch, params.max_reward_percentile + 1) ==> r is Ok,
        r is Ok ==> {
            &&& sorted_ascending_u64(r->Ok_0@)
            &&& (forall|i: int|
                0 <= i < r->Ok_0@.len() ==> 0 < #[trigger] r->Ok_0@[i] <= MAX_FEE_WEI as u64)
            &&& exists|frames: Seq<(usize, usize, Vec<Vec<u128>>)>|
                #![trigger frames.len()]
                {
                    &&& reward_transcript_wf(frames, gas_used_ratio@, *params)
                    &&& frames_fetched(frames, fetch, first_block)
                    &&& (forall|k: int|
                        0 <= k < frames.len() ==> #[trigger] sum_block_counts(frames, k) < 5)
                    &&& (frames.len() > 0 ==> forall|p: int|
                        frames[0].0 < p < gas_used_ratio@.len() ==> !usable_block(
                            #[trigger] gas_used_ratio@[p],
                        ))
                    &&& r->Ok_0@.to_multiset() == transcript_samples(
                        frames,
                        params.max_reward_percentile + 1,
                    ).to_multiset()
                }
        },
{
    let mut ptr: usize = gas_used_ratio.len() - 1;
    let mut need_blocks: usize = 5;
    let mut rewards: Vec<u64> = Vec::new();
    let ghost mut frames: Seq<(usize, usize, Vec<Vec<u128>>)> = Seq::empty();
    while need_blocks > 0
        invariant_except_break
            params.wf(),
            1 <= gas_used_ratio@.len() <= MAX_HISTORY_BLOCKS,
            first_block + gas_used_ratio@.len() <= u64::MAX,
            forall|bc: u64, hb: u64| #[trigger] call_requires(fetch, (bc, hb)),
            ptr < gas_used_ratio@.len(),
            need_blocks <= 5,
            forall|i: int| 0 <= i < rewards@.len() ==> 0 < #[trigger] rewards@[i] <= MAX_FEE_WEI
                as u64,
            reward_transcript_wf(frames, gas_used_ratio@, *params),
            frames_fetched(frames, fetch, first_block),
            forall|i: int| 0 <= i < frames.len() ==> ptr < (#[trigger] frames[i]).0,
            rewards@ == transcript_samples(frames, params.max_reward_percentile + 1),
            need_blocks == (if sum_block_counts(frames, frames.len() as int) >= 5 {
                0int
            } else {
                5 - sum_block_counts(frames, frames.len() as int)
            }),
            forall|k: int| 0 <= k < frames.len() ==> #[trigger] sum_block_counts(frames, k) < 5,
            frames.len() == 0 ==> (forall|p: int|
                ptr < p < gas_used_ratio@.len() ==> !usable_block(#[trigger] gas_used_ratio@[p])),
            frames.len() > 0 ==> (forall|p: int|
                frames[0].0 < p < gas_used_ratio@.len() ==> !usable_block(
                    #[trigger] gas_used_ratio@[p],
                )),
            (forall|i: int|
                0 <= i < gas_used_ratio@.len() ==> !usable_block(#[trigger] gas_used_ratio@[i]))
                ==> frames.len() == 0,
        ensures
            forall|i: int| 0 <= i < rewards@.len() ==> 0 < #[trigger] rewards@[i] <= MAX_FEE_WEI
                as u64,
            reward_transcript_wf(frames, gas_used_ratio@, *params),
            frames_fetched(frames, fetch, first_block),
            rewards@ == transcript_samples(frames, params.max_reward_percentile + 1),
            forall|k: int| 0 <= k < frames.len() ==> #[trigger] sum_block_counts(frames, k) < 5,
            frames.len() > 0 ==> (forall|p: int|
                frames[0].0 < p < gas_used_ratio@.len() ==> !usable_block(
                    #[trigger] gas_used_ratio@[p],
                )),
            (forall|i: int|
                0 <= i < gas_used_ratio@.len() ==> !usable_block(#[trigger] gas_used_ratio@[i]))
                ==> rewards@.len() == 0,
        decreases ptr,
    {
        let block_count = match max_block_count(gas_used_ratio, ptr, need_blocks) {
            Ok(c) => c,
            Err(e) => {
                return Err(e);
            },
        };
        proof {
            // On a history without a single usable block no run ever
            // starts, so nothing is fetched.
            if block_count > 0 {
                assert(usable_block(gas_used_ratio@[ptr - 0]));
                assert(usable_block(gas_used_ratio@[ptr as int]));
            }
        }
        if block_count > 0 {
            // Reward-percentile requests are expensive: ask only for this
            // run of recent non-full blocks.
            match fetch(block_count as u64, first_block + ptr as u64) {
                Err(e) => {
                    return Err(e);
                },
                Ok(None) => {
                    break ;
                },
                Ok(Some(reward_rows)) => {
                    let mut extracted = match extract_frame_samples(&reward_rows, params) {
                        Ok(v) => v,
                        Err(e) => {
                            return Err(e);
                        },
                    };
                    proof {
                        let old_frames = frames;
                        frames = frames.push((ptr, block_count, reward_rows));
                        assert(frames.drop_last() =~= old_frames);
                        assert(rewards@ + extracted@ =~= transcript_samples(
                            frames,
                            params.max_reward_percentile + 1,
                        ));
                        assert forall|k: int| 0 <= k <= old_frames.len() implies sum_block_counts(
                            frames,
                            k,
                        ) == sum_block_counts(old_frames, k) by {
                            lemma_sum_block_counts_prefix(
                                old_frames,
                                (ptr, block_count, reward_rows),
                                k,
                            );
                        }
                    }
                    rewards.append(&mut extracted);
                    if reward_rows.len() < block_count {
                        break ;
                    }
                    need_blocks = if need_blocks >= block_count {
                        need_blocks - block_count
                    } else {
                        0
                    };
                },
            }
        }
        if ptr < block_count + 1 {
            break ;
        }
        ptr = ptr - (block_count + 1);
    }
    let sorted_rewards = sort_rewards_ascending(&rewards);
    proof {
        lemma_reward_bounds_carry_over(rewards@, sorted_rewards@);
        assert(sorted_rewards@.to_multiset() == transcript_samples(
            frames,
            params.max_reward_percentile + 1,
        ).to_multiset());
    }
    Ok(sorted_rewards)
}

/// The reward bounds carry over to any reordering: two sequences with the
/// same multiset are bounded together.
proof fn lemma_reward_bounds_carry_over(orig: Seq<u64>, sorted_list: Seq<u64>)
    requires
        sorted_list.to_multiset() == orig.to_multiset(),
        forall|i: int| 0 <= i < orig.len() ==> 0 < #[trigger] orig[i] <= MAX_FEE_WEI as u64,
    ensures
        forall|i: int| 0 <= i < sorted_list.len() ==> 0 < #[trigger] sorted_list[i] <= MAX_FEE_WEI
            as u64,
{
    assert forall|i: int| 0 <= i < sorted_list.len() implies 0 < #[trigger] sorted_list[i]
        <= MAX_FEE_WEI as u64 by {
        assert(sorted_list.to_multiset().count(sorted_list[i]) > 0);
        assert(orig.to_multiset().count(sorted_list[i]) > 0);
        assert(orig.contains(sorted_list[i]));
        let w = choose|w: int| 0 <= w < orig.len() && orig[w] == sorted_list[i];
        assert(0 < orig[w] <= MAX_FEE_WEI as u64);
    }
}

/// The index list walks the fees in ascending fee order.
pub open spec fn indices_sorted_by_fee(order: Seq<usize>, fees: Seq<u128>) -> bool {
    forall|i: int, j: int|
        0 <= i <= j < order.len() ==> fees[(#[trigger] order[i]) as int] <= fees[
            (#[trigger] order[j]) as int
        ]
}

/// All indices address the fee list.
pub open spec fn indices_in_range(order: Seq<usize>, len: int) -> bool {
    forall|i: int| 0 <= i < order.len() ==> (#[trigger] order[i]) < len
}

/// The index sequence `0, 1, ..., n - 1`.
pub open spec fn identity_indices(n: int) -> Seq<usize> {
    Seq::new(n as nat, |i: int| i as usize)
}

/// The order holds every index of the fee list exactly once.
pub open spec fn indices_permutation(order: Seq<usize>, len: int) -> bool {
    order.to_multiset() == identity_indices(len).to_multiset()
}

/// Builds the list of indices of `fees`, ordered by ascending fee: a
/// permutation of `0..fees.len()`.
pub fn sort_indices_by_fee(fees: &Vec<u128>) -> (r: Vec<usize>)
    ensures
        r@.len() == fees@.len(),
        indices_in_range(r@, fees@.len() as int),
        indices_sorted_by_fee(r@, fees@),
        indices_permutation(r@, fees@.len() as int),
{
    let mut rest: Vec<usize> = Vec::new();
    let mut k: usize = 0;
    while k < fees.len()
        invariant
            k <= fees@.len(),
            rest@.len() == k,
            forall|i: int| 0 <= i < k ==> (#[trigger] rest@[i]) == i,
        decreases fees@.len() - k,
    {
        rest.push(k);
        k = k + 1;
    }
    proof {
        assert(rest@ =~= identity_indices(fees@.len() as int));
    }
    let mut out: Vec<usize> = Vec::new();
    proof {
        vstd::multiset::lemma_multiset_empty_len::<usize>(out@.to_multiset());
        assert(out@.to_multiset().add(rest@.to_multiset()) =~= identity_indices(
            fees@.len() as int,
        ).to_multiset());
    }
    while rest.len() > 0
        invariant
            out@.len() + rest@.len() == fees@.len(),
            out@.to_multiset().add(rest@.to_multiset()) == identity_indices(
                fees@.len() as int,
            ).to_multiset(),
            indices_in_range(out@, fees@.len() as int),
            indices_in_range(rest@, fees@.len() as int),
            indices_sorted_by_fee(out@, fees@),
            forall|a: int, b: int|
                0 <= a < out@.len() && 0 <= b < rest@.len() ==> fees@[(#[trigger] out@[a]) as int]
                    <= fees@[(#[trigger] rest@[b]) as int],
        decreases rest@.len(),
    {
        let mut m: usize = 0;
        let mut j: usize = 1;
        while j < rest.len()
            invariant
                rest@.len() > 0,
                m < rest@.len(),
                j <= rest@.len(),
                indices_in_range(rest@, fees@.len() as int),
                forall|q: int|
                    0 <= q < j ==> fees@[rest@[m as int] as int] <= fees@[
                        (#[trigger] rest@[q]) as int
                    ],
            decreases rest@.len() - j,
        {
            if fees[rest[j]] < fees[rest[m]] {
                m = j;
            }
            j = j + 1;
        }
        let ghost old_out = out@;
        let ghost old_rest = rest@;
        let p = rest.remove(m);
        out.push(p);
        proof {
            assert(old_rest.contains(p));
            assert(old_rest.to_multiset().count(p) > 0);
            assert(out@.to_multiset() =~= old_out.to_multiset().insert(p));
            assert(rest@.to_multiset() =~= old_rest.to_multiset().remove(p));
            assert(out@.to_multiset().add(rest@.to_multiset()) =~= identity_indices(
                fees@.len() as int,
            ).to_multiset());
        }
    }
    proof {
        vstd::multiset::lemma_multiset_empty_len::<usize>(rest@.to_multiset());
        assert(out@.to_multiset() =~= identity_indices(fees@.len() as int).to_multiset());
    }
    out
}

/// Largest time budget accepted by the read path (2^40 ms).
pub const MAX_TIME_LIMIT_MS: u64 = 0x100_0000_0000;

/// The most recent fee suggestion list, with the time at which it was
/// computed.  The background refresher swaps in a new list after every
/// successful computation and keeps the previous one on failure.
#[derive(Clone, Debug)]
pub struct CachedResponse {
    /// Milliseconds of the embedder's monotonic clock at which the list
    /// was computed.
    pub time: u64,
    /// Suggestions coupled with their time factor, most patient horizon
    /// first.
    pub data: Vec<(u64, EstimatedGasPrice)>,
}

impl CachedResponse {
    /// The snapshot is older than the validity window at time `now`.
    pub open spec fn is_stale(self, now: u64) -> bool {
        now > self.time + CACHED_RESPONSE_VALIDITY_MS
    }
}

/// A usable suggestion list: strictly increasing time factors within the
/// interpolator's range, and every entry an EIP-1559 suggestion whose
/// whole-wei maximum fields fit the interpolator's range with the cap
/// covering the tip.
pub open spec fn suggestions_wf(data: Seq<(u64, EstimatedGasPrice)>) -> bool {
    &&& forall|i: int, j: int|
        0 <= i < j < data.len() ==> (#[trigger] data[i]).0 < (#[trigger] data[j]).0
    &&& forall|k: int| 0 <= k < data.len() ==> {
        let e = (#[trigger] data[k]).1;
        &&& data[k].0 <= 0x100_0000_0000
        &&& e.eip1559 is Some
        &&& e.eip1559->0.max_fee_per_gas@.wf()
        &&& e.eip1559->0.max_priority_fee_per_gas@.wf()
        &&& 0 <= e.eip1559->0.max_fee_per_gas@.floor_value() <= MAX_Y
        &&& 0 <= e.eip1559->0.max_priority_fee_per_gas@.floor_value()
            <= e.eip1559->0.max_fee_per_gas@.floor_value()
    }
}

/// The maximum-fee anchor sequence of a suggestion list: time factor (as
/// seconds) against the whole-wei part of the cap.
pub open spec fn cap_anchors(data: Seq<(u64, EstimatedGasPrice)>) -> Seq<(Rat, int)> {
    Seq::new(
        data.len(),
        |i: int|
            (
                Rat { num: data[i].0 as int, den: 1 },
                data[i].1.eip1559->0.max_fee_per_gas@.floor_value(),
            ),
    )
}

/// The priority-fee anchor sequence of a suggestion list.
pub open spec fn tip_anchors(data: Seq<(u64, EstimatedGasPrice)>) -> Seq<(Rat, int)> {
    Seq::new(
        data.len(),
        |i: int|
            (
                Rat { num: data[i].0 as int, den: 1 },
                data[i].1.eip1559->0.max_priority_fee_per_gas@.floor_value(),
            ),
    )
}

/// Derives a quote from the cached suggestion list, with the embedder's
/// monotonic clock reading `now_ms`: the maximum and priority fees are
/// interpolated over the time-factor anchors at the time budget, and the
/// base fee is the shared one of the first entry.
///
/// Fails with `Stale` when the snapshot is past its validity window, with
/// `NotReady` when the list is empty, and with `InvalidInput` when it
/// holds a single entry.
pub fn estimate_with_limits(
    time_limit_ms: u64,
    cached_response: &CachedResponse,
    now_ms: u64,
) -> (r: Result<EstimatedGasPrice, Error>)
    requires
        time_limit_ms <= MAX_TIME_LIMIT_MS,
        suggestions_wf(cached_response.data@),
    ensures
        r is Ok <==> {
            &&& !cached_response.is_stale(now_ms)
            &&& cached_response.data@.len() >= 2
        },
        cached_response.is_stale(now_ms) ==> r == Result::<EstimatedGasPrice, Error>::Err(
            Error::Stale,
        ),
        !cached_response.is_stale(now_ms) && cached_response.data@.len() == 0 ==> r == Result::<
            EstimatedGasPrice,
            Error,
        >::Err(Error::NotReady),
        r is Err ==> r->Err_0 is Stale || r->Err_0 is NotReady || r->Err_0 is InvalidInput,
        !cached_response.is_stale(now_ms) && cached_response.data@.len() == 1 ==> r is Err
            && r->Err_0 is InvalidInput,
        r is Ok ==> {
            let price = r->Ok_0;
            let t = Rat { num: time_limit_ms as int, den: 1000 };
            let data = cached_response.data@;
            &&& price.legacy@ == Rat::from_int(0)
            &&& price.eip1559 is Some
            &&& is_interpolation(cap_anchors(data), t, price.eip1559->0.max_fee_per_gas@)
            &&& is_interpolation(tip_anchors(data), t, price.eip1559->0.max_priority_fee_per_gas@)
            &&& price.eip1559->0.base_fee_per_gas == data[0].1.eip1559->0.base_fee_per_gas
        },
{
    let age = if now_ms >= cached_response.time {
        now_ms - cached_response.time
    } else {
        0
    };
    if age > CACHED_RESPONSE_VALIDITY_MS {
        return Err(Error::Stale);
    }
    if cached_response.data.len() == 0 {
        return Err(Error::NotReady);
    }
    let data = &cached_response.data;
    let nd = data.len();
    let t = Ratio::new(time_limit_ms as u128, 1000);
    let mut cap_points: Vec<Point> = Vec::new();
    let mut tip_points: Vec<Point> = Vec::new();
    let mut k: usize = 0;
    while k < nd
        invariant
            k <= nd,
            nd == data@.len(),
            suggestions_wf(data@),
            cap_points@.len() == k,
            tip_points@.len() == k,
            forall|i: int|
                0 <= i < k ==> (#[trigger] cap_points@[i]).x@ == (Rat {
                    num: data@[i].0 as int,
                    den: 1,
                }) && cap_points@[i].y == data@[i].1.eip1559->0.max_fee_per_gas@.floor_value(),
            forall|i: int|
                0 <= i < k ==> (#[trigger] tip_points@[i]).x@ == (Rat {
                    num: data@[i].0 as int,
                    den: 1,
                }) && tip_points@[i].y
                    == data@[i].1.eip1559->0.max_priority_fee_per_gas@.floor_value(),
        decreases nd - k,
    {
        let entry = &data[k];
        let time_factor = entry.0;
        let price = match &entry.1.eip1559 {
            Some(eip) => *eip,
            None => {
                // Unreachable: a well-formed list holds only EIP-1559
                // suggestions.
                return Err(Error::NotReady);
            },
        };
        let x = Ratio::from_int(time_factor as u128);
        cap_points.push(Point { x, y: price.max_fee_per_gas.floor_to_int() });
        tip_points.push(Point { x, y: price.max_priority_fee_per_gas.floor_to_int() });
        k = k + 1;
    }
    proof {
        assert(anchors(cap_points@) =~= cap_anchors(data@));
        assert(anchors(tip_points@) =~= tip_anchors(data@));
        assert forall|i: int, j: int| 0 <= i <= j < data@.len() implies (Rat {
            num: (#[trigger] data@[i]).0 as int,
            den: 1,
        }).le(
            Rat { num: (#[trigger] data@[j]).0 as int, den: 1 },
        ) by {
            if i < j {
                assert(data@[i].0 < data@[j].0);
            }
        }
    }
    let max_fee_per_gas = match interpolate(&t, &cap_points) {
        Ok(v) => v,
        Err(e) => {
            return Err(e);
        },
    };
    let max_priority_fee_per_gas = match interpolate(&t, &tip_points) {
        Ok(v) => v,
        Err(e) => {
            return Err(e);
        },
    };
    let base_fee_per_gas = match &data[0].1.eip1559 {
        Some(eip) => eip.base_fee_per_gas,
        None => {
            // Unreachable: a well-formed list holds only EIP-1559
            // suggestions.
            return Err(Error::NotReady);
        },
    };
    Ok(
        EstimatedGasPrice {
            legacy: Ratio::from_int(0),
            eip1559: Some(
                GasPrice1559 {
                    base_fee_per_gas,
                    max_fee_per_gas,
                    max_priority_fee_per_gas,
                },
            ),
        },
    )
}

/// Every quote the read path derives offers a cap that covers the tip:
/// each cached suggestion's whole-wei cap covers its tip, and
/// interpolation is monotone in the y coordinate.
pub proof fn lemma_read_path_cap_covers_tip(
    data: Seq<(u64, EstimatedGasPrice)>,
    time_limit_ms: u64,
    price: EstimatedGasPrice,
)
    requires
        time_limit_ms <= MAX_TIME_LIMIT_MS,
        suggestions_wf(data),
        data.len() >= 1,
        price.eip1559 is Some,
        is_interpolation(
            cap_anchors(data),
            Rat { num: time_limit_ms as int, den: 1000 },
            price.eip1559->0.max_fee_per_gas@,
        ),
        is_interpolation(
            tip_anchors(data),
            Rat { num: time_limit_ms as int, den: 1000 },
            price.eip1559->0.max_priority_fee_per_gas@,
        ),
    ensures
        price.eip1559->0.max_priority_fee_per_gas@.le(price.eip1559->0.max_fee_per_gas@),
{
    let t = Rat { num: time_limit_ms as int, den: 1000 };
    assert forall|i: int, j: int| 0 <= i <= j < data.len() implies (
    #[trigger] cap_anchors(data)[i]).0.le((#[trigger] cap_anchors(data)[j]).0) by {
        assert(cap_anchors(data)[i].0 == (Rat { num: data[i].0 as int, den: 1 }));
        assert(cap_anchors(data)[j].0 == (Rat { num: data[j].0 as int, den: 1 }));
        if i < j {
            assert(data[i].0 < data[j].0);
        }
        assert((Rat { num: data[i].0 as int, den: 1 }).le(Rat { num: data[j].0 as int, den: 1 }));
    }
    crate::linear_interpolation::lemma_interpolation_monotone(
        tip_anchors(data),
        cap_anchors(data),
        t,
        price.eip1559->0.max_priority_fee_per_gas@,
        price.eip1559->0.max_fee_per_gas@,
    );
}

} // verus!

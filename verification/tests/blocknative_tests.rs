use gas_estimation::blocknative::{
    estimate_with_limits, BlockPrice, CachedResponse, EstimatedPrice, Response,
    CACHED_RESPONSE_VALIDITY_MS,
};
use gas_estimation::rational::Ratio;
use gas_estimation::Error;

// The vendor sample: prices in wei (the vendor reports gwei; the embedder
// multiplies by 10^9 on ingestion).
fn sample_response() -> Response {
    let entries = vec![
        entry(99, 104_000_000_000, 9_860_000_000, 199_160_000_000),
        entry(95, 99_000_000_000, 5_060_000_000, 194_350_000_000),
        entry(90, 98_000_000_000, 4_160_000_000, 193_450_000_000),
        entry(80, 97_000_000_000, 2_970_000_000, 192_270_000_000),
        entry(70, 96_000_000_000, 1_740_000_000, 191_040_000_000),
    ];
    Response {
        block_prices: vec![BlockPrice {
            estimated_prices: entries,
            base_fee_per_gas: 94_647_990_462,
        }],
    }
}

fn entry(confidence: u64, price: u128, max_priority: u128, max_fee: u128) -> EstimatedPrice {
    EstimatedPrice {
        confidence,
        price,
        max_priority_fee_per_gas: max_priority,
        max_fee_per_gas: max_fee,
    }
}

fn assert_estimate(
    time_limit_ms: u64,
    legacy: Ratio,
    max_fee: Ratio,
    max_priority: Ratio,
) {
    let cached = CachedResponse {
        time: 0,
        data: sample_response(),
    };
    let price = estimate_with_limits(time_limit_ms, &cached, 0).unwrap();
    assert!(price.legacy.same_value_as(&legacy));
    let eip = price.eip1559.unwrap();
    assert!(eip.max_fee_per_gas.same_value_as(&max_fee));
    assert!(eip.max_priority_fee_per_gas.same_value_as(&max_priority));
    assert!(eip.base_fee_per_gas.same_value_as(&Ratio::from_int(94_647_990_462)));
}

#[test]
fn estimate_with_limits_test() {
    assert_estimate(
        10_000,
        Ratio::from_int(104_000_000_000),
        Ratio::from_int(199_160_000_000),
        Ratio::from_int(9_860_000_000),
    );
    assert_estimate(
        16_000,
        Ratio::from_int(98_760_000_000),
        Ratio::from_int(194_134_000_000),
        Ratio::from_int(4_844_000_000),
    );
    assert_estimate(
        17_000,
        Ratio::from_int(97_840_000_000),
        Ratio::from_int(193_261_200_000),
        Ratio::from_int(3_969_600_000),
    );
    assert_estimate(
        19_000,
        Ratio::new(7_268_000_000_000, 75),
        Ratio::from_int(192_155_200_000),
        Ratio::from_int(2_855_200_000),
    );
    assert_estimate(
        25_000,
        Ratio::from_int(96_000_000_000),
        Ratio::from_int(191_040_000_000),
        Ratio::from_int(1_740_000_000),
    );
}

#[test]
fn estimate_clamps_outside_the_anchor_range() {
    // Below the fastest anchor (about 15.15 s) and above the slowest
    // (about 21.43 s) the quote clamps to the respective endpoint.
    assert_estimate(
        1_000,
        Ratio::from_int(104_000_000_000),
        Ratio::from_int(199_160_000_000),
        Ratio::from_int(9_860_000_000),
    );
    assert_estimate(
        100_000,
        Ratio::from_int(96_000_000_000),
        Ratio::from_int(191_040_000_000),
        Ratio::from_int(1_740_000_000),
    );
}

#[test]
fn estimate_cap_always_covers_tip() {
    let cached = CachedResponse {
        time: 0,
        data: sample_response(),
    };
    for time_limit_ms in [1_000u64, 10_000, 16_000, 18_500, 20_000, 60_000] {
        let price = estimate_with_limits(time_limit_ms, &cached, 0).unwrap();
        let eip = price.eip1559.unwrap();
        assert!(eip.max_priority_fee_per_gas.le(&eip.max_fee_per_gas));
    }
}

#[test]
fn stale_cache_is_refused() {
    let cached = CachedResponse {
        time: 1_000,
        data: sample_response(),
    };
    let now = 1_000 + CACHED_RESPONSE_VALIDITY_MS + 1;
    assert!(matches!(estimate_with_limits(10_000, &cached, now), Err(Error::Stale)));
    // At exactly the validity window the cache still serves.
    assert!(estimate_with_limits(10_000, &cached, now - 1).is_ok());
}

#[test]
fn empty_cache_is_not_ready() {
    let cached = CachedResponse {
        time: 0,
        data: Response {
            block_prices: vec![],
        },
    };
    assert!(matches!(estimate_with_limits(10_000, &cached, 0), Err(Error::NotReady)));
}

#[test]
fn single_price_is_invalid_input() {
    let cached = CachedResponse {
        time: 0,
        data: Response {
            block_prices: vec![BlockPrice {
                estimated_prices: vec![entry(99, 1, 1, 1)],
                base_fee_per_gas: 1,
            }],
        },
    };
    assert!(matches!(
        estimate_with_limits(10_000, &cached, 0),
        Err(Error::InvalidInput(_))
    ));
}

#[test]
fn unsorted_vendor_entries_are_sorted_by_confidence() {
    // The same sample with its entries shuffled must yield the same quote.
    let mut shuffled = sample_response();
    shuffled.block_prices[0].estimated_prices.swap(0, 3);
    shuffled.block_prices[0].estimated_prices.swap(1, 4);
    let cached = CachedResponse {
        time: 0,
        data: shuffled,
    };
    let price = estimate_with_limits(16_000, &cached, 0).unwrap();
    assert!(price.legacy.same_value_as(&Ratio::from_int(98_760_000_000)));
}

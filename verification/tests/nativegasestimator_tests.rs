use gas_estimation::nativegasestimator::{
    collect_rewards, estimate_with_limits, extract_frame_samples, max_block_count,
    predict_min_base_fee, sampling_curve, sort_indices_by_fee, suggest_fee, suggest_priority_fee,
    CachedResponse, FeeHistory, Params, CURVE_SCALE, MAX_FEE_WEI,
};
use gas_estimation::rational::Ratio;
use gas_estimation::Error;

fn sample_rewards() -> Vec<u64> {
    vec![
        1000000000, 1110000000, 1213318421, 1433574636, 1557989644, 1615965689, 2000000000,
        2557989644, 2910000000, 3000000000,
    ]
}

#[test]
fn sampling_curve_minimum() {
    assert_eq!(sampling_curve(&Ratio::from_int(0), &Params::default()), 0);
}

#[test]
fn sampling_curve_maximum() {
    assert_eq!(
        sampling_curve(&Ratio::from_int(100), &Params::default()),
        CURVE_SCALE
    );
}

#[test]
fn sampling_curve_expected() {
    assert_eq!(
        sampling_curve(&Ratio::from_int(15), &Params::default()),
        CURVE_SCALE / 2
    );
}

#[test]
fn sampling_curve_clamps_below_and_at_the_range_edges() {
    let params = Params::default();
    assert_eq!(sampling_curve(&Ratio::from_int(10), &params), 0);
    assert_eq!(sampling_curve(&Ratio::from_int(5), &params), 0);
    assert_eq!(sampling_curve(&Ratio::from_int(30), &params), CURVE_SCALE);
    assert_eq!(sampling_curve(&Ratio::from_int(50), &params), CURVE_SCALE);
    // Fractional percentiles work too: 15 = 10 + (30 - 10) / 4.
    assert_eq!(
        sampling_curve(&Ratio::new(30, 2), &params),
        CURVE_SCALE / 2
    );
}

#[test]
fn sampling_curve_interior_values_are_deterministic() {
    // The raised cosine evaluated in fixed point: close to the real
    // curve, and exactly reproducible.
    let params = Params::default();
    assert_eq!(sampling_curve(&Ratio::new(25, 2), &params), 146_446_609);
    assert_eq!(sampling_curve(&Ratio::from_int(14), &params), 345_491_518);
    assert_eq!(sampling_curve(&Ratio::from_int(20), &params), CURVE_SCALE);
    assert_eq!(sampling_curve(&Ratio::from_int(22), &params), 904_508_498);
    assert_eq!(sampling_curve(&Ratio::from_int(28), &params), 95_491_502);
}

#[test]
fn predict_min_base_fee_follows_the_fee_history() {
    let params = Params::default();
    let base_fee: Vec<u128> = vec![100_000_000_000, 140_000_000_000, 120_000_000_000];
    let order = sort_indices_by_fee(&base_fee);
    assert_eq!(order, vec![0, 2, 1]);
    // A zero horizon yields the pending block's base fee.
    assert_eq!(predict_min_base_fee(&base_fee, &order, 0, &params), 120_000_000_000);
    // A positive horizon averages within the sampled percentile range:
    // never above the largest fee, and reproducible.
    let wide = predict_min_base_fee(&base_fee, &order, 127, &params);
    assert!(wide <= 140_000_000_000);
    assert_eq!(wide, predict_min_base_fee(&base_fee, &order, 127, &params));
}

#[test]
fn max_block_count_test() {
    let ratios = vec![500u32, 600, 700, 600, 500, 400, 400];
    assert_eq!(max_block_count(&ratios, 3, 5).unwrap(), 4usize);
    assert_eq!(max_block_count(&ratios, 4, 5).unwrap(), 5usize);
    assert_eq!(max_block_count(&ratios, 5, 5).unwrap(), 5usize);

    let short = vec![500u32, 600, 700, 600];
    assert_eq!(max_block_count(&short, 3, 5).unwrap(), 4usize);
    assert_eq!(
        max_block_count(&short, 4, 5).unwrap_err().message(),
        "max_block_count invalid input"
    );
}

#[test]
fn max_block_count_stops_at_full_and_empty_blocks() {
    let ratios = vec![500u32, 950, 500, 500];
    assert_eq!(max_block_count(&ratios, 3, 5).unwrap(), 2usize);
    let ratios = vec![500u32, 0, 500, 500];
    assert_eq!(max_block_count(&ratios, 3, 5).unwrap(), 2usize);
}

#[test]
fn suggest_priority_fee_empty_rewards() {
    let params = Params::default();
    assert_eq!(
        suggest_priority_fee(&vec![], 1, &params),
        params.fallback_priority_fee
    );
}

#[test]
fn suggest_priority_fee_default_params() {
    let params = Params::default();
    assert_eq!(
        suggest_priority_fee(&sample_rewards(), 1, &params),
        1615967248
    );
}

#[test]
fn suggest_priority_fee_first_element() {
    let params = Params {
        min_block_percentile: 0,
        max_block_percentile: 0,
        extra_priority_fee_boost: 0,
        ..Default::default()
    };
    assert_eq!(
        suggest_priority_fee(&sample_rewards(), 1, &params),
        1000000000
    );
}

#[test]
fn suggest_priority_fee_middle_element() {
    let params = Params {
        min_block_percentile: 0,
        max_block_percentile: 50,
        extra_priority_fee_boost: 0,
        ..Default::default()
    };
    assert_eq!(
        suggest_priority_fee(&sample_rewards(), 1, &params),
        1557989644
    );
}

#[test]
fn suggest_priority_fee_last_element() {
    let params = Params {
        min_block_percentile: 0,
        max_block_percentile: 100,
        extra_priority_fee_boost: 0,
        ..Default::default()
    };
    assert_eq!(
        suggest_priority_fee(&sample_rewards(), 1, &params),
        3000000000
    );
}

#[test]
fn suggest_fee_emits_increasing_time_factors() {
    let history = FeeHistory {
        oldest_block: 100,
        base_fee_per_gas: vec![
            100_000_000_000,
            110_000_000_000,
            105_000_000_000,
            120_000_000_000,
        ],
        gas_used_ratio: vec![500, 950, 600],
        reward: None,
    };
    let fees = suggest_fee(&history, &sample_rewards(), &Params::default()).unwrap();
    // Halving from 128 down to 1 yields eight horizons, most patient first.
    let factors: Vec<u64> = fees.iter().map(|(tf, _)| *tf).collect();
    assert_eq!(factors, vec![1, 2, 4, 8, 16, 32, 64, 128]);
    for (_, price) in &fees {
        let eip = price.eip1559.unwrap();
        // All entries carry the raw pending base fee and a cap covering
        // the tip.
        assert!(eip.base_fee_per_gas.same_value_as(&Ratio::from_int(120_000_000_000)));
        assert!(eip.max_priority_fee_per_gas.le(&eip.max_fee_per_gas));
    }
    // Shorter horizons (earlier entries) never offer a lower cap.
    for pair in fees.windows(2) {
        let earlier = pair[0].1.eip1559.unwrap().max_fee_per_gas;
        let later = pair[1].1.eip1559.unwrap().max_fee_per_gas;
        assert!(later.le(&earlier));
    }
}

#[test]
fn suggest_fee_requires_paired_lengths() {
    let history = FeeHistory {
        oldest_block: 100,
        base_fee_per_gas: vec![100, 200],
        gas_used_ratio: vec![500, 600],
        reward: None,
    };
    assert!(matches!(
        suggest_fee(&history, &vec![], &Params::default()),
        Err(Error::InvalidInput(_))
    ));
}

#[test]
fn collect_rewards_gathers_sorted_positive_samples() {
    let params = Params {
        max_reward_percentile: 2,
        ..Default::default()
    };
    let fetch = |block_count: u64, highest_block: u64| {
        assert_eq!(block_count, 3);
        assert_eq!(highest_block, 102);
        Ok(Some(vec![
            vec![0u128, 5_000, 3_000],
            vec![9_000, 0, 1_000],
            vec![0, 0, 0],
        ]))
    };
    let rewards = collect_rewards(fetch, 100, &vec![500u32, 500, 500], &params).unwrap();
    assert_eq!(rewards, vec![1_000, 3_000, 5_000, 9_000]);
}

#[test]
fn extract_frame_samples_keeps_positive_capped_entries_in_order() {
    let params = Params {
        max_reward_percentile: 2,
        ..Default::default()
    };
    let huge: u128 = MAX_FEE_WEI + 7;
    let rows = vec![
        vec![0u128, 5_000, 3_000, 999_999],
        vec![huge, 0, 1_000],
    ];
    // Entries beyond the configured percentile are ignored, zeros are
    // dropped, oversized samples are capped, and order is row-major.
    let samples = extract_frame_samples(&rows, &params).unwrap();
    assert_eq!(samples, vec![5_000, 3_000, MAX_FEE_WEI as u64, 1_000]);

    let short = vec![vec![1u128, 2]];
    assert!(matches!(
        extract_frame_samples(&short, &params),
        Err(Error::Decode(_))
    ));
}

#[test]
fn collect_rewards_succeeds_empty_without_usable_blocks() {
    let params = Params::default();
    // Every block is either empty or full: nothing is ever fetched.
    let fetch = |_: u64, _: u64| -> Result<Option<Vec<Vec<u128>>>, Error> { panic!() };
    let rewards = collect_rewards(fetch, 100, &vec![0u32, 950, 0, 1000], &params).unwrap();
    assert!(rewards.is_empty());
}

#[test]
fn collect_rewards_rejects_short_reward_rows() {
    let params = Params {
        max_reward_percentile: 2,
        ..Default::default()
    };
    let fetch = |_: u64, _: u64| Ok(Some(vec![vec![5_000u128]]));
    assert!(matches!(
        collect_rewards(fetch, 100, &vec![500u32, 500, 500], &params),
        Err(Error::Decode(_))
    ));
}

#[test]
fn read_path_interpolates_cached_suggestions() {
    let history = FeeHistory {
        oldest_block: 100,
        base_fee_per_gas: vec![
            100_000_000_000,
            110_000_000_000,
            105_000_000_000,
            120_000_000_000,
        ],
        gas_used_ratio: vec![500, 950, 600],
        reward: None,
    };
    let fees = suggest_fee(&history, &sample_rewards(), &Params::default()).unwrap();
    let cached = CachedResponse {
        time: 0,
        data: fees,
    };
    let price = estimate_with_limits(4_000, &cached, 0).unwrap();
    let eip = price.eip1559.unwrap();
    assert!(eip.base_fee_per_gas.same_value_as(&Ratio::from_int(120_000_000_000)));
    // The stale and empty cases fail as prescribed.
    assert!(matches!(
        estimate_with_limits(4_000, &cached, 120_000),
        Err(Error::Stale)
    ));
    let empty = CachedResponse {
        time: 0,
        data: vec![],
    };
    assert!(matches!(estimate_with_limits(4_000, &empty, 0), Err(Error::NotReady)));
}

use gas_estimation::gasnow::{
    estimate_with_limits, CachedResponse, Response, ResponseData, RATE_LIMIT_MS,
};
use gas_estimation::rational::Ratio;
use gas_estimation::Error;
use gas_estimation::GasNowGasStation;

fn panic_fetch() -> Result<Response, Error> {
    panic!()
}

#[test]
fn interpolates() {
    let data = ResponseData {
        rapid: 4,
        fast: 3,
        standard: 2,
        slow: 1,
    };
    let result = estimate_with_limits(0, 20_000, &data).unwrap();
    assert!(Ratio::from_int(3).lt(&result.legacy) && result.legacy.lt(&Ratio::from_int(4)));
}

#[test]
fn cache_works_ok() {
    let mut gasnow = GasNowGasStation::new();
    let now = 0u64;
    let response = Response {
        code: 0,
        data: ResponseData {
            rapid: 0,
            fast: 0,
            standard: 0,
            slow: 0,
        },
    };

    // insert value into cache
    gasnow
        .gas_price_with_cache(now, || Ok(response))
        .unwrap();
    // panic_fetch isn't called
    assert_eq!(
        gasnow.gas_price_with_cache(now, panic_fetch).unwrap(),
        response
    );

    // cache gets updated after expiry
    let now = now + RATE_LIMIT_MS;
    let response = Response {
        code: 1,
        data: ResponseData {
            rapid: 0,
            fast: 0,
            standard: 0,
            slow: 0,
        },
    };
    assert_eq!(
        gasnow
            .gas_price_with_cache(now, || Ok(response))
            .unwrap(),
        response
    );
    assert_eq!(
        gasnow.gas_price_with_cache(now, panic_fetch).unwrap(),
        response
    );
}

#[test]
fn cache_remembers_error() {
    let mut gasnow = GasNowGasStation::new();
    let now = 0u64;

    assert!(gasnow
        .gas_price_with_cache(now, || Err(Error::Upstream(String::new())))
        .is_err());
    // panic_fetch isn't called
    assert!(gasnow.gas_price_with_cache(now, panic_fetch).is_err());
}

#[test]
fn does_not_panic_if_now_is_old() {
    let mut gasnow = GasNowGasStation::new();
    let now = 0u64;
    gasnow.last_response = Some(CachedResponse {
        time: now + 1_000,
        data: None,
    });
    gasnow.gas_price_with_cache(now, panic_fetch).unwrap_err();
}

#[test]
fn refresher_isolation_keeps_last_good_response() {
    // A fetch failure after a successful fetch is not seen by readers
    // while the good response is within the rate-limit window.
    let mut gasnow = GasNowGasStation::new();
    let response = Response {
        code: 7,
        data: ResponseData {
            rapid: 4_000_000_000,
            fast: 3_000_000_000,
            standard: 2_000_000_000,
            slow: 1_000_000_000,
        },
    };
    gasnow.gas_price_with_cache(0, || Ok(response)).unwrap();
    let seen = gasnow.gas_price_with_cache(100, panic_fetch).unwrap();
    assert_eq!(seen, response);
    // After expiry the next failure is cached and surfaces as an error.
    assert!(gasnow
        .gas_price_with_cache(RATE_LIMIT_MS, || Err(Error::Upstream(String::new())))
        .is_err());
    assert!(gasnow
        .gas_price_with_cache(RATE_LIMIT_MS + 1, panic_fetch)
        .is_err());
}

#[test]
fn estimate_with_limits_uses_cached_tiers() {
    let mut gasnow = GasNowGasStation::new();
    let response = Response {
        code: 0,
        data: ResponseData {
            rapid: 4_000_000_000,
            fast: 3_000_000_000,
            standard: 2_000_000_000,
            slow: 1_000_000_000,
        },
    };
    let price = gasnow
        .estimate_with_limits(21_000, 15_000, 0, || Ok(response))
        .unwrap();
    // At the rapid anchor exactly, the rapid price is quoted.
    assert!(price.legacy.same_value_as(&Ratio::from_int(4_000_000_000)));
    assert!(price.eip1559.is_none());
}

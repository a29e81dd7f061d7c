use gas_estimation::priority::first_success;
use gas_estimation::rational::Ratio;
use gas_estimation::Error;
use gas_estimation::EstimatedGasPrice;

fn quote(legacy_wei: u128) -> EstimatedGasPrice {
    EstimatedGasPrice {
        legacy: Ratio::from_int(legacy_wei),
        eip1559: None,
    }
}

#[test]
fn falls_back_to_the_first_successful_estimator() {
    let results = vec![
        Err(Error::Upstream("first failed".to_string())),
        Ok(quote(42)),
        Ok(quote(7)),
    ];
    let r = first_success(results).unwrap();
    assert!(r.legacy.same_value_as(&Ratio::from_int(42)));
}

#[test]
fn surfaces_the_last_error_when_all_fail() {
    let results: Vec<Result<EstimatedGasPrice, Error>> = vec![
        Err(Error::Upstream("first failed".to_string())),
        Err(Error::Stale),
    ];
    assert!(matches!(first_success(results), Err(Error::Stale)));
}

#[test]
fn no_estimators_is_its_own_error() {
    assert!(matches!(first_success(vec![]), Err(Error::NoEstimators)));
}

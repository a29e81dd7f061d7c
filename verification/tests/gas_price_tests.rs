use gas_estimation::rational::Ratio;
use gas_estimation::GasPrice1559;

fn price(base: Ratio, max_fee: Ratio, max_priority: Ratio) -> GasPrice1559 {
    GasPrice1559 {
        base_fee_per_gas: base,
        max_fee_per_gas: max_fee,
        max_priority_fee_per_gas: max_priority,
    }
}

#[test]
fn bump_and_ceil() {
    let gas_price = price(Ratio::from_int(0), Ratio::from_int(2), Ratio::from_int(3));

    let gas_price_bumped = price(Ratio::from_int(0), Ratio::new(9, 4), Ratio::new(27, 8));

    let gas_price_bumped_and_ceiled = price(Ratio::from_int(0), Ratio::from_int(3), Ratio::from_int(4));

    let factor = Ratio::new(9, 8);
    assert!(gas_price.bump(&factor).same_price(&gas_price_bumped));
    assert!(gas_price.bump(&factor).ceil().same_price(&gas_price_bumped_and_ceiled));
}

#[test]
fn ceil_is_idempotent_after_bump() {
    let gas_price = price(Ratio::from_int(0), Ratio::from_int(2), Ratio::from_int(3));
    let once = gas_price.bump(&Ratio::new(9, 8)).ceil();
    let twice = once.ceil();
    assert!(once.same_price(&twice));
}

#[test]
fn limit_cap_only_max_fee_capped() {
    let gas_price = price(Ratio::from_int(0), Ratio::from_int(5), Ratio::from_int(3));

    let gas_price_capped = price(Ratio::from_int(0), Ratio::from_int(4), Ratio::from_int(3));

    assert!(gas_price.limit_cap(&Ratio::from_int(4)).same_price(&gas_price_capped));
}

#[test]
fn limit_cap_max_fee_and_max_priority_capped() {
    let gas_price = price(Ratio::from_int(0), Ratio::from_int(5), Ratio::from_int(3));

    let gas_price_capped = price(Ratio::from_int(0), Ratio::from_int(2), Ratio::from_int(2));

    assert!(gas_price.limit_cap(&Ratio::from_int(2)).same_price(&gas_price_capped));
}

#[test]
fn estimate_eip1559() {
    let effective = price(Ratio::from_int(2), Ratio::from_int(10), Ratio::from_int(5))
        .effective_gas_price();
    assert!(effective.same_value_as(&Ratio::from_int(7)));

    let effective = price(Ratio::from_int(2), Ratio::from_int(10), Ratio::from_int(8))
        .effective_gas_price();
    assert!(effective.same_value_as(&Ratio::from_int(10)));

    let effective = price(Ratio::from_int(2), Ratio::from_int(10), Ratio::from_int(10))
        .effective_gas_price();
    assert!(effective.same_value_as(&Ratio::from_int(10)));
}

#[test]
fn validate_accepts_exactly_the_eip1559_rules() {
    let valid = price(Ratio::from_int(2), Ratio::from_int(10), Ratio::from_int(5));
    assert!(valid.is_valid());
    assert!(valid.validate().is_ok());

    let tip_above_cap = price(Ratio::from_int(2), Ratio::from_int(4), Ratio::from_int(5));
    assert!(!tip_above_cap.is_valid());
    assert!(tip_above_cap.validate().is_err());

    let base_above_cap = price(Ratio::from_int(20), Ratio::from_int(10), Ratio::from_int(5));
    assert!(!base_above_cap.is_valid());
    assert!(base_above_cap.validate().is_err());
}

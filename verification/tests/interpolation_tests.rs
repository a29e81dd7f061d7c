use gas_estimation::eth_node;
use gas_estimation::linear_interpolation::{interpolate, Point};
use gas_estimation::rational::Ratio;
use gas_estimation::Error;

fn points(anchors: &[(u128, u128)]) -> Vec<Point> {
    anchors
        .iter()
        .map(|(x, y)| Point {
            x: Ratio::from_int(*x),
            y: *y,
        })
        .collect()
}

#[test]
fn blends_between_the_bracketing_anchors() {
    let pts = points(&[(1, 10), (3, 30)]);
    let v = interpolate(&Ratio::from_int(2), &pts).unwrap();
    assert!(v.same_value_as(&Ratio::from_int(20)));
    // A quarter of the way: 1.5 -> 15.
    let v = interpolate(&Ratio::new(3, 2), &pts).unwrap();
    assert!(v.same_value_as(&Ratio::from_int(15)));
}

#[test]
fn clamps_to_the_endpoints() {
    let pts = points(&[(10, 100), (20, 200)]);
    let below = interpolate(&Ratio::from_int(1), &pts).unwrap();
    assert!(below.same_value_as(&Ratio::from_int(100)));
    let above = interpolate(&Ratio::from_int(50), &pts).unwrap();
    assert!(above.same_value_as(&Ratio::from_int(200)));
}

#[test]
fn descending_values_blend_exactly() {
    let pts = points(&[(10, 300), (20, 100)]);
    let v = interpolate(&Ratio::from_int(15), &pts).unwrap();
    assert!(v.same_value_as(&Ratio::from_int(200)));
}

#[test]
fn fewer_than_two_points_is_invalid_input() {
    let one = points(&[(10, 100)]);
    assert!(matches!(
        interpolate(&Ratio::from_int(1), &one),
        Err(Error::InvalidInput(_))
    ));
    let none = points(&[]);
    assert!(matches!(
        interpolate(&Ratio::from_int(1), &none),
        Err(Error::InvalidInput(_))
    ));
}

#[test]
fn raising_anchor_values_never_lowers_the_blend() {
    let low = points(&[(10, 100), (20, 150), (30, 120)]);
    let high = points(&[(10, 110), (20, 180), (30, 120)]);
    for t in [5u128, 12, 20, 25, 40] {
        let vl = interpolate(&Ratio::from_int(t), &low).unwrap();
        let vh = interpolate(&Ratio::from_int(t), &high).unwrap();
        assert!(vl.le(&vh));
    }
}

#[test]
fn node_answer_becomes_the_legacy_quote() {
    let price = eth_node::estimate_with_limits(21_000, 30_000, 55_000_000_000);
    assert!(price.legacy.same_value_as(&Ratio::from_int(55_000_000_000)));
    assert!(price.eip1559.is_none());
}

#[test]
fn error_messages_name_their_condition() {
    assert_eq!(Error::Stale.message(), "cached response is stale");
    assert_eq!(Error::NotReady.message(), "no cached data exist");
    assert_eq!(
        Error::Upstream("transport failed".to_string()).message(),
        "transport failed"
    );
}

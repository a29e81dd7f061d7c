use gas_estimation::gasnow::ResponseData;
use gas_estimation::gasnow_websocket::{ErrorReporting, LogErrorReporter, SocketEvent, SocketState};
use gas_estimation::rational::Ratio;
use gas_estimation::Error;
use gas_estimation::GasNowWebSocketGasStation;

fn tiers() -> ResponseData {
    ResponseData {
        rapid: 4_000_000_000,
        fast: 3_000_000_000,
        standard: 2_000_000_000,
        slow: 1_000_000_000,
    }
}

#[test]
fn default_reporter_accepts_every_error() {
    let reporter = LogErrorReporter;
    reporter.report_error(Error::ConnectionTimeOut);
    reporter.report_error(Error::StreamFailure("connection reset".to_string()));
}

#[test]
fn reader_is_not_ready_before_the_first_update() {
    let gas = GasNowWebSocketGasStation::new(20_000);
    assert!(matches!(
        gas.estimate_with_limits(21_000, 15_000, 0),
        Err(Error::NotReady)
    ));
}

#[test]
fn reader_sees_stored_update_until_it_ages_out() {
    let mut gas = GasNowWebSocketGasStation::new(20_000);
    let step = gas.handle_socket_event(
        SocketState::Streaming,
        SocketEvent::UpdateReceived(tiers()),
        1_000,
    );
    assert_eq!(step.next_state, SocketState::Streaming);
    assert!(step.report.is_none());
    assert!(!step.reconnect);

    let price = gas.estimate_with_limits(21_000, 15_000, 2_000).unwrap();
    assert!(price.legacy.same_value_as(&Ratio::from_int(4_000_000_000)));

    // Within the maximum update age the update still serves; past it the
    // reader sees Stale.
    assert!(gas.estimate_with_limits(21_000, 15_000, 21_000).is_ok());
    assert!(matches!(
        gas.estimate_with_limits(21_000, 15_000, 21_001),
        Err(Error::Stale)
    ));
}

#[test]
fn connect_failures_reconnect_and_report() {
    let mut gas = GasNowWebSocketGasStation::new(20_000);
    let step = gas.handle_socket_event(SocketState::Connecting, SocketEvent::ConnectTimedOut, 0);
    assert_eq!(step.next_state, SocketState::Connecting);
    assert_eq!(step.report, Some(Error::ConnectionTimeOut));
    assert!(step.reconnect);

    let step = gas.handle_socket_event(
        SocketState::Connecting,
        SocketEvent::ConnectFailed("refused".to_string()),
        0,
    );
    assert_eq!(step.report, Some(Error::ConnectionFailure("refused".to_string())));
    assert!(step.reconnect);

    let step = gas.handle_socket_event(SocketState::Connecting, SocketEvent::Connected, 0);
    assert_eq!(step.next_state, SocketState::Streaming);
    assert!(step.report.is_none());
    assert!(!step.reconnect);
}

#[test]
fn stream_failures_reconnect_and_undecodable_payloads_do_not() {
    let mut gas = GasNowWebSocketGasStation::new(20_000);
    let step = gas.handle_socket_event(SocketState::Streaming, SocketEvent::ReceiveTimedOut, 0);
    assert_eq!(step.report, Some(Error::StreamTimeOut));
    assert!(step.reconnect);

    let step = gas.handle_socket_event(SocketState::Streaming, SocketEvent::StreamClosed, 0);
    assert!(step.report.is_none());
    assert!(step.reconnect);

    let step = gas.handle_socket_event(
        SocketState::Streaming,
        SocketEvent::StreamFailed("reset".to_string()),
        0,
    );
    assert_eq!(step.report, Some(Error::StreamFailure("reset".to_string())));
    assert!(step.reconnect);

    let step = gas.handle_socket_event(
        SocketState::Streaming,
        SocketEvent::UndecodablePayload("not json".to_string()),
        0,
    );
    assert_eq!(step.next_state, SocketState::Streaming);
    assert_eq!(step.report, Some(Error::JsonDecodeFailed("not json".to_string())));
    assert!(!step.reconnect);

    let step = gas.handle_socket_event(SocketState::Streaming, SocketEvent::UnexpectedMessage, 0);
    assert_eq!(step.next_state, SocketState::Streaming);
    assert!(step.report.is_none());
    assert!(!step.reconnect);
}

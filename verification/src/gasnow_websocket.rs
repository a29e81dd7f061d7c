//! Estimator over a streaming WebSocket feed of tier prices.
//!
//! The embedding program owns the socket; this module holds the station's
//! state (the last update received), the reconnect state machine's
//! decisions, and the read path.  When an estimate is requested the most
//! recently received update is used, unless it is older than the
//! configured maximum age.

use std::io::Write;

use vstd::prelude::*;

use crate::gas_price::EstimatedGasPrice;
use crate::gasnow::{response_data_wf, tier_anchors, ResponseData, MAX_TIME_LIMIT_MS};
use crate::linear_interpolation::is_interpolation;
use crate::rational::Rat;

pub use crate::Error;

verus! {

/// Milliseconds to wait before reconnecting after a failure.
pub const RECONNECT_INTERVAL_MS: u64 = 15_000;

/// The connection phase of the background task.
#[derive(Clone, Copy, Debug, PartialEq, Eq, Structural)]
pub enum SocketState {
    /// The task is trying to open the socket and subscribe.
    Connecting,
    /// The socket is open and updates are expected.
    Streaming,
}

/// One event the background task observes on the socket.
#[derive(Clone, Debug)]
pub enum SocketEvent {
    /// Opening the socket took longer than the maximum update age.
    ConnectTimedOut,
    /// Opening the socket failed; the payload describes the failure.
    ConnectFailed(String),
    /// The socket is open.
    Connected,
    /// No message arrived within the maximum update age.
    ReceiveTimedOut,
    /// The server closed the stream cleanly.
    StreamClosed,
    /// Reading the stream failed; the payload describes the failure.
    StreamFailed(String),
    /// A decodable tier-price update arrived.
    UpdateReceived(ResponseData),
    /// A JSON message arrived that is not a tier-price update.
    UnexpectedMessage,
    /// A payload arrived that is not JSON; the payload describes it.
    UndecodablePayload(String),
}

/// What the background task does after handling an event: report the
/// error, if any, to the error reporter, and reconnect after the
/// reconnect interval instead of continuing, when told so.
#[derive(Clone, Debug)]
pub struct SocketStep {
    /// The connection phase to continue in.
    pub next_state: SocketState,
    /// An error to hand to the error reporter.
    pub report: Option<Error>,
    /// Close the socket, wait the reconnect interval, and connect anew.
    pub reconnect: bool,
}

/// One received update, with the time it arrived.
#[derive(Clone, Copy, Debug)]
pub struct StoredUpdate {
    /// Milliseconds of the embedder's monotonic clock at which the update
    /// arrived.
    pub received_at_ms: u64,
    /// The update itself.
    pub data: ResponseData,
}

/// The station's view of the subscription: the most recent update, shared
/// between the background task and any number of readers.
#[derive(Clone, Debug)]
pub struct GasNowWebSocketGasStation {
    /// Oldest acceptable update age, in milliseconds; also the connect and
    /// receive timeout of the background task.
    pub max_update_age_ms: u64,
    /// The last update, once one has arrived.
    pub last_update: Option<StoredUpdate>,
}

impl GasNowWebSocketGasStation {
    /// Whatever update the station holds fits the interpolator's range.
    pub open spec fn wf(self) -> bool {
        self.last_update is Some ==> response_data_wf(self.last_update->0.data)
    }

    /// A station that has not received any update yet.
    pub fn new(max_update_age_ms: u64) -> (r: GasNowWebSocketGasStation)
        ensures
            r.max_update_age_ms == max_update_age_ms,
            r.last_update is None,
            r.wf(),
    {
        GasNowWebSocketGasStation { max_update_age_ms, last_update: None }
    }

    /// Applies one socket event at time `now_ms`: stores a decodable
    /// update, decides the next connection phase, and names the error to
    /// report, exactly as the reconnect protocol prescribes.
    pub fn handle_socket_event(&mut self, state: SocketState, event: SocketEvent, now_ms: u64) -> (r:
        SocketStep)
        requires
            old(self).wf(),
            event is UpdateReceived ==> response_data_wf(event->UpdateReceived_0),
        ensures
            final(self).wf(),
            final(self).max_update_age_ms == old(self).max_update_age_ms,
            event is UpdateReceived ==> final(self).last_update == Some(
                StoredUpdate { received_at_ms: now_ms, data: event->UpdateReceived_0 },
            ),
            !(event is UpdateReceived) ==> final(self).last_update == old(self).last_update,
            event is ConnectTimedOut ==> r == (SocketStep {
                next_state: SocketState::Connecting,
                report: Some(Error::ConnectionTimeOut),
                reconnect: true,
            }),
            event is ConnectFailed ==> r == (SocketStep {
                next_state: SocketState::Connecting,
                report: Some(Error::ConnectionFailure(event->ConnectFailed_0)),
                reconnect: true,
            }),
            event is Connected ==> r == (SocketStep {
                next_state: SocketState::Streaming,
                report: None::<Error>,
                reconnect: false,
            }),
            event is ReceiveTimedOut ==> r == (SocketStep {
                next_state: SocketState::Connecting,
                report: Some(Error::StreamTimeOut),
                reconnect: true,
            }),
            event is StreamClosed ==> r == (SocketStep {
                next_state: SocketState::Connecting,
                report: None::<Error>,
                reconnect: true,
            }),
            event is StreamFailed ==> r == (SocketStep {
                next_state: SocketState::Connecting,
                report: Some(Error::StreamFailure(event->StreamFailed_0)),
                reconnect: true,
            }),
            event is UpdateReceived ==> r == (SocketStep {
                next_state: SocketState::Streaming,
                report: None::<Error>,
                reconnect: false,
            }),
            event is UnexpectedMessage ==> r == (SocketStep {
                next_state: state,
                report: None::<Error>,
                reconnect: false,
            }),
            event is UndecodablePayload ==> r == (SocketStep {
                next_state: state,
                report: Some(Error::JsonDecodeFailed(event->UndecodablePayload_0)),
                reconnect: false,
            }),
    {
        match event {
            SocketEvent::ConnectTimedOut => SocketStep {
                next_state: SocketState::Connecting,
                report: Some(Error::ConnectionTimeOut),
                reconnect: true,
            },
            SocketEvent::ConnectFailed(detail) => SocketStep {
                next_state: SocketState::Connecting,
                report: Some(Error::ConnectionFailure(detail)),
                reconnect: true,
            },
            SocketEvent::Connected => SocketStep {
                next_state: SocketState::Streaming,
                report: None,
                reconnect: false,
            },
            SocketEvent::ReceiveTimedOut => SocketStep {
                next_state: SocketState::Connecting,
                report: Some(Error::StreamTimeOut),
                reconnect: true,
            },
            SocketEvent::StreamClosed => SocketStep {
                next_state: SocketState::Connecting,
                report: None,
                reconnect: true,
            },
            SocketEvent::StreamFailed(detail) => SocketStep {
                next_state: SocketState::Connecting,
                report: Some(Error::StreamFailure(detail)),
                reconnect: true,
            },
            SocketEvent::UpdateReceived(data) => {
                self.last_update = Some(StoredUpdate { received_at_ms: now_ms, data });
                SocketStep {
                    next_state: SocketState::Streaming,
                    report: None,
                    reconnect: false,
                }
            },
            SocketEvent::UnexpectedMessage => SocketStep {
                next_state: state,
                report: None,
                reconnect: false,
            },
            SocketEvent::UndecodablePayload(payload) => SocketStep {
                next_state: state,
                report: Some(Error::JsonDecodeFailed(payload)),
                reconnect: false,
            },
        }
    }

    /// Derives a quote from the most recent update at time `now_ms`.
    ///
    /// Fails with `NotReady` before the first update and with `Stale` when
    /// the last update is older than the maximum update age; succeeds
    /// otherwise, with the tier interpolation of the stored update.
    pub fn estimate_with_limits(&self, gas_limit: u64, time_limit_ms: u64, now_ms: u64) -> (r:
        Result<EstimatedGasPrice, Error>)
        requires
            self.wf(),
            time_limit_ms <= MAX_TIME_LIMIT_MS,
        ensures
            self.last_update is None ==> r == Result::<EstimatedGasPrice, Error>::Err(
                Error::NotReady,
            ),
            self.last_update is Some && now_ms > self.last_update->0.received_at_ms
                + self.max_update_age_ms ==> r == Result::<EstimatedGasPrice, Error>::Err(
                Error::Stale,
            ),
            r is Ok <==> self.last_update is Some && now_ms <= self.last_update->0.received_at_ms
                + self.max_update_age_ms,
            r is Ok ==> {
                &&& r->Ok_0.eip1559 is None
                &&& is_interpolation(
                    tier_anchors(self.last_update->0.data),
                    Rat { num: time_limit_ms as int, den: 1000 },
                    r->Ok_0.legacy@,
                )
            },
    {
        match &self.last_update {
            None => Err(Error::NotReady),
            Some(update) => {
                let age = if now_ms >= update.received_at_ms {
                    now_ms - update.received_at_ms
                } else {
                    0
                };
                if age > self.max_update_age_ms {
                    Err(Error::Stale)
                } else {
                    crate::gasnow::estimate_with_limits(gas_limit, time_limit_ms, &update.data)
                }
            },
        }
    }
}

/// A trait for configuring error reporting for the WebSocket gas
/// estimator.
pub trait ErrorReporting: Send + Sync {
    /// Handles one error observed by the background task.
    fn report_error(&self, err: Error);
}

/// The default error reporter: writes the error's description to the
/// standard error stream.
pub struct LogErrorReporter;

impl ErrorReporting for LogErrorReporter {
    fn report_error(&self, err: Error) {
        let message = err.message();
        log_warning(message.as_str());
    }
}

/// Relies on std::io::Stderr::write_fmt (through writeln): writes the line
/// to the standard error stream, best effort.
#[verifier::external_body]
fn log_warning(message: &str) {
    let _ = writeln!(std::io::stderr(), "{}", message);
}

} // verus!

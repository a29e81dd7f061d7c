//! Gas price estimation for blockchain transactions supporting both legacy
//! (single-price) and EIP-1559 (base-fee + priority-fee) pricing.
//!
//! Monetary amounts are held exactly: a gas price is a non-negative rational
//! number of wei ([`rational::Ratio`]), so every derived quote (interpolation
//! between anchor points, bumping by a factor, rounding up) is computed without
//! loss.  Durations are milliseconds.  All network transports are injected by
//! the embedding program; the estimator cores in this crate work on plain
//! values and cached snapshots.

use vstd::prelude::*;

pub mod blocknative;
pub mod eth_node;
pub mod gas_price;
pub mod gasnow;
pub mod gasnow_websocket;
pub mod linear_interpolation;
pub mod nativegasestimator;
pub mod priority;
pub mod rational;

pub use gas_price::EstimatedGasPrice;
pub use gas_price::GasPrice1559;
pub use gasnow::GasNowGasStation;
pub use gasnow_websocket::GasNowWebSocketGasStation;

verus! {

/// Gas amount assumed for an estimate when the caller gives none.
pub const DEFAULT_GAS_LIMIT: u64 = 21000;

/// Time budget in milliseconds assumed for an estimate when the caller gives none.
pub const DEFAULT_TIME_LIMIT_MS: u64 = 30_000;

/// Unified error type for every estimator's read path.
#[derive(Clone, Debug, PartialEq)]
pub enum Error {
    /// A transport or RPC request failed; the payload describes the failure.
    Upstream(String),
    /// A payload was malformed; the payload describes the failure.
    Decode(String),
    /// The cached snapshot is older than its validity window.
    Stale,
    /// No snapshot has been cached yet.
    NotReady,
    /// An input failed validation; the payload describes the failure.
    InvalidInput(String),
    /// The priority aggregator holds no estimators.
    NoEstimators,
    /// The WebSocket timed out establishing a connection to the remote service.
    ConnectionTimeOut,
    /// An unexpected error occurred connecting to the remote service.
    ConnectionFailure(String),
    /// The WebSocket message stream timed out.
    StreamTimeOut,
    /// An unexpected error occurred reading the WebSocket message stream.
    StreamFailure(String),
    /// An error occurred decoding the JSON gas update data.
    JsonDecodeFailed(String),
}

impl Error {
    /// The description of the error, for display by the embedding program.
    pub open spec fn message_view(self) -> Seq<char> {
        match self {
            Error::Upstream(s) => s@,
            Error::Decode(s) => s@,
            Error::Stale => "cached response is stale"@,
            Error::NotReady => "no cached data exist"@,
            Error::InvalidInput(s) => s@,
            Error::NoEstimators => "no estimators configured"@,
            Error::ConnectionTimeOut => "websocket connect timed out"@,
            Error::ConnectionFailure(s) => s@,
            Error::StreamTimeOut => "websocket stream timed out"@,
            Error::StreamFailure(s) => s@,
            Error::JsonDecodeFailed(s) => s@,
        }
    }

    /// Yields the description of the error as an owned string.
    pub fn message(&self) -> (r: String)
        ensures
            r@ == self.message_view(),
    {
        match self {
            Error::Upstream(s) => s.clone(),
            Error::Decode(s) => s.clone(),
            Error::Stale => "cached response is stale".to_owned(),
            Error::NotReady => "no cached data exist".to_owned(),
            Error::InvalidInput(s) => s.clone(),
            Error::NoEstimators => "no estimators configured".to_owned(),
            Error::ConnectionTimeOut => "websocket connect timed out".to_owned(),
            Error::ConnectionFailure(s) => s.clone(),
            Error::StreamTimeOut => "websocket stream timed out".to_owned(),
            Error::StreamFailure(s) => s.clone(),
            Error::JsonDecodeFailed(s) => s.clone(),
        }
    }
}

} // verus!

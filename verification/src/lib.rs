//! Change detection and publication throttling for prediction-market
//! probability time series.
//!
//! The library keeps an append-only store of timestamped probability
//! observations per market, resolves "about an hour / a day / a week ago"
//! comparison points for each market, scores the resulting moves with a
//! duration-weighted significance, and decides whether the single most
//! newsworthy move may be announced, enforcing a significance floor, a
//! dedup window over past announcements, and a minimum silence interval.
//!
//! Probabilities are held as basis points (`0 ..= 10_000` standing for
//! `0.0 ..= 1.0`) and instants as unix seconds, so that every rule is a
//! statement about plain integers.

pub mod change;
pub mod model;
pub mod platforms;

pub use change::Change;
pub use change::DiffDuration;
pub use model::MarketId;
pub use model::Model;
pub use model::Observation;
pub use platforms::Manifold;
pub use platforms::MarketStatus;
pub use platforms::Metaculus;
pub use platforms::Platform;
pub use platforms::Polymarket;

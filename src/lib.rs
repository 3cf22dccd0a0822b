//! Correlation-token authorization handshake and starred-item language
//! statistics: the decisions of the service, proved with Verus.
//!
//! Network, cache and HTTP framework work happens around this library; the
//! flows in `flow` say which outside action comes next and what the caller
//! receives for each outside outcome.

pub mod error;
pub mod aggregate;
pub mod pagination;
pub mod store;
pub mod token;
pub mod flow;

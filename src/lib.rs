//! Engine of a slow-connection load generator: it holds many partial HTTP
//! connections, decides each tick which ones need a keep-alive drip and which
//! a liveness probe, retires dead ones and admits new ones under a cap.
//!
//! All socket work happens outside the library: callers perform the actions
//! the engine asks for and hand the outcomes back as plain values.

pub mod stats;
pub mod pool;
pub mod config;
pub mod laws;

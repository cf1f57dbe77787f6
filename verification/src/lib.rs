//! Supervisor and metrics library for a Divoom LED-display companion app.
//!
//! The heart of the crate is the sidecar process supervisor and the
//! multi-source metrics fallback: decision logic is verified here, while
//! the surrounding process is expected to perform the actual I/O (network
//! probes, process spawning, hardware queries) and feed the observed
//! results back in as plain values.

pub mod devices;
pub mod json;
pub mod models;
pub mod metrics;
pub mod paths;
pub mod sensors;
pub mod sidecar;
pub mod supervisor;
pub mod util;

use vstd::prelude::*;

verus! {

/// Fixed local port on which the sidecar's liveness/metrics endpoint listens.
pub const LIVENESS_PORT: u16 = 8765;

} // verus!

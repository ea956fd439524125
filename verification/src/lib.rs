//! Captive-portal access-control gateway: the request-phase state machine,
//! client identity resolution, the secret-based authorization handshake, and
//! the firewall grant lifecycle, with contracts on every decision.

use vstd::prelude::*;

pub mod text;
pub mod secret;
pub mod url;
pub mod config;
pub mod http;
pub mod firewall;
pub mod neighbor;
pub mod engine;
pub mod leases;
pub mod device_config;
pub mod lifeline;

verus! {

/// Length of the per-process session secret, in characters.
pub const SECRET_LENGTH: usize = 16;

} // verus!

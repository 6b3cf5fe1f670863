//! Core of a peer-to-peer LAN file-transfer endpoint speaking the LocalSend
//! wire protocol, versions 1.0 and 2.0.
//!
//! The library holds the verified logic: protocol data types and their JSON
//! codec, the route resolver, the discovery bookkeeping, the session state
//! machines of the receive and send engines, and the file classifier.
//! Network and disk I/O live outside, in the surrounding application.
use vstd::prelude::*;

pub mod device;
pub mod dto;
pub mod files;
pub mod json;
pub mod outside;
pub mod prompt;
pub mod receive;
pub mod scanner;
pub mod route;
pub mod send;
pub mod server;
pub mod text;

verus! {

/// Protocol version string of version 2.
pub fn protocol_version_2() -> (r: &'static str)
    ensures
        r@ == "2.0"@,
{
    "2.0"
}

/// Protocol version string of version 1, also the fallback for
/// unrecognized versions.
pub fn protocol_version_1() -> (r: &'static str)
    ensures
        r@ == "1.0"@,
{
    "1.0"
}

/// Default multicast group for discovery.
pub fn default_multicast() -> (r: &'static str)
    ensures
        r@ == "224.0.0.167"@,
{
    "224.0.0.167"
}

/// Default port of the protocol, used both for multicast discovery and as
/// the fallback peer port when a DTO does not carry one.
pub const DEFAULT_PORT: u16 = 53317;

/// Default port of the HTTP endpoint.
pub const DEFAULT_HTTP_PORT: u16 = 53318;

} // verus!

//! Addresses of the other end.

use vstd::prelude::*;

verus! {

/// An IP address, as the number that its bytes spell.
#[derive(Clone, Copy, Debug, PartialEq, Eq, Structural)]
pub enum IpAddress {
    V4(u32),
    V6(u128),
}

/// A UDP endpoint.
#[derive(Clone, Copy, Debug, PartialEq, Eq, Structural)]
pub struct PeerAddr {
    pub ip: IpAddress,
    pub port: u16,
    /// Zero for version 4 addresses.
    pub flow_info: u32,
    /// Zero for version 4 addresses.
    pub scope_id: u32,
}

} // verus!

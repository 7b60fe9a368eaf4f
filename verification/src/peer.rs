//! Peer addresses.

use vstd::prelude::*;

verus! {

/// The network address of a connected peer, as plain integers: the IP
/// address as one number, its first octet highest, and the port.
#[derive(Clone, Copy, Debug, PartialEq, Eq, Structural, Hash)]
pub enum PeerAddr {
    /// An IPv4 address and a port.
    V4(u32, u16),
    /// An IPv6 address and a port.
    V6(u128, u16),
}

} // verus!

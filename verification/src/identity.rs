//! Structured client identity: the source address and port of a
//! datagram, used directly as the session-table key.
use vstd::prelude::*;

verus! {

/// A client's source IP address, held as plain integers so that
/// equality in contracts is equality of the underlying octets.
#[derive(Clone, Copy, PartialEq, Eq, Hash, Structural, Debug)]
pub enum IpModel {
    /// An IPv4 address as its 32-bit big-endian integer value.
    V4(u32),
    /// An IPv6 address as its 128-bit big-endian integer value.
    V6(u128),
}

/// The network identity of one remote client: source IP and source
/// port. At most one live session exists per identity at any time.
#[derive(Clone, Copy, PartialEq, Eq, Hash, Structural, Debug)]
pub struct ClientIdentity {
    pub ip: IpModel,
    pub port: u16,
}

impl ClientIdentity {
    /// Builds an identity from an IPv4 address and a port.
    pub fn v4(addr: u32, port: u16) -> (r: ClientIdentity)
        ensures
            r == (ClientIdentity { ip: IpModel::V4(addr), port: port }),
    {
        ClientIdentity { ip: IpModel::V4(addr), port }
    }

    /// Builds an identity from an IPv6 address and a port.
    pub fn v6(addr: u128, port: u16) -> (r: ClientIdentity)
        ensures
            r == (ClientIdentity { ip: IpModel::V6(addr), port: port }),
    {
        ClientIdentity { ip: IpModel::V6(addr), port }
    }
}

} // verus!

//! Plain data carried between the decode pipeline, the header views and the
//! echo correlator.

use vstd::prelude::*;

verus! {

/// A six-octet link-layer hardware address.
#[derive(Clone, Copy, PartialEq, Eq, Structural, Debug)]
pub struct MacAddress {
    pub o0: u8,
    pub o1: u8,
    pub o2: u8,
    pub o3: u8,
    pub o4: u8,
    pub o5: u8,
}

/// A four-octet network-layer address.
#[derive(Clone, Copy, PartialEq, Eq, Structural, Debug)]
pub struct Ipv4Address {
    pub o0: u8,
    pub o1: u8,
    pub o2: u8,
    pub o3: u8,
}

/// The correlation key of one ICMP echo exchange: no two live probes share
/// one at any instant.
#[derive(Clone, Copy, PartialEq, Eq, Structural, Debug)]
pub struct EchoIdentity {
    pub identifier: u16,
    pub sequence: u16,
}

/// The protocol layer a decode stage runs at, or the raw tag of one it does
/// not know.
#[derive(Clone, Copy, PartialEq, Eq, Structural, Debug)]
pub enum ProtocolLayer {
    Ethernet,
    Ipv4,
    Icmp,
    Unknown(u16),
}

/// Why a header could not be read.
#[derive(Clone, Copy, PartialEq, Eq, Structural, Debug)]
pub enum HeaderError {
    /// The buffer is shorter than the header needs.
    Truncated,
    /// The header is internally inconsistent, such as a declared length that
    /// exceeds the buffer.
    Malformed,
}

} // verus!

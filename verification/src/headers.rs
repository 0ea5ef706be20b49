//! Bounds-checked views over the Ethernet, IPv4 and ICMP headers embedded in
//! a raw byte buffer. Every accessor checks the buffer's length against the
//! header's minimum size and answers `Truncated` where the read would pass
//! the end; nothing here panics.

use vstd::prelude::*;

use crate::types::{EchoIdentity, HeaderError, Ipv4Address, MacAddress};

verus! {

/// Destination MAC, source MAC and ethertype.
pub const ETHERNET_MIN_LEN: usize = 14;

/// Twenty fixed bytes; the header-length field may declare more.
pub const IPV4_MIN_LEN: usize = 20;

/// Type, code, checksum, and for echo variants identifier and sequence.
pub const ICMP_MIN_LEN: usize = 8;

pub const ETHERTYPE_IPV4: u16 = 0x0800;

pub const IP_PROTO_ICMP: u8 = 1;

pub const ICMP_TYPE_ECHO_REPLY: u8 = 0;

pub const ICMP_TYPE_ECHO_REQUEST: u8 = 8;

/// The 16-bit big-endian word at offset `i`.
pub open spec fn be16(b: Seq<u8>, i: int) -> u16
    recommends
        0 <= i,
        i + 1 < b.len(),
{
    (b[i] * 256 + b[i + 1]) as u16
}

pub open spec fn spec_eth_destination(b: Seq<u8>) -> MacAddress {
    MacAddress { o0: b[0], o1: b[1], o2: b[2], o3: b[3], o4: b[4], o5: b[5] }
}

pub open spec fn spec_eth_source(b: Seq<u8>) -> MacAddress {
    MacAddress { o0: b[6], o1: b[7], o2: b[8], o3: b[9], o4: b[10], o5: b[11] }
}

pub open spec fn spec_eth_ethertype(b: Seq<u8>) -> u16 {
    be16(b, 12)
}

/// Destination hardware address of an Ethernet frame: the first six bytes.
pub fn eth_destination(frame: &[u8]) -> (r: Result<MacAddress, HeaderError>)
    ensures
        frame@.len() >= ETHERNET_MIN_LEN ==> r == Ok::<MacAddress, HeaderError>(
            spec_eth_destination(frame@),
        ),
        frame@.len() < ETHERNET_MIN_LEN ==> r == Err::<MacAddress, HeaderError>(
            HeaderError::Truncated,
        ),
{
    if frame.len() < ETHERNET_MIN_LEN {
        Err(HeaderError::Truncated)
    } else {
        Ok(
            MacAddress {
                o0: frame[0],
                o1: frame[1],
                o2: frame[2],
                o3: frame[3],
                o4: frame[4],
                o5: frame[5],
            },
        )
    }
}

/// Source hardware address of an Ethernet frame: bytes six to eleven.
pub fn eth_source(frame: &[u8]) -> (r: Result<MacAddress, HeaderError>)
    ensures
        frame@.len() >= ETHERNET_MIN_LEN ==> r == Ok::<MacAddress, HeaderError>(
            spec_eth_source(frame@),
        ),
        frame@.len() < ETHERNET_MIN_LEN ==> r == Err::<MacAddress, HeaderError>(
            HeaderError::Truncated,
        ),
{
    if frame.len() < ETHERNET_MIN_LEN {
        Err(HeaderError::Truncated)
    } else {
        Ok(
            MacAddress {
                o0: frame[6],
                o1: frame[7],
                o2: frame[8],
                o3: frame[9],
                o4: frame[10],
                o5: frame[11],
            },
        )
    }
}

/// Ethertype of an Ethernet frame: the big-endian word at offset twelve.
pub fn eth_ethertype(frame: &[u8]) -> (r: Result<u16, HeaderError>)
    ensures
        frame@.len() >= ETHERNET_MIN_LEN ==> r == Ok::<u16, HeaderError>(
            spec_eth_ethertype(frame@),
        ),
        frame@.len() < ETHERNET_MIN_LEN ==> r == Err::<u16, HeaderError>(HeaderError::Truncated),
{
    if frame.len() < ETHERNET_MIN_LEN {
        Err(HeaderError::Truncated)
    } else {
        Ok((frame[12] as u16) * 256 + (frame[13] as u16))
    }
}

pub open spec fn spec_ipv4_version(b: Seq<u8>) -> u8 {
    b[0] / 16
}

/// The header length the packet declares, in bytes: the low nibble of the
/// first byte times four.
pub open spec fn spec_ipv4_header_len(b: Seq<u8>) -> int {
    (b[0] % 16) * 4
}

pub open spec fn spec_ipv4_total_length(b: Seq<u8>) -> u16 {
    be16(b, 2)
}

pub open spec fn spec_ipv4_protocol(b: Seq<u8>) -> u8 {
    b[9]
}

pub open spec fn spec_ipv4_source(b: Seq<u8>) -> Ipv4Address {
    Ipv4Address { o0: b[12], o1: b[13], o2: b[14], o3: b[15] }
}

pub open spec fn spec_ipv4_destination(b: Seq<u8>) -> Ipv4Address {
    Ipv4Address { o0: b[16], o1: b[17], o2: b[18], o3: b[19] }
}

/// The checked header length: `Truncated` under twenty available bytes,
/// `Malformed` where the declared length is shorter than twenty or longer
/// than the buffer.
pub open spec fn spec_ipv4_header_len_checked(b: Seq<u8>) -> Result<usize, HeaderError> {
    if b.len() < IPV4_MIN_LEN {
        Err(HeaderError::Truncated)
    } else if spec_ipv4_header_len(b) < IPV4_MIN_LEN || spec_ipv4_header_len(b) > b.len() {
        Err(HeaderError::Malformed)
    } else {
        Ok(spec_ipv4_header_len(b) as usize)
    }
}

/// Version nibble of an IPv4 packet.
pub fn ipv4_version(packet: &[u8]) -> (r: Result<u8, HeaderError>)
    ensures
        packet@.len() >= IPV4_MIN_LEN ==> r == Ok::<u8, HeaderError>(spec_ipv4_version(packet@)),
        packet@.len() < IPV4_MIN_LEN ==> r == Err::<u8, HeaderError>(HeaderError::Truncated),
{
    if packet.len() < IPV4_MIN_LEN {
        Err(HeaderError::Truncated)
    } else {
        Ok(packet[0] / 16)
    }
}

/// Declared header length of an IPv4 packet in bytes, rejected where it is
/// shorter than the fixed part or passes the end of the buffer.
pub fn ipv4_header_len(packet: &[u8]) -> (r: Result<usize, HeaderError>)
    ensures
        r == spec_ipv4_header_len_checked(packet@),
{
    if packet.len() < IPV4_MIN_LEN {
        Err(HeaderError::Truncated)
    } else {
        let declared: usize = ((packet[0] % 16) as usize) * 4;
        if declared < IPV4_MIN_LEN || declared > packet.len() {
            Err(HeaderError::Malformed)
        } else {
            Ok(declared)
        }
    }
}

/// Total length field of an IPv4 packet: header and payload together.
pub fn ipv4_total_length(packet: &[u8]) -> (r: Result<u16, HeaderError>)
    ensures
        packet@.len() >= IPV4_MIN_LEN ==> r == Ok::<u16, HeaderError>(
            spec_ipv4_total_length(packet@),
        ),
        packet@.len() < IPV4_MIN_LEN ==> r == Err::<u16, HeaderError>(HeaderError::Truncated),
{
    if packet.len() < IPV4_MIN_LEN {
        Err(HeaderError::Truncated)
    } else {
        Ok((packet[2] as u16) * 256 + (packet[3] as u16))
    }
}

/// Next-level-protocol byte of an IPv4 packet.
pub fn ipv4_protocol(packet: &[u8]) -> (r: Result<u8, HeaderError>)
    ensures
        packet@.len() >= IPV4_MIN_LEN ==> r == Ok::<u8, HeaderError>(spec_ipv4_protocol(packet@)),
        packet@.len() < IPV4_MIN_LEN ==> r == Err::<u8, HeaderError>(HeaderError::Truncated),
{
    if packet.len() < IPV4_MIN_LEN {
        Err(HeaderError::Truncated)
    } else {
        Ok(packet[9])
    }
}

/// Source address of an IPv4 packet.
pub fn ipv4_source(packet: &[u8]) -> (r: Result<Ipv4Address, HeaderError>)
    ensures
        packet@.len() >= IPV4_MIN_LEN ==> r == Ok::<Ipv4Address, HeaderError>(
            spec_ipv4_source(packet@),
        ),
        packet@.len() < IPV4_MIN_LEN ==> r == Err::<Ipv4Address, HeaderError>(
            HeaderError::Truncated,
        ),
{
    if packet.len() < IPV4_MIN_LEN {
        Err(HeaderError::Truncated)
    } else {
        Ok(Ipv4Address { o0: packet[12], o1: packet[13], o2: packet[14], o3: packet[15] })
    }
}

/// Destination address of an IPv4 packet.
pub fn ipv4_destination(packet: &[u8]) -> (r: Result<Ipv4Address, HeaderError>)
    ensures
        packet@.len() >= IPV4_MIN_LEN ==> r == Ok::<Ipv4Address, HeaderError>(
            spec_ipv4_destination(packet@),
        ),
        packet@.len() < IPV4_MIN_LEN ==> r == Err::<Ipv4Address, HeaderError>(
            HeaderError::Truncated,
        ),
{
    if packet.len() < IPV4_MIN_LEN {
        Err(HeaderError::Truncated)
    } else {
        Ok(Ipv4Address { o0: packet[16], o1: packet[17], o2: packet[18], o3: packet[19] })
    }
}

pub open spec fn spec_icmp_type(b: Seq<u8>) -> u8 {
    b[0]
}

pub open spec fn spec_icmp_code(b: Seq<u8>) -> u8 {
    b[1]
}

pub open spec fn spec_icmp_checksum(b: Seq<u8>) -> u16 {
    be16(b, 2)
}

pub open spec fn spec_icmp_identity(b: Seq<u8>) -> EchoIdentity {
    EchoIdentity { identifier: be16(b, 4), sequence: be16(b, 6) }
}

/// Type byte of an ICMP message.
pub fn icmp_type(message: &[u8]) -> (r: Result<u8, HeaderError>)
    ensures
        message@.len() >= ICMP_MIN_LEN ==> r == Ok::<u8, HeaderError>(spec_icmp_type(message@)),
        message@.len() < ICMP_MIN_LEN ==> r == Err::<u8, HeaderError>(HeaderError::Truncated),
{
    if message.len() < ICMP_MIN_LEN {
        Err(HeaderError::Truncated)
    } else {
        Ok(message[0])
    }
}

/// Code byte of an ICMP message.
pub fn icmp_code(message: &[u8]) -> (r: Result<u8, HeaderError>)
    ensures
        message@.len() >= ICMP_MIN_LEN ==> r == Ok::<u8, HeaderError>(spec_icmp_code(message@)),
        message@.len() < ICMP_MIN_LEN ==> r == Err::<u8, HeaderError>(HeaderError::Truncated),
{
    if message.len() < ICMP_MIN_LEN {
        Err(HeaderError::Truncated)
    } else {
        Ok(message[1])
    }
}

/// Checksum field of an ICMP message, read big-endian.
pub fn icmp_checksum(message: &[u8]) -> (r: Result<u16, HeaderError>)
    ensures
        message@.len() >= ICMP_MIN_LEN ==> r == Ok::<u16, HeaderError>(
            spec_icmp_checksum(message@),
        ),
        message@.len() < ICMP_MIN_LEN ==> r == Err::<u16, HeaderError>(HeaderError::Truncated),
{
    if message.len() < ICMP_MIN_LEN {
        Err(HeaderError::Truncated)
    } else {
        Ok((message[2] as u16) * 256 + (message[3] as u16))
    }
}

/// Identifier and sequence number of an ICMP echo message.
pub fn icmp_identity(message: &[u8]) -> (r: Result<EchoIdentity, HeaderError>)
    ensures
        message@.len() >= ICMP_MIN_LEN ==> r == Ok::<EchoIdentity, HeaderError>(
            spec_icmp_identity(message@),
        ),
        message@.len() < ICMP_MIN_LEN ==> r == Err::<EchoIdentity, HeaderError>(
            HeaderError::Truncated,
        ),
{
    if message.len() < ICMP_MIN_LEN {
        Err(HeaderError::Truncated)
    } else {
        Ok(
            EchoIdentity {
                identifier: (message[4] as u16) * 256 + (message[5] as u16),
                sequence: (message[6] as u16) * 256 + (message[7] as u16),
            },
        )
    }
}

/// The buffer with one byte replaced and everything else kept.
pub open spec fn with_byte(b: Seq<u8>, i: int, value: u8) -> Seq<u8> {
    b.update(i, value)
}

/// The buffer with a big-endian word written at offset `i`.
pub open spec fn with_be16(b: Seq<u8>, i: int, value: u16) -> Seq<u8> {
    b.update(i, (value / 256) as u8).update(i + 1, (value % 256) as u8)
}

/// Writes the type byte of an ICMP message in place.
pub fn icmp_set_type(message: &mut Vec<u8>, value: u8) -> (r: Result<(), HeaderError>)
    ensures
        old(message)@.len() >= ICMP_MIN_LEN ==> r == Ok::<(), HeaderError>(()) && final(message)@
            == with_byte(old(message)@, 0, value),
        old(message)@.len() < ICMP_MIN_LEN ==> r == Err::<(), HeaderError>(HeaderError::Truncated)
            && final(message)@ == old(message)@,
{
    if message.len() < ICMP_MIN_LEN {
        Err(HeaderError::Truncated)
    } else {
        message[0] = value;
        Ok(())
    }
}

/// Writes the code byte of an ICMP message in place.
pub fn icmp_set_code(message: &mut Vec<u8>, value: u8) -> (r: Result<(), HeaderError>)
    ensures
        old(message)@.len() >= ICMP_MIN_LEN ==> r == Ok::<(), HeaderError>(()) && final(message)@
            == with_byte(old(message)@, 1, value),
        old(message)@.len() < ICMP_MIN_LEN ==> r == Err::<(), HeaderError>(HeaderError::Truncated)
            && final(message)@ == old(message)@,
{
    if message.len() < ICMP_MIN_LEN {
        Err(HeaderError::Truncated)
    } else {
        message[1] = value;
        Ok(())
    }
}

/// Writes the identifier of an ICMP echo message in place, big-endian.
pub fn icmp_set_identifier(message: &mut Vec<u8>, value: u16) -> (r: Result<(), HeaderError>)
    ensures
        old(message)@.len() >= ICMP_MIN_LEN ==> r == Ok::<(), HeaderError>(()) && final(message)@
            == with_be16(old(message)@, 4, value),
        old(message)@.len() < ICMP_MIN_LEN ==> r == Err::<(), HeaderError>(HeaderError::Truncated)
            && final(message)@ == old(message)@,
{
    if message.len() < ICMP_MIN_LEN {
        Err(HeaderError::Truncated)
    } else {
        message[4] = (value / 256) as u8;
        message[5] = (value % 256) as u8;
        Ok(())
    }
}

/// Writes the sequence number of an ICMP echo message in place, big-endian.
pub fn icmp_set_sequence(message: &mut Vec<u8>, value: u16) -> (r: Result<(), HeaderError>)
    ensures
        old(message)@.len() >= ICMP_MIN_LEN ==> r == Ok::<(), HeaderError>(()) && final(message)@
            == with_be16(old(message)@, 6, value),
        old(message)@.len() < ICMP_MIN_LEN ==> r == Err::<(), HeaderError>(HeaderError::Truncated)
            && final(message)@ == old(message)@,
{
    if message.len() < ICMP_MIN_LEN {
        Err(HeaderError::Truncated)
    } else {
        message[6] = (value / 256) as u8;
        message[7] = (value % 256) as u8;
        Ok(())
    }
}

} // verus!

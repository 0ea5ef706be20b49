//! The decode pipeline: peels one header at a time off a raw frame, routes
//! the payload to the next layer by the discriminator the header carries, and
//! ends in a single terminal observation. Malformed or truncated input is
//! reported, never fatal.

use vstd::prelude::*;

use crate::headers::{
    eth_ethertype, ipv4_destination, ipv4_header_len, ipv4_protocol, ipv4_source,
    ipv4_total_length, spec_eth_ethertype, spec_icmp_code, spec_icmp_identity, spec_icmp_type,
    spec_ipv4_destination, spec_ipv4_header_len, spec_ipv4_protocol, spec_ipv4_source,
    spec_ipv4_total_length, ETHERNET_MIN_LEN, ETHERTYPE_IPV4, ICMP_MIN_LEN,
    ICMP_TYPE_ECHO_REPLY, ICMP_TYPE_ECHO_REQUEST, IPV4_MIN_LEN, IP_PROTO_ICMP,
};
use crate::types::{EchoIdentity, HeaderError, Ipv4Address, ProtocolLayer};
use vstd::slice::slice_subrange;

verus! {

/// Which part an ICMP echo message plays in an exchange.
#[derive(Clone, Copy, PartialEq, Eq, Structural, Debug)]
pub enum EchoRole {
    Request,
    Reply,
}

/// The terminal event one decode of a raw frame produces.
#[derive(Clone, Copy, PartialEq, Eq, Structural, Debug)]
pub enum Observation {
    /// A header could not be read at `layer`; the frame is discarded.
    Malformed { layer: ProtocolLayer, error: HeaderError },
    /// A discriminator no decoder answers to, with the length of the bytes
    /// under it; common traffic, not a failure.
    UnknownProtocol { layer: ProtocolLayer, tag: u16, length: usize },
    /// An ICMP message that is no echo request or reply.
    IcmpObserved { icmp_type: u8, icmp_code: u8 },
    /// An ICMP echo request or reply, with its correlation key.
    EchoObserved {
        role: EchoRole,
        identity: EchoIdentity,
        source: Ipv4Address,
        destination: Ipv4Address,
    },
}

/// The address reported when no enclosing IPv4 header named one.
pub open spec fn spec_unspecified_address() -> Ipv4Address {
    Ipv4Address { o0: 0, o1: 0, o2: 0, o3: 0 }
}

/// What decoding an ICMP message observes: an echo request or reply with its
/// identity, any other type with its type and code bytes.
pub open spec fn spec_decode_icmp(b: Seq<u8>, source: Ipv4Address, destination: Ipv4Address) -> Observation {
    if b.len() < ICMP_MIN_LEN {
        Observation::Malformed { layer: ProtocolLayer::Icmp, error: HeaderError::Truncated }
    } else if spec_icmp_type(b) == ICMP_TYPE_ECHO_REQUEST {
        Observation::EchoObserved {
            role: EchoRole::Request,
            identity: spec_icmp_identity(b),
            source: source,
            destination: destination,
        }
    } else if spec_icmp_type(b) == ICMP_TYPE_ECHO_REPLY {
        Observation::EchoObserved {
            role: EchoRole::Reply,
            identity: spec_icmp_identity(b),
            source: source,
            destination: destination,
        }
    } else {
        Observation::IcmpObserved { icmp_type: spec_icmp_type(b), icmp_code: spec_icmp_code(b) }
    }
}

/// What decoding an IPv4 packet observes: its payload handed on to the ICMP
/// decoder, bounded by the lengths the header declares, or the reason the
/// packet was put aside.
pub open spec fn spec_decode_ipv4(b: Seq<u8>) -> Observation {
    if b.len() < IPV4_MIN_LEN {
        Observation::Malformed { layer: ProtocolLayer::Ipv4, error: HeaderError::Truncated }
    } else if spec_ipv4_header_len(b) < IPV4_MIN_LEN || spec_ipv4_header_len(b) > b.len() {
        Observation::Malformed { layer: ProtocolLayer::Ipv4, error: HeaderError::Malformed }
    } else if spec_ipv4_total_length(b) < spec_ipv4_header_len(b) {
        Observation::Malformed { layer: ProtocolLayer::Ipv4, error: HeaderError::Malformed }
    } else if spec_ipv4_total_length(b) > b.len() {
        Observation::Malformed { layer: ProtocolLayer::Ipv4, error: HeaderError::Truncated }
    } else if spec_ipv4_protocol(b) == IP_PROTO_ICMP {
        spec_decode_icmp(
            b.subrange(spec_ipv4_header_len(b), spec_ipv4_total_length(b) as int),
            spec_ipv4_source(b),
            spec_ipv4_destination(b),
        )
    } else {
        Observation::UnknownProtocol {
            layer: ProtocolLayer::Ipv4,
            tag: spec_ipv4_protocol(b) as u16,
            length: (spec_ipv4_total_length(b) - spec_ipv4_header_len(b)) as usize,
        }
    }
}

/// What decoding an Ethernet frame observes: its payload handed on to the
/// IPv4 decoder, or the unknown ethertype reported.
pub open spec fn spec_decode_ethernet(b: Seq<u8>) -> Observation {
    if b.len() < ETHERNET_MIN_LEN {
        Observation::Malformed { layer: ProtocolLayer::Ethernet, error: HeaderError::Truncated }
    } else if spec_eth_ethertype(b) == ETHERTYPE_IPV4 {
        spec_decode_ipv4(b.skip(ETHERNET_MIN_LEN as int))
    } else {
        Observation::UnknownProtocol {
            layer: ProtocolLayer::Ethernet,
            tag: spec_eth_ethertype(b),
            length: b.len() as usize,
        }
    }
}

/// What decoding a frame from a given starting layer observes.
pub open spec fn spec_decode(b: Seq<u8>, start: ProtocolLayer) -> Observation {
    match start {
        ProtocolLayer::Ethernet => spec_decode_ethernet(b),
        ProtocolLayer::Ipv4 => spec_decode_ipv4(b),
        ProtocolLayer::Icmp => spec_decode_icmp(
            b,
            spec_unspecified_address(),
            spec_unspecified_address(),
        ),
        ProtocolLayer::Unknown(tag) => Observation::UnknownProtocol {
            layer: ProtocolLayer::Unknown(tag),
            tag: tag,
            length: b.len() as usize,
        },
    }
}

/// Decodes an ICMP message; the addresses come from the enclosing network
/// header, or stand unspecified where there was none.
pub fn decode_icmp(message: &[u8], source: Ipv4Address, destination: Ipv4Address) -> (obs:
    Observation)
    ensures
        obs == spec_decode_icmp(message@, source, destination),
{
    if message.len() < ICMP_MIN_LEN {
        Observation::Malformed { layer: ProtocolLayer::Icmp, error: HeaderError::Truncated }
    } else {
        let kind = message[0];
        if kind == ICMP_TYPE_ECHO_REQUEST || kind == ICMP_TYPE_ECHO_REPLY {
            let identity = EchoIdentity {
                identifier: (message[4] as u16) * 256 + (message[5] as u16),
                sequence: (message[6] as u16) * 256 + (message[7] as u16),
            };
            let role = if kind == ICMP_TYPE_ECHO_REQUEST {
                EchoRole::Request
            } else {
                EchoRole::Reply
            };
            Observation::EchoObserved { role, identity, source, destination }
        } else {
            Observation::IcmpObserved { icmp_type: kind, icmp_code: message[1] }
        }
    }
}

/// Decodes an IPv4 packet and hands its payload on to the ICMP decoder.
pub fn decode_ipv4(packet: &[u8]) -> (obs: Observation)
    ensures
        obs == spec_decode_ipv4(packet@),
{
    match ipv4_header_len(packet) {
        Err(error) => Observation::Malformed { layer: ProtocolLayer::Ipv4, error },
        Ok(header_len) => {
            let total = match ipv4_total_length(packet) {
                Ok(t) => t as usize,
                Err(error) => {
                    return Observation::Malformed { layer: ProtocolLayer::Ipv4, error };
                },
            };
            if total < header_len {
                Observation::Malformed {
                    layer: ProtocolLayer::Ipv4,
                    error: HeaderError::Malformed,
                }
            } else if total > packet.len() {
                Observation::Malformed {
                    layer: ProtocolLayer::Ipv4,
                    error: HeaderError::Truncated,
                }
            } else {
                let protocol = match ipv4_protocol(packet) {
                    Ok(p) => p,
                    Err(error) => {
                        return Observation::Malformed { layer: ProtocolLayer::Ipv4, error };
                    },
                };
                if protocol == IP_PROTO_ICMP {
                    let source = match ipv4_source(packet) {
                        Ok(a) => a,
                        Err(error) => {
                            return Observation::Malformed { layer: ProtocolLayer::Ipv4, error };
                        },
                    };
                    let destination = match ipv4_destination(packet) {
                        Ok(a) => a,
                        Err(error) => {
                            return Observation::Malformed { layer: ProtocolLayer::Ipv4, error };
                        },
                    };
                    let payload = slice_subrange(packet, header_len, total);
                    decode_icmp(payload, source, destination)
                } else {
                    Observation::UnknownProtocol {
                        layer: ProtocolLayer::Ipv4,
                        tag: protocol as u16,
                        length: total - header_len,
                    }
                }
            }
        },
    }
}

/// Decodes an Ethernet frame and hands its payload on to the IPv4 decoder.
pub fn decode_ethernet(frame: &[u8]) -> (obs: Observation)
    ensures
        obs == spec_decode_ethernet(frame@),
{
    match eth_ethertype(frame) {
        Err(error) => Observation::Malformed { layer: ProtocolLayer::Ethernet, error },
        Ok(ethertype) => {
            if ethertype == ETHERTYPE_IPV4 {
                let payload = slice_subrange(frame, ETHERNET_MIN_LEN, frame.len());
                proof {
                    assert(frame@.skip(ETHERNET_MIN_LEN as int) =~= frame@.subrange(
                        ETHERNET_MIN_LEN as int,
                        frame@.len() as int,
                    ));
                }
                decode_ipv4(payload)
            } else {
                Observation::UnknownProtocol {
                    layer: ProtocolLayer::Ethernet,
                    tag: ethertype,
                    length: frame.len(),
                }
            }
        },
    }
}

/// Decodes one raw frame from the given starting layer down to its terminal
/// observation. Pure: the observation is a function of the frame's bytes and
/// the starting layer alone.
pub fn decode_frame(frame: &[u8], start: ProtocolLayer) -> (obs: Observation)
    ensures
        obs == spec_decode(frame@, start),
{
    match start {
        ProtocolLayer::Ethernet => decode_ethernet(frame),
        ProtocolLayer::Ipv4 => decode_ipv4(frame),
        ProtocolLayer::Icmp => decode_icmp(
            frame,
            Ipv4Address { o0: 0, o1: 0, o2: 0, o3: 0 },
            Ipv4Address { o0: 0, o1: 0, o2: 0, o3: 0 },
        ),
        ProtocolLayer::Unknown(tag) => Observation::UnknownProtocol {
            layer: ProtocolLayer::Unknown(tag),
            tag,
            length: frame.len(),
        },
    }
}

/// Law (decode idempotence): the decode of a frame is a function of its bytes
/// and the starting layer alone, so two decodes of the same frame yield the
/// same observation.
pub proof fn lemma_decode_deterministic(b1: Seq<u8>, b2: Seq<u8>, start: ProtocolLayer)
    requires
        b1 == b2,
    ensures
        spec_decode(b1, start) == spec_decode(b2, start),
{
}

/// Law (truncation safety): a buffer shorter than the starting layer's
/// minimum header size decodes to a `Truncated` report at that layer.
pub proof fn lemma_truncation_reported(b: Seq<u8>, start: ProtocolLayer)
    requires
        (start == ProtocolLayer::Ethernet && b.len() < ETHERNET_MIN_LEN) || (start
            == ProtocolLayer::Ipv4 && b.len() < IPV4_MIN_LEN) || (start == ProtocolLayer::Icmp
            && b.len() < ICMP_MIN_LEN),
    ensures
        spec_decode(b, start) == (Observation::Malformed {
            layer: start,
            error: HeaderError::Truncated,
        }),
{
}

} // verus!

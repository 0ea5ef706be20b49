//! A layered network-packet decode pipeline with an ICMP echo correlator.
//!
//! Raw link-layer frames or IP datagrams are decoded header by header —
//! Ethernet, IPv4, ICMP — without panicking on malformed or truncated
//! input, ending in a single terminal observation. For liveness probing the
//! correlator builds well-formed echo requests, computes and validates the
//! one's-complement checksum, matches inbound replies to outstanding
//! requests by identifier and sequence number, and applies the timeout and
//! retry policy. All I/O stays with the caller: the library takes byte
//! buffers, timestamps and events, and hands back buffers to send and
//! outcomes to act on.

pub mod checksum;
pub mod correlate;
pub mod decode;
pub mod headers;
pub mod types;

use icmp_probe::headers::{
    eth_destination, eth_ethertype, eth_source, icmp_checksum, icmp_code, icmp_identity,
    icmp_set_code, icmp_set_identifier, icmp_set_sequence, icmp_set_type, icmp_type,
    ipv4_destination, ipv4_header_len, ipv4_protocol, ipv4_source, ipv4_total_length,
    ipv4_version,
};
use icmp_probe::types::{EchoIdentity, HeaderError, Ipv4Address, MacAddress};

fn sample_ethernet() -> Vec<u8> {
    vec![
        0x00, 0x11, 0x22, 0x33, 0x44, 0x55, 0x66, 0x77, 0x88, 0x99, 0xaa, 0xbb, 0x08, 0x00,
    ]
}

fn sample_ipv4() -> Vec<u8> {
    vec![
        0x45, 0x00, 0x00, 0x24, 0x00, 0x00, 0x00, 0x00, 0x40, 0x01, 0x00, 0x00, 192, 168, 0, 1,
        8, 8, 8, 8,
    ]
}

fn sample_icmp() -> Vec<u8> {
    vec![8, 0, 0xf7, 0xfd, 0x00, 0x01, 0x00, 0x01]
}

#[test]
fn ethernet_getters_read_their_offsets() {
    let frame = sample_ethernet();
    assert_eq!(
        eth_destination(&frame),
        Ok(MacAddress { o0: 0x00, o1: 0x11, o2: 0x22, o3: 0x33, o4: 0x44, o5: 0x55 })
    );
    assert_eq!(
        eth_source(&frame),
        Ok(MacAddress { o0: 0x66, o1: 0x77, o2: 0x88, o3: 0x99, o4: 0xaa, o5: 0xbb })
    );
    assert_eq!(eth_ethertype(&frame), Ok(0x0800));
}

#[test]
fn ethernet_getters_reject_a_short_buffer() {
    let frame = vec![0u8; 13];
    assert_eq!(eth_destination(&frame), Err(HeaderError::Truncated));
    assert_eq!(eth_source(&frame), Err(HeaderError::Truncated));
    assert_eq!(eth_ethertype(&frame), Err(HeaderError::Truncated));
}

#[test]
fn ipv4_getters_read_their_offsets() {
    let packet = sample_ipv4();
    assert_eq!(ipv4_version(&packet), Ok(4));
    assert_eq!(ipv4_header_len(&packet), Ok(20));
    assert_eq!(ipv4_total_length(&packet), Ok(0x0024));
    assert_eq!(ipv4_protocol(&packet), Ok(1));
    assert_eq!(ipv4_source(&packet), Ok(Ipv4Address { o0: 192, o1: 168, o2: 0, o3: 1 }));
    assert_eq!(ipv4_destination(&packet), Ok(Ipv4Address { o0: 8, o1: 8, o2: 8, o3: 8 }));
}

#[test]
fn ipv4_getters_reject_a_short_buffer() {
    let packet = vec![0x45u8; 19];
    assert_eq!(ipv4_version(&packet), Err(HeaderError::Truncated));
    assert_eq!(ipv4_header_len(&packet), Err(HeaderError::Truncated));
    assert_eq!(ipv4_total_length(&packet), Err(HeaderError::Truncated));
    assert_eq!(ipv4_protocol(&packet), Err(HeaderError::Truncated));
    assert_eq!(ipv4_source(&packet), Err(HeaderError::Truncated));
    assert_eq!(ipv4_destination(&packet), Err(HeaderError::Truncated));
}

#[test]
fn ipv4_header_len_rejects_inconsistent_declarations() {
    let mut packet = sample_ipv4();
    packet[0] = 0x44; // sixteen declared bytes: under the minimum
    assert_eq!(ipv4_header_len(&packet), Err(HeaderError::Malformed));
    packet[0] = 0x4f; // sixty declared bytes: past this buffer
    assert_eq!(ipv4_header_len(&packet), Err(HeaderError::Malformed));
}

#[test]
fn icmp_getters_read_their_offsets() {
    let message = sample_icmp();
    assert_eq!(icmp_type(&message), Ok(8));
    assert_eq!(icmp_code(&message), Ok(0));
    assert_eq!(icmp_checksum(&message), Ok(0xf7fd));
    assert_eq!(icmp_identity(&message), Ok(EchoIdentity { identifier: 1, sequence: 1 }));
}

#[test]
fn icmp_getters_reject_a_short_buffer() {
    let message = vec![8u8, 0, 0, 0, 0, 1, 0];
    assert_eq!(icmp_type(&message), Err(HeaderError::Truncated));
    assert_eq!(icmp_code(&message), Err(HeaderError::Truncated));
    assert_eq!(icmp_checksum(&message), Err(HeaderError::Truncated));
    assert_eq!(icmp_identity(&message), Err(HeaderError::Truncated));
}

#[test]
fn icmp_setters_write_in_place_big_endian() {
    let mut message = vec![0u8; 12];
    assert_eq!(icmp_set_type(&mut message, 8), Ok(()));
    assert_eq!(icmp_set_code(&mut message, 5), Ok(()));
    assert_eq!(icmp_set_identifier(&mut message, 0x1234), Ok(()));
    assert_eq!(icmp_set_sequence(&mut message, 0xabcd), Ok(()));
    assert_eq!(message, vec![8, 5, 0, 0, 0x12, 0x34, 0xab, 0xcd, 0, 0, 0, 0]);
}

#[test]
fn icmp_setters_reject_a_short_buffer_and_change_nothing() {
    let mut message = vec![0u8; 7];
    assert_eq!(icmp_set_type(&mut message, 8), Err(HeaderError::Truncated));
    assert_eq!(icmp_set_identifier(&mut message, 1), Err(HeaderError::Truncated));
    assert_eq!(icmp_set_sequence(&mut message, 1), Err(HeaderError::Truncated));
    assert_eq!(message, vec![0u8; 7]);
}

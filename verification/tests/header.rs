use canal_router::netinet::{
    read_be16, span, write_addr, write_be16, IcmpHeader, Ipv4Header, ICMP_DEST_UNREACH, ICMP_ECHO,
    ICMP_EXC_TTL, ICMP_HEADER_SIZE, ICMP_HOST_UNREACH, ICMP_PORT_UNREACH, ICMP_TIME_EXCEEDED,
    IPPROTO_ICMP, IP_HEADER_SIZE, IP_MAX_HEADER_SIZE,
};

#[test]
fn protocol_numbers() {
    assert_eq!(IPPROTO_ICMP, 1);
    assert_eq!(ICMP_ECHO, 8);
    assert_eq!(ICMP_DEST_UNREACH, 3);
    assert_eq!(ICMP_TIME_EXCEEDED, 11);
    assert_eq!(ICMP_HOST_UNREACH, 1);
    assert_eq!(ICMP_PORT_UNREACH, 3);
    assert_eq!(ICMP_EXC_TTL, 0);
    assert_eq!(IP_HEADER_SIZE, 20);
    assert_eq!(IP_MAX_HEADER_SIZE, 60);
    assert_eq!(ICMP_HEADER_SIZE, 8);
}

#[test]
fn ipv4_header_is_decoded_field_by_field() {
    let bytes = [
        0x46, 0x10, 0x01, 0x02, 0xbe, 0xef, 0x40, 0x07, 0x3f, 0x11, 0xca, 0xfe, 0xc0, 0xa8, 0x01,
        0x07, 0x0a, 0x00, 0x00, 0x09, 0xaa, 0xbb,
    ];
    let ip = Ipv4Header::read(&bytes);
    assert_eq!(
        ip,
        Ipv4Header {
            version: 4,
            header_length: 6,
            tos: 0x10,
            total_length: 0x0102,
            identification: 0xbeef,
            fragment: 0x4007,
            ttl: 63,
            protocol: 17,
            checksum: 0xcafe,
            source: [192, 168, 1, 7],
            destination: [10, 0, 0, 9],
        }
    );
    assert_eq!(ip.header_size(), 24);
}

#[test]
fn ipv4_header_length_spans_all_four_bits() {
    let mut bytes = [0u8; 20];
    bytes[0] = 0x6f;
    let ip = Ipv4Header::read(&bytes);
    assert_eq!(ip.version, 6);
    assert_eq!(ip.header_length, 15);
    assert_eq!(ip.header_size(), 60);
    bytes[0] = 0xf0;
    let ip = Ipv4Header::read(&bytes);
    assert_eq!(ip.version, 15);
    assert_eq!(ip.header_length, 0);
    assert_eq!(ip.header_size(), 0);
}

#[test]
fn icmp_header_is_decoded_field_by_field() {
    let bytes = [0x08, 0x00, 0xf7, 0xfe, 0x12, 0x34, 0x00, 0x01, 0x99];
    assert_eq!(
        IcmpHeader::read(&bytes),
        IcmpHeader { icmp_type: 8, code: 0, checksum: 0xf7fe, rest: [0x12, 0x34, 0x00, 0x01] }
    );
}

#[test]
fn sixteen_bit_values_are_read_and_written_high_byte_first() {
    let mut bytes = vec![0x00, 0x12, 0x34, 0x00];
    assert_eq!(read_be16(&bytes, 1), 0x1234);
    assert_eq!(read_be16(&bytes, 2), 0x3400);
    write_be16(&mut bytes, 2, 0xabcd);
    assert_eq!(bytes, vec![0x00, 0x12, 0xab, 0xcd]);
    assert_eq!(read_be16(&bytes, 2), 0xabcd);
}

#[test]
fn an_address_is_written_in_order() {
    let mut bytes = vec![1, 2, 3, 4, 5, 6];
    write_addr(&mut bytes, 1, [10, 0, 0, 9]);
    assert_eq!(bytes, vec![1, 10, 0, 0, 9, 6]);
}

#[test]
fn a_span_is_the_bytes_between_its_bounds() {
    let bytes = vec![1, 2, 3, 4, 5, 6];
    assert_eq!(span(&bytes, 2, 5), &[3, 4, 5]);
    assert_eq!(span(&bytes, 6, 6), &[] as &[u8]);
    assert_eq!(span(&bytes, 0, 6), &[1, 2, 3, 4, 5, 6]);
}

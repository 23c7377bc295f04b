use canal_router::icmp::Reply;
use canal_router::ip::{self, get_recv_ip, handle_ip, IpOutcome};
use canal_router::ipv4::handle_ipv4;
use canal_router::tun::{TunContext, REVERSE_BUFFER_HEADER};

const ECHO: [u8; 28] = [
    0x45, 0x00, 0x00, 0x1c, 0x12, 0x34, 0x00, 0x00, 0x05, 0x01, 0xd7, 0xf5, 0xc0, 0xa8, 0x01, 0x07,
    0x0a, 0x00, 0x00, 0x09, 0x08, 0x00, 0xf7, 0xff, 0x00, 0x00, 0x00, 0x00,
];

fn queue_with(frame: &[u8]) -> TunContext {
    let mut tun = TunContext::new(576, 1).unwrap();
    tun.buffer[REVERSE_BUFFER_HEADER..REVERSE_BUFFER_HEADER + frame.len()].copy_from_slice(frame);
    tun
}

#[test]
fn echo_request_is_answered() {
    let mut tun = queue_with(&ECHO);
    assert_eq!(handle_ip(&mut tun), IpOutcome::Replied(Reply { start: 36, size: 56 }));
    assert_eq!(&tun.buffer[36 + 12..36 + 16], &[10, 0, 0, 4]);
    assert_eq!(tun.buffer[36 + 20], 11);
}

#[test]
fn another_protocol_gets_no_reply_and_no_error() {
    for protocol in [0u8, 2, 6, 17, 41, 255] {
        let mut frame = ECHO;
        frame[9] = protocol;
        let mut tun = queue_with(&frame);
        let before = tun.buffer.clone();
        assert_eq!(handle_ip(&mut tun), IpOutcome::Ignored);
        assert_eq!(tun.buffer, before);
    }
}

#[test]
fn icmp_reaches_its_handler_at_every_header_length() {
    for words in 5u8..=15 {
        let mut frame = [0u8; 68];
        frame[..20].copy_from_slice(&ECHO[..20]);
        frame[0] = 0x40 | words;
        let at = words as usize * 4;
        frame[at] = 8;
        let mut tun = queue_with(&frame);
        assert_eq!(
            handle_ip(&mut tun),
            IpOutcome::Replied(Reply { start: 36, size: 28 + at + 8 })
        );
        frame[at] = 0;
        let mut tun = queue_with(&frame);
        assert_eq!(handle_ip(&mut tun), IpOutcome::Ignored);
        frame[at] = 8;
        frame[9] = 17;
        let mut tun = queue_with(&frame);
        assert_eq!(handle_ip(&mut tun), IpOutcome::Ignored);
    }
}

#[test]
fn version_six_is_reported_and_not_answered() {
    let mut frame = ECHO;
    frame[0] = 0x60;
    let mut tun = queue_with(&frame);
    let before = tun.buffer.clone();
    assert_eq!(handle_ip(&mut tun), IpOutcome::Ipv6);
    assert_eq!(tun.buffer, before);
}

#[test]
fn unknown_version_is_reported_with_its_number() {
    for version in [0u8, 1, 3, 5, 7, 15] {
        let mut frame = ECHO;
        frame[0] = version << 4 | 5;
        let mut tun = queue_with(&frame);
        let before = tun.buffer.clone();
        assert_eq!(handle_ip(&mut tun), IpOutcome::UnknownVersion(version));
        assert_eq!(tun.buffer, before);
    }
}

#[test]
fn ipv4_handler_goes_by_the_protocol_alone() {
    let mut tun = queue_with(&ECHO);
    let header = get_recv_ip(&tun).unwrap();
    assert_eq!(handle_ipv4(&mut tun, &header), Some(Reply { start: 36, size: 56 }));
    let mut other = header;
    other.protocol = 6;
    let mut tun = queue_with(&ECHO);
    let before = tun.buffer.clone();
    assert_eq!(handle_ipv4(&mut tun, &other), None);
    assert_eq!(tun.buffer, before);
}

#[test]
fn ipv4_handler_is_reached_through_the_dispatcher_module_too() {
    let mut tun = queue_with(&ECHO);
    let header = get_recv_ip(&tun).unwrap();
    assert_eq!(ip::handle_ipv4(&mut tun, &header), Some(Reply { start: 36, size: 56 }));
}

#[test]
fn a_short_header_length_puts_the_icmp_type_inside_the_header() {
    // With a length of two words the type is read from the ninth byte, the
    // time to live; the reply quotes sixteen bytes.
    let mut frame = ECHO;
    frame[0] = 0x42;
    frame[8] = 8;
    let mut tun = queue_with(&frame);
    assert_eq!(handle_ip(&mut tun), IpOutcome::Replied(Reply { start: 36, size: 44 }));
    assert_eq!(&tun.buffer[36 + 2..36 + 4], &[0, 44]);
    assert_eq!(&tun.buffer[36 + 12..36 + 16], &[10, 0, 0, 1]);
}

#[test]
fn a_region_too_short_for_a_header_holds_nothing_to_dispatch() {
    for mtu in [0, 1, 19] {
        let mut tun = TunContext::new(mtu, 0).unwrap();
        let before = tun.buffer.clone();
        assert_eq!(get_recv_ip(&tun), None);
        assert_eq!(handle_ip(&mut tun), IpOutcome::Ignored);
        assert_eq!(tun.buffer, before);
    }
}

#[test]
fn a_region_of_twenty_bytes_holds_a_header() {
    let mut tun = TunContext::new(20, 0).unwrap();
    tun.buffer[REVERSE_BUFFER_HEADER..].copy_from_slice(&ECHO[..20]);
    let header = get_recv_ip(&tun).unwrap();
    assert_eq!(header.version, 4);
    assert_eq!(header.destination, [10, 0, 0, 9]);
    // The ICMP header would lie behind the region: nothing is answered.
    let before = tun.buffer.clone();
    assert_eq!(handle_ip(&mut tun), IpOutcome::Ignored);
    assert_eq!(tun.buffer, before);
    tun.buffer[REVERSE_BUFFER_HEADER] = 0x60;
    assert_eq!(handle_ip(&mut tun), IpOutcome::Ipv6);
}

//! The ICMP responder: which error answers an echo request, from which
//! address, and how the reply is built in front of the frame it quotes.

use vstd::prelude::*;

use crate::ipv4::{
    calc_inet_checksum, inet_checksum, ipv4_reply_fields, ipv4_reply_header,
    lemma_checksum_round_trip, lemma_ipv4_reply_header_len, lemma_splice_word, make_ipv4_reply,
    with_checksum, with_word,
};
use crate::netinet::{
    be16, lemma_splice_update, lemma_splice_window, lemma_window_of_splice, span, splice, window,
    write_be16, IcmpHeader, Ipv4Header, ICMP_DEST_UNREACH, ICMP_ECHO, ICMP_EXC_TTL,
    ICMP_HEADER_SIZE, ICMP_HOST_UNREACH, ICMP_PORT_UNREACH, ICMP_QUOTED_PAYLOAD,
    ICMP_TIME_EXCEEDED, IPPROTO_ICMP, IP_HEADER_SIZE,
};
use crate::tun::{receive_region, zeros, TunContext, REVERSE_BUFFER_HEADER};

verus! {

/// The size of the headers of a reply: an IPv4 header without options and the
/// fixed part of an ICMP message.
pub const ICMP_REPLY_FULL_SIZE: usize = IP_HEADER_SIZE + ICMP_HEADER_SIZE;

/// Where in the buffer a reply begins: its headers end where the receive
/// region begins.
pub const REPLY_START: usize = REVERSE_BUFFER_HEADER - ICMP_REPLY_FULL_SIZE;

/// What lies in a buffer in front of the place of a reply.
pub open spec fn reply_front(buffer: Seq<u8>) -> Seq<u8> {
    buffer.subrange(0, REPLY_START as int)
}

/// The time to live at which a probe counts as having reached its
/// destination.
pub const ARRIVAL_TTL: u8 = 100;

/// The ICMP error that a reply carries.
#[derive(Clone, Copy, Debug, PartialEq, Eq)]
pub enum IcmpErrorMode {
    /// Destination unreachable, host unreachable. No probe is answered with
    /// it yet.
    HostUnreachable,
    /// Destination unreachable, port unreachable: the probe has reached its
    /// destination, which offers no service.
    PortUnreachable,
    /// Time exceeded in transit: the probe has died at a router on the way.
    TtlExceeded,
}

impl IcmpErrorMode {
    /// The ICMP type of the error.
    pub open spec fn icmp_type(self) -> u8 {
        match self {
            IcmpErrorMode::HostUnreachable => ICMP_DEST_UNREACH,
            IcmpErrorMode::PortUnreachable => ICMP_DEST_UNREACH,
            IcmpErrorMode::TtlExceeded => ICMP_TIME_EXCEEDED,
        }
    }

    /// The ICMP code of the error.
    pub open spec fn code(self) -> u8 {
        match self {
            IcmpErrorMode::HostUnreachable => ICMP_HOST_UNREACH,
            IcmpErrorMode::PortUnreachable => ICMP_PORT_UNREACH,
            IcmpErrorMode::TtlExceeded => ICMP_EXC_TTL,
        }
    }
}

/// A reply that stands in a queue's buffer, ready to be transmitted: the
/// `size` bytes from `start` on.
#[derive(Clone, Copy, Debug, PartialEq, Eq)]
pub struct Reply {
    /// Where in the buffer the reply begins.
    pub start: usize,
    /// The length of the reply in bytes.
    pub size: usize,
}

/// How many bytes of a frame a reply quotes: the IP header as long as `ip`
/// says it is, and the eight bytes after it.
pub open spec fn quoted_size(ip: Ipv4Header) -> int {
    ip.header_bytes() + ICMP_QUOTED_PAYLOAD
}

/// Whether the bytes that a reply to a frame with header `ip` quotes lie
/// within the receive region `frame`. They end where the ICMP header of the
/// frame ends.
pub open spec fn quote_fits(frame: Seq<u8>, ip: Ipv4Header) -> bool {
    quoted_size(ip) <= frame.len()
}

/// Where the reply to a frame with header `ip` stands in the buffer: its
/// headers end where the receive region begins, and it reaches to the end of
/// the quoted bytes.
pub open spec fn reply_span(ip: Ipv4Header) -> Reply {
    Reply {
        start: REPLY_START,
        size: (ICMP_REPLY_FULL_SIZE + quoted_size(ip)) as usize,
    }
}

/// The ICMP message that `make_icmp_err_reply` leaves where `prior` stood:
/// type and code are set, and the checksum over the whole message, payload
/// included, stands in its second word. The other bytes are those of `prior`.
pub open spec fn icmp_error_message(prior: Seq<u8>, type_: u8, code: u8) -> Seq<u8> {
    with_checksum(prior.update(0, type_).update(1, code), 1)
}

/// The ICMP error that answers the frame `frame` with header `ip`: an IPv4
/// header from `src_addr` to `dst_addr` that carries the frame's
/// identification, then the ICMP header of `mode` with a zero rest, then the
/// quoted start of the frame.
pub open spec fn icmp_error_packet(
    frame: Seq<u8>,
    ip: Ipv4Header,
    src_addr: Seq<u8>,
    dst_addr: Seq<u8>,
    mode: IcmpErrorMode,
) -> Seq<u8> {
    ipv4_reply_header(
        zeros(IP_HEADER_SIZE),
        IPPROTO_ICMP,
        ip.identification,
        ICMP_HEADER_SIZE + quoted_size(ip),
        src_addr,
        dst_addr,
    ) + icmp_error_message(
        zeros(ICMP_HEADER_SIZE) + frame.subrange(0, quoted_size(ip)),
        mode.icmp_type(),
        mode.code(),
    )
}

/// Where `reply_icmp_error` says that its reply stands: where `reply_span`
/// says, if the quoted bytes lie within the receive region `frame`; else no
/// reply is built.
pub open spec fn error_reply(frame: Seq<u8>, ip: Ipv4Header) -> Option<Reply> {
    if quote_fits(frame, ip) {
        Some(reply_span(ip))
    } else {
        None
    }
}

/// The buffer as `reply_icmp_error` leaves it: with the error laid into it
/// in front of the frame, if the quoted bytes lie within the receive region;
/// else untouched.
pub open spec fn error_buffer(
    buffer: Seq<u8>,
    ip: Ipv4Header,
    src_addr: Seq<u8>,
    dst_addr: Seq<u8>,
    mode: IcmpErrorMode,
) -> Seq<u8> {
    if quote_fits(receive_region(buffer), ip) {
        splice(
            buffer,
            REPLY_START,
            icmp_error_packet(receive_region(buffer), ip, src_addr, dst_addr, mode),
        )
    } else {
        buffer
    }
}

/// What an ICMP error looks like on the wire. It is an IPv4 header of twenty
/// bytes, an ICMP header of eight and the quotation. The IPv4 header says
/// version 4 and five words, gives the length of the whole packet and the
/// identification of the frame, a time to live of 255, the protocol ICMP and
/// the two addresses; type of service, flags and fragment offset are zero.
/// The ICMP header holds type and code of `mode` and a zero rest. The
/// quotation is the start of the frame, byte for byte. Both checksums are
/// right: taken again over the header, and over the ICMP message, each gives
/// zero.
pub proof fn lemma_error_packet_layout(
    frame: Seq<u8>,
    ip: Ipv4Header,
    src_addr: Seq<u8>,
    dst_addr: Seq<u8>,
    mode: IcmpErrorMode,
)
    requires
        ip.wf(),
        frame.len() >= quoted_size(ip),
        src_addr.len() == 4,
        dst_addr.len() == 4,
    ensures
        ({
            let packet = icmp_error_packet(frame, ip, src_addr, dst_addr, mode);
            &&& packet.len() == ICMP_REPLY_FULL_SIZE + quoted_size(ip)
            &&& packet[0] == 0x45
            &&& packet[1] == 0
            &&& be16(packet[2], packet[3]) == ICMP_REPLY_FULL_SIZE + quoted_size(ip)
            &&& be16(packet[4], packet[5]) == ip.identification
            &&& packet[6] == 0
            &&& packet[7] == 0
            &&& packet[8] == 255
            &&& packet[9] == IPPROTO_ICMP
            &&& packet.subrange(12, 16) == src_addr
            &&& packet.subrange(16, 20) == dst_addr
            &&& packet[20] == mode.icmp_type()
            &&& packet[21] == mode.code()
            &&& packet.subrange(24, 28) == zeros(4)
            &&& packet.subrange(28, 28 + quoted_size(ip)) == frame.subrange(0, quoted_size(ip))
            &&& inet_checksum(packet.subrange(0, 20)) == 0
            &&& inet_checksum(packet.subrange(20, 28 + quoted_size(ip))) == 0
        }),
{
    let quoted = quoted_size(ip);
    let fields = ipv4_reply_fields(
        zeros(IP_HEADER_SIZE),
        IPPROTO_ICMP,
        ip.identification,
        ICMP_HEADER_SIZE + quoted,
        src_addr,
        dst_addr,
    );
    let header = with_checksum(fields, 5);
    let prior = zeros(ICMP_HEADER_SIZE) + frame.subrange(0, quoted);
    let named = prior.update(0, mode.icmp_type()).update(1, mode.code());
    let message = with_checksum(named, 1);
    let packet = icmp_error_packet(frame, ip, src_addr, dst_addr, mode);
    assert(packet == header + message);
    assert(header.len() == 20);
    assert(message.len() == 8 + quoted);
    lemma_checksum_round_trip(fields, 5);
    lemma_checksum_round_trip(named, 1);
    assert(packet.subrange(0, 20) =~= header);
    assert(packet.subrange(20, 28 + quoted) =~= message);
    assert(packet.subrange(12, 16) =~= src_addr);
    assert(packet.subrange(16, 20) =~= dst_addr);
    assert(packet.subrange(24, 28) =~= zeros(4));
    assert(packet.subrange(28, 28 + quoted) =~= frame.subrange(0, quoted));
}

/// A reply is built without touching the frame it answers: whether or not
/// the quoted bytes lie within the receive region, the buffer keeps its
/// length, what lies in front of the reply stays, and so does the whole
/// receive region, the quoted bytes included.
pub proof fn lemma_reply_keeps_frame(
    buffer: Seq<u8>,
    ip: Ipv4Header,
    src_addr: Seq<u8>,
    dst_addr: Seq<u8>,
    mode: IcmpErrorMode,
)
    requires
        ip.wf(),
        buffer.len() >= REVERSE_BUFFER_HEADER,
        src_addr.len() == 4,
        dst_addr.len() == 4,
    ensures
        ({
            let built = error_buffer(buffer, ip, src_addr, dst_addr, mode);
            &&& built.len() == buffer.len()
            &&& reply_front(built) == reply_front(buffer)
            &&& receive_region(built) == receive_region(buffer)
        }),
{
    let frame = receive_region(buffer);
    if quote_fits(frame, ip) {
        let packet = icmp_error_packet(frame, ip, src_addr, dst_addr, mode);
        let built = splice(buffer, REPLY_START, packet);
        lemma_error_packet_layout(frame, ip, src_addr, dst_addr, mode);
        assert(reply_front(built) =~= reply_front(buffer));
        assert forall|i: int| 0 <= i < frame.len() implies receive_region(built)[i]
            == frame[i] by {
            if i < quoted_size(ip) {
                assert(packet.subrange(28, 28 + quoted_size(ip))[i] == frame.subrange(
                    0,
                    quoted_size(ip),
                )[i]);
            }
        }
        assert(receive_region(built) =~= frame);
    }
}

/// How the three writes of a reply lie in the buffer. Once the reply prefix is
/// cleared, the place of the IPv4 header holds zeros. Once `header` stands
/// there, the place of the ICMP message holds a zero header and the quoted
/// start of the frame. And once `message` stands there, the buffer is the one
/// it was at first with `header` and `message` laid over it.
proof fn lemma_reply_layout(buffer: Seq<u8>, header: Seq<u8>, message: Seq<u8>, quoted: int)
    requires
        0 <= quoted,
        buffer.len() >= REVERSE_BUFFER_HEADER + quoted,
        header.len() == IP_HEADER_SIZE,
        message.len() == ICMP_HEADER_SIZE + quoted,
    ensures
        ({
            let cleared = splice(buffer, REPLY_START, zeros(ICMP_REPLY_FULL_SIZE));
            let headed = splice(cleared, REPLY_START, header);
            let first = (REPLY_START + IP_HEADER_SIZE) as usize;
            &&& cleared.len() == buffer.len()
            &&& headed.len() == buffer.len()
            &&& window(cleared, REPLY_START, first as int) == zeros(IP_HEADER_SIZE)
            &&& window(headed, first, first + ICMP_HEADER_SIZE + quoted) == zeros(ICMP_HEADER_SIZE)
                + receive_region(buffer).subrange(0, quoted)
            &&& splice(headed, first, message) == splice(buffer, REPLY_START, header + message)
        }),
{
    let cleared = splice(buffer, REPLY_START, zeros(ICMP_REPLY_FULL_SIZE));
    let headed = splice(cleared, REPLY_START, header);
    let first = (REPLY_START + IP_HEADER_SIZE) as usize;
    assert(window(cleared, REPLY_START, first as int) =~= zeros(IP_HEADER_SIZE));
    assert(window(headed, first, first + ICMP_HEADER_SIZE + quoted) =~= zeros(ICMP_HEADER_SIZE)
        + receive_region(buffer).subrange(0, quoted));
    assert(splice(headed, first, message) =~= splice(buffer, REPLY_START, header + message));
}

/// The error that answers an echo request whose time to live is `ttl`: port
/// unreachable at `ARRIVAL_TTL`, else time exceeded.
pub open spec fn reply_mode(ttl: u8) -> IcmpErrorMode {
    if ttl == ARRIVAL_TTL {
        IcmpErrorMode::PortUnreachable
    } else {
        IcmpErrorMode::TtlExceeded
    }
}

/// `octet` less `hops`, modulo 256.
pub open spec fn hops_back(octet: u8, hops: u8) -> u8 {
    if octet >= hops {
        (octet - hops) as u8
    } else {
        (octet + 256 - hops) as u8
    }
}

/// The address from which an echo request to `destination` with time to live
/// `ttl` is answered: the destination itself at `ARRIVAL_TTL`, else the router
/// `ttl` hops before it, whose address is the destination with its last octet
/// reduced by `ttl`, modulo 256.
pub open spec fn hop_address(destination: Seq<u8>, ttl: u8) -> Seq<u8> {
    if ttl == ARRIVAL_TTL {
        destination
    } else {
        destination.update(3, hops_back(destination[3], ttl))
    }
}

/// The buffer as `handle_icmp_echo_message` leaves it after the echo request
/// in its receive region, whose header is `ip`: as `reply_icmp_error` leaves
/// it with the error of `reply_mode`, from the address of `hop_address` to the
/// source of the request.
pub open spec fn echo_buffer(buffer: Seq<u8>, ip: Ipv4Header) -> Seq<u8> {
    error_buffer(
        buffer,
        ip,
        hop_address(ip.destination@, ip.ttl),
        ip.source@,
        reply_mode(ip.ttl),
    )
}

/// Whether the ICMP header behind the IP header `ip` lies within the receive
/// region `frame` and says that the message is an echo request.
pub open spec fn is_echo_request(frame: Seq<u8>, ip: Ipv4Header) -> bool {
    quote_fits(frame, ip) && frame[ip.header_bytes()] == ICMP_ECHO
}

/// The reply that `handle_icmp` gives for `frame` with header `ip`: one to an
/// echo request, none to anything else, and none where the ICMP header passes
/// the end of the receive region.
pub open spec fn icmp_reply(frame: Seq<u8>, ip: Ipv4Header) -> Option<Reply> {
    if is_echo_request(frame, ip) {
        Some(reply_span(ip))
    } else {
        None
    }
}

/// The buffer as `handle_icmp` leaves it: with the reply in it where the
/// frame is an echo request, else untouched.
pub open spec fn icmp_buffer(buffer: Seq<u8>, ip: Ipv4Header) -> Seq<u8> {
    if is_echo_request(receive_region(buffer), ip) {
        echo_buffer(buffer, ip)
    } else {
        buffer
    }
}

/// Decodes the ICMP header of the frame in the receive region of `tun`: the
/// eight bytes behind the IP header, which is as long as `ip` says. Where they
/// pass the end of the receive region, there is no header to decode.
pub fn get_recv_icmp(tun: &TunContext, ip: &Ipv4Header) -> (icmp: Option<IcmpHeader>)
    requires
        tun.wf(),
        ip.wf(),
    ensures
        icmp == if quote_fits(tun.frame(), *ip) {
            Some(
                IcmpHeader::decode(
                    tun.frame().subrange(ip.header_bytes(), ip.header_bytes() + ICMP_HEADER_SIZE),
                ),
            )
        } else {
            None
        },
        icmp matches Some(header) ==> (header.icmp_type == ICMP_ECHO <==> is_echo_request(
            tun.frame(),
            *ip,
        )),
{
    let at: usize = REVERSE_BUFFER_HEADER + ip.header_size();
    if at + ICMP_HEADER_SIZE > tun.buffer.len() {
        return None;
    }
    let bytes = span(&tun.buffer, at, at + ICMP_HEADER_SIZE);
    assert(bytes@ =~= tun.frame().subrange(
        ip.header_bytes(),
        ip.header_bytes() + ICMP_HEADER_SIZE,
    ));
    Some(IcmpHeader::read(bytes))
}

/// Handles the ICMP message of the frame in the receive region of `tun`,
/// whose IP header is `ip`: an echo request is answered, anything else is
/// passed over in silence, and so is a frame whose ICMP header passes the end
/// of the receive region.
pub fn handle_icmp(tun: &mut TunContext, ip: &Ipv4Header) -> (reply: Option<Reply>)
    requires
        old(tun).wf(),
        ip.wf(),
    ensures
        final(tun).wf(),
        final(tun).queue == old(tun).queue,
        final(tun).buffer@ == icmp_buffer(old(tun).buffer@, *ip),
        reply == icmp_reply(old(tun).frame(), *ip),
{
    match get_recv_icmp(tun, ip) {
        Some(icmp) => if icmp.icmp_type == ICMP_ECHO {
            handle_icmp_echo_message(tun, ip, &icmp)
        } else {
            None
        },
        None => None,
    }
}

/// Answers the echo request in the receive region of `tun`, whose IP header
/// is `ip`; of its ICMP header nothing more is read. At a time to live of
/// `ARRIVAL_TTL` the destination itself answers that the port is unreachable;
/// at any other, the router that many hops before the destination answers
/// that the time to live was exceeded. The reply goes to the source of the
/// request. Where the bytes to quote pass the end of the receive region, no
/// reply is built and the buffer stays as it is.
pub fn handle_icmp_echo_message(
    tun: &mut TunContext,
    ip: &Ipv4Header,
    _icmp: &IcmpHeader,
) -> (reply: Option<Reply>)
    requires
        old(tun).wf(),
        ip.wf(),
    ensures
        final(tun).wf(),
        final(tun).queue == old(tun).queue,
        final(tun).buffer@ == echo_buffer(old(tun).buffer@, *ip),
        reply == error_reply(old(tun).frame(), *ip),
{
    let src_addr = ip.source;
    let mut dst_addr = ip.destination;
    let ttl: u8 = ip.ttl;
    if ttl == ARRIVAL_TTL {
        reply_icmp_error(tun, ip, dst_addr, src_addr, IcmpErrorMode::PortUnreachable)
    } else {
        dst_addr[3] = dst_addr[3].wrapping_sub(ttl);
        assert(dst_addr@ =~= hop_address(ip.destination@, ttl));
        reply_icmp_error(tun, ip, dst_addr, src_addr, IcmpErrorMode::TtlExceeded)
    }
}

/// Fills in the ICMP header of an error in the eight bytes of `packet` from
/// `at` on: `type_` and `code`, then the checksum, taken over the header and
/// the `payload_size` bytes behind it with the checksum field at zero. The
/// rest of the header is left as it was found.
pub fn make_icmp_err_reply(
    packet: &mut Vec<u8>,
    at: usize,
    type_: u8,
    code: u8,
    payload_size: usize,
)
    requires
        at + ICMP_HEADER_SIZE + payload_size <= old(packet).len(),
    ensures
        final(packet)@ == splice(
            old(packet)@,
            at,
            icmp_error_message(
                window(old(packet)@, at, at + ICMP_HEADER_SIZE + payload_size),
                type_,
                code,
            ),
        ),
{
    let ghost before = packet@;
    let ghost prior = window(before, at, at + ICMP_HEADER_SIZE + payload_size);
    proof {
        lemma_splice_window(before, at, ICMP_HEADER_SIZE + payload_size);
    }
    packet[at] = type_;
    packet[at + 1] = code;
    let ghost fields = prior.update(0, type_).update(1, code);
    proof {
        lemma_splice_update(before, at, prior, 0, type_);
        lemma_splice_update(before, at, prior.update(0, type_), 1, code);
    }
    write_be16(packet, at + 2, 0);
    let ghost blank = with_word(fields, 1, 0);
    proof {
        lemma_splice_word(before, at, fields, 1, 0);
        lemma_window_of_splice(before, at, blank);
    }
    let sum: u16 = calc_inet_checksum(span(packet, at, at + ICMP_HEADER_SIZE + payload_size));
    write_be16(packet, at + 2, sum);
    proof {
        lemma_splice_word(before, at, blank, 1, sum);
    }
}

/// Clears the part of the reply prefix in which the headers of a reply are
/// built, and returns where the IPv4 header and the ICMP header of the reply
/// begin in the buffer.
pub fn prepare_icmp_err_reply(tun: &mut TunContext) -> (at: (usize, usize))
    requires
        old(tun).wf(),
    ensures
        final(tun).queue == old(tun).queue,
        final(tun).buffer@ == splice(old(tun).buffer@, REPLY_START, zeros(ICMP_REPLY_FULL_SIZE)),
        at.0 == REPLY_START,
        at.1 == REPLY_START + IP_HEADER_SIZE,
{
    let mut cleared: usize = 0;
    while cleared < ICMP_REPLY_FULL_SIZE
        invariant
            cleared <= ICMP_REPLY_FULL_SIZE,
            tun.queue == old(tun).queue,
            old(tun).wf(),
            tun.buffer@ == splice(old(tun).buffer@, REPLY_START, zeros(cleared)),
        decreases ICMP_REPLY_FULL_SIZE - cleared,
    {
        tun.buffer[REPLY_START + cleared] = 0;
        cleared += 1;
    }
    (REPLY_START, REPLY_START + IP_HEADER_SIZE)
}

/// Builds in the buffer of `tun` the ICMP error `mode` that answers the frame
/// in its receive region, whose header is `ip`: an IPv4 header from `src_addr`
/// to `dst_addr` and the ICMP header, right in front of the frame, whose first
/// bytes are the quotation. Returns where the reply stands. Where the bytes to
/// quote pass the end of the receive region, no reply is built and the buffer
/// stays as it is.
pub fn reply_icmp_error(
    tun: &mut TunContext,
    ip: &Ipv4Header,
    src_addr: [u8; 4],
    dst_addr: [u8; 4],
    mode: IcmpErrorMode,
) -> (reply: Option<Reply>)
    requires
        old(tun).wf(),
        ip.wf(),
    ensures
        final(tun).wf(),
        final(tun).queue == old(tun).queue,
        final(tun).buffer@ == error_buffer(old(tun).buffer@, *ip, src_addr@, dst_addr@, mode),
        reply == error_reply(old(tun).frame(), *ip),
{
    let icmp_payload_size: usize = ip.header_size() + ICMP_QUOTED_PAYLOAD;
    if REVERSE_BUFFER_HEADER + icmp_payload_size > tun.buffer.len() {
        return None;
    }
    let ghost header = ipv4_reply_header(
        zeros(IP_HEADER_SIZE),
        IPPROTO_ICMP,
        ip.identification,
        ICMP_HEADER_SIZE + quoted_size(*ip),
        src_addr@,
        dst_addr@,
    );
    let ghost message = icmp_error_message(
        zeros(ICMP_HEADER_SIZE) + tun.frame().subrange(0, quoted_size(*ip)),
        mode.icmp_type(),
        mode.code(),
    );
    proof {
        lemma_ipv4_reply_header_len(
            zeros(IP_HEADER_SIZE),
            IPPROTO_ICMP,
            ip.identification,
            ICMP_HEADER_SIZE + quoted_size(*ip),
            src_addr@,
            dst_addr@,
        );
        lemma_reply_layout(tun.buffer@, header, message, quoted_size(*ip));
    }
    let (reply_ip, reply_icmp): (usize, usize) = prepare_icmp_err_reply(tun);
    let payload_size: usize = ICMP_HEADER_SIZE + icmp_payload_size;
    let packet_size: usize = IP_HEADER_SIZE + payload_size;
    make_ipv4_reply(
        &mut tun.buffer,
        reply_ip,
        IPPROTO_ICMP,
        ip.identification,
        payload_size,
        src_addr,
        dst_addr,
    );
    let type_: u8 = match mode {
        IcmpErrorMode::HostUnreachable => ICMP_DEST_UNREACH,
        IcmpErrorMode::PortUnreachable => ICMP_DEST_UNREACH,
        IcmpErrorMode::TtlExceeded => ICMP_TIME_EXCEEDED,
    };
    let code: u8 = match mode {
        IcmpErrorMode::HostUnreachable => ICMP_HOST_UNREACH,
        IcmpErrorMode::PortUnreachable => ICMP_PORT_UNREACH,
        IcmpErrorMode::TtlExceeded => ICMP_EXC_TTL,
    };
    make_icmp_err_reply(&mut tun.buffer, reply_icmp, type_, code, icmp_payload_size);
    Some(Reply { start: reply_ip, size: packet_size })
}

} // verus!

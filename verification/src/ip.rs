//! The dispatcher: what becomes of a received frame, by its IP version.

use vstd::prelude::*;

use crate::icmp::{hop_address, lemma_reply_keeps_frame, reply_front, reply_mode, Reply};
pub use crate::ipv4::handle_ipv4;
use crate::ipv4::{ipv4_buffer, ipv4_reply};
use crate::netinet::{span, Ipv4Header, IPPROTO_ICMP, IP_HEADER_SIZE};
use crate::tun::{receive_region, TunContext, REVERSE_BUFFER_HEADER};

verus! {

/// What became of a frame.
#[derive(Clone, Copy, Debug, PartialEq, Eq)]
pub enum IpOutcome {
    /// An IPv4 frame that calls for no answer, or a receive region too short
    /// to hold an IPv4 header: nothing is sent, nothing is said.
    Ignored,
    /// An IPv6 frame: it is reported and not answered.
    Ipv6,
    /// A frame of the IP version given, which is neither 4 nor 6: it is
    /// reported and not answered.
    UnknownVersion(u8),
    /// An echo request: the reply stands in the buffer and waits to be
    /// transmitted.
    Replied(Reply),
}

/// Whether the receive region `frame` is long enough to hold an IPv4 header
/// without options.
pub open spec fn holds_header(frame: Seq<u8>) -> bool {
    frame.len() >= IP_HEADER_SIZE
}

/// What becomes of the frame in the receive region `frame`: version 4 is
/// judged by the IPv4 handler, version 6 and every other version are told
/// apart and reported. A region too short to hold a header is passed over.
pub open spec fn ip_outcome(frame: Seq<u8>) -> IpOutcome {
    let ip = Ipv4Header::decode(frame);
    if !holds_header(frame) {
        IpOutcome::Ignored
    } else if ip.version == 4 {
        match ipv4_reply(frame, ip) {
            Some(reply) => IpOutcome::Replied(reply),
            None => IpOutcome::Ignored,
        }
    } else if ip.version == 6 {
        IpOutcome::Ipv6
    } else {
        IpOutcome::UnknownVersion(ip.version)
    }
}

/// The buffer as `handle_ip` leaves it: as the IPv4 handler leaves it where
/// its receive region holds a header of version 4, else untouched.
pub open spec fn ip_buffer(buffer: Seq<u8>) -> Seq<u8> {
    let ip = Ipv4Header::decode(receive_region(buffer));
    if holds_header(receive_region(buffer)) && ip.version == 4 {
        ipv4_buffer(buffer, ip)
    } else {
        buffer
    }
}

/// Decodes the IP header of the frame in the receive region of `tun`. A
/// region too short to hold a header gives none.
pub fn get_recv_ip(tun: &TunContext) -> (ip: Option<Ipv4Header>)
    requires
        tun.wf(),
    ensures
        ip == if holds_header(tun.frame()) {
            Some(Ipv4Header::decode(tun.frame()))
        } else {
            None
        },
        ip matches Some(header) ==> header.wf(),
{
    if tun.buffer.len() - REVERSE_BUFFER_HEADER < IP_HEADER_SIZE {
        return None;
    }
    let bytes = span(&tun.buffer, REVERSE_BUFFER_HEADER, REVERSE_BUFFER_HEADER + IP_HEADER_SIZE);
    let ip = Ipv4Header::read(bytes);
    assert(ip.source@ =~= Ipv4Header::decode(tun.frame()).source@);
    assert(ip.destination@ =~= Ipv4Header::decode(tun.frame()).destination@);
    Some(ip)
}

/// Handles the frame in the receive region of `tun` by its IP version: a
/// frame of version 4 goes to the IPv4 handler, one of version 6 or of an
/// unknown version is reported and left alone. Where the region is too short
/// to hold a header, nothing is done.
pub fn handle_ip(tun: &mut TunContext) -> (outcome: IpOutcome)
    requires
        old(tun).wf(),
    ensures
        final(tun).wf(),
        final(tun).queue == old(tun).queue,
        final(tun).buffer@ == ip_buffer(old(tun).buffer@),
        outcome == ip_outcome(old(tun).frame()),
{
    match get_recv_ip(tun) {
        None => IpOutcome::Ignored,
        Some(ip) => if ip.version == 4 {
            match handle_ipv4(tun, &ip) {
                Some(reply) => IpOutcome::Replied(reply),
                None => IpOutcome::Ignored,
            }
        } else if ip.version == 6 {
            IpOutcome::Ipv6
        } else {
            IpOutcome::UnknownVersion(ip.version)
        },
    }
}

/// Dispatch goes by the protocol: every frame with a header of version 4
/// whose protocol is ICMP, whatever the length that the header announces, is
/// judged by the ICMP handler, and no frame of version 4 with another protocol
/// is answered or changes the buffer.
pub proof fn lemma_dispatch_by_protocol(buffer: Seq<u8>)
    requires
        buffer.len() >= REVERSE_BUFFER_HEADER + IP_HEADER_SIZE,
        Ipv4Header::decode(receive_region(buffer)).version == 4,
    ensures
        ({
            let frame = receive_region(buffer);
            let ip = Ipv4Header::decode(frame);
            &&& ip.protocol == IPPROTO_ICMP ==> {
                &&& ip_buffer(buffer) == crate::icmp::icmp_buffer(buffer, ip)
                &&& ip_outcome(frame) == match crate::icmp::icmp_reply(frame, ip) {
                    Some(reply) => IpOutcome::Replied(reply),
                    None => IpOutcome::Ignored,
                }
            }
            &&& ip.protocol != IPPROTO_ICMP ==> {
                &&& ip_buffer(buffer) == buffer
                &&& ip_outcome(frame) == IpOutcome::Ignored
            }
        }),
{
}

/// Whatever becomes of a frame, the dispatcher leaves it as it was received:
/// the buffer keeps its length, its receive region and what lies in front of
/// the place of a reply.
pub proof fn lemma_dispatch_keeps_frame(buffer: Seq<u8>)
    requires
        buffer.len() >= REVERSE_BUFFER_HEADER,
    ensures
        ip_buffer(buffer).len() == buffer.len(),
        reply_front(ip_buffer(buffer)) == reply_front(buffer),
        receive_region(ip_buffer(buffer)) == receive_region(buffer),
{
    let ip = Ipv4Header::decode(receive_region(buffer));
    lemma_reply_keeps_frame(
        buffer,
        ip,
        hop_address(ip.destination@, ip.ttl),
        ip.source@,
        reply_mode(ip.ttl),
    );
}

} // verus!

//! The wire layout of the IPv4 and ICMP headers, and the protocol numbers
//! that the responder uses.

use vstd::prelude::*;
use vstd::slice::slice_subrange;

verus! {

/// The IP protocol number of ICMP.
pub const IPPROTO_ICMP: u8 = 1;

/// ICMP type: echo request.
pub const ICMP_ECHO: u8 = 8;

/// ICMP type: destination unreachable.
pub const ICMP_DEST_UNREACH: u8 = 3;

/// ICMP type: time exceeded.
pub const ICMP_TIME_EXCEEDED: u8 = 11;

/// Code of destination unreachable: host unreachable.
pub const ICMP_HOST_UNREACH: u8 = 1;

/// Code of destination unreachable: port unreachable.
pub const ICMP_PORT_UNREACH: u8 = 3;

/// Code of time exceeded: time to live exceeded in transit.
pub const ICMP_EXC_TTL: u8 = 0;

/// The size of an IPv4 header without options.
pub const IP_HEADER_SIZE: usize = 20;

/// The size of the largest IPv4 header: fifteen 32-bit words.
pub const IP_MAX_HEADER_SIZE: usize = 60;

/// The size of the fixed part of an ICMP message.
pub const ICMP_HEADER_SIZE: usize = 8;

/// How many bytes of the payload of a datagram an ICMP error quotes after the
/// datagram's IP header.
pub const ICMP_QUOTED_PAYLOAD: usize = 8;

/// The 16-bit value whose bytes in network order are `high`, `low`.
pub open spec fn be16(high: u8, low: u8) -> u16 {
    (high * 256 + low) as u16
}

/// An IPv4 header without its options, each field decoded.
#[derive(Clone, Copy, Debug, PartialEq, Eq)]
pub struct Ipv4Header {
    /// The IP version, a 4-bit field.
    pub version: u8,
    /// The length of the header in 32-bit words, a 4-bit field.
    pub header_length: u8,
    /// Type of service.
    pub tos: u8,
    /// The length of the whole datagram in bytes.
    pub total_length: u16,
    /// Identification.
    pub identification: u16,
    /// The flags and the fragment offset.
    pub fragment: u16,
    /// Time to live.
    pub ttl: u8,
    /// The protocol of the payload.
    pub protocol: u8,
    /// The header checksum.
    pub checksum: u16,
    /// The source address.
    pub source: [u8; 4],
    /// The destination address.
    pub destination: [u8; 4],
}

impl Ipv4Header {
    /// The two 4-bit fields hold 4-bit values.
    pub open spec fn wf(&self) -> bool {
        self.version < 16 && self.header_length < 16
    }

    /// The length in bytes that the header announces, options included.
    pub open spec fn header_bytes(&self) -> int {
        self.header_length * 4
    }

    /// The length in bytes that the header announces, options included.
    pub fn header_size(&self) -> (size: usize)
        requires
            self.wf(),
        ensures
            size == self.header_bytes(),
    {
        self.header_length as usize * 4
    }

    /// The header that the first twenty bytes of `bytes` encode.
    pub open spec fn decode(bytes: Seq<u8>) -> Ipv4Header {
        Ipv4Header {
            version: bytes[0] / 16,
            header_length: bytes[0] % 16,
            tos: bytes[1],
            total_length: be16(bytes[2], bytes[3]),
            identification: be16(bytes[4], bytes[5]),
            fragment: be16(bytes[6], bytes[7]),
            ttl: bytes[8],
            protocol: bytes[9],
            checksum: be16(bytes[10], bytes[11]),
            source: [bytes[12], bytes[13], bytes[14], bytes[15]],
            destination: [bytes[16], bytes[17], bytes[18], bytes[19]],
        }
    }

    /// Decodes the IPv4 header at the start of `bytes`.
    pub fn read(bytes: &[u8]) -> (header: Ipv4Header)
        requires
            bytes.len() >= IP_HEADER_SIZE,
        ensures
            header == Ipv4Header::decode(bytes@),
            header.wf(),
    {
        let first: u8 = bytes[0];
        assert(first >> 4 == first / 16 && first & 0x0f == first % 16) by (bit_vector);
        Ipv4Header {
            version: first >> 4,
            header_length: first & 0x0f,
            tos: bytes[1],
            total_length: read_be16(bytes, 2),
            identification: read_be16(bytes, 4),
            fragment: read_be16(bytes, 6),
            ttl: bytes[8],
            protocol: bytes[9],
            checksum: read_be16(bytes, 10),
            source: [bytes[12], bytes[13], bytes[14], bytes[15]],
            destination: [bytes[16], bytes[17], bytes[18], bytes[19]],
        }
    }
}

/// The fixed part of an ICMP message, each field decoded.
#[derive(Clone, Copy, Debug, PartialEq, Eq)]
pub struct IcmpHeader {
    /// The type of the message.
    pub icmp_type: u8,
    /// The code, whose meaning depends on the type.
    pub code: u8,
    /// The checksum over the whole message.
    pub checksum: u16,
    /// The rest of the header, whose meaning depends on type and code.
    pub rest: [u8; 4],
}

impl IcmpHeader {
    /// The header that the first eight bytes of `bytes` encode.
    pub open spec fn decode(bytes: Seq<u8>) -> IcmpHeader {
        IcmpHeader {
            icmp_type: bytes[0],
            code: bytes[1],
            checksum: be16(bytes[2], bytes[3]),
            rest: [bytes[4], bytes[5], bytes[6], bytes[7]],
        }
    }

    /// Decodes the ICMP header at the start of `bytes`.
    pub fn read(bytes: &[u8]) -> (header: IcmpHeader)
        requires
            bytes.len() >= ICMP_HEADER_SIZE,
        ensures
            header == IcmpHeader::decode(bytes@),
    {
        IcmpHeader {
            icmp_type: bytes[0],
            code: bytes[1],
            checksum: read_be16(bytes, 2),
            rest: [bytes[4], bytes[5], bytes[6], bytes[7]],
        }
    }
}

/// Reads the 16-bit value that stands at `at` in network byte order.
pub fn read_be16(bytes: &[u8], at: usize) -> (value: u16)
    requires
        at + 1 < bytes.len(),
    ensures
        value == be16(bytes@[at as int], bytes@[at + 1]),
{
    bytes[at] as u16 * 256 + bytes[at + 1] as u16
}

/// Writes `value` at `at` in network byte order.
pub fn write_be16(bytes: &mut Vec<u8>, at: usize, value: u16)
    requires
        at + 1 < old(bytes).len(),
    ensures
        final(bytes)@ == old(bytes)@.update(at as int, (value / 256) as u8).update(
            at + 1,
            (value % 256) as u8,
        ),
{
    bytes[at] = (value / 256) as u8;
    bytes[at + 1] = (value % 256) as u8;
}

/// Writes the four bytes of `addr` at `at`.
pub fn write_addr(bytes: &mut Vec<u8>, at: usize, addr: [u8; 4])
    requires
        at + 4 <= old(bytes).len(),
    ensures
        final(bytes)@ == splice(old(bytes)@, at, addr@),
{
    bytes[at] = addr[0];
    bytes[at + 1] = addr[1];
    bytes[at + 2] = addr[2];
    bytes[at + 3] = addr[3];
    assert(bytes@ =~= splice(old(bytes)@, at, addr@));
}

/// The bytes from `from` up to `to` of `bytes`.
pub fn span(bytes: &Vec<u8>, from: usize, to: usize) -> (part: &[u8])
    requires
        from <= to <= bytes.len(),
    ensures
        part@ == window(bytes@, from, to as int),
{
    slice_subrange(bytes.as_slice(), from, to)
}

/// The bytes of `bytes` from `from` up to, and without, `to`.
pub open spec fn window(bytes: Seq<u8>, from: usize, to: int) -> Seq<u8> {
    bytes.subrange(from as int, to)
}

/// `bytes` with `piece` laid over it from `at` on.
pub open spec fn splice(bytes: Seq<u8>, at: usize, piece: Seq<u8>) -> Seq<u8> {
    bytes.subrange(0, at as int) + piece + bytes.subrange(at + piece.len(), bytes.len() as int)
}

/// Laying the bytes that already stand at `at` over them changes nothing.
pub proof fn lemma_splice_window(bytes: Seq<u8>, at: usize, size: int)
    requires
        0 <= size,
        at + size <= bytes.len(),
    ensures
        splice(bytes, at, window(bytes, at, at + size)) == bytes,
{
    assert(splice(bytes, at, window(bytes, at, at + size)) =~= bytes);
}

/// A byte written into the place of a piece that was laid over `bytes` is a
/// byte written into the piece before it is laid.
pub proof fn lemma_splice_update(bytes: Seq<u8>, at: usize, piece: Seq<u8>, index: int, value: u8)
    requires
        at + piece.len() <= bytes.len(),
        0 <= index < piece.len(),
    ensures
        splice(bytes, at, piece).update(at + index, value) == splice(
            bytes,
            at,
            piece.update(index, value),
        ),
{
    assert(splice(bytes, at, piece).update(at + index, value) =~= splice(
        bytes,
        at,
        piece.update(index, value),
    ));
}

/// A piece laid into the place of a piece that was laid over `bytes` is laid
/// into that piece before it is laid.
pub proof fn lemma_splice_splice(
    bytes: Seq<u8>,
    at: usize,
    piece: Seq<u8>,
    index: usize,
    inner: Seq<u8>,
)
    requires
        at + piece.len() <= bytes.len(),
        index + inner.len() <= piece.len(),
        at + index <= usize::MAX,
    ensures
        splice(splice(bytes, at, piece), (at + index) as usize, inner) == splice(
            bytes,
            at,
            splice(piece, index, inner),
        ),
{
    assert(splice(splice(bytes, at, piece), (at + index) as usize, inner) =~= splice(
        bytes,
        at,
        splice(piece, index, inner),
    ));
}

/// What stands where a piece was laid is the piece.
pub proof fn lemma_window_of_splice(bytes: Seq<u8>, at: usize, piece: Seq<u8>)
    requires
        at + piece.len() <= bytes.len(),
    ensures
        window(splice(bytes, at, piece), at, at + piece.len()) == piece,
        splice(bytes, at, piece).len() == bytes.len(),
{
    assert(window(splice(bytes, at, piece), at, at + piece.len()) =~= piece);
}

} // verus!

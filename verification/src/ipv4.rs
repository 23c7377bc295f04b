//! IPv4 reply headers and the Internet checksum.

use vstd::arithmetic::div_mod::{lemma_fundamental_div_mod, lemma_mod_multiples_vanish};
use vstd::prelude::*;

use crate::icmp::{handle_icmp, icmp_buffer, icmp_reply, Reply};
use crate::netinet::{
    lemma_splice_splice, lemma_splice_update, lemma_splice_window, lemma_window_of_splice, span,
    splice, window, write_addr, write_be16, Ipv4Header, IPPROTO_ICMP, IP_HEADER_SIZE,
};
use crate::tun::TunContext;

verus! {

/// The `index`-th 16-bit word of `data`, high byte first. A last byte without
/// a partner counts as if a zero byte followed it.
pub open spec fn word_at(data: Seq<u8>, index: int) -> nat {
    let high = data[2 * index] as nat;
    let low = if 2 * index + 1 < data.len() {
        data[2 * index + 1] as nat
    } else {
        0
    };
    high * 256 + low
}

/// The number of 16-bit words that `data` holds, a last odd byte included.
pub open spec fn word_count(data: Seq<u8>) -> nat {
    ((data.len() + 1) / 2) as nat
}

/// The sum of the first `count` words of `data`.
pub open spec fn sum_words(data: Seq<u8>, count: nat) -> nat
    decreases count,
{
    if count == 0 {
        0
    } else {
        sum_words(data, (count - 1) as nat) + word_at(data, count - 1)
    }
}

/// The sum of all the 16-bit words of `data`.
pub open spec fn word_sum(data: Seq<u8>) -> nat {
    sum_words(data, word_count(data))
}

/// Folds the carries of a one's-complement sum back into its low sixteen bits
/// until none is left.
pub open spec fn fold_carries(sum: nat) -> nat
    decreases sum,
{
    if sum < 0x1_0000 {
        sum
    } else {
        fold_carries(sum / 0x1_0000 + sum % 0x1_0000)
    }
}

/// The Internet checksum of `data`: the one's complement of the folded sum of
/// its 16-bit words.
pub open spec fn inet_checksum(data: Seq<u8>) -> u16 {
    (0xffff - fold_carries(word_sum(data))) as u16
}

/// `data` with its `index`-th 16-bit word replaced by `word`, high byte first.
pub open spec fn with_word(data: Seq<u8>, index: int, word: u16) -> Seq<u8> {
    data.update(2 * index, (word / 256) as u8).update(2 * index + 1, (word % 256) as u8)
}

/// `data` with the checksum that covers all of it in its `field`-th word; the
/// sum is taken with that word at zero.
pub open spec fn with_checksum(data: Seq<u8>, field: int) -> Seq<u8> {
    let blank = with_word(data, field, 0);
    with_word(blank, field, inet_checksum(blank))
}

/// Folds one round of carries of `checksum` where the next word might not fit.
fn make_room(checksum: u32) -> (folded: u32)
    ensures
        folded <= 0xffff_0000,
        fold_carries(folded as nat) == fold_carries(checksum as nat),
{
    if checksum > 0xffff_0000 {
        assert(checksum >> 16 == checksum / 0x1_0000 && checksum & 0xffff == checksum % 0x1_0000)
            by (bit_vector);
        (checksum & 0xffff) + (checksum >> 16)
    } else {
        checksum
    }
}

/// Computes the Internet checksum of `data`: its 16-bit words are summed in
/// network byte order, a last odd byte padded with zero, the carries are folded
/// back in and the result is complemented.
pub fn calc_inet_checksum(data: &[u8]) -> (sum: u16)
    ensures
        sum == inet_checksum(data@),
{
    let size: usize = data.len();
    let mut checksum: u32 = 0;
    let mut i: usize = 0;
    while i < size / 2
        invariant
            size == data@.len(),
            i <= size / 2,
            fold_carries(checksum as nat) == fold_carries(sum_words(data@, i as nat)),
        decreases size / 2 - i,
    {
        let word: u32 = data[2 * i] as u32 * 256 + data[2 * i + 1] as u32;
        let room: u32 = make_room(checksum);
        proof {
            lemma_fold_carries_add(room as nat, sum_words(data@, i as nat), word as nat);
        }
        checksum = room + word;
        i += 1;
    }
    if size % 2 == 1 {
        let word: u32 = data[size - 1] as u32 * 256;
        let room: u32 = make_room(checksum);
        proof {
            lemma_fold_carries_add(room as nat, sum_words(data@, i as nat), word as nat);
        }
        checksum = room + word;
    }
    reduce_inet_checksum(checksum)
}

/// Reduces a 32-bit one's-complement accumulator to the 16-bit checksum: the
/// carries are folded in, and the result is complemented.
pub fn reduce_inet_checksum(checksum: u32) -> (sum: u16)
    ensures
        sum == 0xffff - fold_carries(checksum as nat),
{
    let ghost given: u32 = checksum;
    let mut checksum: u32 = checksum;
    while (checksum >> 16) != 0
        invariant
            fold_carries(checksum as nat) == fold_carries(given as nat),
        decreases checksum,
    {
        assert(checksum >> 16 == checksum / 0x1_0000 && checksum & 0xffff == checksum % 0x1_0000)
            by (bit_vector);
        checksum = (checksum & 0xffff) + (checksum >> 16);
    }
    assert(checksum >> 16 == checksum / 0x1_0000) by (bit_vector);
    let low: u16 = checksum as u16;
    assert(!low == 0xffff - low) by (bit_vector);
    !low
}

/// Folding leaves zero alone and sends every other sum to the one value in
/// `1..=0xffff` that is congruent to it modulo `0xffff`.
pub proof fn lemma_fold_carries_closed_form(sum: nat)
    ensures
        fold_carries(sum) == if sum == 0 {
            0
        } else {
            (sum - 1) % 0xffff + 1
        },
    decreases sum,
{
    if sum >= 0x1_0000 {
        let high = sum / 0x1_0000;
        let low = sum % 0x1_0000;
        let next = high + low;
        lemma_fundamental_div_mod(sum as int, 0x1_0000);
        lemma_fold_carries_closed_form(next);
        assert(sum - 1 == 0xffff * high + (next - 1));
        lemma_mod_multiples_vanish(high as int, next - 1, 0xffff);
    }
}

/// Two accumulators that fold to the same value still do so after the same
/// word has been added to both.
pub proof fn lemma_fold_carries_add(left: nat, right: nat, word: nat)
    requires
        fold_carries(left) == fold_carries(right),
    ensures
        fold_carries(left + word) == fold_carries(right + word),
{
    lemma_fold_carries_closed_form(left);
    lemma_fold_carries_closed_form(right);
    lemma_fold_carries_closed_form(left + word);
    lemma_fold_carries_closed_form(right + word);
    if left != 0 && right != 0 {
        let l = (left - 1) as int;
        let r = (right - 1) as int;
        lemma_fundamental_div_mod(l, 0xffff);
        lemma_fundamental_div_mod(r, 0xffff);
        assert(l + word == 0xffff * (l / 0xffff) + (r % 0xffff + word));
        assert(r + word == 0xffff * (r / 0xffff) + (r % 0xffff + word));
        lemma_mod_multiples_vanish(l / 0xffff, r % 0xffff + word, 0xffff);
        lemma_mod_multiples_vanish(r / 0xffff, r % 0xffff + word, 0xffff);
    }
}

/// Replacing one whole word of `data` changes the sum of the words up to
/// `count` by the difference of the two words, once `count` has passed it.
pub proof fn lemma_sum_words_with_word(data: Seq<u8>, index: int, word: u16, count: nat)
    requires
        0 <= index,
        2 * index + 1 < data.len(),
        count <= word_count(data),
    ensures
        sum_words(with_word(data, index, word), count) == if count <= index {
            sum_words(data, count) as int
        } else {
            sum_words(data, count) - word_at(data, index) + word
        },
    decreases count,
{
    if count > 0 {
        let changed = with_word(data, index, word);
        lemma_sum_words_with_word(data, index, word, (count - 1) as nat);
        if count - 1 != index {
            assert(word_at(changed, count - 1) == word_at(data, count - 1));
        }
    }
}

/// The checksum round trip: when the checksum of a span is taken with its
/// checksum word at zero and written into that word, the words of the span sum
/// to a multiple of `0xffff`, and the checksum taken again over the whole span
/// is zero. This holds for a span of any length whose `field`-th word lies
/// within it.
pub proof fn lemma_checksum_round_trip(data: Seq<u8>, field: int)
    requires
        0 <= field,
        2 * field + 1 < data.len(),
    ensures
        word_sum(with_checksum(data, field)) % 0xffff == 0,
        inet_checksum(with_checksum(data, field)) == 0,
{
    let blank = with_word(data, field, 0);
    let sum = word_sum(blank);
    let check = inet_checksum(blank);
    let filled = with_word(blank, field, check);
    lemma_sum_words_with_word(data, field, 0, word_count(data));
    lemma_sum_words_with_word(blank, field, check, word_count(blank));
    assert(word_at(blank, field) == 0);
    lemma_fold_carries_closed_form(sum);
    assert(word_sum(filled) == sum + check);
    if sum > 0 {
        lemma_fundamental_div_mod(sum - 1, 0xffff);
        assert(sum + check == 0xffff * ((sum - 1) / 0xffff + 1) + 0);
        lemma_mod_multiples_vanish((sum - 1) / 0xffff + 1, 0, 0xffff);
    }
    lemma_fold_carries_closed_form((sum + check) as nat);
    lemma_fundamental_div_mod(sum + check - 1, 0xffff);
    lemma_fundamental_div_mod((sum + check) as int, 0xffff);
}

/// The checksum has no hidden state: it is a function of the bytes alone, so
/// two spans that hold the same bytes have the same checksum.
pub proof fn lemma_checksum_of_equal_bytes(first: Seq<u8>, second: Seq<u8>)
    requires
        first.len() == second.len(),
        forall|i: int| 0 <= i < first.len() ==> first[i] == second[i],
    ensures
        inet_checksum(first) == inet_checksum(second),
{
    assert(first =~= second);
}

/// The header that `make_ipv4_reply` leaves where the twenty bytes `prior`
/// stood, before its checksum is filled in: version 4, a header of five words,
/// the total length, the identification, a time to live of 255, the protocol
/// and the two addresses. The other bytes are those of `prior`.
pub open spec fn ipv4_reply_fields(
    prior: Seq<u8>,
    protocol: u8,
    id: u16,
    payload_size: int,
    src_addr: Seq<u8>,
    dst_addr: Seq<u8>,
) -> Seq<u8> {
    let total = (IP_HEADER_SIZE + payload_size) as u16;
    let lengths = with_word(prior.update(0, 0x45), 1, total);
    let counted = with_word(lengths.update(8, 255).update(9, protocol), 2, id);
    splice(splice(counted, 12, src_addr), 16, dst_addr)
}

/// The header that `make_ipv4_reply` leaves where the twenty bytes `prior`
/// stood: the fields above, and the checksum over the header in its sixth
/// word.
pub open spec fn ipv4_reply_header(
    prior: Seq<u8>,
    protocol: u8,
    id: u16,
    payload_size: int,
    src_addr: Seq<u8>,
    dst_addr: Seq<u8>,
) -> Seq<u8> {
    with_checksum(ipv4_reply_fields(prior, protocol, id, payload_size, src_addr, dst_addr), 5)
}

/// The header of a reply is as long as the bytes it replaces.
pub proof fn lemma_ipv4_reply_header_len(
    prior: Seq<u8>,
    protocol: u8,
    id: u16,
    payload_size: int,
    src_addr: Seq<u8>,
    dst_addr: Seq<u8>,
)
    requires
        prior.len() == IP_HEADER_SIZE,
        src_addr.len() == 4,
        dst_addr.len() == 4,
    ensures
        ipv4_reply_header(prior, protocol, id, payload_size, src_addr, dst_addr).len()
            == IP_HEADER_SIZE,
{
}

/// A word written into the place of a piece that was laid over `bytes` is a
/// word written into the piece before it is laid.
pub proof fn lemma_splice_word(bytes: Seq<u8>, at: usize, piece: Seq<u8>, index: int, word: u16)
    requires
        at + piece.len() <= bytes.len(),
        0 <= index,
        2 * index + 1 < piece.len(),
    ensures
        splice(bytes, at, piece).update(at + 2 * index, (word / 256) as u8).update(
            at + 2 * index + 1,
            (word % 256) as u8,
        ) == splice(bytes, at, with_word(piece, index, word)),
{
    let high = (word / 256) as u8;
    lemma_splice_update(bytes, at, piece, 2 * index, high);
    lemma_splice_update(bytes, at, piece.update(2 * index, high), 2 * index + 1, (word % 256) as u8);
}

/// Fills in the IPv4 header of a reply in the twenty bytes of `packet` from
/// `at` on: version 4, no options, the length of header and payload, a time to
/// live of 255, `protocol`, `id` and the two addresses; then the checksum,
/// taken over the header with the checksum field at zero. Type of service,
/// flags and fragment offset are left as they were found.
pub fn make_ipv4_reply(
    packet: &mut Vec<u8>,
    at: usize,
    protocol: u8,
    id: u16,
    payload_size: usize,
    src_addr: [u8; 4],
    dst_addr: [u8; 4],
)
    requires
        at + IP_HEADER_SIZE <= old(packet).len(),
        IP_HEADER_SIZE + payload_size <= 0xffff,
    ensures
        final(packet)@ == splice(
            old(packet)@,
            at,
            ipv4_reply_header(
                window(old(packet)@, at, at + IP_HEADER_SIZE),
                protocol,
                id,
                payload_size as int,
                src_addr@,
                dst_addr@,
            ),
        ),
{
    let ghost before = packet@;
    let ghost prior = window(before, at, at + IP_HEADER_SIZE);
    let total: u16 = (IP_HEADER_SIZE + payload_size) as u16;
    proof {
        lemma_splice_window(before, at, IP_HEADER_SIZE as int);
    }
    packet[at] = 0x45;
    let ghost version = prior.update(0, 0x45);
    proof {
        lemma_splice_update(before, at, prior, 0, 0x45);
    }
    write_be16(packet, at + 2, total);
    let ghost lengths = with_word(version, 1, total);
    proof {
        lemma_splice_word(before, at, version, 1, total);
    }
    packet[at + 8] = 255;
    packet[at + 9] = protocol;
    let ghost carried = lengths.update(8, 255).update(9, protocol);
    proof {
        lemma_splice_update(before, at, lengths, 8, 255);
        lemma_splice_update(before, at, lengths.update(8, 255), 9, protocol);
    }
    write_be16(packet, at + 4, id);
    let ghost counted = with_word(carried, 2, id);
    proof {
        lemma_splice_word(before, at, carried, 2, id);
    }
    write_addr(packet, at + 12, src_addr);
    let ghost sourced = splice(counted, 12, src_addr@);
    proof {
        lemma_splice_splice(before, at, counted, 12, src_addr@);
    }
    write_addr(packet, at + 16, dst_addr);
    let ghost fields = splice(sourced, 16, dst_addr@);
    proof {
        lemma_splice_splice(before, at, sourced, 16, dst_addr@);
        assert(fields == ipv4_reply_fields(
            prior,
            protocol,
            id,
            payload_size as int,
            src_addr@,
            dst_addr@,
        ));
    }
    write_be16(packet, at + 10, 0);
    let ghost blank = with_word(fields, 5, 0);
    proof {
        lemma_splice_word(before, at, fields, 5, 0);
        lemma_window_of_splice(before, at, blank);
    }
    let sum: u16 = calc_inet_checksum(span(packet, at, at + IP_HEADER_SIZE));
    write_be16(packet, at + 10, sum);
    proof {
        lemma_splice_word(before, at, blank, 5, sum);
    }
}

/// The reply that `handle_ipv4` gives for `frame` with header `ip`: that of
/// the ICMP handler where the protocol is ICMP, none for any other protocol.
pub open spec fn ipv4_reply(frame: Seq<u8>, ip: Ipv4Header) -> Option<Reply> {
    if ip.protocol == IPPROTO_ICMP {
        icmp_reply(frame, ip)
    } else {
        None
    }
}

/// The buffer as `handle_ipv4` leaves it: as the ICMP handler leaves it where
/// the protocol is ICMP, else untouched.
pub open spec fn ipv4_buffer(buffer: Seq<u8>, ip: Ipv4Header) -> Seq<u8> {
    if ip.protocol == IPPROTO_ICMP {
        icmp_buffer(buffer, ip)
    } else {
        buffer
    }
}

/// Handles the IPv4 datagram in the receive region of `tun`, whose header is
/// `ip`: ICMP goes to the ICMP handler, any other protocol is passed over in
/// silence.
pub fn handle_ipv4(tun: &mut TunContext, ip: &Ipv4Header) -> (reply: Option<Reply>)
    requires
        old(tun).wf(),
        ip.wf(),
    ensures
        final(tun).wf(),
        final(tun).queue == old(tun).queue,
        final(tun).buffer@ == ipv4_buffer(old(tun).buffer@, *ip),
        reply == ipv4_reply(old(tun).frame(), *ip),
{
    if ip.protocol == IPPROTO_ICMP {
        handle_icmp(tun, ip)
    } else {
        None
    }
}

} // verus!

//! The state of one interface queue: its index and its packet buffer.

use vstd::prelude::*;

use crate::ip::{handle_ip, ip_buffer, ip_outcome, IpOutcome};
use crate::netinet::IP_HEADER_SIZE;

verus! {

/// The size of the region in front of the receive region, in which a reply's
/// headers are built.
pub const REVERSE_BUFFER_HEADER: usize = 64;

/// The receive region of a buffer: what lies behind the reply prefix.
pub open spec fn receive_region(buffer: Seq<u8>) -> Seq<u8> {
    buffer.subrange(REVERSE_BUFFER_HEADER as int, buffer.len() as int)
}

/// `count` zero bytes.
pub open spec fn zeros(count: usize) -> Seq<u8> {
    Seq::new(count as nat, |i: int| 0u8)
}

/// What a queue did with one received frame.
#[derive(Clone, Copy, Debug, PartialEq, Eq)]
pub enum Step {
    /// The frame was no longer than an IPv4 header without options: it is
    /// reported and dropped.
    TooSmall,
    /// The frame went to the dispatcher, with the outcome given.
    Handled(IpOutcome),
}

/// What `handle` does with a frame of `size` bytes in the receive region
/// `frame`: one that is no longer than an IPv4 header without options is
/// dropped, any other goes to the dispatcher.
pub open spec fn step_outcome(frame: Seq<u8>, size: usize) -> Step {
    if size <= IP_HEADER_SIZE {
        Step::TooSmall
    } else {
        Step::Handled(ip_outcome(frame))
    }
}

/// The buffer as `handle` leaves it after a frame of `size` bytes: untouched
/// where the frame is dropped, else as the dispatcher leaves it.
pub open spec fn step_buffer(buffer: Seq<u8>, size: usize) -> Seq<u8> {
    if size <= IP_HEADER_SIZE {
        buffer
    } else {
        ip_buffer(buffer)
    }
}

/// Why no context could be made for a queue.
#[derive(Clone, Copy, Debug, PartialEq, Eq)]
pub enum TunError {
    /// The interface reported a negative MTU.
    NegativeMtu,
}

/// One interface queue: its index and its buffer. The buffer is one
/// allocation, laid out as the reply prefix of `REVERSE_BUFFER_HEADER` bytes
/// followed by the receive region of MTU bytes; frames are received into the
/// receive region, and a reply is built right in front of the frame it quotes.
/// Nothing is ever read or written beyond the end of the receive region,
/// however short it is.
#[derive(Debug)]
pub struct TunContext {
    /// The index of the queue.
    pub queue: usize,
    /// The reply prefix and the receive region.
    pub buffer: Vec<u8>,
}

impl TunContext {
    /// The buffer holds the reply prefix; the receive region behind it may
    /// have any length.
    pub open spec fn wf(&self) -> bool {
        self.buffer@.len() >= REVERSE_BUFFER_HEADER
    }

    /// The receive region: the buffer behind the reply prefix.
    pub open spec fn frame(&self) -> Seq<u8> {
        receive_region(self.buffer@)
    }

    /// Makes the context of queue number `queue` on an interface whose MTU is
    /// `mtu`, with a zeroed buffer of `REVERSE_BUFFER_HEADER + mtu` bytes.
    /// Every MTU that is not negative gives a context.
    pub fn new(mtu: i32, queue: usize) -> (made: Result<TunContext, TunError>)
        ensures
            mtu < 0 ==> made == Err::<TunContext, TunError>(TunError::NegativeMtu),
            mtu >= 0 ==> {
                &&& made matches Ok(tun)
                &&& tun.wf()
                &&& tun.queue == queue
                &&& tun.buffer.len() == REVERSE_BUFFER_HEADER + mtu
                &&& tun.buffer@ == zeros(tun.buffer.len())
            },
    {
        if mtu < 0 {
            return Err(TunError::NegativeMtu);
        }
        let mtu: usize = mtu as usize;
        let buffer: Vec<u8> = vec![0u8; mtu + REVERSE_BUFFER_HEADER];
        assert(buffer@ =~= zeros(buffer.len()));
        Ok(TunContext { queue, buffer })
    }

    /// Handles one frame of `size` bytes that was received into the receive
    /// region. A frame that is too small is dropped. Any other goes to the
    /// dispatcher; where that built a reply, it stands in the buffer, in
    /// front of the frame, and the outcome says where.
    pub fn handle(&mut self, size: usize) -> (step: Step)
        requires
            old(self).wf(),
        ensures
            final(self).wf(),
            final(self).queue == old(self).queue,
            final(self).buffer@ == step_buffer(old(self).buffer@, size),
            step == step_outcome(old(self).frame(), size),
    {
        if size <= IP_HEADER_SIZE {
            Step::TooSmall
        } else {
            Step::Handled(handle_ip(self))
        }
    }
}

} // verus!

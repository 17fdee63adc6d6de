//! The forwarding loop that the tunnel's tasks share.
//!
//! A task waits on two sides at once: a byte stream, and a source of whole
//! packets (a channel or the virtual interface). Whichever is ready first is
//! handled, alone, and then both waits are armed again. The waiting is the
//! caller's; what to do with what became ready is decided here.

use vstd::prelude::*;

verus! {

/// How many bytes one read from the stream may bring.
pub const RELAY_BUF_LEN: usize = 1600;

/// How many packets may wait in a session's channel before the router's
/// send suspends.
pub const CHANNEL_CAPACITY: usize = 100;

/// What became ready.
#[derive(Debug, PartialEq, Eq)]
pub enum LoopEvent {
    /// A read from the stream returned these bytes. No bytes mean that the
    /// peer closed the stream in good order.
    StreamRead(Vec<u8>),
    /// A read from or a write to the stream failed.
    StreamFailed,
    /// The packet source delivered a packet.
    Item(Vec<u8>),
    /// The packet source will deliver nothing more.
    SourceClosed,
}

/// Why the loop ends.
#[derive(Clone, Copy, Debug, PartialEq, Eq, Structural)]
pub enum LoopEnd {
    PeerClosed,
    StreamFailed,
    SourceClosed,
}

/// What to do with what became ready.
#[derive(Debug, PartialEq, Eq)]
pub enum LoopStep {
    /// Hand these bytes, read from the stream, to the packet side.
    Deliver(Vec<u8>),
    /// Write this packet to the stream as it is.
    Write(Vec<u8>),
    /// Leave the loop. Nothing is retried here.
    Stop(LoopEnd),
}

/// What one turn of the loop decides, over the bytes involved.
pub open spec fn loop_step(ev: LoopEvent) -> LoopStep {
    match ev {
        LoopEvent::StreamRead(bytes) => if bytes@.len() == 0 {
            LoopStep::Stop(LoopEnd::PeerClosed)
        } else {
            LoopStep::Deliver(bytes)
        },
        LoopEvent::StreamFailed => LoopStep::Stop(LoopEnd::StreamFailed),
        LoopEvent::Item(pkt) => LoopStep::Write(pkt),
        LoopEvent::SourceClosed => LoopStep::Stop(LoopEnd::SourceClosed),
    }
}

/// One turn of the forwarding loop. Bytes from the stream go to the packet
/// side unchanged and in the order read; packets go to the stream unchanged
/// and in the order delivered; an empty read, a failure or a closed source
/// ends the loop.
pub fn main_loop(ev: LoopEvent) -> (r: LoopStep)
    ensures
        r == loop_step(ev),
{
    match ev {
        LoopEvent::StreamRead(bytes) => {
            if bytes.len() == 0 {
                LoopStep::Stop(LoopEnd::PeerClosed)
            } else {
                LoopStep::Deliver(bytes)
            }
        },
        LoopEvent::StreamFailed => LoopStep::Stop(LoopEnd::StreamFailed),
        LoopEvent::Item(pkt) => LoopStep::Write(pkt),
        LoopEvent::SourceClosed => LoopStep::Stop(LoopEnd::SourceClosed),
    }
}

} // verus!

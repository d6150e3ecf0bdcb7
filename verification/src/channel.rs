//! The bounded, ordered delivery path between the dispatcher and the
//! connection's writer: messages leave in exactly the order they entered,
//! and a full channel refuses a message rather than dropping or
//! reordering one.

use vstd::prelude::*;

use crate::protocol::ServerMessage;

verus! {

/// How many outbound messages may wait unwritten before the dispatching
/// path must pause.
pub const OUTBOUND_CAPACITY: usize = 32;

/// A bounded FIFO of outbound messages.
pub struct OutboundChannel {
    items: Vec<ServerMessage>,
}

impl View for OutboundChannel {
    type V = Seq<ServerMessage>;

    closed spec fn view(&self) -> Seq<ServerMessage> {
        self.items@
    }
}

impl OutboundChannel {
    /// An empty channel.
    pub fn new() -> (c: OutboundChannel)
        ensures
            c@.len() == 0,
    {
        OutboundChannel { items: Vec::new() }
    }

    /// How many messages are waiting.
    pub fn len(&self) -> (n: usize)
        ensures
            n == self@.len(),
    {
        self.items.len()
    }

    /// Enqueues at the back when there is room; a full channel refuses
    /// and stays exactly as it was, so the caller can pause and retry
    /// rather than lose the message.
    pub fn try_send(&mut self, msg: ServerMessage) -> (accepted: bool)
        ensures
            old(self)@.len() < OUTBOUND_CAPACITY ==> accepted && final(self)@ == old(self)@.push(
                msg,
            ),
            old(self)@.len() >= OUTBOUND_CAPACITY ==> !accepted && final(self)@ == old(self)@,
    {
        if self.items.len() < OUTBOUND_CAPACITY {
            self.items.push(msg);
            true
        } else {
            false
        }
    }

    /// Dequeues the oldest message; the rest keep their order.
    pub fn recv_next(&mut self) -> (m: Option<ServerMessage>)
        ensures
            old(self)@.len() == 0 ==> m is None && final(self)@ == old(self)@,
            old(self)@.len() > 0 ==> m == Some(old(self)@[0]) && final(self)@ == old(
                self,
            )@.subrange(1, old(self)@.len() as int),
    {
        if self.items.len() == 0 {
            None
        } else {
            let m = self.items.remove(0);
            proof {
                assert(self.items@ =~= old(self)@.subrange(1, old(self)@.len() as int));
            }
            Some(m)
        }
    }
}

} // verus!

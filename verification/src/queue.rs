//! The bounded inbound queue's discipline, verified.
//!
//! The live bridge hands decoded messages across threads through a
//! bounded channel (see the bridge module); this module states and
//! proves the discipline that channel is relied on for: first-in
//! first-out order, a fixed capacity bound with producer backpressure
//! (a message bounces back rather than being dropped silently), and a
//! non-blocking drain that takes everything currently available and
//! returns at once — empty when the queue is empty.

use crate::protocol::ChatMessage;
use vstd::prelude::*;

verus! {

/// How many decoded messages the inbound queue holds at most.
pub const INBOUND_QUEUE_BOUND: usize = 10;

/// A bounded first-in first-out queue of decoded messages.
pub struct InboundQueue {
    buf: Vec<ChatMessage>,
    cap: usize,
}

/// What a push does to the queued contents: append while there is room,
/// refuse (leaving the contents alone) when the queue is full.
pub open spec fn push_model(contents: Seq<ChatMessage>, m: ChatMessage, cap: nat) -> Seq<
    ChatMessage,
> {
    if contents.len() < cap {
        contents.push(m)
    } else {
        contents
    }
}

impl InboundQueue {
    /// The queued messages, oldest first.
    pub closed spec fn contents(&self) -> Seq<ChatMessage> {
        self.buf@
    }

    /// The fixed capacity the queue was created with.
    pub closed spec fn capacity(&self) -> nat {
        self.cap as nat
    }

    /// The queue never holds more than its capacity.
    pub open spec fn wf(&self) -> bool {
        self.contents().len() <= self.capacity()
    }

    pub fn new(cap: usize) -> (q: InboundQueue)
        ensures
            q.wf(),
            q.contents() == Seq::<ChatMessage>::empty(),
            q.capacity() == cap,
    {
        InboundQueue { buf: Vec::new(), cap }
    }

    pub fn len(&self) -> (n: usize)
        ensures
            n == self.contents().len(),
    {
        self.buf.len()
    }

    /// Accepts `m` at the back while there is room; a full queue
    /// refuses and hands `m` back, so the producer can apply
    /// backpressure instead of dropping the message.
    pub fn push(&mut self, m: ChatMessage) -> (r: Result<(), ChatMessage>)
        requires
            old(self).wf(),
        ensures
            final(self).wf(),
            final(self).capacity() == old(self).capacity(),
            final(self).contents() == push_model(old(self).contents(), m, old(self).capacity()),
            r is Ok <==> old(self).contents().len() < old(self).capacity(),
            r matches Err(back) ==> back == m,
    {
        if self.buf.len() < self.cap {
            self.buf.push(m);
            Ok(())
        } else {
            Err(m)
        }
    }

    /// Takes everything currently queued, oldest first, and leaves the
    /// queue empty. Draining never waits: an empty queue yields an
    /// empty result at once (the loop provably terminates).
    pub fn drain(&mut self) -> (r: Vec<ChatMessage>)
        requires
            old(self).wf(),
        ensures
            final(self).wf(),
            final(self).capacity() == old(self).capacity(),
            r@ == old(self).contents(),
            final(self).contents() == Seq::<ChatMessage>::empty(),
            old(self).contents().len() == 0 ==> r@.len() == 0,
    {
        let mut out: Vec<ChatMessage> = Vec::new();
        while self.buf.len() > 0
            invariant
                self.cap == old(self).cap,
                out@ + self.buf@ == old(self).buf@,
            decreases self.buf@.len(),
        {
            let m = self.buf.remove(0);
            out.push(m);
            proof {
                assert(out@ + self.buf@ =~= old(self).buf@);
            }
        }
        proof {
            assert(out@ =~= old(self).buf@);
        }
        out
    }
}

// ---------------------------------------------------------------------
// The queue discipline as laws over operation sequences.
// ---------------------------------------------------------------------

/// One step a producer or the consumer takes against the queue.
pub enum QueueOp {
    Push(ChatMessage),
    Drain,
}

/// Runs a sequence of operations against an initially empty queue of
/// capacity `cap`. The result is `(pending, observed, accepted)`: what
/// is still queued, everything the consumer has drained so far in the
/// order it was observed, and every pushed message the queue accepted
/// in the order it arrived.
pub open spec fn run_queue(ops: Seq<QueueOp>, cap: nat) -> (Seq<ChatMessage>, Seq<ChatMessage>, Seq<
    ChatMessage,
>)
    decreases ops.len(),
{
    if ops.len() == 0 {
        (Seq::empty(), Seq::empty(), Seq::empty())
    } else {
        let prev = run_queue(ops.drop_last(), cap);
        match ops.last() {
            QueueOp::Push(m) => (push_model(prev.0, m, cap), prev.1, if prev.0.len() < cap {
                prev.2.push(m)
            } else {
                prev.2
            }),
            QueueOp::Drain => (Seq::empty(), prev.1 + prev.0, prev.2),
        }
    }
}

/// Law: whatever mix of pushes and drains runs, and however the drains
/// are timed, what the consumer has observed followed by what is still
/// pending is exactly the accepted messages in arrival order — so
/// messages enqueued in some order are observed in that order,
/// whether drained in one poll or across many.
pub proof fn lemma_fifo_order(ops: Seq<QueueOp>, cap: nat)
    ensures
        run_queue(ops, cap).1 + run_queue(ops, cap).0 == run_queue(ops, cap).2,
    decreases ops.len(),
{
    if ops.len() == 0 {
        assert(run_queue(ops, cap).1 + run_queue(ops, cap).0 =~= run_queue(ops, cap).2);
    } else {
        let prev = run_queue(ops.drop_last(), cap);
        lemma_fifo_order(ops.drop_last(), cap);
        match ops.last() {
            QueueOp::Push(m) => {
                if prev.0.len() < cap {
                    assert(prev.1 + prev.0.push(m) =~= (prev.1 + prev.0).push(m));
                }
            },
            QueueOp::Drain => {
                assert((prev.1 + prev.0) + Seq::<ChatMessage>::empty() =~= prev.1 + prev.0);
            },
        }
    }
}

} // verus!

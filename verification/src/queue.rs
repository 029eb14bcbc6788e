//! The bounded FIFO that carries chunks from the capture side to the
//! outbound sender. The producer blocks (retries) when it is full; the
//! consumer takes chunks strictly in arrival order, so the stream reaches
//! the wire exactly as it was produced.

use vstd::prelude::*;

verus! {

/// A bounded queue of outbound chunks, first in, first out.
pub struct ChunkQueue {
    /// Queued chunks, oldest first.
    pub items: Vec<Vec<u8>>,
    /// The capacity the queue was created with.
    pub bound: usize,
}

impl ChunkQueue {
    /// Never holds more than its bound.
    pub open spec fn wf(self) -> bool {
        self.items@.len() <= self.bound
    }

    /// An empty queue with the given capacity.
    pub fn new(bound: usize) -> (r: ChunkQueue)
        ensures
            r.wf(),
            r.bound == bound,
            r.items@.len() == 0,
    {
        ChunkQueue { items: Vec::new(), bound }
    }

    /// How many chunks are queued.
    pub fn len(&self) -> (r: usize)
        ensures
            r == self.items@.len(),
    {
        self.items.len()
    }

    /// Offer a chunk: accepted at the back when there is room, handed back
    /// untouched when the queue is full, so a blocked producer can retry.
    pub fn push(&mut self, chunk: Vec<u8>) -> (rejected: Option<Vec<u8>>)
        requires
            old(self).wf(),
        ensures
            final(self).wf(),
            final(self).bound == old(self).bound,
            old(self).items@.len() < old(self).bound ==> (rejected is None && final(self).items@
                == old(self).items@.push(chunk)),
            old(self).items@.len() >= old(self).bound ==> (rejected == Some(chunk)
                && final(self).items@ == old(self).items@),
    {
        if self.items.len() < self.bound {
            self.items.push(chunk);
            None
        } else {
            Some(chunk)
        }
    }

    /// Take the oldest chunk, if any: arrival order is preserved.
    pub fn pop(&mut self) -> (r: Option<Vec<u8>>)
        requires
            old(self).wf(),
        ensures
            final(self).wf(),
            final(self).bound == old(self).bound,
            old(self).items@.len() == 0 ==> (r is None && final(self).items@ == old(self).items@),
            old(self).items@.len() > 0 ==> (r == Some(old(self).items@[0]) && final(self).items@
                == old(self).items@.drop_first()),
    {
        if self.items.len() == 0 {
            None
        } else {
            let chunk = self.items.remove(0);
            proof {
                assert(self.items@ =~= old(self).items@.drop_first());
            }
            Some(chunk)
        }
    }
}

} // verus!

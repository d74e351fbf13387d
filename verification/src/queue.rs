//! The work queue: a FIFO handoff of pending URLs from the coordinator to
//! the workers, with a distinct "closed, no more items will arrive" signal.
//!
//! Each dequeued item leaves the queue for good, so when several workers
//! share the queue behind a lock, every URL is delivered to exactly one of
//! them and none is dropped. A worker that sees the queue empty and closed
//! terminates instead of waiting.

use vstd::prelude::*;

verus! {

/// FIFO queue of pending probe targets with a close signal.
pub struct WorkQueue {
    items: Vec<String>,
    head: usize,
    closed: bool,
}

impl WorkQueue {
    /// Items enqueued and not yet dequeued, oldest first.
    pub closed spec fn pending(self) -> Seq<String> {
        self.items@.skip(self.head as int)
    }

    /// Whether the producer has declared that no more items will arrive.
    pub closed spec fn is_closed_spec(self) -> bool {
        self.closed
    }

    /// Dequeued items never come back, so the cursor stays inside the store.
    pub closed spec fn wf(self) -> bool {
        self.head <= self.items@.len()
    }

    /// An empty, open queue.
    pub fn new() -> (q: WorkQueue)
        ensures
            q.wf(),
            q.pending() == Seq::<String>::empty(),
            !q.is_closed_spec(),
    {
        let q = WorkQueue { items: Vec::new(), head: 0, closed: false };
        proof {
            assert(q.pending() =~= Seq::<String>::empty());
        }
        q
    }

    /// Hand one more target to the queue; only the producer calls this, and
    /// only before closing the queue.
    pub fn enqueue(&mut self, target: String)
        requires
            old(self).wf(),
            !old(self).is_closed_spec(),
        ensures
            final(self).wf(),
            final(self).pending() == old(self).pending().push(target),
            !final(self).is_closed_spec(),
    {
        self.items.push(target);
        proof {
            assert(self.pending() =~= old(self).pending().push(target));
        }
    }

    /// Declare that no more items will be enqueued. Workers seeing the queue
    /// empty afterwards may terminate.
    pub fn close(&mut self)
        requires
            old(self).wf(),
        ensures
            final(self).wf(),
            final(self).pending() == old(self).pending(),
            final(self).is_closed_spec(),
    {
        self.closed = true;
    }

    /// Whether the queue has been closed.
    pub fn is_closed(&self) -> (r: bool)
        ensures
            r == self.is_closed_spec(),
    {
        self.closed
    }

    /// Take the oldest pending item, if any. Every item is delivered to
    /// exactly one caller: once returned here it is no longer pending.
    pub fn dequeue(&mut self) -> (r: Option<String>)
        requires
            old(self).wf(),
        ensures
            final(self).wf(),
            final(self).is_closed_spec() == old(self).is_closed_spec(),
            (if old(self).pending().len() > 0 {
                &&& r == Some(old(self).pending()[0])
                &&& final(self).pending() == old(self).pending().drop_first()
            } else {
                &&& r is None
                &&& final(self).pending() == old(self).pending()
            }),
    {
        if self.head < self.items.len() {
            let t = self.items[self.head].clone();
            self.head = self.head + 1;
            proof {
                assert(t == old(self).pending()[0]);
                assert(self.pending() =~= old(self).pending().drop_first());
            }
            Some(t)
        } else {
            proof {
                assert(self.pending() =~= old(self).pending());
            }
            None
        }
    }
}

} // verus!

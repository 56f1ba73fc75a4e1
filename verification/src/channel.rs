//! The bounded hand-off queue between the crawl's producers and the single
//! dedup consumer. Its finite capacity is the pipeline's only backpressure:
//! a full queue refuses the next result, so a producer must wait until the
//! consumer has drained at least one. Memory in flight is thereby bounded
//! by the capacity times the largest queued result.

use crate::scan::ScanResult;
use vstd::prelude::*;

verus! {

/// A first-in-first-out queue of scan results with a fixed capacity,
/// empty at the start of a run. The queue is drained (empty after the
/// producers are done) exactly when the consumer's loop may stop.
pub struct BoundedQueue {
    capacity: usize,
    items: Vec<ScanResult>,
}

impl BoundedQueue {
    /// The queued results, oldest first.
    pub closed spec fn view(&self) -> Seq<ScanResult> {
        self.items@
    }

    /// The fixed capacity the queue was created with.
    pub closed spec fn spec_capacity(&self) -> usize {
        self.capacity
    }

    /// The queue never holds more than its capacity.
    pub closed spec fn wf(&self) -> bool {
        self.capacity > 0 && self.items@.len() <= self.capacity
    }

    /// An empty queue of the given capacity.
    pub fn new(capacity: usize) -> (r: Self)
        requires
            capacity > 0,
        ensures
            r.wf(),
            r.spec_capacity() == capacity,
            r@ == Seq::<ScanResult>::empty(),
    {
        BoundedQueue { capacity, items: Vec::new() }
    }

    /// How many results are queued right now.
    pub fn len(&self) -> (r: usize)
        ensures
            r == self@.len(),
    {
        self.items.len()
    }

    /// A producer's send. Below capacity the result enters at the back;
    /// at capacity nothing enters and the result comes straight back, so
    /// the producer must try again after the consumer has drained one.
    pub fn try_send(&mut self, item: ScanResult) -> (r: Option<ScanResult>)
        requires
            old(self).wf(),
        ensures
            final(self).wf(),
            final(self).spec_capacity() == old(self).spec_capacity(),
            old(self)@.len() < old(self).spec_capacity() ==> final(self)@ == old(self)@.push(item)
                && r is None,
            old(self)@.len() >= old(self).spec_capacity() ==> final(self)@ == old(self)@ && r
                == Some(item),
    {
        if self.items.len() < self.capacity {
            self.items.push(item);
            None
        } else {
            Some(item)
        }
    }

    /// The consumer's receive: the oldest queued result, or nothing when
    /// the queue is currently drained.
    pub fn try_recv(&mut self) -> (r: Option<ScanResult>)
        requires
            old(self).wf(),
        ensures
            final(self).wf(),
            final(self).spec_capacity() == old(self).spec_capacity(),
            old(self)@.len() == 0 ==> final(self)@ == old(self)@ && r is None,
            old(self)@.len() > 0 ==> final(self)@ == old(self)@.drop_first() && r == Some(
                old(self)@[0],
            ),
    {
        if self.items.len() == 0 {
            None
        } else {
            Some(self.items.remove(0))
        }
    }
}

} // verus!

//! The ingestion side of the watchdog: a bounded first-in first-out queue of
//! ping keys, and the status code the ingestion endpoint answers with.
//!
//! The queue has a fixed capacity; a ping offered to a full queue is rejected
//! rather than queued or blocked on, which gives the endpoint backpressure
//! against ping floods.

use vstd::prelude::*;

verus! {

/// A bounded first-in first-out queue of ping keys.
pub struct PingQueue {
    capacity: usize,
    items: Vec<String>,
}

impl PingQueue {
    /// The fixed capacity the queue was created with.
    pub closed spec fn cap(self) -> usize {
        self.capacity
    }

    /// The keys currently queued, oldest first.
    pub closed spec fn queued(self) -> Seq<Seq<char>> {
        self.items@.map(|_i: int, s: String| s@)
    }

    pub closed spec fn inv(self) -> bool {
        self.items@.len() <= self.capacity
    }

    /// An empty queue of the given capacity.
    pub fn new(capacity: usize) -> (q: PingQueue)
        ensures
            q.inv(),
            q.cap() == capacity,
            q.queued() =~= Seq::<Seq<char>>::empty(),
    {
        PingQueue { capacity, items: Vec::new() }
    }

    /// How many keys are queued.
    pub fn len(&self) -> (n: usize)
        ensures
            n == self.queued().len(),
    {
        self.items.len()
    }

    /// Offers a key to the queue. A key offered to a full queue is rejected
    /// and the queue is left as it was; otherwise the key joins the back of
    /// the queue.
    pub fn try_enqueue(&mut self, key: String) -> (accepted: bool)
        requires
            old(self).inv(),
        ensures
            final(self).inv(),
            final(self).cap() == old(self).cap(),
            accepted == (old(self).queued().len() < old(self).cap()),
            accepted ==> final(self).queued() =~= old(self).queued().push(key@),
            !accepted ==> *final(self) == *old(self),
    {
        if self.items.len() < self.capacity {
            self.items.push(key);
            assert(self.queued() =~= old(self).queued().push(key@));
            true
        } else {
            false
        }
    }

    /// Takes the oldest queued key, if any.
    pub fn dequeue(&mut self) -> (r: Option<String>)
        requires
            old(self).inv(),
        ensures
            final(self).inv(),
            final(self).cap() == old(self).cap(),
            match r {
                Some(key) => {
                    &&& old(self).queued().len() > 0
                    &&& key@ == old(self).queued()[0]
                    &&& final(self).queued() =~= old(self).queued().drop_first()
                },
                None => {
                    &&& old(self).queued().len() == 0
                    &&& *final(self) == *old(self)
                },
            },
    {
        if self.items.len() > 0 {
            let key = self.items.remove(0);
            assert(self.queued() =~= old(self).queued().drop_first());
            Some(key)
        } else {
            None
        }
    }
}

/// The HTTP status the ingestion endpoint answers with: 200 when the ping was
/// queued, 503 when the queue could not take it.
pub fn ping_status_code(accepted: bool) -> (code: u16)
    ensures
        accepted ==> code == 200,
        !accepted ==> code == 503,
{
    if accepted {
        200
    } else {
        503
    }
}

} // verus!

//! Shared result queue: the single hand-off point between the dispatch
//! engine and the consumer pool, plus the shutdown protocol.
//!
//! The types here model the queue's protocol sequentially; callers that
//! share one across threads serialize access through a single lock, held
//! only for the operation itself.

use vstd::prelude::*;
use std::collections::VecDeque;
use crate::data_type::HttpResp;

verus! {

/// A FIFO of items: append at the back, take from the front.
pub struct Queue<T> {
    queue: VecDeque<T>,
}

impl<T> View for Queue<T> {
    type V = Seq<T>;

    closed spec fn view(&self) -> Seq<T> {
        self.queue@
    }
}

impl<T> Queue<T> {
    /// An empty queue.
    pub fn new() -> (q: Self)
        ensures
            q@ == Seq::<T>::empty(),
    {
        Queue { queue: VecDeque::new() }
    }

    /// Append one item at the back.
    pub fn enqueue(&mut self, item: T)
        ensures
            final(self)@ == old(self)@.push(item),
    {
        self.queue.push_back(item);
    }

    /// Take the front item, if any: returns the oldest item and removes it;
    /// nothing when the queue is empty.
    pub fn dequeue(&mut self) -> (r: Option<T>)
        ensures
            match r {
                Some(x) => old(self)@.len() > 0 && x == old(self)@[0] && final(self)@ == old(
                    self,
                )@.skip(1),
                None => old(self)@.len() == 0 && final(self)@ == old(self)@,
            },
    {
        let r = self.queue.pop_front();
        proof {
            if old(self)@.len() > 0 {
                assert(old(self)@.subrange(1, old(self)@.len() as int) =~= old(self)@.skip(1));
            }
        }
        r
    }

    /// How many items wait in the queue.
    pub fn len(&self) -> (n: usize)
        ensures
            n == self@.len(),
    {
        self.queue.len()
    }

    /// Whether the queue holds nothing.
    pub fn is_empty(&self) -> (b: bool)
        ensures
            b == (self@.len() == 0),
    {
        self.queue.len() == 0
    }
}

/// What a consumer finds when it polls the shared queue: a record to work
/// on, a transiently empty queue worth retrying after a pause, or the end
/// of the run.
pub enum ConsumerStep {
    Work(HttpResp),
    Idle,
    Exit,
}

/// The shared result queue together with the shutdown flag. `producing` is
/// true while the dispatch engine may still append; once a consumer sees it
/// false and the queue empty, no record will ever appear again.
pub struct ResultQueue {
    queue: Queue<HttpResp>,
    producing: bool,
}

impl ResultQueue {
    /// The records currently waiting, oldest first.
    pub closed spec fn contents(&self) -> Seq<HttpResp> {
        self.queue@
    }

    /// Whether the dispatch engine may still append.
    pub closed spec fn is_producing(&self) -> bool {
        self.producing
    }

    /// A fresh queue, empty and open for production.
    pub fn new() -> (q: ResultQueue)
        ensures
            q.contents() == Seq::<HttpResp>::empty(),
            q.is_producing(),
    {
        ResultQueue { queue: Queue::new(), producing: true }
    }

    /// Append a completed record. Only the producer calls this, and only
    /// before it flips the shutdown flag.
    pub fn enqueue(&mut self, record: HttpResp)
        requires
            old(self).is_producing(),
        ensures
            final(self).contents() == old(self).contents().push(record),
            final(self).is_producing(),
    {
        self.queue.enqueue(record);
    }

    /// Take the oldest waiting record, if any.
    pub fn dequeue(&mut self) -> (r: Option<HttpResp>)
        ensures
            final(self).is_producing() == old(self).is_producing(),
            match r {
                Some(_) => old(self).contents().len() > 0 && final(self).contents() == old(
                    self,
                ).contents().skip(1),
                None => old(self).contents().len() == 0 && final(self).contents() == old(
                    self,
                ).contents(),
            },
            (r matches Some(x) ==> x == old(self).contents()[0]),
    {
        self.queue.dequeue()
    }

    /// Flip the shutdown flag: no further records will be produced. Every
    /// record enqueued before this call stays in the queue.
    pub fn close(&mut self)
        ensures
            final(self).contents() == old(self).contents(),
            !final(self).is_producing(),
    {
        self.producing = false;
    }

    /// How many records wait in the queue.
    pub fn len(&self) -> (n: usize)
        ensures
            n == self.contents().len(),
    {
        self.queue.len()
    }

    /// Whether the shutdown flag is still up: callers test this before an
    /// append.
    pub fn producing(&self) -> (b: bool)
        ensures
            b == self.is_producing(),
    {
        self.producing
    }

    /// True iff the shutdown flag is set and the queue is empty: the
    /// consumers' loop-exit condition. The check happens against one
    /// consistent state of the pair, never flag first and queue later.
    pub fn is_closed_and_empty(&self) -> (b: bool)
        ensures
            b == (!self.is_producing() && self.contents().len() == 0),
    {
        !self.producing && self.queue.is_empty()
    }

    /// One consumer poll against a consistent queue state: the run is over
    /// exactly when the flag is down and the queue empty; a waiting record
    /// is always handed out, oldest first; an empty queue that may still
    /// grow asks the consumer to idle and retry.
    pub fn consumer_poll(&mut self) -> (s: ConsumerStep)
        ensures
            final(self).is_producing() == old(self).is_producing(),
            match s {
                ConsumerStep::Exit => !old(self).is_producing() && old(self).contents().len() == 0
                    && final(self).contents() == old(self).contents(),
                ConsumerStep::Idle => old(self).is_producing() && old(self).contents().len() == 0
                    && final(self).contents() == old(self).contents(),
                ConsumerStep::Work(_) => old(self).contents().len() > 0 && final(self).contents()
                    == old(self).contents().skip(1),
            },
            (s matches ConsumerStep::Work(r) ==> r == old(self).contents()[0]),
    {
        if self.is_closed_and_empty() {
            return ConsumerStep::Exit;
        }
        match self.dequeue() {
            Some(r) => ConsumerStep::Work(r),
            None => ConsumerStep::Idle,
        }
    }
}

/// While records wait in the queue a consumer never exits, closed or not:
/// exit is possible only once the queue has fully drained after shutdown.
pub proof fn lemma_drain_before_exit(q: ResultQueue)
    requires
        q.contents().len() > 0,
    ensures
        !(!q.is_producing() && q.contents().len() == 0),
{
}

} // verus!

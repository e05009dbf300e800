//! FIFO work queue of pending photo-processing jobs.
//!
//! A single producer (the dispatcher's photo branch) pushes jobs at the
//! back; a single consumer drains them from the front, in arrival order.

use vstd::prelude::*;
use crate::{ChatRef, UserRef};

verus! {

/// One queued job: an inbound photo message together with its context.
pub struct QueueItem<T> {
    pub chat_id: ChatRef,
    pub user_id: UserRef,
    pub data: T,
}

/// First-in-first-out queue of jobs.
pub struct Queue<T> {
    items: Vec<QueueItem<T>>,
}

impl<T> Queue<T> {
    /// The queued jobs, front first.
    pub closed spec fn jobs(self) -> Seq<QueueItem<T>> {
        self.items@
    }

    /// A fresh, empty queue.
    pub fn new() -> (r: Queue<T>)
        ensures
            r.jobs().len() == 0,
    {
        Queue { items: Vec::new() }
    }

    /// Appends `item` at the back.
    pub fn enqueue(&mut self, item: QueueItem<T>)
        ensures
            final(self).jobs() == old(self).jobs().push(item),
    {
        self.items.push(item);
    }

    /// Removes and returns the front job, or `None` when the queue is empty.
    pub fn dequeue(&mut self) -> (r: Option<QueueItem<T>>)
        ensures
            old(self).jobs().len() == 0 ==> r is None && final(self).jobs() == old(self).jobs(),
            old(self).jobs().len() > 0 ==> match r {
                Some(item) => item == old(self).jobs()[0]
                    && final(self).jobs() == old(self).jobs().subrange(1, old(self).jobs().len() as int),
                None => false,
            },
    {
        if self.items.len() == 0 {
            None
        } else {
            let item = self.items.remove(0);
            proof {
                assert(self.items@ =~= old(self).items@.subrange(1, old(self).items@.len() as int));
            }
            Some(item)
        }
    }

    /// True when no job is waiting.
    pub fn is_empty(&self) -> (r: bool)
        ensures
            r == (self.jobs().len() == 0),
    {
        self.items.len() == 0
    }
}

} // verus!

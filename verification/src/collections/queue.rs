//! A first-in-first-out queue backed by a growable vector, and the iterator
//! that drains it.

use crate::collections::fifo::{after_all, answer_at, dequeues, head, without_head};
use crate::collections::fifo::{lemma_dequeues_hand_back_contents, lemma_dequeues_skip};
use crate::collections::IntoIterable;
use vstd::prelude::*;
use vstd::std_specs::iter::IteratorSpec;

verus! {

/// A queue that hands its elements back in the order in which they were added.
///
/// Its view is the sequence of the elements it holds, oldest first.
pub struct Queue<T> where T: Clone {
    queue: Vec<T>,
}

impl<T: Clone> View for Queue<T> {
    type V = Seq<T>;

    closed spec fn view(&self) -> Seq<T> {
        self.queue@
    }
}

impl<T> Queue<T> where T: Clone {
    /// Creates a queue that holds nothing.
    pub fn new() -> (queue: Self)
        ensures
            queue@ == Seq::<T>::empty(),
    {
        Self { queue: Vec::new() }
    }

    /// Takes over `items` as the contents of a queue; the first item is the
    /// oldest, so it is the first to leave.
    pub fn from_vec(items: Vec<T>) -> (queue: Self)
        ensures
            queue@ == items@,
    {
        Self { queue: items }
    }

    /// Appends `item` at the tail.
    pub fn enqueue(&mut self, item: T)
        ensures
            final(self)@ == old(self)@.push(item),
    {
        self.queue.push(item);
    }

    /// Removes the head and returns it. On an empty queue it returns `None`
    /// and changes nothing.
    pub fn dequeue(&mut self) -> (item: Option<T>)
        ensures
            item == head(old(self)@),
            final(self)@ == without_head(old(self)@),
    {
        if !self.is_empty() {
            Some(self.queue.remove(0))
        } else {
            None
        }
    }

    /// Tells whether the queue holds no element.
    pub fn is_empty(&self) -> (empty: bool)
        ensures
            empty <==> self@.len() == 0,
    {
        self.queue.is_empty()
    }

    /// Borrows the head and leaves it where it is. On an empty queue it
    /// returns `None`.
    pub fn peek(&self) -> (item: Option<&T>)
        ensures
            match item {
                Some(shown) => head(self@) == Some(*shown),
                None => head(self@) is None,
            },
    {
        self.queue.first()
    }

    /// The number of elements held.
    pub fn len(&self) -> (count: usize)
        ensures
            count == self@.len(),
    {
        self.queue.len()
    }
}

impl<T: Clone> Default for Queue<T> {
    /// The default queue holds nothing.
    fn default() -> (queue: Self)
        ensures
            queue@ == Seq::<T>::empty(),
    {
        Self::new()
    }
}

impl<T: Clone> IntoIterable for Queue<T> {
    type Item = T;

    type IntoIter = QueueIntoIterator<T>;

    open spec fn elements(&self) -> Seq<T> {
        self@
    }

    /// Gives the queue away to an iterator that hands out its elements,
    /// oldest first.
    fn into_iter(self) -> (iter: QueueIntoIterator<T>)
        ensures
            iter@ == self@,
    {
        QueueIntoIterator::from_queue(self)
    }
}

/// An iterator that owns a queue and drains it: each step dequeues one
/// element, until the queue is empty.
///
/// Its view is the sequence of the elements still to come, next one first.
pub struct QueueIntoIterator<T> where T: Clone {
    queue: Queue<T>,
}

impl<T: Clone> View for QueueIntoIterator<T> {
    type V = Seq<T>;

    closed spec fn view(&self) -> Seq<T> {
        self.queue@
    }
}

impl<T: Clone> QueueIntoIterator<T> {
    /// Takes over `queue`: the elements to come are its contents.
    pub fn from_queue(queue: Queue<T>) -> (iter: Self)
        ensures
            iter@ == queue@,
    {
        Self { queue }
    }
}

impl<T: Clone> Iterator for QueueIntoIterator<T> {
    type Item = T;

    /// Dequeues the next element from the queue inside. Once that queue is
    /// empty it returns `None`, and goes on doing so.
    fn next(&mut self) -> (item: Option<T>)
        ensures
            item == head(old(self)@),
            final(self)@ == without_head(old(self)@),
    {
        self.queue.dequeue()
    }
}

impl<T: Clone> vstd::std_specs::iter::IteratorSpecImpl for QueueIntoIterator<T> {
    open spec fn obeys_prophetic_iter_laws(&self) -> bool {
        true
    }

    open spec fn remaining(&self) -> Seq<T> {
        self@
    }

    open spec fn will_return_none(&self) -> bool {
        true
    }

    open spec fn decrease(&self) -> Option<nat> {
        Some(self@.len())
    }

    open spec fn initial_value_relation(&self, init: &Self) -> bool {
        self@ == init@
    }

    open spec fn peek(&self, index: int) -> Option<T> {
        if 0 <= index < self@.len() {
            Some(self@[index])
        } else {
            None
        }
    }
}

/// Draining a queue through its iterator is dequeuing it until it is empty:
/// an iterator made from `queue` hands out exactly the contents of `queue`,
/// and of any `n` dequeues in a row made on `queue` instead, number `k` hands
/// back what step number `k` of the iterator hands out, or `None` where the
/// iterator has reached its end.
pub proof fn lemma_iterator_drains_in_dequeue_order<T: Clone>(
    queue: Queue<T>,
    iter: QueueIntoIterator<T>,
    n: nat,
    k: int,
)
    requires
        iter@ == queue@,
        0 <= k < n,
    ensures
        iter.remaining() == queue@,
        answer_at(queue@, dequeues(n), k) == if k < iter.remaining().len() {
            Some(iter.remaining()[k])
        } else {
            None
        },
        answer_at(iter@, dequeues(n), k) == answer_at(queue@, dequeues(n), k),
{
    lemma_dequeues_hand_back_contents(queue@, n, k);
}

/// An iterator that has reached its end stays there: however often it is
/// advanced after that, nothing is left in it and each step returns `None`.
pub proof fn lemma_exhausted_iterator_stays_exhausted<T: Clone>(
    iter: QueueIntoIterator<T>,
    n: nat,
    k: int,
)
    requires
        iter@.len() == 0,
        0 <= k < n,
    ensures
        answer_at(iter@, dequeues(n), k) is None,
        after_all(iter@, dequeues(n)).len() == 0,
{
    lemma_dequeues_hand_back_contents(iter@, n, k);
    lemma_dequeues_skip(iter@, n);
}

} // verus!

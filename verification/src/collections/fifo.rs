//! The first-in-first-out discipline on plain sequences.
//!
//! A queue is modelled by the sequence of its elements, oldest first. This
//! module says what each call does to that sequence, what a whole series of
//! calls does, and proves the laws that make the discipline first-in-first-out.

use vstd::prelude::*;

verus! {

/// The element at the head of `s`: what a peek shows and what a dequeue takes.
pub open spec fn head<T>(s: Seq<T>) -> Option<T> {
    if s.len() > 0 {
        Some(s[0])
    } else {
        None
    }
}

/// What stays of `s` once its head has been taken. Nothing can be taken from
/// an empty sequence, which stays as it is.
pub open spec fn without_head<T>(s: Seq<T>) -> Seq<T> {
    if s.len() > 0 {
        s.drop_first()
    } else {
        s
    }
}

/// One call made on a queue.
pub enum Call<T> {
    /// Append the element at the tail.
    Enqueue(T),
    /// Take the head, if there is one.
    Dequeue,
    /// Look at the head, if there is one.
    Peek,
}

/// The contents after call `c` has been made on contents `s`.
pub open spec fn after<T>(s: Seq<T>, c: Call<T>) -> Seq<T> {
    match c {
        Call::Enqueue(item) => s.push(item),
        Call::Dequeue => without_head(s),
        Call::Peek => s,
    }
}

/// What call `c` hands back when made on contents `s`.
pub open spec fn answer<T>(s: Seq<T>, c: Call<T>) -> Option<T> {
    match c {
        Call::Enqueue(_) => None,
        Call::Dequeue => head(s),
        Call::Peek => head(s),
    }
}

/// The contents after all of `calls` have been made, in order, starting from `s`.
pub open spec fn after_all<T>(s: Seq<T>, calls: Seq<Call<T>>) -> Seq<T>
    decreases calls.len(),
{
    if calls.len() == 0 {
        s
    } else {
        after(after_all(s, calls.drop_last()), calls.last())
    }
}

/// The contents that call number `i` of `calls` finds, the series having started from `s`.
pub open spec fn contents_before<T>(s: Seq<T>, calls: Seq<Call<T>>, i: int) -> Seq<T> {
    after_all(s, calls.take(i))
}

/// What call number `i` of `calls` hands back, the series having started from `s`.
pub open spec fn answer_at<T>(s: Seq<T>, calls: Seq<Call<T>>, i: int) -> Option<T> {
    answer(contents_before(s, calls, i), calls[i])
}

/// How many of `calls` are enqueues.
pub open spec fn enqueue_count<T>(calls: Seq<Call<T>>) -> nat
    decreases calls.len(),
{
    if calls.len() == 0 {
        0
    } else {
        enqueue_count(calls.drop_last()) + if calls.last() is Enqueue {
            1nat
        } else {
            0nat
        }
    }
}

/// How many of `calls` are dequeues.
pub open spec fn dequeue_count<T>(calls: Seq<Call<T>>) -> nat
    decreases calls.len(),
{
    if calls.len() == 0 {
        0
    } else {
        dequeue_count(calls.drop_last()) + if calls.last() is Dequeue {
            1nat
        } else {
            0nat
        }
    }
}

/// Every dequeue among `calls` finds an element to take.
pub open spec fn no_dequeue_fails<T>(s: Seq<T>, calls: Seq<Call<T>>) -> bool {
    forall|i: int|
        0 <= i < calls.len() && calls[i] is Dequeue ==> (#[trigger] contents_before(
            s,
            calls,
            i,
        )).len() > 0
}

/// One enqueue for each element of `items`, in order.
pub open spec fn enqueues_of<T>(items: Seq<T>) -> Seq<Call<T>> {
    Seq::new(items.len(), |i: int| Call::Enqueue(items[i]))
}

/// `n` dequeues in a row.
pub open spec fn dequeues<T>(n: nat) -> Seq<Call<T>> {
    Seq::new(n, |i: int| Call::Dequeue)
}

/// `calls` with every peek left out.
pub open spec fn without_peeks<T>(calls: Seq<Call<T>>) -> Seq<Call<T>>
    decreases calls.len(),
{
    if calls.len() == 0 {
        calls
    } else if calls.last() is Peek {
        without_peeks(calls.drop_last())
    } else {
        without_peeks(calls.drop_last()).push(calls.last())
    }
}

/// What the dequeues among `calls` hand back, in order, the series having started from `s`.
pub open spec fn dequeue_answers<T>(s: Seq<T>, calls: Seq<Call<T>>) -> Seq<Option<T>>
    decreases calls.len(),
{
    if calls.len() == 0 {
        Seq::empty()
    } else if calls.last() is Dequeue {
        dequeue_answers(s, calls.drop_last()).push(head(after_all(s, calls.drop_last())))
    } else {
        dequeue_answers(s, calls.drop_last())
    }
}

/// Making the calls `first` and then the calls `then` is making them all in order.
pub proof fn lemma_after_all_concat<T>(s: Seq<T>, first: Seq<Call<T>>, then: Seq<Call<T>>)
    ensures
        after_all(s, first + then) == after_all(after_all(s, first), then),
    decreases then.len(),
{
    if then.len() == 0 {
        assert(first + then =~= first);
    } else {
        assert((first + then).drop_last() =~= first + then.drop_last());
        assert((first + then).last() == then.last());
        lemma_after_all_concat(s, first, then.drop_last());
    }
}

/// Enqueuing a series of elements appends them, in order, to what was there.
pub proof fn lemma_enqueues_append<T>(s: Seq<T>, items: Seq<T>)
    ensures
        after_all(s, enqueues_of(items)) == s + items,
    decreases items.len(),
{
    if items.len() == 0 {
        assert(s + items =~= s);
    } else {
        assert(enqueues_of(items).drop_last() =~= enqueues_of(items.drop_last()));
        lemma_enqueues_append(s, items.drop_last());
        assert((s + items.drop_last()).push(items.last()) =~= s + items);
    }
}

/// Dequeuing `n` times takes the `n` oldest elements, or all of them if there are fewer.
pub proof fn lemma_dequeues_skip<T>(s: Seq<T>, n: nat)
    ensures
        after_all(s, dequeues(n)) == if n <= s.len() {
            s.skip(n as int)
        } else {
            Seq::empty()
        },
    decreases n,
{
    if n == 0 {
        assert(s.skip(0) =~= s);
    } else {
        assert(dequeues::<T>(n).drop_last() =~= dequeues::<T>((n - 1) as nat));
        lemma_dequeues_skip(s, (n - 1) as nat);
        if n <= s.len() {
            assert(s.skip(n - 1).drop_first() =~= s.skip(n as int));
        } else if n - 1 <= s.len() {
            assert(s.skip(n - 1) =~= Seq::<T>::empty());
        }
    }
}

/// First in, first out: after the elements of `items` have been enqueued on an
/// empty queue, with no dequeue in between, dequeue number `k` hands back
/// element number `k` of `items`, and every dequeue after the last element
/// reports that the queue is empty.
pub proof fn lemma_first_in_first_out<T>(items: Seq<T>, n: nat, k: int)
    requires
        0 <= k < n,
    ensures
        answer_at(Seq::empty(), enqueues_of(items) + dequeues(n), items.len() + k) == if k
            < items.len() {
            Some(items[k])
        } else {
            None
        },
{
    let calls = enqueues_of(items) + dequeues::<T>(n);
    assert(calls.take(items.len() + k) =~= enqueues_of(items) + dequeues::<T>(k as nat));
    lemma_after_all_concat(Seq::empty(), enqueues_of(items), dequeues::<T>(k as nat));
    lemma_enqueues_append(Seq::empty(), items);
    assert(Seq::<T>::empty() + items =~= items);
    lemma_dequeues_skip(items, k as nat);
}

/// The length after any series of calls in which no dequeue fails: the length
/// at the start, plus one for each enqueue, minus one for each dequeue. On a
/// queue that starts empty this is the number of enqueues minus the number of
/// dequeues, and the dequeues can never outnumber the enqueues.
pub proof fn lemma_length_counts_calls<T>(s: Seq<T>, calls: Seq<Call<T>>)
    requires
        no_dequeue_fails(s, calls),
    ensures
        dequeue_count(calls) <= s.len() + enqueue_count(calls),
        after_all(s, calls).len() == s.len() + enqueue_count(calls) - dequeue_count(calls),
    decreases calls.len(),
{
    if calls.len() > 0 {
        let earlier = calls.drop_last();
        assert forall|i: int| 0 <= i < earlier.len() && earlier[i] is Dequeue implies (
        #[trigger] contents_before(s, earlier, i)).len() > 0 by {
            assert(earlier.take(i) =~= calls.take(i));
            assert(contents_before(s, calls, i).len() > 0);
        }
        lemma_length_counts_calls(s, earlier);
        if calls.last() is Dequeue {
            assert(calls.take(calls.len() - 1) =~= earlier);
            assert(contents_before(s, calls, calls.len() - 1).len() > 0);
        }
    }
}

/// On an empty queue, dequeues and peeks change nothing however often they
/// are made: the queue stays empty, and each of them reports that it is.
pub proof fn lemma_empty_stays_empty<T>(calls: Seq<Call<T>>, i: int)
    requires
        forall|j: int| 0 <= j < calls.len() ==> !(#[trigger] calls[j] is Enqueue),
        0 <= i < calls.len(),
    ensures
        after_all(Seq::<T>::empty(), calls) == Seq::<T>::empty(),
        contents_before(Seq::<T>::empty(), calls, i) == Seq::<T>::empty(),
        answer_at(Seq::<T>::empty(), calls, i) is None,
{
    lemma_only_takes_from_empty(calls);
    lemma_only_takes_from_empty(calls.take(i));
}

/// A series of calls without an enqueue leaves an empty queue empty.
proof fn lemma_only_takes_from_empty<T>(calls: Seq<Call<T>>)
    requires
        forall|j: int| 0 <= j < calls.len() ==> !(#[trigger] calls[j] is Enqueue),
    ensures
        after_all(Seq::<T>::empty(), calls) == Seq::<T>::empty(),
    decreases calls.len(),
{
    if calls.len() > 0 {
        lemma_only_takes_from_empty(calls.drop_last());
        assert(!(calls[calls.len() - 1] is Enqueue));
    }
}

/// Peeking takes nothing: leave every peek out of a series of calls, and the
/// contents at the end (so also the length) and what each dequeue hands back
/// are what they were with the peeks.
pub proof fn lemma_peeks_change_nothing<T>(s: Seq<T>, calls: Seq<Call<T>>)
    ensures
        after_all(s, without_peeks(calls)) == after_all(s, calls),
        dequeue_answers(s, without_peeks(calls)) == dequeue_answers(s, calls),
    decreases calls.len(),
{
    if calls.len() > 0 {
        let earlier = calls.drop_last();
        lemma_peeks_change_nothing(s, earlier);
        if !(calls.last() is Peek) {
            let kept = without_peeks(earlier).push(calls.last());
            assert(kept.drop_last() =~= without_peeks(earlier));
            assert(kept.last() == calls.last());
        }
    }
}

/// Dequeuing until the queue reports that it is empty hands back the
/// contents, oldest first: dequeue number `k` hands back element number `k`,
/// and the first dequeue to find nothing is the one after the last element.
pub proof fn lemma_dequeues_hand_back_contents<T>(s: Seq<T>, n: nat, k: int)
    requires
        0 <= k < n,
    ensures
        answer_at(s, dequeues(n), k) == if k < s.len() {
            Some(s[k])
        } else {
            None
        },
{
    assert(dequeues::<T>(n).take(k) =~= dequeues::<T>(k as nat));
    lemma_dequeues_skip(s, k as nat);
}

} // verus!

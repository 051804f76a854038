use fifo_queue::collections::queue::Queue;
use fifo_queue::collections::IntoIterable;

fn make_int_queue() -> Queue<i32> {
    let mut ints = Queue::<i32>::new();
    ints.enqueue(0);
    ints.enqueue(1);
    ints.enqueue(2);

    ints
}

#[test]
fn new_works() {
    let ints = Queue::<i32>::new();
    let floats = Queue::<f32>::new();

    assert_eq!(ints.len(), 0);
    assert_eq!(floats.len(), 0);

    assert!(ints.is_empty());
    assert!(floats.is_empty());
}

#[test]
fn from_vec_works() {
    let mut ints = Queue::from_vec(vec![0, 1, 2]);

    assert_eq!(ints.len(), 3);
    assert!(!ints.is_empty());

    assert_eq!(ints.peek(), Some(&0));
    ints.dequeue();
    assert_eq!(ints.peek(), Some(&1));
    ints.dequeue();
    assert_eq!(ints.peek(), Some(&2));
}

#[test]
fn queueing_works() {
    let mut ints = make_int_queue();

    assert_eq!(ints.len(), 3);
    assert!(!ints.is_empty());

    assert_eq!(ints.peek(), Some(&0));
    ints.dequeue();
    assert_eq!(ints.peek(), Some(&1));
    ints.dequeue();
    assert_eq!(ints.peek(), Some(&2));
}

#[test]
fn dequeueing_works() {
    let mut ints = make_int_queue();

    assert_eq!(ints.dequeue(), Some(0));
    assert_eq!(ints.dequeue(), Some(1));
    assert_eq!(ints.dequeue(), Some(2));
    assert_eq!(ints.dequeue(), None);
}

#[test]
fn peeking_works() {
    let ints = make_int_queue();
    let empty_queue = Queue::<i32>::new();

    assert_eq!(ints.peek(), Some(&0));
    assert_eq!(empty_queue.peek(), None);
}

#[test]
fn into_iter_works() {
    let ints = make_int_queue();
    let mut iter = ints.into_iter();

    assert_eq!(iter.next(), Some(0));
    assert_eq!(iter.next(), Some(1));
    assert_eq!(iter.next(), Some(2));
    assert_eq!(iter.next(), None);
}

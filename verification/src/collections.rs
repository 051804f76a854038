//! Containers and the capabilities through which their elements are visited.
//!
//! Each capability is a trait of its own, so that a container can offer just
//! the ones it supports. [`Collection`] marks a container that offers all
//! three, over one element type.

use vstd::prelude::*;
use vstd::std_specs::iter::IteratorSpec;

pub mod fifo;
pub mod queue;

verus! {

/// A borrowed container whose elements can be visited through shared
/// references that live as long as the borrow.
pub trait RefIterable<'a> {
    /// The type of the elements.
    type Item: 'a;

    /// The iterator that hands out the references.
    type Iter: Iterator<Item = &'a Self::Item>;

    fn iter(self) -> Self::Iter;
}

/// An exclusively borrowed container whose elements can be visited through
/// exclusive references that live as long as the borrow.
pub trait RefMutIterable<'a> {
    /// The type of the elements.
    type Item: 'a;

    /// The iterator that hands out the references.
    type IterMut: Iterator<Item = &'a mut Self::Item>;

    fn iter_mut(self) -> Self::IterMut;
}

/// A container that can be given away to an iterator that hands out its
/// elements by value.
pub trait IntoIterable {
    /// The type of the elements.
    type Item;

    /// The iterator that hands out the elements.
    type IntoIter: Iterator<Item = Self::Item>;

    /// The elements held, in the order in which they are handed out.
    spec fn elements(&self) -> Seq<Self::Item>;

    /// Gives the container away to an iterator that hands out exactly its
    /// elements, in order, and then ends.
    fn into_iter(self) -> (iter: Self::IntoIter)
        ensures
            iter.obeys_prophetic_iter_laws(),
            iter.will_return_none(),
            iter.remaining() == self.elements(),
    ;
}

/// A container that offers all three ways of visiting its elements: by shared
/// reference and by exclusive reference while it is borrowed, and by value
/// when it is given away. The element type is named once, here, and each of
/// the three capabilities has to agree with it.
pub trait Collection: IntoIterable<Item = <Self as Collection>::Item>
where
    for<'a> &'a Self: RefIterable<'a, Item = <Self as Collection>::Item>,
    for<'a> &'a mut Self: RefMutIterable<'a, Item = <Self as Collection>::Item>,
{
    /// The type of the elements.
    type Item;
}

} // verus!

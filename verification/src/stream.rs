//! The two traits every writer is built on: a stream of bytes, and a value
//! that can be turned into one; plus a stream of items.
use vstd::prelude::*;

verus! {

/// A source of bytes that hands them out one at a time.
///
/// `rest` is the sequence of bytes the iterator has still to produce.
/// Each call of `next` produces the first of them; once they are used up
/// every call answers `None`. `polls` counts the calls of `next` made so
/// far, so that a contract can say how often an iterator was called.
pub trait ByteIterator: Sized {
    /// The iterator's internal consistency.
    spec fn inv(&self) -> bool;

    /// The bytes still to come, in order.
    spec fn rest(&self) -> Seq<u8>;

    /// How many times `next` has been called.
    spec fn polls(&self) -> nat;

    /// Produces the next byte, or `None` once all bytes have been produced.
    fn next(&mut self) -> (r: Option<u8>)
        requires
            old(self).inv(),
        ensures
            final(self).inv(),
            final(self).polls() == old(self).polls() + 1,
            old(self).rest().len() == 0 ==> r is None && final(self).rest() == old(self).rest(),
            old(self).rest().len() > 0 ==> r == Some(old(self).rest()[0]) && final(self).rest()
                == old(self).rest().drop_first(),
    ;
}

/// A value that can be turned into a [`ByteIterator`] streaming `bytes`.
pub trait IntoByteIterator: Sized {
    /// The iterator the value turns into.
    type IntoIter: ByteIterator;

    /// Whether the value is ready to be streamed.
    spec fn valid(&self) -> bool;

    /// The bytes the value streams.
    spec fn bytes(&self) -> Seq<u8>;

    /// How many calls of `next` the iterator the value turns into has had:
    /// an iterator keeps its count, a new one starts at zero.
    spec fn start_polls(&self) -> nat;

    /// Turns the value into an iterator over its bytes.
    fn into_iter(self) -> (r: Self::IntoIter)
        requires
            self.valid(),
        ensures
            r.inv(),
            r.rest() == self.bytes(),
            r.polls() == self.start_polls(),
    ;
}

/// Every byte iterator streams the bytes it has left.
impl<I: ByteIterator> IntoByteIterator for I {
    type IntoIter = I;

    open spec fn valid(&self) -> bool {
        self.inv()
    }

    open spec fn bytes(&self) -> Seq<u8> {
        self.rest()
    }

    open spec fn start_polls(&self) -> nat {
        self.polls()
    }

    fn into_iter(self) -> (r: I) {
        self
    }
}

/// A source of items that hands them out one at a time, in the order of
/// `items`. `pulls` counts the calls of `next_item` made so far.
pub trait ItemSource: Sized {
    /// The items handed out.
    type Item;

    /// The source's internal consistency.
    spec fn source_inv(&self) -> bool;

    /// The items still to come, in order.
    spec fn items(&self) -> Seq<Self::Item>;

    /// How many times `next_item` has been called.
    spec fn pulls(&self) -> nat;

    /// Hands out the next item, or `None` once all items have been handed out.
    fn next_item(&mut self) -> (r: Option<Self::Item>)
        requires
            old(self).source_inv(),
        ensures
            final(self).source_inv(),
            final(self).pulls() == old(self).pulls() + 1,
            old(self).items().len() == 0 ==> r is None && final(self).items() == old(self).items(),
            old(self).items().len() > 0 ==> r == Some(old(self).items()[0]) && final(self).items()
                == old(self).items().drop_first(),
    ;
}

/// The bytes each of the remaining items of `it` streams.
pub open spec fn item_bytes<T: ItemSource>(it: T) -> Seq<Seq<u8>> where T::Item: IntoByteIterator {
    it.items().map_values(|x: T::Item| x.bytes())
}

} // verus!

//! A stream made of the streams of a sequence of items, with a separator
//! between each two of them.
use super::Separator;
use crate::stream::{item_bytes, ByteIterator, IntoByteIterator, ItemSource};
use vstd::prelude::*;

verus! {

/// The parts, each preceded by `sep`.
pub open spec fn joined_tail(parts: Seq<Seq<u8>>, sep: u8) -> Seq<u8>
    decreases parts.len(),
{
    if parts.len() == 0 {
        seq![]
    } else {
        seq![sep] + parts[0] + joined_tail(parts.drop_first(), sep)
    }
}

/// The parts with `sep` between each two of them.
pub open spec fn join_bytes(parts: Seq<Seq<u8>>, sep: u8) -> Seq<u8> {
    if parts.len() == 0 {
        seq![]
    } else {
        parts[0] + joined_tail(parts.drop_first(), sep)
    }
}

/// Streams the bytes of each item of a source in turn, with `W::SEPARATOR`
/// between each two of them.
pub struct IteratorIterator<T, W> where T: ItemSource, T::Item: IntoByteIterator {
    current: Option<<T::Item as IntoByteIterator>::IntoIter>,
    it: T,
    delim: bool,
    separator: W,
    polls: Ghost<nat>,
}

impl<T: ItemSource, W> IteratorIterator<T, W> where T::Item: IntoByteIterator {
    /// The source of the items still to come.
    pub closed spec fn source(&self) -> T {
        self.it
    }

    /// The iterator over the item being streamed, if any.
    pub closed spec fn current(&self) -> Option<<T::Item as IntoByteIterator>::IntoIter> {
        self.current
    }

    /// Whether a separator is due before the current item.
    pub closed spec fn delimiting(&self) -> bool {
        self.delim
    }
}

impl<T: ItemSource, W: Separator> IteratorIterator<T, W> where T::Item: IntoByteIterator {
    /// Streams the items of `it` separated by the separator.
    ///
    /// The source is asked for its first item, and only that.
    pub fn new(delimiter: W, it: T) -> (r: Self)
        requires
            it.source_inv(),
            forall|i: int| 0 <= i < it.items().len() ==> #[trigger] it.items()[i].valid(),
        ensures
            r.inv(),
            r.rest() == join_bytes(item_bytes(it), W::SEPARATOR),
            r.polls() == 0,
            r.source().pulls() == it.pulls() + 1,
            r.source().items() == if it.items().len() > 0 {
                it.items().drop_first()
            } else {
                it.items()
            },
            !r.delimiting(),
            r.current() is Some <==> it.items().len() > 0,
            r.current() matches Some(c) ==> c.rest() == it.items()[0].bytes() && c.polls()
                == it.items()[0].start_polls(),
    {
        let ghost parts = item_bytes(it);
        let mut it = it;
        let first = it.next_item();
        let current = match first {
            Some(v) => Some(v.into_iter()),
            None => None,
        };
        let r = IteratorIterator {
            current,
            it,
            delim: false,
            separator: delimiter,
            polls: Ghost(0),
        };
        proof {
            if parts.len() > 0 {
                assert(item_bytes(r.it) =~= parts.drop_first());
            }
        }
        r
    }
}

impl<T: ItemSource, W: Separator> ByteIterator for IteratorIterator<T, W> where
    T::Item: IntoByteIterator,
 {
    closed spec fn inv(&self) -> bool {
        &&& self.it.source_inv()
        &&& forall|i: int|
            0 <= i < self.it.items().len() ==> #[trigger] self.it.items()[i].valid()
        &&& self.delim ==> self.current is Some
        &&& self.current matches Some(c) ==> c.inv()
    }

    closed spec fn rest(&self) -> Seq<u8> {
        match self.current {
            None => seq![],
            Some(c) => (if self.delim {
                seq![W::SEPARATOR]
            } else {
                seq![]
            }) + c.rest() + joined_tail(item_bytes(self.it), W::SEPARATOR),
        }
    }

    closed spec fn polls(&self) -> nat {
        self.polls@
    }

    /// A due separator is produced without calling anything; otherwise the
    /// current item's iterator is called once, and only when it answers
    /// `None` is the source asked, once, for the next item. Once the items
    /// are used up nothing is called.
    fn next(&mut self) -> (r: Option<u8>)
        ensures
            old(self).delimiting() ==> final(self).source() == old(self).source() && final(self).current() == old(self).current() && !final(self).delimiting(),
            !old(self).delimiting() && old(self).current() is None ==> final(self).source() == old(self).source() && final(self).current() is None && !final(self).delimiting(),
            !old(self).delimiting() ==> (old(self).current() matches Some(c) && c.rest().len() > 0
                ==> final(self).source() == old(self).source() && !final(self).delimiting() && (final(self).current() matches Some(d) && d.polls() == old(self).current()->0.polls() + 1)),
            !old(self).delimiting() ==> (old(self).current() matches Some(c) && c.rest().len() == 0
                ==> final(self).source().pulls() == old(self).source().pulls() + 1
                && !final(self).delimiting()),
            old(self).current() is None ==> r is None,
            old(self).rest().len() == 0 ==> final(self).current() is None && !final(self).delimiting(),
    {
        self.polls = Ghost(self.polls@ + 1);
        if self.delim {
            self.delim = false;
            let ghost c = self.current->0;
            assert((seq![W::SEPARATOR] + c.rest() + joined_tail(item_bytes(self.it), W::SEPARATOR)).drop_first()
                =~= seq![] + c.rest() + joined_tail(item_bytes(self.it), W::SEPARATOR));
            return Some(W::SEPARATOR);
        }
        match self.current.take() {
            None => None,
            Some(mut current) => {
                let ghost tail = joined_tail(item_bytes(self.it), W::SEPARATOR);
                let ghost before = current.rest();
                match current.next() {
                    Some(b) => {
                        self.current = Some(current);
                        assert((seq![] + before + tail).drop_first() =~= seq![] + current.rest()
                            + tail);
                        Some(b)
                    },
                    None => {
                        let ghost parts = item_bytes(self.it);
                        match self.it.next_item() {
                            Some(next) => {
                                // The next item follows a separator, which is produced now.
                                self.current = Some(next.into_iter());
                                assert(item_bytes(self.it) =~= parts.drop_first());
                                assert((seq![] + before + tail).drop_first() =~= seq![]
                                    + self.current->0.rest() + joined_tail(
                                    item_bytes(self.it),
                                    W::SEPARATOR,
                                ));
                                Some(W::SEPARATOR)
                            },
                            None => {
                                self.current = None;
                                assert(seq![] + before + tail =~= Seq::<u8>::empty());
                                None
                            },
                        }
                    },
                }
            },
        }
    }
}

} // verus!

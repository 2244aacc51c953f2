//! A stream made of the streams of a sequence of byte iterators.
use crate::stream::{ByteIterator, ItemSource};
use vstd::prelude::*;

verus! {

/// The parts one after another.
pub open spec fn concat_bytes(parts: Seq<Seq<u8>>) -> Seq<u8>
    decreases parts.len(),
{
    if parts.len() == 0 {
        seq![]
    } else {
        parts[0] + concat_bytes(parts.drop_first())
    }
}

/// The bytes each of the remaining iterators of `it` has left.
pub open spec fn iterator_bytes<L: ItemSource>(it: L) -> Seq<Seq<u8>> where L::Item: ByteIterator {
    it.items().map_values(|x: L::Item| x.rest())
}

/// Streams the bytes of each iterator of a source in turn.
pub struct List<L> where L: ItemSource {
    it: L,
    current: Option<L::Item>,
    polls: Ghost<nat>,
}

impl<L: ItemSource> List<L> {
    /// The source of the iterators still to come.
    pub closed spec fn source(&self) -> L {
        self.it
    }

    /// The iterator being streamed, if any.
    pub closed spec fn current(&self) -> Option<L::Item> {
        self.current
    }
}

impl<L: ItemSource> List<L> where L::Item: ByteIterator {
    /// Streams the iterators of `it` one after another.
    ///
    /// The source is asked for its first iterator, and only that.
    pub fn new(it: L) -> (r: Self)
        requires
            it.source_inv(),
            forall|i: int| 0 <= i < it.items().len() ==> #[trigger] it.items()[i].inv(),
        ensures
            r.inv(),
            r.rest() == concat_bytes(iterator_bytes(it)),
            r.polls() == 0,
            r.source().pulls() == it.pulls() + 1,
            r.source().items() == if it.items().len() > 0 {
                it.items().drop_first()
            } else {
                it.items()
            },
            r.current() == if it.items().len() > 0 {
                Some(it.items()[0])
            } else {
                None
            },
    {
        let ghost parts = iterator_bytes(it);
        let mut it = it;
        let current = it.next_item();
        let r = List { it, current, polls: Ghost(0) };
        proof {
            if parts.len() > 0 {
                assert(iterator_bytes(r.it) =~= parts.drop_first());
            }
        }
        r
    }
}

impl<L: ItemSource> ByteIterator for List<L> where L::Item: ByteIterator {
    closed spec fn inv(&self) -> bool {
        &&& self.it.source_inv()
        &&& forall|i: int| 0 <= i < self.it.items().len() ==> #[trigger] self.it.items()[i].inv()
        &&& self.current matches Some(c) ==> c.inv()
    }

    closed spec fn polls(&self) -> nat {
        self.polls@
    }

    closed spec fn rest(&self) -> Seq<u8> {
        match self.current {
            None => seq![],
            Some(c) => c.rest() + concat_bytes(iterator_bytes(self.it)),
        }
    }

    /// The current iterator is called first; the source is asked for the next
    /// iterator only once the current one has answered `None`. Without a
    /// current iterator nothing is called.
    fn next(&mut self) -> (r: Option<u8>)
        ensures
            old(self).current() is None ==> final(self).source() == old(self).source() && final(self).current() is None && r is None,
            old(self).rest().len() == 0 ==> final(self).current() is None,
            old(self).current() matches Some(c) && c.rest().len() > 0 ==> final(self).source()
                == old(self).source() && (final(self).current() matches Some(d) && d.polls() == old(self).current()->0.polls() + 1),
    {
        self.polls = Ghost(self.polls@ + 1);
        let ghost mut first = true;
        loop
            invariant
                self.inv(),
                self.rest() == old(self).rest(),
                self.polls@ == old(self).polls@ + 1,
                first ==> self.it == old(self).it && self.current == old(self).current,
                !first ==> (old(self).current() matches Some(c) && c.rest().len() == 0),
            decreases self.it.items().len() + if self.current is Some {
                1int
            } else {
                0int
            },
        {
            match self.current.take() {
                None => {
                    return None;
                },
                Some(mut current) => {
                    let ghost tail = concat_bytes(iterator_bytes(self.it));
                    let ghost before = current.rest();
                    match current.next() {
                        Some(x) => {
                            self.current = Some(current);
                            assert((before + tail).drop_first() =~= current.rest() + tail);
                            return Some(x);
                        },
                        None => {
                            let ghost parts = iterator_bytes(self.it);
                            self.current = self.it.next_item();
                            proof {
                                first = false;
                                if self.current is Some {
                                    assert(iterator_bytes(self.it) =~= parts.drop_first());
                                    assert(before + tail =~= self.current->0.rest() + concat_bytes(
                                        iterator_bytes(self.it),
                                    ));
                                } else {
                                    assert(before + tail =~= Seq::<u8>::empty());
                                }
                            }
                        },
                    }
                },
            }
        }
    }
}

} // verus!

//! Surrounding a byte stream with an opening and a closing byte.
use super::Wrapper;
use crate::stream::{ByteIterator, IntoByteIterator};
use vstd::prelude::*;

verus! {

/// Where a [`Wrapped`] iterator stands.
pub enum WrapState {
    /// The opening byte is still to come.
    Begin,
    /// The inner stream is being produced.
    Middle,
    /// Everything has been produced.
    End,
}

/// Streams `W::START`, the bytes of the inner iterator, then `W::END`.
pub struct Wrapped<W, I> {
    it: I,
    state: WrapState,
    w: W,
    polls: Ghost<nat>,
}

impl<W, I> Wrapped<W, I> {
    /// The inner iterator.
    pub closed spec fn inner(&self) -> I {
        self.it
    }

    /// Where the iterator stands.
    pub closed spec fn phase(&self) -> WrapState {
        self.state
    }
}

impl<W: Wrapper, I: ByteIterator> ByteIterator for Wrapped<W, I> {
    closed spec fn inv(&self) -> bool {
        self.it.inv()
    }

    closed spec fn polls(&self) -> nat {
        self.polls@
    }

    closed spec fn rest(&self) -> Seq<u8> {
        match self.state {
            WrapState::Begin => seq![W::START] + self.it.rest() + seq![W::END],
            WrapState::Middle => self.it.rest() + seq![W::END],
            WrapState::End => seq![],
        }
    }

    /// The inner iterator is called only in the middle phase, once per call.
    fn next(&mut self) -> (r: Option<u8>)
        ensures
            old(self).phase() is Begin ==> final(self).inner() == old(self).inner()
                && final(self).phase() is Middle,
            old(self).phase() is Middle ==> final(self).inner().polls() == old(self).inner().polls() + 1,
            old(self).phase() is Middle && old(self).inner().rest().len() > 0 ==> final(self).phase() is Middle,
            old(self).phase() is Middle && old(self).inner().rest().len() == 0 ==> final(self).phase() is End,
            old(self).phase() is End ==> final(self).inner() == old(self).inner()
                && final(self).phase() is End && r is None,
    {
        self.polls = Ghost(self.polls@ + 1);
        match self.state {
            WrapState::Begin => {
                self.state = WrapState::Middle;
                assert((seq![W::START] + self.it.rest() + seq![W::END]).drop_first() =~= self.it.rest()
                    + seq![W::END]);
                Some(W::START)
            },
            WrapState::Middle => {
                let ghost before = self.it.rest();
                match self.it.next() {
                    Some(b) => {
                        assert((before + seq![W::END]).drop_first() =~= self.it.rest() + seq![W::END]);
                        Some(b)
                    },
                    None => {
                        self.state = WrapState::End;
                        assert(before + seq![W::END] =~= seq![W::END]);
                        Some(W::END)
                    },
                }
            },
            WrapState::End => None,
        }
    }
}

/// Wraps the bytes of `it` between `W::START` and `W::END`.
pub fn wrap<W: Wrapper, I: IntoByteIterator>(w: W, it: I) -> (r: Wrapped<W, I::IntoIter>)
    requires
        it.valid(),
    ensures
        r.inv(),
        r.rest() == seq![W::START] + it.bytes() + seq![W::END],
        r.phase() is Begin,
        r.polls() == 0,
        r.inner().polls() == it.start_polls(),
{
    Wrapped { it: it.into_iter(), state: WrapState::Begin, w, polls: Ghost(0) }
}

} // verus!

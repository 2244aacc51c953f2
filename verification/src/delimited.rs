//! Two byte streams with a separator between them.
use super::Separator;
use crate::stream::{ByteIterator, IntoByteIterator};
use vstd::prelude::*;

verus! {

/// Where a [`Delimited`] iterator stands.
pub enum DelimitedState {
    /// The first stream is being produced; the separator follows it.
    First,
    /// The second stream is being produced.
    Delim,
    /// Everything has been produced.
    Done,
}

/// Streams the bytes of `i1`, then `S::SEPARATOR`, then the bytes of `i2`.
pub struct Delimited<I1, S, I2> {
    i1: I1,
    i2: I2,
    state: DelimitedState,
    separator: S,
    polls: Ghost<nat>,
}

impl<I1, S, I2> Delimited<I1, S, I2> {
    /// The iterator before the separator.
    pub closed spec fn first(&self) -> I1 {
        self.i1
    }

    /// The iterator after the separator.
    pub closed spec fn second(&self) -> I2 {
        self.i2
    }

    /// Where the iterator stands.
    pub closed spec fn phase(&self) -> DelimitedState {
        self.state
    }
}

impl<I1: ByteIterator, S: Separator, I2: ByteIterator> ByteIterator for Delimited<I1, S, I2> {
    closed spec fn inv(&self) -> bool {
        self.i1.inv() && self.i2.inv()
    }

    closed spec fn polls(&self) -> nat {
        self.polls@
    }

    closed spec fn rest(&self) -> Seq<u8> {
        match self.state {
            DelimitedState::First => self.i1.rest() + seq![S::SEPARATOR] + self.i2.rest(),
            DelimitedState::Delim => self.i2.rest(),
            DelimitedState::Done => seq![],
        }
    }

    /// The first iterator is called only before the separator, the second
    /// only after it and until it answers `None`; each once per call.
    fn next(&mut self) -> (r: Option<u8>)
        ensures
            old(self).phase() is First ==> final(self).second() == old(self).second()
                && final(self).first().polls() == old(self).first().polls() + 1
                && (if old(self).first().rest().len() > 0 {
                final(self).phase() is First
            } else {
                final(self).phase() is Delim
            }),
            old(self).phase() is Delim ==> final(self).first() == old(self).first()
                && final(self).second().polls() == old(self).second().polls() + 1
                && (if old(self).second().rest().len() > 0 {
                final(self).phase() is Delim
            } else {
                final(self).phase() is Done
            }),
            old(self).phase() is Done ==> final(self).first() == old(self).first()
                && final(self).second() == old(self).second() && final(self).phase() is Done
                && r is None,
    {
        self.polls = Ghost(self.polls@ + 1);
        match self.state {
            DelimitedState::First => {
                let ghost before = self.i1.rest();
                match self.i1.next() {
                    Some(k) => {
                        assert((before + seq![S::SEPARATOR] + self.i2.rest()).drop_first()
                            =~= self.i1.rest() + seq![S::SEPARATOR] + self.i2.rest());
                        Some(k)
                    },
                    None => {
                        self.state = DelimitedState::Delim;
                        assert((before + seq![S::SEPARATOR] + self.i2.rest()).drop_first()
                            =~= self.i2.rest());
                        Some(S::SEPARATOR)
                    },
                }
            },
            DelimitedState::Delim => {
                match self.i2.next() {
                    Some(v) => Some(v),
                    None => {
                        self.state = DelimitedState::Done;
                        None
                    },
                }
            },
            DelimitedState::Done => None,
        }
    }
}

/// Streams the bytes of `i1`, the separator, then the bytes of `i2`.
pub fn delim<I1: IntoByteIterator, S: Separator, I2: IntoByteIterator>(
    i1: I1,
    separator: S,
    i2: I2,
) -> (r: Delimited<I1::IntoIter, S, I2::IntoIter>)
    requires
        i1.valid(),
        i2.valid(),
    ensures
        r.inv(),
        r.rest() == i1.bytes() + seq![S::SEPARATOR] + i2.bytes(),
        r.phase() is First,
        r.polls() == 0,
        r.first().polls() == i1.start_polls(),
        r.second().polls() == i2.start_polls(),
{
    Delimited {
        i1: i1.into_iter(),
        i2: i2.into_iter(),
        state: DelimitedState::First,
        separator,
        polls: Ghost(0),
    }
}

} // verus!

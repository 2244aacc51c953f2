//! Byte streams one after another.
use crate::stream::{ByteIterator, IntoByteIterator};
use vstd::prelude::*;

verus! {

/// Where a [`Sequence`] iterator stands.
pub enum SeqState {
    /// The first stream is being produced.
    First,
    /// The second stream is being produced.
    Second,
    /// Everything has been produced.
    Done,
}

/// Streams the bytes of the first iterator, then those of the second.
pub struct Sequence<I1, I2>(SeqState, I1, I2, Ghost<nat>);

impl<I1, I2> Sequence<I1, I2> {
    /// The iterator streamed first.
    pub closed spec fn first(&self) -> I1 {
        self.1
    }

    /// The iterator streamed second.
    pub closed spec fn second(&self) -> I2 {
        self.2
    }

    /// Where the iterator stands.
    pub closed spec fn phase(&self) -> SeqState {
        self.0
    }
}

impl<I1: ByteIterator, I2: ByteIterator> ByteIterator for Sequence<I1, I2> {
    closed spec fn inv(&self) -> bool {
        self.1.inv() && self.2.inv()
    }

    closed spec fn polls(&self) -> nat {
        self.3@
    }

    closed spec fn rest(&self) -> Seq<u8> {
        match self.0 {
            SeqState::First => self.1.rest() + self.2.rest(),
            SeqState::Second => self.2.rest(),
            SeqState::Done => seq![],
        }
    }

    /// The second iterator is called only once the first has answered
    /// `None`, and neither after it has answered `None`; each at most once
    /// per call.
    fn next(&mut self) -> (r: Option<u8>)
        ensures
            old(self).phase() is First ==> final(self).first().polls() == old(self).first().polls()
                + 1,
            old(self).phase() is First && old(self).first().rest().len() > 0 ==> final(self).second() == old(self).second() && final(self).phase() is First,
            old(self).phase() is First && old(self).first().rest().len() == 0 ==> final(self).second().polls() == old(self).second().polls() + 1,
            old(self).phase() is First && old(self).first().rest().len() == 0 && old(self).second().rest().len() > 0 ==> final(self).phase() is Second,
            old(self).phase() is First && old(self).first().rest().len() == 0 && old(self).second().rest().len() == 0 ==> final(self).phase() is Done,
            old(self).phase() is Second ==> final(self).first() == old(self).first()
                && final(self).second().polls() == old(self).second().polls() + 1,
            old(self).phase() is Second && old(self).second().rest().len() > 0 ==> final(self).phase() is Second,
            old(self).phase() is Second && old(self).second().rest().len() == 0 ==> final(self).phase() is Done,
            old(self).phase() is Done ==> final(self).first() == old(self).first() && final(self).second() == old(self).second() && final(self).phase() is Done && r is None,
    {
        self.3 = Ghost(self.3@ + 1);
        match self.0 {
            SeqState::First => {
                let ghost before = self.1.rest();
                match self.1.next() {
                    Some(b) => {
                        assert((before + self.2.rest()).drop_first() =~= self.1.rest()
                            + self.2.rest());
                        Some(b)
                    },
                    None => {
                        self.0 = SeqState::Second;
                        assert(before + self.2.rest() =~= self.2.rest());
                        self.next_of_second()
                    },
                }
            },
            SeqState::Second => self.next_of_second(),
            SeqState::Done => None,
        }
    }
}

impl<I1: ByteIterator, I2: ByteIterator> Sequence<I1, I2> {
    /// The step taken once the first stream is used up.
    fn next_of_second(&mut self) -> (r: Option<u8>)
        requires
            old(self).inv(),
            old(self).0 is Second,
        ensures
            final(self).inv(),
            old(self).rest().len() == 0 ==> r is None && final(self).rest() == old(self).rest(),
            old(self).rest().len() > 0 ==> r == Some(old(self).rest()[0]) && final(self).rest()
                == old(self).rest().drop_first(),
            final(self).first() == old(self).first(),
            final(self).second().polls() == old(self).second().polls() + 1,
            final(self).3 == old(self).3,
            old(self).second().rest().len() > 0 ==> final(self).0 is Second,
            old(self).second().rest().len() == 0 ==> final(self).0 is Done,
    {
        match self.2.next() {
            Some(b) => Some(b),
            None => {
                self.0 = SeqState::Done;
                None
            },
        }
    }
}

/// Streams the bytes of `first`, then those of `second`.
pub fn seq2<I1: IntoByteIterator, I2: IntoByteIterator>(first: I1, second: I2) -> (r: Sequence<
    I1::IntoIter,
    I2::IntoIter,
>)
    requires
        first.valid(),
        second.valid(),
    ensures
        r.inv(),
        r.rest() == first.bytes() + second.bytes(),
        r.phase() is First,
        r.polls() == 0,
        r.first().polls() == first.start_polls(),
        r.second().polls() == second.start_polls(),
{
    Sequence(SeqState::First, first.into_iter(), second.into_iter(), Ghost(0))
}

/// Streams the bytes of `first`, `second` and `third`, in that order.
pub fn sequence3<I1: IntoByteIterator, I2: IntoByteIterator, I3: IntoByteIterator>(
    first: I1,
    second: I2,
    third: I3,
) -> (r: Sequence<I1::IntoIter, Sequence<I2::IntoIter, I3::IntoIter>>)
    requires
        first.valid(),
        second.valid(),
        third.valid(),
    ensures
        r.inv(),
        r.rest() == first.bytes() + second.bytes() + third.bytes(),
        r.phase() is First,
        r.polls() == 0,
        r.first().polls() == first.start_polls(),
        r.second().phase() is First,
        r.second().polls() == 0,
        r.second().first().polls() == second.start_polls(),
        r.second().second().polls() == third.start_polls(),
{
    let first = first.into_iter();
    let rest = seq2(second, third);
    let r = Sequence(SeqState::First, first, rest, Ghost(0));
    assert(r.rest() =~= first.rest() + rest.rest());
    r
}

/// Streams the bytes of `first`, `second`, `third` and `fourth`, in that order.
pub fn sequence4<I1: IntoByteIterator, I2: IntoByteIterator, I3: IntoByteIterator, I4: IntoByteIterator>(
    first: I1,
    second: I2,
    third: I3,
    fourth: I4,
) -> (r: Sequence<Sequence<I1::IntoIter, I2::IntoIter>, Sequence<I3::IntoIter, I4::IntoIter>>)
    requires
        first.valid(),
        second.valid(),
        third.valid(),
        fourth.valid(),
    ensures
        r.inv(),
        r.rest() == first.bytes() + second.bytes() + third.bytes() + fourth.bytes(),
        r.phase() is First,
        r.polls() == 0,
        r.first().phase() is First,
        r.first().polls() == 0,
        r.first().first().polls() == first.start_polls(),
        r.first().second().polls() == second.start_polls(),
        r.second().phase() is First,
        r.second().polls() == 0,
        r.second().first().polls() == third.start_polls(),
        r.second().second().polls() == fourth.start_polls(),
{
    let a = seq2(first, second);
    let b = seq2(third, fourth);
    let r = Sequence(SeqState::First, a, b, Ghost(0));
    assert(r.rest() =~= a.rest() + b.rest());
    r
}

} // verus!

//! Copying a byte stream into caller-provided buffers, a buffer at a time.
use crate::stream::{ByteIterator, IntoByteIterator};
use vstd::prelude::*;

verus! {

/// Fills buffers with the bytes of a stream, in order.
pub struct ReadAdapter<T>(T);

impl<T: ByteIterator> ReadAdapter<T> {
    /// The adapter's internal consistency.
    pub closed spec fn ready(&self) -> bool {
        self.0.inv()
    }

    /// How many times the stream has been asked for a byte.
    pub closed spec fn polls(&self) -> nat {
        self.0.polls()
    }

    /// The bytes not yet copied out.
    pub closed spec fn remaining(&self) -> Seq<u8> {
        self.0.rest()
    }

    /// An adapter over the bytes of `it`.
    pub fn new<I: IntoByteIterator<IntoIter = T>>(it: I) -> (r: Self)
        requires
            it.valid(),
        ensures
            r.ready(),
            r.remaining() == it.bytes(),
            r.polls() == it.start_polls(),
    {
        ReadAdapter(it.into_iter())
    }

    /// Copies the next bytes of the stream to the front of `buf`, as many as
    /// fit and as are left, and answers how many it copied; the rest of
    /// `buf` is left as it was. The stream is asked once per byte copied,
    /// and once more only when `buf` did not fill.
    pub fn read(&mut self, buf: &mut [u8]) -> (n: usize)
        requires
            old(self).ready(),
        ensures
            final(self).ready(),
            n == if old(buf)@.len() <= old(self).remaining().len() {
                old(buf)@.len()
            } else {
                old(self).remaining().len()
            },
            final(buf)@ == old(self).remaining().take(n as int) + old(buf)@.skip(n as int),
            final(self).remaining() == old(self).remaining().skip(n as int),
            final(self).polls() == old(self).polls() + n + if n < old(buf)@.len() {
                1nat
            } else {
                0nat
            },
            old(buf)@.len() == 0 ==> *final(self) == *old(self),
    {
        let ghost all = self.0.rest();
        let ghost initial = buf@;
        let mut count: usize = 0;
        loop
            invariant_except_break
                self.0.polls() == old(self).0.polls() + count,
                count == 0 ==> *self == *old(self),
            invariant
                self.0.inv(),
                buf@.len() == initial.len(),
                count <= initial.len(),
                count <= all.len(),
                self.0.rest() == all.skip(count as int),
                buf@ == all.take(count as int) + initial.skip(count as int),
            ensures
                initial.len() == 0 ==> *self == *old(self),
                count == initial.len() && self.0.polls() == old(self).0.polls() + count
                    || count < initial.len() && count == all.len() && self.0.polls() == old(
                    self,
                ).0.polls() + count + 1,
            decreases initial.len() - count,
        {
            if count >= buf.len() {
                break;
            }
            match self.0.next() {
                Some(v) => {
                    assert(all.skip(count as int)[0] == all[count as int]);
                    buf[count] = v;
                    count = count + 1;
                    assert(buf@ =~= all.take(count as int) + initial.skip(count as int));
                    assert(all.skip((count - 1) as int).drop_first() =~= all.skip(count as int));
                },
                None => {
                    break;
                },
            }
        }
        count
    }
}

/// Reading to the end gives back the stream. If the bytes copied out so far,
/// then what `before` has left, are `all`, then after a read that copied `n`
/// bytes into `buf` they are still `all` with the front of `buf` added; and a
/// read into a non-empty buffer that copies nothing means all has been
/// copied out.
pub proof fn lemma_read_step<T: ByteIterator>(
    all: Seq<u8>,
    copied: Seq<u8>,
    before: ReadAdapter<T>,
    after: ReadAdapter<T>,
    buf_before: Seq<u8>,
    buf_after: Seq<u8>,
    n: nat,
)
    requires
        copied + before.remaining() == all,
        n == if buf_before.len() <= before.remaining().len() {
            buf_before.len()
        } else {
            before.remaining().len()
        },
        buf_after == before.remaining().take(n as int) + buf_before.skip(n as int),
        after.remaining() == before.remaining().skip(n as int),
    ensures
        copied + buf_after.take(n as int) + after.remaining() == all,
        n == 0 && buf_before.len() > 0 ==> copied == all && after.remaining().len() == 0,
{
    assert(buf_after.take(n as int) =~= before.remaining().take(n as int));
    assert(before.remaining() =~= before.remaining().take(n as int) + before.remaining().skip(
        n as int,
    ));
    assert(copied + buf_after.take(n as int) + after.remaining() =~= copied + before.remaining());
    if n == 0 && buf_before.len() > 0 {
        assert(copied =~= all);
    }
}

} // verus!

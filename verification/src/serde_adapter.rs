//! Framing serialized items as a JSON array, one item per line, copied into
//! caller-provided buffers a buffer at a time.
use crate::stream::ByteIterator;
use vstd::prelude::*;

verus! {

/// The parts with `sep` between each two of them.
pub open spec fn join_with(parts: Seq<Seq<u8>>, sep: Seq<u8>) -> Seq<u8>
    decreases parts.len(),
{
    if parts.len() == 0 {
        seq![]
    } else if parts.len() == 1 {
        parts[0]
    } else {
        parts[0] + sep + join_with(parts.drop_first(), sep)
    }
}

/// What follows once the items are framed after the first one: each item
/// after `,\n`, then `\n]`.
pub open spec fn after_item(items: Seq<Seq<u8>>) -> Seq<u8>
    decreases items.len(),
{
    if items.len() == 0 {
        seq![10u8, 93]
    } else {
        seq![44u8, 10] + items[0] + after_item(items.drop_first())
    }
}

/// What follows the opening `[\n`: the items separated by `,\n`, then `\n]`.
pub open spec fn after_open(items: Seq<Seq<u8>>) -> Seq<u8> {
    if items.len() == 0 {
        seq![10u8, 93]
    } else {
        items[0] + after_item(items.drop_first())
    }
}

/// The whole text for `items`: `[`, a line break, the items separated by a
/// comma and a line break, a line break, then `]`.
pub open spec fn framed(items: Seq<Seq<u8>>) -> Seq<u8> {
    seq![91u8, 10] + after_open(items)
}

proof fn lemma_after_item_joined(items: Seq<Seq<u8>>)
    requires
        items.len() > 0,
    ensures
        items[0] + after_item(items.drop_first()) == join_with(items, seq![44u8, 10]) + seq![
            10u8,
            93,
        ],
    decreases items.len(),
{
    let rest = items.drop_first();
    if items.len() == 1 {
        assert(rest.len() == 0);
        assert(after_item(rest) == seq![10u8, 93]);
    } else {
        lemma_after_item_joined(rest);
        assert(after_item(rest) == seq![44u8, 10] + rest[0] + after_item(rest.drop_first()));
        assert(items[0] + after_item(rest) =~= items[0] + seq![44u8, 10] + (rest[0] + after_item(
            rest.drop_first(),
        )));
    }
}

/// The framed text is `[\n`, the items joined by `,\n`, then `\n]`.
pub proof fn lemma_framed_is_joined(items: Seq<Seq<u8>>)
    ensures
        framed(items) == seq![91u8, 10] + join_with(items, seq![44u8, 10]) + seq![10u8, 93],
{
    if items.len() == 0 {
        assert(framed(items) =~= seq![91u8, 10] + join_with(items, seq![44u8, 10]) + seq![
            10u8,
            93,
        ]);
    } else {
        lemma_after_item_joined(items);
        assert(framed(items) =~= seq![91u8, 10] + join_with(items, seq![44u8, 10]) + seq![
            10u8,
            93,
        ]);
    }
}

/// A byte buffer read from front to back.
struct ByteCursor {
    data: Vec<u8>,
    pos: usize,
}

impl ByteCursor {
    spec fn inv(&self) -> bool {
        self.pos <= self.data.len()
    }

    spec fn unread(&self) -> Seq<u8> {
        self.data@.skip(self.pos as int)
    }

    fn new(data: Vec<u8>) -> (r: ByteCursor)
        ensures
            r.inv(),
            r.unread() == data@,
    {
        let r = ByteCursor { data, pos: 0 };
        assert(r.unread() =~= r.data@);
        r
    }

    /// Copies unread bytes to `target` from index `at` on, as many as fit and
    /// as are left.
    fn read_into(&mut self, target: &mut [u8], at: usize) -> (n: usize)
        requires
            old(self).inv(),
            at <= old(target)@.len(),
        ensures
            final(self).inv(),
            n == if old(target)@.len() - at <= old(self).unread().len() {
                (old(target)@.len() - at) as int
            } else {
                old(self).unread().len() as int
            },
            final(target)@ == old(target)@.take(at as int) + old(self).unread().take(n as int) + old(target)@.skip(at + n),
            final(self).unread() == old(self).unread().skip(n as int),
    {
        let ghost all = self.unread();
        let ghost initial = target@;
        let ghost pos0 = self.pos;
        let room = target.len() - at;
        let mut n: usize = 0;
        while n < room && self.pos < self.data.len()
            invariant
                self.inv(),
                self.data@ == old(self).data@,
                pos0 == old(self).pos,
                all == old(self).unread(),
                self.pos == pos0 + n,
                target@.len() == initial.len(),
                room == initial.len() - at,
                initial.len() <= usize::MAX,
                n <= room,
                n <= all.len(),
                self.unread() == all.skip(n as int),
                target@ == initial.take(at as int) + all.take(n as int) + initial.skip(at + n),
            decreases room - n,
        {
            assert(self.unread()[0] == all[n as int]);
            target[at + n] = self.data[self.pos];
            self.pos = self.pos + 1;
            n = n + 1;
            assert(target@ =~= initial.take(at as int) + all.take(n as int) + initial.skip(at + n));
            assert(self.unread() =~= all.skip(n as int));
        }
        n
    }
}

/// Where an [`ArrayFramer`] stands, each with what it has still to copy out.
enum AdapterState {
    /// The opening `[\n`; the first item is asked for next.
    Begin(ByteCursor),
    /// An item's bytes; the next item is asked for next.
    Buffer(ByteCursor),
    /// The `,\n` before an item, then that item.
    Delimiter(ByteCursor, Option<ByteCursor>),
    /// The closing `\n]`.
    End(ByteCursor),
    /// Everything has been copied out.
    Done,
}

/// What a call of [`ArrayFramer::read`] ended with.
pub enum ReadStep {
    /// The count of bytes now in the buffer: it is full, or the array is
    /// complete.
    Ready(usize),
    /// The count of bytes now in the buffer, which has room for more: the
    /// next item is wanted.
    NeedItem(usize),
}

impl ReadStep {
    /// The count of bytes in the buffer.
    pub open spec fn count(self) -> usize {
        match self {
            ReadStep::Ready(n) => n,
            ReadStep::NeedItem(n) => n,
        }
    }
}

/// Frames a sequence of serialized items as a JSON array with one item per
/// line, and copies the text into buffers as they are offered.
///
/// The items are asked for one at a time, only once the text before them has
/// been copied out and a buffer has room.
pub struct ArrayFramer {
    state: AdapterState,
}

impl ArrayFramer {
    /// The framer's internal consistency.
    pub closed spec fn inv(&self) -> bool {
        match self.state {
            AdapterState::Begin(c) => c.inv(),
            AdapterState::Buffer(c) => c.inv(),
            AdapterState::Delimiter(d, n) => d.inv() && n is Some && n->0.inv(),
            AdapterState::End(c) => c.inv(),
            AdapterState::Done => true,
        }
    }

    /// The bytes that can be copied out before the next item is wanted or
    /// the array is complete.
    pub closed spec fn pending(&self) -> Seq<u8> {
        match self.state {
            AdapterState::Begin(c) => c.unread(),
            AdapterState::Buffer(c) => c.unread(),
            AdapterState::Delimiter(d, n) => match n {
                Some(c) => d.unread() + c.unread(),
                None => d.unread(),
            },
            AdapterState::End(c) => c.unread(),
            AdapterState::Done => seq![],
        }
    }

    /// Whether all items have been asked for and the closing text is under way.
    pub closed spec fn finished(&self) -> bool {
        self.state is End || self.state is Done
    }

    /// Whether no item has been asked for yet.
    pub closed spec fn opening(&self) -> bool {
        self.state is Begin
    }

    /// Whether the next item is wanted before anything more can be copied out.
    pub closed spec fn needs_item(&self) -> bool {
        match self.state {
            AdapterState::Begin(c) => c.unread().len() == 0,
            AdapterState::Buffer(c) => c.unread().len() == 0,
            _ => false,
        }
    }

    /// All the bytes still to be copied out, when `items` are the items still
    /// to be asked for.
    pub open spec fn future(&self, items: Seq<Seq<u8>>) -> Seq<u8> {
        self.pending() + if self.finished() {
            seq![]
        } else if self.opening() {
            after_open(items)
        } else {
            after_item(items)
        }
    }

    /// A framer at the start of the array.
    pub fn new() -> (r: ArrayFramer)
        ensures
            r.inv(),
            r.pending() == seq![91u8, 10],
            r.opening(),
            !r.finished(),
            forall|items: Seq<Seq<u8>>| #[trigger] r.future(items) == framed(items),
    {
        let mut begin: Vec<u8> = Vec::new();
        begin.push(91);
        begin.push(10);
        let r = ArrayFramer { state: AdapterState::Begin(ByteCursor::new(begin)) };
        assert(r.pending() =~= seq![91u8, 10]);
        r
    }

    /// The copying and the state change of `read`.
    fn step(&mut self, target: &mut [u8], bytes: usize) -> (r: ReadStep)
        requires
            old(self).inv(),
            bytes <= old(target)@.len(),
        ensures
            final(self).inv(),
            final(target)@.len() == old(target)@.len(),
            bytes <= r.count() <= old(target)@.len(),
            final(target)@ == old(target)@.take(bytes as int) + old(self).pending().take(
                r.count() - bytes,
            ) + old(target)@.skip(r.count() as int),
            old(self).pending().len() >= old(target)@.len() - bytes ==> {
                &&& r is Ready && r.count() == old(target)@.len()
                &&& final(self).pending() == old(self).pending().skip(old(target)@.len() - bytes)
                &&& final(self).finished() == old(self).finished()
                &&& final(self).opening() == old(self).opening()
            },
            old(self).pending().len() < old(target)@.len() - bytes ==> {
                &&& final(self).pending().len() == 0
                &&& r.count() == bytes + old(self).pending().len()
                &&& final(self).finished() == old(self).finished()
                &&& old(self).finished() ==> r is Ready
                &&& !old(self).finished() ==> r is NeedItem && final(self).needs_item()
                    && final(self).opening() == old(self).opening()
            },
    {
        let max = target.len();
        let ghost t0 = target@;
        let ghost p0 = self.pending();
        let mut st = AdapterState::Done;
        std::mem::swap(&mut st, &mut self.state);
        let r = match st {
            AdapterState::Begin(mut c) => {
                let n = c.read_into(target, bytes);
                self.state = AdapterState::Begin(c);
                if bytes + n == max {
                    ReadStep::Ready(bytes + n)
                } else {
                    ReadStep::NeedItem(bytes + n)
                }
            },
            AdapterState::Buffer(mut c) => {
                let n = c.read_into(target, bytes);
                self.state = AdapterState::Buffer(c);
                if bytes + n == max {
                    ReadStep::Ready(bytes + n)
                } else {
                    ReadStep::NeedItem(bytes + n)
                }
            },
            AdapterState::Delimiter(mut d, next) => {
                let n = d.read_into(target, bytes);
                if bytes + n == max {
                    self.state = AdapterState::Delimiter(d, next);
                    ReadStep::Ready(bytes + n)
                } else {
                    match next {
                        Some(mut c) => {
                            let ghost t1 = target@;
                            let m = c.read_into(target, bytes + n);
                            self.state = AdapterState::Buffer(c);
                            assert(target@ =~= t0.take(bytes as int) + p0.take(n + m) + t0.skip(
                                bytes + n + m,
                            ));
                            if bytes + n + m == max {
                                ReadStep::Ready(bytes + n + m)
                            } else {
                                ReadStep::NeedItem(bytes + n + m)
                            }
                        },
                        None => {
                            self.state = AdapterState::Done;
                            ReadStep::Ready(bytes + n)
                        },
                    }
                }
            },
            AdapterState::End(mut c) => {
                let n = c.read_into(target, bytes);
                if bytes + n == max {
                    self.state = AdapterState::End(c);
                } else {
                    self.state = AdapterState::Done;
                }
                ReadStep::Ready(bytes + n)
            },
            AdapterState::Done => ReadStep::Ready(bytes),
        };
        r
    }

    /// Copies pending bytes to `target` from index `bytes` on, as many as fit
    /// and as are pending.
    ///
    /// When the buffer is full, or the array is complete, the answer is
    /// `Ready` with the count of bytes now in the buffer; when the buffer
    /// still has room and the next item is wanted, `NeedItem` with that count.
    pub fn read(&mut self, target: &mut [u8], bytes: usize) -> (r: ReadStep)
        requires
            old(self).inv(),
            bytes <= old(target)@.len(),
        ensures
            final(self).inv(),
            final(target)@.len() == old(target)@.len(),
            bytes <= r.count() <= old(target)@.len(),
            final(target)@ == old(target)@.take(bytes as int) + old(self).pending().take(
                r.count() - bytes,
            ) + old(target)@.skip(r.count() as int),
            old(self).pending().len() >= old(target)@.len() - bytes ==> {
                &&& r is Ready && r.count() == old(target)@.len()
                &&& final(self).pending() == old(self).pending().skip(old(target)@.len() - bytes)
                &&& final(self).finished() == old(self).finished()
                &&& final(self).opening() == old(self).opening()
            },
            old(self).pending().len() < old(target)@.len() - bytes ==> {
                &&& final(self).pending().len() == 0
                &&& r.count() == bytes + old(self).pending().len()
                &&& final(self).finished() == old(self).finished()
                &&& old(self).finished() ==> r is Ready
                &&& !old(self).finished() ==> r is NeedItem && final(self).needs_item()
                    && final(self).opening() == old(self).opening()
            },
            forall|items: Seq<Seq<u8>>|
                #[trigger] old(self).future(items) == final(target)@.subrange(
                    bytes as int,
                    r.count() as int,
                ) + final(self).future(items),
    {
        let ghost t0 = target@;
        let ghost p0 = self.pending();
        let r = self.step(target, bytes);
        proof {
            let k = (r.count() - bytes) as int;
            assert(target@.subrange(bytes as int, r.count() as int) =~= p0.take(k));
            assert(p0 =~= p0.take(k) + self.pending());
            assert forall|items: Seq<Seq<u8>>| #[trigger]
                old(self).future(items) == target@.subrange(bytes as int, r.count() as int)
                    + self.future(items) by {
                assert(old(self).future(items) =~= p0.take(k) + self.future(items));
            }
        }
        r
    }

    /// Hands the framer the next item's bytes, or `None` when there are no
    /// more items.
    pub fn supply(&mut self, item: Option<Vec<u8>>)
        requires
            old(self).inv(),
            old(self).needs_item(),
        ensures
            final(self).inv(),
            !final(self).opening(),
            match item {
                Some(v) => !final(self).finished() && final(self).pending() == if old(self).opening() {
                    v@
                } else {
                    seq![44u8, 10] + v@
                },
                None => final(self).finished() && final(self).pending() == seq![10u8, 93],
            },
            forall|items: Seq<Seq<u8>>|
                (match item {
                    Some(v) => items.len() > 0 && items[0] == v@,
                    None => items.len() == 0,
                }) ==> #[trigger] old(self).future(items) == final(self).future(
                    if items.len() > 0 {
                        items.drop_first()
                    } else {
                        items
                    },
                ),
    {
        let first = match self.state {
            AdapterState::Begin(_) => true,
            _ => false,
        };
        match item {
            Some(v) => {
                let ghost bytes = v@;
                let c = ByteCursor::new(v);
                if first {
                    self.state = AdapterState::Buffer(c);
                } else {
                    let mut delimiter: Vec<u8> = Vec::new();
                    delimiter.push(44);
                    delimiter.push(10);
                    self.state = AdapterState::Delimiter(ByteCursor::new(delimiter), Some(c));
                    assert(self.pending() =~= seq![44u8, 10] + bytes);
                }
            },
            None => {
                let mut end: Vec<u8> = Vec::new();
                end.push(10);
                end.push(93);
                self.state = AdapterState::End(ByteCursor::new(end));
                assert(self.pending() =~= seq![10u8, 93]);
            },
        }
        proof {
            assert forall|items: Seq<Seq<u8>>|
                (match item {
                    Some(v) => items.len() > 0 && items[0] == v@,
                    None => items.len() == 0,
                }) implies #[trigger] old(self).future(items) == self.future(
                    if items.len() > 0 {
                        items.drop_first()
                    } else {
                        items
                    },
                ) by {
                assert(old(self).pending() =~= Seq::<u8>::empty());
                if items.len() > 0 {
                    assert(old(self).future(items) =~= self.future(items.drop_first()));
                } else {
                    assert(old(self).future(items) =~= self.future(items));
                }
            }
        }
    }
}

/// A read keeps a run of the framer on track: if the bytes copied out so far,
/// then all that `before` has still to copy out, are the framed text of `all`,
/// then so are those bytes with the ones this read copied, then all that
/// `after` has still to copy out.
pub proof fn lemma_read_keeps_track(
    all: Seq<Seq<u8>>,
    items: Seq<Seq<u8>>,
    copied: Seq<u8>,
    before: ArrayFramer,
    after: ArrayFramer,
    this_read: Seq<u8>,
)
    requires
        copied + before.future(items) == framed(all),
        before.future(items) == this_read + after.future(items),
    ensures
        copied + this_read + after.future(items) == framed(all),
{
    assert(copied + this_read + after.future(items) =~= copied + before.future(items));
}

/// Handing over an item keeps a run of the framer on track: the items still
/// to be asked for lose their first one, or stay empty when there is none.
pub proof fn lemma_supply_keeps_track(
    all: Seq<Seq<u8>>,
    items: Seq<Seq<u8>>,
    copied: Seq<u8>,
    before: ArrayFramer,
    after: ArrayFramer,
)
    requires
        copied + before.future(items) == framed(all),
        before.future(items) == after.future(
            if items.len() > 0 {
                items.drop_first()
            } else {
                items
            },
        ),
    ensures
        copied + after.future(
            if items.len() > 0 {
                items.drop_first()
            } else {
                items
            },
        ) == framed(all),
{
}

/// A run of the framer that is on track and has nothing left to copy out and
/// no item left to ask for has copied out exactly the framed text of all the
/// items, whatever the sizes of the buffers were.
pub proof fn lemma_run_complete(all: Seq<Seq<u8>>, copied: Seq<u8>, framer: ArrayFramer)
    requires
        copied + framer.future(seq![]) == framed(all),
        framer.finished(),
        framer.pending().len() == 0,
    ensures
        copied == framed(all),
        copied == seq![91u8, 10] + join_with(all, seq![44u8, 10]) + seq![10u8, 93],
{
    assert(framer.future(seq![]) =~= Seq::<u8>::empty());
    assert(copied =~= copied + framer.future(seq![]));
    lemma_framed_is_joined(all);
}

} // verus!

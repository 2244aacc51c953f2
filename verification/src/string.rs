//! JSON strings, and the bytes of Rust strings.
use super::Quotes;
use crate::stream::{ByteIterator, IntoByteIterator};
use crate::wrap::{wrap, Wrapped};
use vstd::prelude::*;
use vstd::string::StringSliceAdditionalSpecFns;
use vstd::utf8::encode_utf8;

verus! {

/// Hands out the UTF-8 bytes of an owned string, first to last.
pub struct StringIterator(String, usize, Ghost<nat>);

impl StringIterator {
    /// Hands out the UTF-8 bytes of `str`.
    pub fn new(str: String) -> (r: Self)
        ensures
            r.inv(),
            r.polls() == 0,
            r.rest() == encode_utf8(str@),
    {
        let r = StringIterator(str, 0, Ghost(0));
        assert(r.rest() =~= encode_utf8(r.0@));
        r
    }
}

impl ByteIterator for StringIterator {
    closed spec fn inv(&self) -> bool {
        self.1 <= encode_utf8(self.0@).len()
    }

    closed spec fn rest(&self) -> Seq<u8> {
        encode_utf8(self.0@).skip(self.1 as int)
    }

    closed spec fn polls(&self) -> nat {
        self.2@
    }

    fn next(&mut self) -> (r: Option<u8>) {
        self.2 = Ghost(self.2@ + 1);
        let bytes = self.0.as_str().as_bytes();
        if self.1 < bytes.len() {
            let x = bytes[self.1];
            let ghost before = self.rest();
            self.1 = self.1 + 1;
            assert(before.drop_first() =~= self.rest());
            Some(x)
        } else {
            None
        }
    }
}

/// Hands out the UTF-8 bytes of a string slice, first to last.
pub struct StrBytes<'a> {
    s: &'a str,
    pos: usize,
    polls: Ghost<nat>,
}

impl<'a> StrBytes<'a> {
    /// Hands out the UTF-8 bytes of `s`.
    pub fn new(s: &'a str) -> (r: Self)
        ensures
            r.inv(),
            r.polls() == 0,
            r.rest() == s.spec_bytes(),
    {
        let r = StrBytes { s, pos: 0, polls: Ghost(0) };
        assert(r.rest() =~= s.spec_bytes());
        r
    }
}

impl<'a> ByteIterator for StrBytes<'a> {
    closed spec fn inv(&self) -> bool {
        self.pos <= self.s.spec_bytes().len()
    }

    closed spec fn rest(&self) -> Seq<u8> {
        self.s.spec_bytes().skip(self.pos as int)
    }

    closed spec fn polls(&self) -> nat {
        self.polls@
    }

    fn next(&mut self) -> (r: Option<u8>) {
        self.polls = Ghost(self.polls@ + 1);
        let bytes = self.s.as_bytes();
        if self.pos < bytes.len() {
            let x = bytes[self.pos];
            let ghost before = self.rest();
            self.pos = self.pos + 1;
            assert(before.drop_first() =~= self.rest());
            Some(x)
        } else {
            None
        }
    }
}

/// A JSON string around the bytes of its content, written as they are.
pub struct JsonString<P>(P);

impl<P> JsonString<P> {
    /// What stands between the quotes.
    pub closed spec fn content(&self) -> P {
        self.0
    }
}

/// A string streams `"`, its content, then `"`.
impl<P: IntoByteIterator> IntoByteIterator for JsonString<P> {
    type IntoIter = Wrapped<Quotes, P::IntoIter>;

    open spec fn valid(&self) -> bool {
        self.content().valid()
    }

    open spec fn bytes(&self) -> Seq<u8> {
        seq![34u8] + self.content().bytes() + seq![34u8]
    }

    open spec fn start_polls(&self) -> nat {
        0
    }

    fn into_iter(self) -> (r: Self::IntoIter) {
        wrap(Quotes, self.0)
    }
}

/// A JSON string of the UTF-8 bytes of `s`, with no escaping.
pub fn string(s: String) -> (r: JsonString<StringIterator>)
    ensures
        r.valid(),
        r.bytes() == seq![34u8] + encode_utf8(s@) + seq![34u8],
{
    JsonString(StringIterator::new(s))
}

} // verus!

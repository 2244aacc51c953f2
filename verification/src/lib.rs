//! Streaming JSON writers built from byte iterators.
//!
//! Every writer in this crate produces its JSON text one byte at a time.
//! A [`ByteIterator`] exposes, as a specification, the bytes it has still to
//! produce; each combinator states exactly which bytes it streams in terms of
//! the bytes of its parts.
pub mod array;
pub mod delimited;
pub mod digits;
pub mod iterator_iterator;
pub mod list;
pub mod object;
pub mod read_adapter;
pub mod sequence;
pub mod serde_adapter;
pub mod source;
pub mod stream;
pub mod string;
pub mod wrap;

pub use array::{array, dynamic_array, Item, Itm, JsonArray, NilItem};
pub use delimited::{delim, Delimited, DelimitedState};
pub use digits::{number_of_digits, DigitIterator, Digits, F64Iterator, FloatClass};
pub use iterator_iterator::IteratorIterator;
pub use list::List;
pub use object::{dynamic_object, object, JsonObject, NilProp, Prop, Property};
pub use read_adapter::ReadAdapter;
pub use sequence::{seq2, sequence3, sequence4, SeqState, Sequence};
pub use serde_adapter::{ArrayFramer, ReadStep};
pub use source::VecItems;
pub use stream::{ByteIterator, IntoByteIterator, ItemSource};
pub use string::{string, JsonString, StrBytes, StringIterator};
pub use wrap::{wrap, WrapState, Wrapped};

use vstd::prelude::*;

verus! {

/// A pair of bytes that open and close a bracketed JSON fragment.
pub trait Wrapper {
    /// The opening byte.
    const START: u8;
    /// The closing byte.
    const END: u8;
}

/// A byte that stands between two JSON fragments.
pub trait Separator {
    /// The separating byte.
    const SEPARATOR: u8;
}

/// `{` and `}`.
pub struct CurlyBraces;

impl Wrapper for CurlyBraces {
    const START: u8 = 123;  // '{'
    const END: u8 = 125;  // '}'
}

/// `[` and `]`.
pub struct SquareBrackets;

impl Wrapper for SquareBrackets {
    const START: u8 = 91;  // '['
    const END: u8 = 93;  // ']'
}

/// `"` on both sides.
pub struct Quotes;

impl Wrapper for Quotes {
    const START: u8 = 34;  // '"'
    const END: u8 = 34;  // '"'
}

/// `,`.
pub struct Comma;

impl Separator for Comma {
    const SEPARATOR: u8 = 44;  // ','
}

/// `:`.
pub struct Colon;

impl Separator for Colon {
    const SEPARATOR: u8 = 58;  // ':'
}

} // verus!

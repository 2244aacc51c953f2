//! JSON arrays: built item by item, or from a source of items.
use super::{Comma, SquareBrackets};
use crate::delimited::{delim, Delimited};
use crate::iterator_iterator::{join_bytes, IteratorIterator};
use crate::stream::{item_bytes, IntoByteIterator, ItemSource};
use crate::wrap::{wrap, Wrapped};
use vstd::prelude::*;

verus! {

/// The end of a chain of array items.
pub struct NilItem;

/// An array item in front of the items pushed before it.
pub struct Item<V, T> {
    value: V,
    tail: T,
}

impl<V, T> Item<V, T> {
    /// The item's value.
    pub closed spec fn value(&self) -> V {
        self.value
    }

    /// The items pushed before this one.
    pub closed spec fn tail(&self) -> T {
        self.tail
    }
}

/// A chain of array items that another item can be pushed onto.
pub trait Itm: Sized {
    /// Puts `value` in front of the chain.
    fn push<V: IntoByteIterator>(self, value: V) -> (r: Item<V, Self>)
        ensures
            r.value() == value,
            r.tail() == self,
    {
        Item { value, tail: self }
    }
}

impl Itm for NilItem {}

impl<V: IntoByteIterator, T> Itm for Item<V, T> {}

/// A single item streams its value.
impl<V: IntoByteIterator> IntoByteIterator for Item<V, NilItem> {
    type IntoIter = V::IntoIter;

    open spec fn valid(&self) -> bool {
        self.value().valid()
    }

    open spec fn bytes(&self) -> Seq<u8> {
        self.value().bytes()
    }

    open spec fn start_polls(&self) -> nat {
        self.value().start_polls()
    }

    fn into_iter(self) -> (r: V::IntoIter) {
        self.value.into_iter()
    }
}

/// An item in front of others streams its value, a comma, then the others.
impl<V: IntoByteIterator, T: IntoByteIterator, U> IntoByteIterator for Item<V, Item<T, U>> where
    Item<T, U>: IntoByteIterator,
 {
    type IntoIter = Delimited<V::IntoIter, Comma, <Item<T, U> as IntoByteIterator>::IntoIter>;

    open spec fn valid(&self) -> bool {
        self.value().valid() && self.tail().valid()
    }

    open spec fn bytes(&self) -> Seq<u8> {
        self.value().bytes() + seq![44u8] + self.tail().bytes()
    }

    open spec fn start_polls(&self) -> nat {
        0
    }

    fn into_iter(self) -> (r: Self::IntoIter) {
        delim(self.value, Comma, self.tail)
    }
}

/// A JSON array around its elements.
pub struct JsonArray<P>(P);

impl<P> JsonArray<P> {
    /// What stands between the brackets.
    pub closed spec fn elements(&self) -> P {
        self.0
    }
}

/// An array streams `[`, its elements, then `]`.
impl<P: IntoByteIterator> IntoByteIterator for JsonArray<P> {
    type IntoIter = Wrapped<SquareBrackets, P::IntoIter>;

    open spec fn valid(&self) -> bool {
        self.elements().valid()
    }

    open spec fn bytes(&self) -> Seq<u8> {
        seq![91u8] + self.elements().bytes() + seq![93u8]
    }

    open spec fn start_polls(&self) -> nat {
        0
    }

    fn into_iter(self) -> (r: Self::IntoIter) {
        wrap(SquareBrackets, self.0)
    }
}

/// An array with no items yet.
pub fn array() -> (r: JsonArray<NilItem>)
    ensures
        r.elements() == NilItem,
{
    JsonArray(NilItem)
}

/// An array of the items of `it`, separated by commas.
pub fn dynamic_array<T: ItemSource>(it: T) -> (r: JsonArray<IteratorIterator<T, Comma>>) where
    T::Item: IntoByteIterator,

    requires
        it.source_inv(),
        forall|i: int| 0 <= i < it.items().len() ==> #[trigger] it.items()[i].valid(),
    ensures
        r.valid(),
        r.bytes() == seq![91u8] + join_bytes(item_bytes(it), 44u8) + seq![93u8],
{
    JsonArray(IteratorIterator::new(Comma, it))
}

impl<P: Itm> JsonArray<P> {
    /// Puts `value` in front of the array's items: the item pushed last is
    /// streamed first.
    pub fn item<V: IntoByteIterator>(self, value: V) -> (r: JsonArray<Item<V, P>>)
        ensures
            r.elements().value() == value,
            r.elements().tail() == self.elements(),
    {
        JsonArray(self.0.push(value))
    }
}

/// Pushing a value onto an empty array gives the array of that value alone.
pub proof fn lemma_first_item<V: IntoByteIterator>(
    before: JsonArray<NilItem>,
    after: JsonArray<Item<V, NilItem>>,
    value: V,
)
    requires
        after.elements().value() == value,
        after.elements().tail() == before.elements(),
    ensures
        after.valid() == value.valid(),
        after.bytes() == seq![91u8] + value.bytes() + seq![93u8],
{
}

/// Pushing a value onto an array of items puts the value first, then a
/// comma, then the items that were there.
pub proof fn lemma_item_goes_first<V: IntoByteIterator, T: IntoByteIterator, U>(
    before: JsonArray<Item<T, U>>,
    after: JsonArray<Item<V, Item<T, U>>>,
    value: V,
) where Item<T, U>: IntoByteIterator
    requires
        after.elements().value() == value,
        after.elements().tail() == before.elements(),
    ensures
        after.valid() == (value.valid() && before.valid()),
        after.bytes() == seq![91u8] + value.bytes() + seq![44u8] + before.elements().bytes()
            + seq![93u8],
{
    assert(after.bytes() =~= seq![91u8] + value.bytes() + seq![44u8] + before.elements().bytes()
        + seq![93u8]);
}

} // verus!

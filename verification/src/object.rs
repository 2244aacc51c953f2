//! JSON objects: built property by property, or from a source of key and
//! value pairs.
use super::{Colon, Comma, CurlyBraces, Quotes};
use crate::delimited::{delim, Delimited};
use crate::iterator_iterator::{join_bytes, IteratorIterator};
use crate::stream::{item_bytes, IntoByteIterator, ItemSource};
use crate::string::StrBytes;
use crate::wrap::{wrap, Wrapped};
use vstd::prelude::*;
use vstd::string::StringSliceAdditionalSpecFns;

verus! {

/// An object member: the key between quotes, a colon, then the value.
pub open spec fn member_bytes(key: Seq<u8>, value: Seq<u8>) -> Seq<u8> {
    seq![34u8] + key + seq![34u8] + seq![58u8] + value
}

/// The end of a chain of properties.
pub struct NilProp;

/// A property in front of the properties pushed before it.
pub struct Property<V, T> {
    name: &'static str,
    value: V,
    tail: T,
}

impl<V, T> Property<V, T> {
    /// The property's name.
    pub closed spec fn name(&self) -> &'static str {
        self.name
    }

    /// The property's value.
    pub closed spec fn value(&self) -> V {
        self.value
    }

    /// The properties pushed before this one.
    pub closed spec fn tail(&self) -> T {
        self.tail
    }
}

/// A chain of properties that another property can be pushed onto.
pub trait Prop: Sized {
    /// Puts the property `name` with `value` in front of the chain.
    fn push<V: IntoByteIterator>(self, name: &'static str, value: V) -> (r: Property<V, Self>)
        ensures
            r.name() == name,
            r.value() == value,
            r.tail() == self,
    {
        Property { name, value, tail: self }
    }
}

impl Prop for NilProp {}

impl<V: IntoByteIterator, T> Prop for Property<V, T> {}

/// A single property streams its member.
impl<V: IntoByteIterator> IntoByteIterator for Property<V, NilProp> {
    type IntoIter = Delimited<Wrapped<Quotes, StrBytes<'static>>, Colon, V::IntoIter>;

    open spec fn valid(&self) -> bool {
        self.value().valid()
    }

    open spec fn bytes(&self) -> Seq<u8> {
        member_bytes(self.name().spec_bytes(), self.value().bytes())
    }

    open spec fn start_polls(&self) -> nat {
        0
    }

    fn into_iter(self) -> (r: Self::IntoIter) {
        delim(wrap(Quotes, StrBytes::new(self.name)), Colon, self.value)
    }
}

/// A property in front of others streams its member, a comma, then the
/// others.
impl<V: IntoByteIterator, T: IntoByteIterator, U> IntoByteIterator for Property<
    V,
    Property<T, U>,
> where Property<T, U>: IntoByteIterator {
    type IntoIter = Delimited<
        Delimited<Wrapped<Quotes, StrBytes<'static>>, Colon, V::IntoIter>,
        Comma,
        <Property<T, U> as IntoByteIterator>::IntoIter,
    >;

    open spec fn valid(&self) -> bool {
        self.value().valid() && self.tail().valid()
    }

    open spec fn bytes(&self) -> Seq<u8> {
        member_bytes(self.name().spec_bytes(), self.value().bytes()) + seq![44u8]
            + self.tail().bytes()
    }

    open spec fn start_polls(&self) -> nat {
        0
    }

    fn into_iter(self) -> (r: Self::IntoIter) {
        delim(
            delim(wrap(Quotes, StrBytes::new(self.name)), Colon, self.value),
            Comma,
            self.tail,
        )
    }
}

/// A key and a value stream as an object member.
impl<K: IntoByteIterator, V: IntoByteIterator> IntoByteIterator for (K, V) {
    type IntoIter = Delimited<Wrapped<Quotes, K::IntoIter>, Colon, V::IntoIter>;

    open spec fn valid(&self) -> bool {
        self.0.valid() && self.1.valid()
    }

    open spec fn bytes(&self) -> Seq<u8> {
        member_bytes(self.0.bytes(), self.1.bytes())
    }

    open spec fn start_polls(&self) -> nat {
        0
    }

    fn into_iter(self) -> (r: Self::IntoIter) {
        let (key, value) = self;
        delim(wrap(Quotes, key), Colon, value)
    }
}

/// A JSON object around its members.
pub struct JsonObject<P>(P);

impl<P> JsonObject<P> {
    /// What stands between the braces.
    pub closed spec fn members(&self) -> P {
        self.0
    }
}

/// An object streams `{`, its members, then `}`.
impl<P: IntoByteIterator> IntoByteIterator for JsonObject<P> {
    type IntoIter = Wrapped<CurlyBraces, P::IntoIter>;

    open spec fn valid(&self) -> bool {
        self.members().valid()
    }

    open spec fn bytes(&self) -> Seq<u8> {
        seq![123u8] + self.members().bytes() + seq![125u8]
    }

    open spec fn start_polls(&self) -> nat {
        0
    }

    fn into_iter(self) -> (r: Self::IntoIter) {
        wrap(CurlyBraces, self.0)
    }
}

/// An object of the key and value pairs of `it`, separated by commas.
pub fn dynamic_object<T, K, V>(it: T) -> (r: JsonObject<IteratorIterator<T, Comma>>) where
    K: IntoByteIterator,
    V: IntoByteIterator,
    T: ItemSource<Item = (K, V)>,

    requires
        it.source_inv(),
        forall|i: int| 0 <= i < it.items().len() ==> #[trigger] it.items()[i].valid(),
    ensures
        r.valid(),
        r.bytes() == seq![123u8] + join_bytes(item_bytes(it), 44u8) + seq![125u8],
        forall|i: int|
            0 <= i < it.items().len() ==> #[trigger] item_bytes(it)[i] == member_bytes(
                it.items()[i].0.bytes(),
                it.items()[i].1.bytes(),
            ),
{
    JsonObject(IteratorIterator::new(Comma, it))
}

/// An object with no properties yet.
pub fn object() -> (r: JsonObject<NilProp>)
    ensures
        r.members() == NilProp,
{
    JsonObject(NilProp)
}

impl<P: Prop> JsonObject<P> {
    /// Puts the property `name` with `value` in front of the object's
    /// properties: the property pushed last is streamed first.
    pub fn prop<V: IntoByteIterator>(self, name: &'static str, value: V) -> (r: JsonObject<
        Property<V, P>,
    >)
        ensures
            r.members().name() == name,
            r.members().value() == value,
            r.members().tail() == self.members(),
    {
        JsonObject(self.0.push(name, value))
    }
}

/// Pushing a property onto an object without properties gives the object of
/// that property alone.
pub proof fn lemma_first_prop<V: IntoByteIterator>(
    before: JsonObject<NilProp>,
    after: JsonObject<Property<V, NilProp>>,
    name: &'static str,
    value: V,
)
    requires
        after.members().name() == name,
        after.members().value() == value,
        after.members().tail() == before.members(),
    ensures
        after.valid() == value.valid(),
        after.bytes() == seq![123u8] + member_bytes(name.spec_bytes(), value.bytes()) + seq![125u8],
{
}

/// Pushing a property onto an object with properties puts the new member
/// first, then a comma, then the members that were there.
pub proof fn lemma_prop_goes_first<V: IntoByteIterator, T: IntoByteIterator, U>(
    before: JsonObject<Property<T, U>>,
    after: JsonObject<Property<V, Property<T, U>>>,
    name: &'static str,
    value: V,
) where Property<T, U>: IntoByteIterator
    requires
        after.members().name() == name,
        after.members().value() == value,
        after.members().tail() == before.members(),
    ensures
        after.valid() == (value.valid() && before.valid()),
        after.bytes() == seq![123u8] + member_bytes(name.spec_bytes(), value.bytes()) + seq![44u8]
            + before.members().bytes() + seq![125u8],
{
    assert(after.bytes() =~= seq![123u8] + member_bytes(name.spec_bytes(), value.bytes())
        + seq![44u8] + before.members().bytes() + seq![125u8]);
}

} // verus!

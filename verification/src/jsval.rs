//! A plain record of the runtime's dynamically typed values.
//!
//! A [`JSVal`] holds what the binding reads from (or hands to) the runtime:
//! the type tag, the payload of a primitive, the characters of a string in the
//! runtime's own storage width, and for an object its identity together with
//! the elements and properties that were read from it.  Each element or
//! property is a [`Slot`]: reading it either gave a value or raised an
//! exception.

use vstd::prelude::*;

verus! {

/// An IEEE-754 double-precision number, held as its 64-bit pattern.
#[derive(Clone, Copy, Debug, PartialEq, Eq, Structural)]
pub struct Double {
    pub bits: u64,
}

/// The characters of a runtime string, in the width the runtime stores them.
#[derive(Debug, PartialEq, Eq)]
pub enum JSString {
    /// One byte per character; each byte is the character's code point.
    Latin1(Vec<u8>),
    /// UTF-16 code units, not necessarily well formed.
    TwoByte(Vec<u16>),
}

/// The class of a runtime object, as far as the binding tells classes apart.
#[derive(Clone, Copy, Debug, PartialEq, Eq, Structural)]
pub enum ObjectClass {
    /// An ordinary object.
    Plain,
    /// An array.
    Array,
    /// A wrapper around a native closure; the payload is the content of the
    /// object's private slot.
    Callable(u64),
}

/// The outcome of reading one element or property.
#[derive(Debug, PartialEq, Eq)]
pub enum Slot {
    /// The read succeeded with this value.
    Holds(JSVal),
    /// The read failed, and the runtime raised this value.
    Throws(JSVal),
}

/// A named property of an object.
#[derive(Debug, PartialEq, Eq)]
pub struct Property {
    pub name: String,
    pub slot: Slot,
}

/// A runtime object: its identity and what was read from it.
#[derive(Debug, PartialEq, Eq)]
pub struct JSObject {
    /// The identity of an object that exists in the runtime; `None` for an
    /// object that is yet to be created there.
    pub handle: Option<u64>,
    pub class: ObjectClass,
    /// The indexed elements, from index 0.
    pub elements: Vec<Slot>,
    /// The named properties, in the order in which they were defined.
    pub properties: Vec<Property>,
}

/// A value of the runtime.
#[derive(Debug, PartialEq, Eq)]
pub enum JSVal {
    Undefined,
    Null,
    Boolean(bool),
    Int32(i32),
    Double(Double),
    String(JSString),
    Object(JSObject),
    /// A symbol: a tag that the binding does not convert.
    Symbol,
    /// A big integer: a tag that the binding does not convert.
    BigInt,
}

/// Mathematical model of a [`JSString`].
pub enum SpecString {
    Latin1(Seq<u8>),
    TwoByte(Seq<u16>),
}

/// Mathematical model of a [`Slot`].
pub enum SpecSlot {
    Holds(SpecValue),
    Throws(SpecValue),
}

/// Mathematical model of a [`Property`].
pub struct SpecProperty {
    pub name: Seq<char>,
    pub slot: SpecSlot,
}

/// Mathematical model of a [`JSObject`].
pub struct SpecObject {
    pub handle: Option<u64>,
    pub class: ObjectClass,
    pub elements: Seq<SpecSlot>,
    pub properties: Seq<SpecProperty>,
}

/// Mathematical model of a [`JSVal`].
pub enum SpecValue {
    Undefined,
    Null,
    Boolean(bool),
    Int32(i32),
    Double(u64),
    String(SpecString),
    Object(SpecObject),
    Symbol,
    BigInt,
}

impl View for JSString {
    type V = SpecString;

    open spec fn view(&self) -> SpecString {
        match self {
            JSString::Latin1(bytes) => SpecString::Latin1(bytes@),
            JSString::TwoByte(units) => SpecString::TwoByte(units@),
        }
    }
}

impl View for Slot {
    type V = SpecSlot;

    open spec fn view(&self) -> SpecSlot
        decreases self,
    {
        match self {
            Slot::Holds(v) => SpecSlot::Holds(v.view()),
            Slot::Throws(v) => SpecSlot::Throws(v.view()),
        }
    }
}

impl View for Property {
    type V = SpecProperty;

    open spec fn view(&self) -> SpecProperty
        decreases self,
    {
        SpecProperty { name: self.name@, slot: self.slot.view() }
    }
}

impl View for JSObject {
    type V = SpecObject;

    open spec fn view(&self) -> SpecObject
        decreases self,
    {
        SpecObject {
            handle: self.handle,
            class: self.class,
            elements: Seq::new(
                self.elements.len() as nat,
                |i: int|
                    if 0 <= i < self.elements.len() {
                        self.elements[i].view()
                    } else {
                        SpecSlot::Holds(SpecValue::Undefined)
                    },
            ),
            properties: Seq::new(
                self.properties.len() as nat,
                |i: int|
                    if 0 <= i < self.properties.len() {
                        self.properties[i].view()
                    } else {
                        SpecProperty { name: Seq::empty(), slot: SpecSlot::Holds(SpecValue::Undefined) }
                    },
            ),
        }
    }
}

impl View for JSVal {
    type V = SpecValue;

    open spec fn view(&self) -> SpecValue
        decreases self,
    {
        match self {
            JSVal::Undefined => SpecValue::Undefined,
            JSVal::Null => SpecValue::Null,
            JSVal::Boolean(b) => SpecValue::Boolean(*b),
            JSVal::Int32(i) => SpecValue::Int32(*i),
            JSVal::Double(d) => SpecValue::Double(d.bits),
            JSVal::String(s) => SpecValue::String(s@),
            JSVal::Object(o) => SpecValue::Object(o.view()),
            JSVal::Symbol => SpecValue::Symbol,
            JSVal::BigInt => SpecValue::BigInt,
        }
    }
}

impl DeepView for JSString {
    type V = SpecString;

    open spec fn deep_view(&self) -> SpecString {
        self@
    }
}

impl DeepView for JSObject {
    type V = SpecObject;

    open spec fn deep_view(&self) -> SpecObject {
        self@
    }
}

impl DeepView for JSVal {
    type V = SpecValue;

    open spec fn deep_view(&self) -> SpecValue {
        self@
    }
}

/// The model of an object is the object's identity and class with the models
/// of its elements and properties, index by index.
pub proof fn lemma_object_view(o: JSObject)
    ensures
        o@.handle == o.handle,
        o@.class == o.class,
        o@.elements.len() == o.elements.len(),
        o@.properties.len() == o.properties.len(),
        forall|i: int| 0 <= i < o.elements.len() ==> #[trigger] o@.elements[i] == o.elements[i]@,
        forall|i: int|
            0 <= i < o.properties.len() ==> #[trigger] o@.properties[i] == o.properties[i]@,
{
    reveal_with_fuel(<JSObject as View>::view, 3);
}

/// The model of a value is the model of its payload under the same tag.
pub proof fn lemma_value_view(v: JSVal)
    ensures
        v@ == match v {
            JSVal::Undefined => SpecValue::Undefined,
            JSVal::Null => SpecValue::Null,
            JSVal::Boolean(b) => SpecValue::Boolean(b),
            JSVal::Int32(i) => SpecValue::Int32(i),
            JSVal::Double(d) => SpecValue::Double(d.bits),
            JSVal::String(s) => SpecValue::String(s@),
            JSVal::Object(o) => SpecValue::Object(o@),
            JSVal::Symbol => SpecValue::Symbol,
            JSVal::BigInt => SpecValue::BigInt,
        },
{
}

impl JSString {
    /// A copy with the same characters in the same width.
    pub fn duplicate(&self) -> (r: JSString)
        ensures
            r@ == self@,
    {
        match self {
            JSString::Latin1(bytes) => JSString::Latin1(bytes.clone()),
            JSString::TwoByte(units) => JSString::TwoByte(units.clone()),
        }
    }
}

impl Slot {
    /// A deep copy.
    pub fn duplicate(&self) -> (r: Slot)
        ensures
            r@ == self@,
        decreases self,
    {
        match self {
            Slot::Holds(v) => Slot::Holds(v.duplicate()),
            Slot::Throws(v) => Slot::Throws(v.duplicate()),
        }
    }
}

impl Property {
    /// A deep copy.
    pub fn duplicate(&self) -> (r: Property)
        ensures
            r@ == self@,
        decreases self,
    {
        Property { name: self.name.clone(), slot: self.slot.duplicate() }
    }
}

impl JSObject {
    /// A deep copy.
    pub fn duplicate(&self) -> (r: JSObject)
        ensures
            r@ == self@,
        decreases self,
    {
        let mut elements: Vec<Slot> = Vec::new();
        let mut i: usize = 0;
        while i < self.elements.len()
            invariant
                i <= self.elements.len(),
                elements.len() == i,
                forall|k: int| 0 <= k < i ==> elements[k]@ == self.elements[k]@,
            decreases self.elements.len() - i,
        {
            elements.push(self.elements[i].duplicate());
            i += 1;
        }
        let mut properties: Vec<Property> = Vec::new();
        let mut j: usize = 0;
        while j < self.properties.len()
            invariant
                j <= self.properties.len(),
                properties.len() == j,
                forall|k: int| 0 <= k < j ==> properties[k]@ == self.properties[k]@,
                elements.len() == self.elements.len(),
                forall|k: int| 0 <= k < elements.len() ==> elements[k]@ == self.elements[k]@,
            decreases self.properties.len() - j,
        {
            properties.push(self.properties[j].duplicate());
            j += 1;
        }
        let r = JSObject { handle: self.handle, class: self.class, elements, properties };
        proof {
            lemma_object_view(r);
            lemma_object_view(*self);
            assert(r@.elements =~= self@.elements);
            assert(r@.properties =~= self@.properties);
        }
        r
    }
}

impl JSVal {
    /// A deep copy.
    pub fn duplicate(&self) -> (r: JSVal)
        ensures
            r@ == self@,
        decreases self,
    {
        match self {
            JSVal::Undefined => JSVal::Undefined,
            JSVal::Null => JSVal::Null,
            JSVal::Boolean(b) => JSVal::Boolean(*b),
            JSVal::Int32(i) => JSVal::Int32(*i),
            JSVal::Double(d) => JSVal::Double(*d),
            JSVal::String(s) => JSVal::String(s.duplicate()),
            JSVal::Object(o) => JSVal::Object(o.duplicate()),
            JSVal::Symbol => JSVal::Symbol,
            JSVal::BigInt => JSVal::BigInt,
        }
    }
}

impl Clone for JSString {
    /// A deep copy.
    fn clone(&self) -> (r: JSString)
        ensures
            r@ == self@,
    {
        self.duplicate()
    }
}

impl Clone for Slot {
    /// A deep copy.
    fn clone(&self) -> (r: Slot)
        ensures
            r@ == self@,
    {
        self.duplicate()
    }
}

impl Clone for Property {
    /// A deep copy.
    fn clone(&self) -> (r: Property)
        ensures
            r@ == self@,
    {
        self.duplicate()
    }
}

impl Clone for JSObject {
    /// A deep copy.
    fn clone(&self) -> (r: JSObject)
        ensures
            r@ == self@,
    {
        self.duplicate()
    }
}

impl Clone for JSVal {
    /// A deep copy.
    fn clone(&self) -> (r: JSVal)
        ensures
            r@ == self@,
    {
        self.duplicate()
    }
}

} // verus!


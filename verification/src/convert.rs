//! The conversion protocol between values of the runtime and native values.
//!
//! [`FromJSValue`] reads a native value out of a [`JSVal`]; [`ToJSValue`]
//! builds the [`JSVal`] that stands for a native value.  What each conversion
//! gives is stated over models: the model of a native value is its
//! `deep_view`, the model of a [`JSVal`] its view.

use crate::exception::Exception;
use crate::jsval::{
    Double, JSObject, JSString, JSVal, ObjectClass, Slot, SpecObject, SpecSlot, SpecString,
    SpecValue,
};
use crate::number::{lemma_integer_has_double, lemma_of_integer, lemma_represents_unique};
use crate::utf16;
use crate::utils::{
    define_property, empty_object, lemma_with_property, new_object, property_read,
    spec_has_property, with_property,
};
use vstd::prelude::*;

verus! {

/// The model of what a conversion from the runtime gives: the model of a
/// native value, or the value that the runtime raised.
pub type Decoded<M> = core::result::Result<M, SpecValue>;

/// Whether the outcome `r` of a conversion is the one that `expected` names.
pub open spec fn outcome_is<T: DeepView>(
    r: core::result::Result<T, Exception>,
    expected: Decoded<T::V>,
) -> bool {
    match r {
        Ok(x) => expected == Ok::<T::V, SpecValue>(x.deep_view()),
        Err(e) => expected == Err::<T::V, SpecValue>(e@),
    }
}

/// A native type that can be read out of a value of the runtime.
pub trait FromJSValue: Sized + DeepView {
    /// The values that this conversion is for.  Handing it any other value is
    /// an error of the caller.
    spec fn accepts(v: SpecValue) -> bool;

    /// What the conversion gives for a value that it accepts.
    spec fn decoded(v: SpecValue) -> Decoded<Self::V>;

    /// Converts `v`, or gives `None` where `v` is not a value that this
    /// conversion is for.
    fn try_from_js_value(v: &JSVal) -> (r: Option<core::result::Result<Self, Exception>>)
        ensures
            r is Some <==> Self::accepts(v@),
            r matches Some(outcome) ==> outcome_is(outcome, Self::decoded(v@)),
    ;

    /// Converts `v`: the native value, or the exception that reading it
    /// raised.
    fn from_js_value(v: &JSVal) -> (r: core::result::Result<Self, Exception>)
        requires
            Self::accepts(v@),
        ensures
            outcome_is(r, Self::decoded(v@)),
    {
        match Self::try_from_js_value(v) {
            Some(outcome) => outcome,
            None => vstd::pervasive::unreached(),
        }
    }
}

/// A native type for which a value of the runtime can be built.
pub trait ToJSValue: DeepView {
    /// The value that stands for a native value.
    spec fn encoded(m: Self::V) -> SpecValue;

    /// Builds the value of the runtime that stands for `self`.
    fn to_js_value(&self) -> (r: JSVal)
        ensures
            r@ == Self::encoded(self.deep_view()),
    ;
}

/// A native type that survives the way to the runtime and back: what
/// [`ToJSValue`] builds, [`FromJSValue`] accepts and reads as the same value.
pub trait RoundTrip: FromJSValue + ToJSValue {
    /// The native values that come back as they went.
    spec fn legal(m: Self::V) -> bool;

    proof fn round_trip(m: Self::V)
        requires
            Self::legal(m),
        ensures
            Self::accepts(Self::encoded(m)),
            Self::decoded(Self::encoded(m)) == Ok::<Self::V, SpecValue>(m),
    ;
}

/// Builds the value of the runtime that stands for `x` and reads it back:
/// for a legal `x` this succeeds and gives a value with the model of `x`.
pub fn there_and_back<T: RoundTrip>(x: &T) -> (r: core::result::Result<T, Exception>)
    requires
        T::legal(x.deep_view()),
    ensures
        r matches Ok(y) && y.deep_view() == x.deep_view(),
{
    proof {
        T::round_trip(x.deep_view());
    }
    T::from_js_value(&x.to_js_value())
}

impl FromJSValue for () {
    open spec fn accepts(v: SpecValue) -> bool {
        v is Undefined
    }

    open spec fn decoded(v: SpecValue) -> Decoded<()> {
        Ok(())
    }

    fn try_from_js_value(v: &JSVal) -> (r: Option<core::result::Result<(), Exception>>) {
        match v {
            JSVal::Undefined => Some(Ok(())),
            _ => None,
        }
    }
}

impl ToJSValue for () {
    open spec fn encoded(m: ()) -> SpecValue {
        SpecValue::Undefined
    }

    fn to_js_value(&self) -> (r: JSVal) {
        JSVal::Undefined
    }
}

impl RoundTrip for () {
    open spec fn legal(m: ()) -> bool {
        true
    }

    proof fn round_trip(m: ()) {
    }
}

impl FromJSValue for bool {
    open spec fn accepts(v: SpecValue) -> bool {
        v is Boolean
    }

    open spec fn decoded(v: SpecValue) -> Decoded<bool> {
        Ok(v->Boolean_0)
    }

    fn try_from_js_value(v: &JSVal) -> (r: Option<core::result::Result<bool, Exception>>) {
        match v {
            JSVal::Boolean(b) => Some(Ok(*b)),
            _ => None,
        }
    }
}

impl ToJSValue for bool {
    open spec fn encoded(m: bool) -> SpecValue {
        SpecValue::Boolean(m)
    }

    fn to_js_value(&self) -> (r: JSVal) {
        JSVal::Boolean(*self)
    }
}

impl RoundTrip for bool {
    open spec fn legal(m: bool) -> bool {
        true
    }

    proof fn round_trip(m: bool) {
    }
}

impl FromJSValue for i32 {
    /// A number that is a 32-bit integer, in either storage.
    open spec fn accepts(v: SpecValue) -> bool {
        match v {
            SpecValue::Int32(_) => true,
            SpecValue::Double(bits) => (Double { bits }).is_i32(),
            _ => false,
        }
    }

    open spec fn decoded(v: SpecValue) -> Decoded<i32> {
        match v {
            SpecValue::Int32(i) => Ok(i),
            SpecValue::Double(bits) => Ok((Double { bits }).integer() as i32),
            _ => Ok(0),
        }
    }

    fn try_from_js_value(v: &JSVal) -> (r: Option<core::result::Result<i32, Exception>>) {
        match v {
            JSVal::Int32(i) => Some(Ok(*i)),
            JSVal::Double(d) => match d.to_i32() {
                Some(i) => Some(Ok(i)),
                None => None,
            },
            _ => None,
        }
    }
}

impl ToJSValue for i32 {
    open spec fn encoded(m: i32) -> SpecValue {
        SpecValue::Int32(m)
    }

    fn to_js_value(&self) -> (r: JSVal) {
        JSVal::Int32(*self)
    }
}

impl RoundTrip for i32 {
    open spec fn legal(m: i32) -> bool {
        true
    }

    proof fn round_trip(m: i32) {
    }
}

/// The unsigned integer with the bits of `i`.
pub open spec fn reinterpret_unsigned(i: i32) -> u32 {
    if i >= 0 {
        i as u32
    } else {
        (i + 0x1_0000_0000) as u32
    }
}

/// The largest unsigned integer that the runtime stores as a 32-bit integer.
pub const INT32_MAX: u32 = 0x7FFF_FFFF;

impl FromJSValue for u32 {
    /// A number in integer storage, or a double that is an unsigned 32-bit
    /// integer.
    open spec fn accepts(v: SpecValue) -> bool {
        match v {
            SpecValue::Int32(_) => true,
            SpecValue::Double(bits) => (Double { bits }).is_u32(),
            _ => false,
        }
    }

    /// A number in integer storage is read by its bits, so that a negative
    /// one wraps.
    open spec fn decoded(v: SpecValue) -> Decoded<u32> {
        match v {
            SpecValue::Int32(i) => Ok(reinterpret_unsigned(i)),
            SpecValue::Double(bits) => Ok((Double { bits }).integer() as u32),
            _ => Ok(0),
        }
    }

    fn try_from_js_value(v: &JSVal) -> (r: Option<core::result::Result<u32, Exception>>) {
        match v {
            JSVal::Int32(i) => {
                if *i >= 0 {
                    Some(Ok(*i as u32))
                } else {
                    Some(Ok((*i as i64 + 0x1_0000_0000) as u32))
                }
            },
            JSVal::Double(d) => match d.to_u32() {
                Some(u) => Some(Ok(u)),
                None => None,
            },
            _ => None,
        }
    }
}

impl ToJSValue for u32 {
    /// Integer storage up to `INT32_MAX`; above it a double, never a
    /// wrapped integer.
    open spec fn encoded(m: u32) -> SpecValue {
        if m > INT32_MAX {
            SpecValue::Double(Double::of_integer(m as int).bits)
        } else {
            SpecValue::Int32(m as i32)
        }
    }

    fn to_js_value(&self) -> (r: JSVal) {
        if *self > INT32_MAX {
            JSVal::Double(Double::from_u32(*self))
        } else {
            JSVal::Int32(*self as i32)
        }
    }
}

impl RoundTrip for u32 {
    open spec fn legal(m: u32) -> bool {
        true
    }

    proof fn round_trip(m: u32) {
        if m > INT32_MAX {
            lemma_integer_has_double(m as int);
            let d = Double::of_integer(m as int);
            assert(d.is_u32());
            lemma_represents_unique(d, m as int, d.integer());
        }
    }
}

/// An unsigned integer takes integer storage exactly up to `INT32_MAX` and
/// is a double above it; read back, it is the same unsigned integer either
/// way.
pub proof fn lemma_unsigned_boundary(u: u32)
    ensures
        u <= INT32_MAX ==> u32::encoded(u) == SpecValue::Int32(u as i32),
        u > INT32_MAX ==> u32::encoded(u) is Double,
        u32::accepts(u32::encoded(u)),
        u32::decoded(u32::encoded(u)) == Ok::<u32, SpecValue>(u),
{
    u32::round_trip(u);
}

impl DeepView for Double {
    type V = Double;

    open spec fn deep_view(&self) -> Double {
        *self
    }
}

impl FromJSValue for Double {
    /// Any number.
    open spec fn accepts(v: SpecValue) -> bool {
        v is Int32 || v is Double
    }

    open spec fn decoded(v: SpecValue) -> Decoded<Double> {
        match v {
            SpecValue::Int32(i) => Ok(Double::of_integer(i as int)),
            SpecValue::Double(bits) => Ok(Double { bits }),
            _ => Ok(Double { bits: 0 }),
        }
    }

    fn try_from_js_value(v: &JSVal) -> (r: Option<core::result::Result<Double, Exception>>) {
        match v {
            JSVal::Int32(i) => Some(Ok(Double::from_i32(*i))),
            JSVal::Double(d) => Some(Ok(*d)),
            _ => None,
        }
    }
}

impl ToJSValue for Double {
    /// A number takes integer storage where it is a 32-bit integer: the
    /// runtime keeps no double that equals one, but for negative zero.
    open spec fn encoded(m: Double) -> SpecValue {
        if m.is_i32() {
            SpecValue::Int32(m.integer() as i32)
        } else {
            SpecValue::Double(m.bits)
        }
    }

    fn to_js_value(&self) -> (r: JSVal) {
        match self.to_i32() {
            Some(i) => JSVal::Int32(i),
            None => JSVal::Double(*self),
        }
    }
}

impl RoundTrip for Double {
    open spec fn legal(m: Double) -> bool {
        true
    }

    proof fn round_trip(m: Double) {
        if m.is_i32() {
            let i = choose|i: i32| m.represents(i as int);
            lemma_represents_unique(m, i as int, m.integer());
            lemma_of_integer(m, i as int);
        }
    }
}

impl FromJSValue for JSString {
    /// Any string; it is handed on as the runtime stores it.
    open spec fn accepts(v: SpecValue) -> bool {
        v is String
    }

    open spec fn decoded(v: SpecValue) -> Decoded<SpecString> {
        Ok(v->String_0)
    }

    fn try_from_js_value(v: &JSVal) -> (r: Option<core::result::Result<JSString, Exception>>) {
        match v {
            JSVal::String(s) => Some(Ok(s.duplicate())),
            _ => None,
        }
    }
}

impl ToJSValue for JSString {
    open spec fn encoded(m: SpecString) -> SpecValue {
        SpecValue::String(m)
    }

    fn to_js_value(&self) -> (r: JSVal) {
        JSVal::String(self.duplicate())
    }
}

impl RoundTrip for JSString {
    open spec fn legal(m: SpecString) -> bool {
        true
    }

    proof fn round_trip(m: SpecString) {
    }
}

impl FromJSValue for JSObject {
    /// Any object; it is handed on with all that was read from it.
    open spec fn accepts(v: SpecValue) -> bool {
        v is Object
    }

    open spec fn decoded(v: SpecValue) -> Decoded<SpecObject> {
        Ok(v->Object_0)
    }

    fn try_from_js_value(v: &JSVal) -> (r: Option<core::result::Result<JSObject, Exception>>) {
        match v {
            JSVal::Object(o) => Some(Ok(o.duplicate())),
            _ => None,
        }
    }
}

impl ToJSValue for JSObject {
    open spec fn encoded(m: SpecObject) -> SpecValue {
        SpecValue::Object(m)
    }

    fn to_js_value(&self) -> (r: JSVal) {
        JSVal::Object(self.duplicate())
    }
}

impl RoundTrip for JSObject {
    open spec fn legal(m: SpecObject) -> bool {
        true
    }

    proof fn round_trip(m: SpecObject) {
    }
}

/// The text of a runtime string: a single-byte string holds one code point
/// per byte, a two-byte string is UTF-16, in which an unpaired surrogate
/// reads as U+FFFD.
pub open spec fn string_text(s: SpecString) -> Seq<char> {
    match s {
        SpecString::Latin1(bytes) => utf16::decode_latin1_spec(bytes),
        SpecString::TwoByte(units) => utf16::decode_utf16_lossy(units),
    }
}

impl FromJSValue for String {
    open spec fn accepts(v: SpecValue) -> bool {
        v is String
    }

    open spec fn decoded(v: SpecValue) -> Decoded<Seq<char>> {
        Ok(string_text(v->String_0))
    }

    fn try_from_js_value(v: &JSVal) -> (r: Option<core::result::Result<String, Exception>>) {
        match v {
            JSVal::String(JSString::Latin1(bytes)) => Some(Ok(utf16::decode_latin1(bytes))),
            JSVal::String(JSString::TwoByte(units)) => Some(Ok(utf16::decode_lossy(units))),
            _ => None,
        }
    }
}

impl ToJSValue for str {
    /// A new two-byte string with the UTF-16 encoding of the text.
    open spec fn encoded(m: Seq<char>) -> SpecValue {
        SpecValue::String(SpecString::TwoByte(utf16::encode_utf16(m)))
    }

    fn to_js_value(&self) -> (r: JSVal) {
        JSVal::String(JSString::TwoByte(utf16::encode(self)))
    }
}

impl ToJSValue for String {
    /// As for `str`.
    open spec fn encoded(m: Seq<char>) -> SpecValue {
        SpecValue::String(SpecString::TwoByte(utf16::encode_utf16(m)))
    }

    fn to_js_value(&self) -> (r: JSVal) {
        JSVal::String(JSString::TwoByte(utf16::encode(self.as_str())))
    }
}

impl RoundTrip for String {
    open spec fn legal(m: Seq<char>) -> bool {
        true
    }

    proof fn round_trip(m: Seq<char>) {
        utf16::lemma_utf16_round_trip(m);
    }
}

/// Whether a sequence conversion is for these elements: each element up
/// to the first that fails is one that the element conversion is for.
pub open spec fn elements_accepted<T: FromJSValue>(slots: Seq<SpecSlot>) -> bool
    decreases slots.len(),
{
    if slots.len() == 0 {
        true
    } else {
        match slots[0] {
            SpecSlot::Throws(_) => true,
            SpecSlot::Holds(x) => T::accepts(x) && (T::decoded(x) is Err || elements_accepted::<T>(
                slots.skip(1),
            )),
        }
    }
}

/// What a sequence conversion gives for these elements: the converted
/// elements in order, or the exception of the first element that fails,
/// whether in being read or in being converted.
pub open spec fn elements_decoded<T: FromJSValue>(slots: Seq<SpecSlot>) -> Decoded<Seq<T::V>>
    decreases slots.len(),
{
    if slots.len() == 0 {
        Ok(Seq::empty())
    } else {
        match slots[0] {
            SpecSlot::Throws(e) => Err(e),
            SpecSlot::Holds(x) => match T::decoded(x) {
                Err(e) => Err(e),
                Ok(m) => prepend(m, elements_decoded::<T>(slots.skip(1))),
            },
        }
    }
}

/// `first` put before the items of `rest`, where `rest` is no failure.
pub open spec fn prepend<M>(first: M, rest: Decoded<Seq<M>>) -> Decoded<Seq<M>> {
    match rest {
        Ok(items) => Ok(seq![first] + items),
        Err(e) => Err(e),
    }
}

/// The items of `done` put before the items of `rest`, where `rest` is no
/// failure.
pub open spec fn after<M>(done: Seq<M>, rest: Decoded<Seq<M>>) -> Decoded<Seq<M>> {
    match rest {
        Ok(items) => Ok(done + items),
        Err(e) => Err(e),
    }
}

impl<T: FromJSValue> FromJSValue for Vec<T> {
    /// An object whose elements the element conversion is for.
    open spec fn accepts(v: SpecValue) -> bool {
        v matches SpecValue::Object(o) && elements_accepted::<T>(o.elements)
    }

    open spec fn decoded(v: SpecValue) -> Decoded<Seq<T::V>> {
        elements_decoded::<T>(v->Object_0.elements)
    }

    fn try_from_js_value(v: &JSVal) -> (r: Option<core::result::Result<Vec<T>, Exception>>) {
        match v {
            JSVal::Object(o) => {
                proof {
                    crate::jsval::lemma_object_view(*o);
                }
                let ghost all = o@.elements;
                let mut items: Vec<T> = Vec::new();
                let mut i: usize = 0;
                assert(all.skip(0) =~= all);
                assert(items.deep_view() =~= Seq::<T::V>::empty());
                assert(Seq::<T::V>::empty() + elements_decoded::<T>(all)->Ok_0
                    =~= elements_decoded::<T>(all)->Ok_0);
                while i < o.elements.len()
                    invariant
                        i <= o.elements.len(),
                        all.len() == o.elements.len(),
                        v@ is Object,
                        v@->Object_0.elements == all,
                        forall|k: int| 0 <= k < all.len() ==> #[trigger] all[k] == o.elements[k]@,
                        elements_accepted::<T>(all) == elements_accepted::<T>(all.skip(i as int)),
                        elements_decoded::<T>(all) == after(
                            items.deep_view(),
                            elements_decoded::<T>(all.skip(i as int)),
                        ),
                    decreases o.elements.len() - i,
                {
                    let ghost rest = all.skip(i as int);
                    let ghost done = items.deep_view();
                    assert(rest[0] == o.elements[i as int]@);
                    assert(rest.skip(1) =~= all.skip(i + 1));
                    match &o.elements[i] {
                        Slot::Throws(e) => {
                            return Some(Err(Exception { value: e.duplicate() }));
                        },
                        Slot::Holds(x) => match T::try_from_js_value(x) {
                            None => {
                                return None;
                            },
                            Some(Err(e)) => {
                                return Some(Err(e));
                            },
                            Some(Ok(item)) => {
                                items.push(item);
                                proof {
                                    let m = item.deep_view();
                                    assert(items.deep_view() =~= done + seq![m]);
                                    let tail = elements_decoded::<T>(rest.skip(1));
                                    if let Ok(ms) = tail {
                                        assert(done + (seq![m] + ms) =~= (done + seq![m]) + ms);
                                    }
                                }
                            },
                        },
                    }
                    i += 1;
                }
                proof {
                    assert(items.deep_view() + Seq::<T::V>::empty() =~= items.deep_view());
                }
                Some(Ok(items))
            },
            _ => None,
        }
    }
}

/// The array that holds the encodings of `items`, in order.
pub open spec fn array_of<T: ToJSValue>(items: Seq<T::V>) -> SpecValue {
    SpecValue::Object(
        SpecObject {
            handle: None,
            class: ObjectClass::Array,
            elements: Seq::new(items.len(), |i: int| SpecSlot::Holds(T::encoded(items[i]))),
            properties: Seq::empty(),
        },
    )
}

/// Builds the array that holds the encodings of `items`, in order.
pub fn slice_to_js_value<T: ToJSValue>(items: &[T]) -> (r: JSVal)
    ensures
        r@ == array_of::<T>(items.deep_view()),
{
    let mut elements: Vec<Slot> = Vec::new();
    let mut i: usize = 0;
    while i < items.len()
        invariant
            i <= items.len(),
            elements.len() == i,
            forall|k: int|
                0 <= k < i ==> #[trigger] elements[k]@ == SpecSlot::Holds(
                    T::encoded(items[k].deep_view()),
                ),
        decreases items.len() - i,
    {
        elements.push(Slot::Holds(items[i].to_js_value()));
        i += 1;
    }
    let o = JSObject {
        handle: None,
        class: ObjectClass::Array,
        elements,
        properties: Vec::new(),
    };
    proof {
        crate::jsval::lemma_object_view(o);
        let expected = array_of::<T>(items.deep_view())->Object_0;
        assert(o@.elements =~= expected.elements);
        assert(o@.properties =~= expected.properties);
    }
    JSVal::Object(o)
}

impl<T: ToJSValue> ToJSValue for [T] {
    /// A new array with the encodings of the items.
    open spec fn encoded(m: Seq<T::V>) -> SpecValue {
        array_of::<T>(m)
    }

    fn to_js_value(&self) -> (r: JSVal) {
        slice_to_js_value(self)
    }
}

impl<T: ToJSValue> ToJSValue for Vec<T> {
    /// As for a slice.
    open spec fn encoded(m: Seq<T::V>) -> SpecValue {
        array_of::<T>(m)
    }

    fn to_js_value(&self) -> (r: JSVal) {
        slice_to_js_value(self.as_slice())
    }
}

/// The elements that hold the encodings of `items` are accepted and are read
/// as `items`.
pub proof fn lemma_elements_round_trip<T: RoundTrip>(items: Seq<T::V>)
    requires
        forall|i: int| 0 <= i < items.len() ==> T::legal(#[trigger] items[i]),
    ensures
        elements_accepted::<T>(array_of::<T>(items)->Object_0.elements),
        elements_decoded::<T>(array_of::<T>(items)->Object_0.elements) == Ok::<
            Seq<T::V>,
            SpecValue,
        >(items),
    decreases items.len(),
{
    let slots = array_of::<T>(items)->Object_0.elements;
    if items.len() == 0 {
        assert(items =~= Seq::empty());
    } else {
        let rest = items.skip(1);
        assert forall|i: int| 0 <= i < rest.len() implies T::legal(#[trigger] rest[i]) by {
            assert(rest[i] == items[i + 1]);
        }
        lemma_elements_round_trip::<T>(rest);
        T::round_trip(items[0]);
        assert(slots.skip(1) =~= array_of::<T>(rest)->Object_0.elements);
        assert(seq![items[0]] + rest =~= items);
    }
}

impl<T: RoundTrip> RoundTrip for Vec<T> {
    /// Every item is legal.
    open spec fn legal(m: Seq<T::V>) -> bool {
        forall|i: int| 0 <= i < m.len() ==> T::legal(#[trigger] m[i])
    }

    proof fn round_trip(m: Seq<T::V>) {
        lemma_elements_round_trip::<T>(m);
    }
}

/// The object on which each entry of an ordered map was defined as a
/// property, in the order of the entries: the key is the name, the encoding
/// of the value is what the property holds.
pub open spec fn object_of<V: ToJSValue>(entries: Seq<(Seq<char>, V::V)>) -> SpecObject
    decreases entries.len(),
{
    if entries.len() == 0 {
        empty_object()
    } else {
        with_property(
            object_of::<V>(entries.drop_last()),
            entries.last().0,
            SpecSlot::Holds(V::encoded(entries.last().1)),
        )
    }
}

/// Builds the object that stands for an ordered map, given as its entries in
/// the map's order with each key as text.
pub fn map_to_js_value<V: ToJSValue>(entries: &Vec<(String, V)>) -> (r: JSVal)
    ensures
        r@ == SpecValue::Object(object_of::<V>(entries.deep_view())),
{
    let ghost all = entries.deep_view();
    let mut obj = new_object();
    let mut i: usize = 0;
    assert(all.take(0) =~= Seq::empty());
    while i < entries.len()
        invariant
            i <= entries.len(),
            all == entries.deep_view(),
            obj@ == object_of::<V>(all.take(i as int)),
        decreases entries.len() - i,
    {
        let entry = &entries[i];
        assert(all.take(i + 1).drop_last() =~= all.take(i as int));
        assert(all.take(i + 1).last() == all[i as int]);
        assert(all[i as int] == entry.deep_view());
        define_property(&mut obj, entry.0.as_str(), &entry.1);
        i += 1;
    }
    assert(all.take(i as int) =~= all);
    JSVal::Object(obj)
}

/// Each key of an ordered map reads back, on the object built for the map,
/// as the encoding of its value: the keys of a map are all different.
pub proof fn lemma_map_reads_back<V: ToJSValue>(entries: Seq<(Seq<char>, V::V)>, i: int)
    requires
        0 <= i < entries.len(),
        forall|j: int, k: int|
            0 <= j < k < entries.len() ==> (#[trigger] entries[j]).0 != (#[trigger] entries[k]).0,
    ensures
        spec_has_property(object_of::<V>(entries), entries[i].0),
        property_read(object_of::<V>(entries), entries[i].0) == SpecSlot::Holds(
            V::encoded(entries[i].1),
        ),
    decreases entries.len(),
{
    let front = entries.drop_last();
    let last = entries.last();
    lemma_with_property(
        object_of::<V>(front),
        last.0,
        SpecSlot::Holds(V::encoded(last.1)),
        entries[i].0,
    );
    if i < entries.len() - 1 {
        assert(front[i] == entries[i]);
        assert(entries[i].0 != entries[entries.len() - 1].0);
        assert forall|j: int, k: int| 0 <= j < k < front.len() implies (#[trigger] front[j]).0 != (
        #[trigger] front[k]).0 by {
            assert(front[j] == entries[j] && front[k] == entries[k]);
        }
        lemma_map_reads_back::<V>(front, i);
    }
}

/// The runtime's "null".
#[derive(Clone, Copy, Debug, PartialEq, Eq, Structural)]
pub struct Null;

impl DeepView for Null {
    type V = Null;

    open spec fn deep_view(&self) -> Null {
        Null
    }
}

impl FromJSValue for Null {
    open spec fn accepts(v: SpecValue) -> bool {
        v is Null
    }

    open spec fn decoded(v: SpecValue) -> Decoded<Null> {
        Ok(Null)
    }

    fn try_from_js_value(v: &JSVal) -> (r: Option<core::result::Result<Null, Exception>>) {
        match v {
            JSVal::Null => Some(Ok(Null)),
            _ => None,
        }
    }
}

impl ToJSValue for Null {
    open spec fn encoded(m: Null) -> SpecValue {
        SpecValue::Null
    }

    fn to_js_value(&self) -> (r: JSVal) {
        JSVal::Null
    }
}

impl RoundTrip for Null {
    open spec fn legal(m: Null) -> bool {
        true
    }

    proof fn round_trip(m: Null) {
    }
}

/// A value that the runtime may give as "null": `None` stands for "null",
/// `Some` for anything else.
#[derive(Debug, PartialEq, Eq)]
pub struct NullOr<T>(pub Option<T>);

impl<T> NullOr<T> {
    /// The option that this wraps.
    pub fn into_option(self) -> (r: Option<T>)
        ensures
            r == self.0,
    {
        self.0
    }
}

impl<T: DeepView> DeepView for NullOr<T> {
    type V = Option<T::V>;

    open spec fn deep_view(&self) -> Option<T::V> {
        self.0.deep_view()
    }
}

/// `some` applied to a converted value; a failure stays as it is.
pub open spec fn decoded_some<M>(r: Decoded<M>) -> Decoded<Option<M>> {
    match r {
        Ok(m) => Ok(Some(m)),
        Err(e) => Err(e),
    }
}

impl<T: FromJSValue> FromJSValue for NullOr<T> {
    /// "null", or a value that the inner conversion is for.
    open spec fn accepts(v: SpecValue) -> bool {
        v is Null || T::accepts(v)
    }

    /// "null" is looked for first and gives `None`; any other value is
    /// converted and wrapped in `Some`.
    open spec fn decoded(v: SpecValue) -> Decoded<Option<T::V>> {
        if v is Null {
            Ok(None)
        } else {
            decoded_some(T::decoded(v))
        }
    }

    fn try_from_js_value(v: &JSVal) -> (r: Option<core::result::Result<NullOr<T>, Exception>>) {
        match v {
            JSVal::Null => Some(Ok(NullOr(None))),
            _ => match T::try_from_js_value(v) {
                Some(Ok(value)) => Some(Ok(NullOr(Some(value)))),
                Some(Err(e)) => Some(Err(e)),
                None => None,
            },
        }
    }
}

impl<T: ToJSValue> ToJSValue for NullOr<T> {
    /// `None` gives "null", `Some` the encoding of what it holds.
    open spec fn encoded(m: Option<T::V>) -> SpecValue {
        match m {
            Some(x) => T::encoded(x),
            None => SpecValue::Null,
        }
    }

    fn to_js_value(&self) -> (r: JSVal) {
        match &self.0 {
            Some(value) => value.to_js_value(),
            None => JSVal::Null,
        }
    }
}

/// A value that the runtime may give as "undefined": `None` stands for
/// "undefined", `Some` for anything else.
#[derive(Debug, PartialEq, Eq)]
pub struct UndefinedOr<T>(pub Option<T>);

impl<T> UndefinedOr<T> {
    /// The option that this wraps.
    pub fn into_option(self) -> (r: Option<T>)
        ensures
            r == self.0,
    {
        self.0
    }
}

impl<T: DeepView> DeepView for UndefinedOr<T> {
    type V = Option<T::V>;

    open spec fn deep_view(&self) -> Option<T::V> {
        self.0.deep_view()
    }
}

impl<T: FromJSValue> FromJSValue for UndefinedOr<T> {
    /// "undefined", or a value that the inner conversion is for.
    open spec fn accepts(v: SpecValue) -> bool {
        v is Undefined || T::accepts(v)
    }

    /// "undefined" is looked for first and gives `None`; any other value is
    /// converted and wrapped in `Some`.
    open spec fn decoded(v: SpecValue) -> Decoded<Option<T::V>> {
        if v is Undefined {
            Ok(None)
        } else {
            decoded_some(T::decoded(v))
        }
    }

    fn try_from_js_value(v: &JSVal) -> (r: Option<
        core::result::Result<UndefinedOr<T>, Exception>,
    >) {
        match v {
            JSVal::Undefined => Some(Ok(UndefinedOr(None))),
            _ => match T::try_from_js_value(v) {
                Some(Ok(value)) => Some(Ok(UndefinedOr(Some(value)))),
                Some(Err(e)) => Some(Err(e)),
                None => None,
            },
        }
    }
}

impl<T: ToJSValue> ToJSValue for UndefinedOr<T> {
    /// `None` gives "undefined", `Some` the encoding of what it holds.
    open spec fn encoded(m: Option<T::V>) -> SpecValue {
        match m {
            Some(x) => T::encoded(x),
            None => SpecValue::Undefined,
        }
    }

    fn to_js_value(&self) -> (r: JSVal) {
        match &self.0 {
            Some(value) => value.to_js_value(),
            None => JSVal::Undefined,
        }
    }
}

/// "null" reads as `None` and nothing else does: any other value that the
/// inner conversion reads as `x` reads as `Some(x)`, and one on which it
/// fails fails in the same way.
pub proof fn lemma_null_or_exclusive<T: FromJSValue>(v: SpecValue)
    ensures
        v is Null ==> NullOr::<T>::accepts(v) && NullOr::<T>::decoded(v) == Ok::<
            Option<T::V>,
            SpecValue,
        >(None),
        !(v is Null) ==> NullOr::<T>::accepts(v) == T::accepts(v),
        !(v is Null) ==> NullOr::<T>::decoded(v) == decoded_some(T::decoded(v)),
        !(v is Null) ==> NullOr::<T>::decoded(v) != Ok::<Option<T::V>, SpecValue>(None),
{
}

/// "undefined" reads as `None` and nothing else does.
pub proof fn lemma_undefined_or_exclusive<T: FromJSValue>(v: SpecValue)
    ensures
        v is Undefined ==> UndefinedOr::<T>::accepts(v) && UndefinedOr::<T>::decoded(v) == Ok::<
            Option<T::V>,
            SpecValue,
        >(None),
        !(v is Undefined) ==> UndefinedOr::<T>::accepts(v) == T::accepts(v),
        !(v is Undefined) ==> UndefinedOr::<T>::decoded(v) == decoded_some(T::decoded(v)),
        !(v is Undefined) ==> UndefinedOr::<T>::decoded(v) != Ok::<Option<T::V>, SpecValue>(None),
{
}

impl<T: RoundTrip> RoundTrip for NullOr<T> {
    /// `None`, or a legal value whose encoding is not itself "null".
    open spec fn legal(m: Option<T::V>) -> bool {
        m matches Some(x) ==> T::legal(x) && !(T::encoded(x) is Null)
    }

    proof fn round_trip(m: Option<T::V>) {
        if let Some(x) = m {
            T::round_trip(x);
        }
    }
}

impl<T: RoundTrip> RoundTrip for UndefinedOr<T> {
    /// `None`, or a legal value whose encoding is not itself "undefined".
    open spec fn legal(m: Option<T::V>) -> bool {
        m matches Some(x) ==> T::legal(x) && !(T::encoded(x) is Undefined)
    }

    proof fn round_trip(m: Option<T::V>) {
        if let Some(x) = m {
            T::round_trip(x);
        }
    }
}

} // verus!

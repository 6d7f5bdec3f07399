//! Reading and writing the properties and elements of an object.
//!
//! An object keeps its properties in the order in which they were defined.
//! A name is looked up from the front, and setting a property that is there
//! replaces it in place, so that an object built here has each name once.  A
//! property that is not there reads as "undefined", as does an element
//! beyond the last.

use crate::convert::{Decoded, FromJSValue, ToJSValue, outcome_is};
use crate::exception::Exception;
use crate::jsval::{
    JSObject, JSVal, ObjectClass, Property, Slot, SpecObject, SpecProperty, SpecSlot, SpecValue,
    lemma_object_view,
};
use vstd::prelude::*;

verus! {

/// The position of the first property with the given name.
pub open spec fn position(properties: Seq<SpecProperty>, name: Seq<char>) -> Option<int>
    decreases properties.len(),
{
    if properties.len() == 0 {
        None
    } else if properties[0].name == name {
        Some(0)
    } else {
        match position(properties.skip(1), name) {
            Some(i) => Some(i + 1),
            None => None,
        }
    }
}

/// Where `position` finds a name, that name is there, and not before.
pub proof fn lemma_position(properties: Seq<SpecProperty>, name: Seq<char>)
    ensures
        match position(properties, name) {
            Some(i) => 0 <= i < properties.len() && properties[i].name == name && forall|k: int|
                0 <= k < i ==> (#[trigger] properties[k]).name != name,
            None => forall|k: int|
                0 <= k < properties.len() ==> (#[trigger] properties[k]).name != name,
        },
    decreases properties.len(),
{
    if properties.len() > 0 && properties[0].name != name {
        let rest = properties.skip(1);
        lemma_position(rest, name);
        match position(rest, name) {
            Some(i) => {
                assert forall|k: int| 0 <= k < i + 1 implies (#[trigger] properties[k]).name
                    != name by {
                    if k > 0 {
                        assert(rest[k - 1] == properties[k]);
                    }
                }
            },
            None => {
                assert forall|k: int| 0 <= k < properties.len() implies (
                #[trigger] properties[k]).name != name by {
                    if k > 0 {
                        assert(rest[k - 1] == properties[k]);
                    }
                }
            },
        }
    }
}

/// The first position at which a name stands is what `position` finds.
pub proof fn lemma_position_is(properties: Seq<SpecProperty>, name: Seq<char>, i: int)
    requires
        0 <= i < properties.len(),
        properties[i].name == name,
        forall|k: int| 0 <= k < i ==> (#[trigger] properties[k]).name != name,
    ensures
        position(properties, name) == Some(i),
    decreases properties.len(),
{
    if i > 0 {
        let rest = properties.skip(1);
        assert(properties[0].name != name);
        assert forall|k: int| 0 <= k < i - 1 implies (#[trigger] rest[k]).name != name by {
            assert(rest[k] == properties[k + 1]);
        }
        lemma_position_is(rest, name, i - 1);
    }
}

/// A name that stands nowhere is not found.
pub proof fn lemma_position_none(properties: Seq<SpecProperty>, name: Seq<char>)
    requires
        forall|k: int| 0 <= k < properties.len() ==> (#[trigger] properties[k]).name != name,
    ensures
        position(properties, name) is None,
    decreases properties.len(),
{
    if properties.len() > 0 {
        let rest = properties.skip(1);
        assert(properties[0].name != name);
        assert forall|k: int| 0 <= k < rest.len() implies (#[trigger] rest[k]).name != name by {
            assert(rest[k] == properties[k + 1]);
        }
        lemma_position_none(rest, name);
    }
}

/// Whether the object has a property of the given name.
pub open spec fn spec_has_property(o: SpecObject, name: Seq<char>) -> bool {
    position(o.properties, name) is Some
}

/// What reading the named property gives: its slot, or "undefined" where
/// the object has no such property.
pub open spec fn property_read(o: SpecObject, name: Seq<char>) -> SpecSlot {
    match position(o.properties, name) {
        Some(i) => o.properties[i].slot,
        None => SpecSlot::Holds(SpecValue::Undefined),
    }
}

/// What reading the element at `index` gives: its slot, or "undefined"
/// beyond the last element.
pub open spec fn element_read(o: SpecObject, index: int) -> SpecSlot {
    if 0 <= index < o.elements.len() {
        o.elements[index]
    } else {
        SpecSlot::Holds(SpecValue::Undefined)
    }
}

/// Whether a conversion is for what a slot holds.  A slot that throws is
/// never converted.
pub open spec fn slot_accepted<T: FromJSValue>(slot: SpecSlot) -> bool {
    match slot {
        SpecSlot::Holds(v) => T::accepts(v),
        SpecSlot::Throws(_) => true,
    }
}

/// What reading and converting a slot gives: the exception where reading
/// throws, else what the conversion gives.
pub open spec fn slot_decoded<T: FromJSValue>(slot: SpecSlot) -> Decoded<T::V> {
    match slot {
        SpecSlot::Holds(v) => T::decoded(v),
        SpecSlot::Throws(e) => Err(e),
    }
}

/// The object with the named property set to `slot`: in place where the
/// object has the property, else as its last property.
pub open spec fn with_property(o: SpecObject, name: Seq<char>, slot: SpecSlot) -> SpecObject {
    let property = SpecProperty { name, slot };
    SpecObject {
        properties: match position(o.properties, name) {
            Some(i) => o.properties.update(i, property),
            None => o.properties.push(property),
        },
        ..o
    }
}

/// The object with the element at `index` set to `slot`; the elements
/// between the last and `index`, if any, are "undefined".
pub open spec fn with_element(o: SpecObject, index: int, slot: SpecSlot) -> SpecObject {
    SpecObject {
        elements: if index < o.elements.len() {
            o.elements.update(index, slot)
        } else {
            Seq::new(
                (index + 1) as nat,
                |i: int|
                    if i < o.elements.len() {
                        o.elements[i]
                    } else if i == index {
                        slot
                    } else {
                        SpecSlot::Holds(SpecValue::Undefined)
                    },
            )
        },
        ..o
    }
}

/// After a property was set, the object has it and reads it as it was
/// set; every other property is there or not, and reads, as before.
pub proof fn lemma_with_property(o: SpecObject, name: Seq<char>, slot: SpecSlot, other: Seq<char>)
    ensures
        spec_has_property(with_property(o, name, slot), other) == (other == name
            || spec_has_property(o, other)),
        property_read(with_property(o, name, slot), other) == if other == name {
            slot
        } else {
            property_read(o, other)
        },
{
    let before = o.properties;
    let after = with_property(o, name, slot).properties;
    lemma_position(before, name);
    lemma_position(before, other);
    match position(before, name) {
        Some(i) => {
            assert(after.len() == before.len());
            assert forall|k: int| 0 <= k < after.len() implies (#[trigger] after[k]).name
                == before[k].name by {}
            if other == name {
                assert forall|k: int| 0 <= k < i implies (#[trigger] after[k]).name != name by {
                    assert(before[k].name != name);
                }
                lemma_position_is(after, name, i);
            } else {
                match position(before, other) {
                    Some(j) => {
                        assert forall|k: int| 0 <= k < j implies (#[trigger] after[k]).name
                            != other by {
                            assert(before[k].name != other);
                        }
                        lemma_position_is(after, other, j);
                    },
                    None => {
                        assert forall|k: int| 0 <= k < after.len() implies (
                        #[trigger] after[k]).name != other by {
                            assert(before[k].name != other);
                        }
                        lemma_position_none(after, other);
                    },
                }
            }
        },
        None => {
            let last = before.len() as int;
            assert(after.len() == last + 1);
            if other == name {
                assert forall|k: int| 0 <= k < last implies (#[trigger] after[k]).name != name by {
                    assert(before[k].name != name);
                }
                lemma_position_is(after, name, last);
            } else {
                match position(before, other) {
                    Some(j) => {
                        assert forall|k: int| 0 <= k < j implies (#[trigger] after[k]).name
                            != other by {
                            assert(before[k].name != other);
                        }
                        assert(after[j] == before[j]);
                        lemma_position_is(after, other, j);
                    },
                    None => {
                        assert forall|k: int| 0 <= k < after.len() implies (
                        #[trigger] after[k]).name != other by {
                            if k < last {
                                assert(before[k].name != other);
                            }
                        }
                        lemma_position_none(after, other);
                    },
                }
            }
        },
    }
}

/// A new object without elements or properties.
pub open spec fn empty_object() -> SpecObject {
    SpecObject {
        handle: None,
        class: ObjectClass::Plain,
        elements: Seq::empty(),
        properties: Seq::empty(),
    }
}

/// After an element was set, it reads as it was set; every other
/// element reads as before.
pub proof fn lemma_with_element(o: SpecObject, index: int, slot: SpecSlot, other: int)
    requires
        0 <= index,
    ensures
        element_read(with_element(o, index, slot), other) == if other == index {
            slot
        } else {
            element_read(o, other)
        },
{
}

/// The index of an element in the runtime: the low 32 bits of a native
/// index.
pub open spec fn element_index(index: usize) -> int {
    index as int % 0x1_0000_0000
}

/// A new object without elements or properties, yet to be created in the
/// runtime.
pub fn new_object() -> (r: JSObject)
    ensures
        r@ == empty_object(),
{
    let r = JSObject {
        handle: None,
        class: ObjectClass::Plain,
        elements: Vec::new(),
        properties: Vec::new(),
    };
    proof {
        lemma_object_view(r);
        assert(r@.elements =~= empty_object().elements);
        assert(r@.properties =~= empty_object().properties);
    }
    r
}

/// Whether `text` is the word `word`.
pub fn text_is(text: &String, word: &str) -> (r: bool)
    ensures
        r == (text@ == word@),
{
    *text == word.to_owned()
}

/// The position of the first property with the given name.
fn find(obj: &JSObject, name: &str) -> (r: Option<usize>)
    ensures
        match r {
            Some(i) => position(obj@.properties, name@) == Some(i as int) && i
                < obj.properties.len(),
            None => position(obj@.properties, name@) is None,
        },
{
    proof {
        lemma_object_view(*obj);
    }
    let wanted: String = name.to_owned();
    let ghost all = obj@.properties;
    let mut i: usize = 0;
    assert(all.skip(0) =~= all);
    while i < obj.properties.len()
        invariant
            i <= obj.properties.len(),
            wanted@ == name@,
            all == obj@.properties,
            all.len() == obj.properties.len(),
            forall|k: int| 0 <= k < all.len() ==> #[trigger] all[k] == obj.properties[k]@,
            match position(all.skip(i as int), name@) {
                Some(k) => position(all, name@) == Some(k + i),
                None => position(all, name@) is None,
            },
        decreases obj.properties.len() - i,
    {
        let ghost rest = all.skip(i as int);
        assert(rest[0] == obj.properties[i as int]@);
        assert(rest.skip(1) =~= all.skip(i + 1));
        if obj.properties[i].name == wanted {
            return Some(i);
        }
        i += 1;
    }
    None
}

/// Whether the object has a property of the given name.
pub fn has_property(obj: &JSObject, name: &str) -> (r: bool)
    ensures
        r == spec_has_property(obj@, name@),
{
    find(obj, name).is_some()
}

/// Reads the named property and converts it, or gives `None` where the
/// conversion is not for what the property holds.
pub fn try_get_property<T: FromJSValue>(obj: &JSObject, name: &str) -> (r: Option<
    core::result::Result<T, Exception>,
>)
    ensures
        r is Some <==> slot_accepted::<T>(property_read(obj@, name@)),
        r matches Some(outcome) ==> outcome_is(
            outcome,
            slot_decoded::<T>(property_read(obj@, name@)),
        ),
{
    proof {
        lemma_object_view(*obj);
    }
    match find(obj, name) {
        Some(i) => match &obj.properties[i].slot {
            Slot::Holds(v) => T::try_from_js_value(v),
            Slot::Throws(e) => Some(Err(Exception { value: e.duplicate() })),
        },
        None => T::try_from_js_value(&JSVal::Undefined),
    }
}

/// Reads the named property and converts it: the native value, or the
/// exception that reading or converting raised.
pub fn get_property<T: FromJSValue>(obj: &JSObject, name: &str) -> (r: core::result::Result<
    T,
    Exception,
>)
    requires
        slot_accepted::<T>(property_read(obj@, name@)),
    ensures
        outcome_is(r, slot_decoded::<T>(property_read(obj@, name@))),
{
    match try_get_property(obj, name) {
        Some(outcome) => outcome,
        None => vstd::pervasive::unreached(),
    }
}

/// Sets the named property to `slot`.
fn put(obj: &mut JSObject, name: &str, slot: Slot)
    ensures
        final(obj)@ == with_property(old(obj)@, name@, slot@),
{
    proof {
        lemma_object_view(*obj);
    }
    let ghost before = *obj;
    let property = Property { name: name.to_owned(), slot };
    match find(obj, name) {
        Some(i) => {
            obj.properties.set(i, property);
        },
        None => {
            obj.properties.push(property);
        },
    }
    proof {
        lemma_object_view(*obj);
        lemma_object_view(before);
        let expected = with_property(before@, name@, slot@);
        assert(obj@.properties =~= expected.properties);
        assert(obj@.elements =~= expected.elements);
    }
}

/// Defines the named property with the encoding of `value`; `true`, as
/// nothing here can fail.
pub fn define_property<T: ToJSValue>(obj: &mut JSObject, name: &str, value: &T) -> (r: bool)
    ensures
        r,
        final(obj)@ == with_property(
            old(obj)@,
            name@,
            SpecSlot::Holds(T::encoded(value.deep_view())),
        ),
{
    put(obj, name, Slot::Holds(value.to_js_value()));
    true
}

/// Assigns the encoding of `value` to the named property; `true`, as
/// nothing here can fail.
pub fn set_property<T: ToJSValue>(obj: &mut JSObject, name: &str, value: T) -> (r: bool)
    ensures
        r,
        final(obj)@ == with_property(
            old(obj)@,
            name@,
            SpecSlot::Holds(T::encoded(value.deep_view())),
        ),
{
    put(obj, name, Slot::Holds(value.to_js_value()));
    true
}

/// The runtime's index for a native index.
pub fn runtime_index(index: usize) -> (r: usize)
    ensures
        r == element_index(index),
{
    (index as u64 % 0x1_0000_0000) as usize
}

/// Reads the element at `index` and converts it, or gives `None` where the
/// conversion is not for what the element holds.
pub fn try_get_element<T: FromJSValue>(obj: &JSObject, index: usize) -> (r: Option<
    core::result::Result<T, Exception>,
>)
    ensures
        r is Some <==> slot_accepted::<T>(element_read(obj@, element_index(index))),
        r matches Some(outcome) ==> outcome_is(
            outcome,
            slot_decoded::<T>(element_read(obj@, element_index(index))),
        ),
{
    proof {
        lemma_object_view(*obj);
    }
    let i = runtime_index(index);
    if i < obj.elements.len() {
        match &obj.elements[i] {
            Slot::Holds(v) => T::try_from_js_value(v),
            Slot::Throws(e) => Some(Err(Exception { value: e.duplicate() })),
        }
    } else {
        T::try_from_js_value(&JSVal::Undefined)
    }
}

/// Reads the element at `index` and converts it: the native value, or the
/// exception that reading or converting raised.
pub fn get_element<T: FromJSValue>(obj: &JSObject, index: usize) -> (r: core::result::Result<
    T,
    Exception,
>)
    requires
        slot_accepted::<T>(element_read(obj@, element_index(index))),
    ensures
        outcome_is(r, slot_decoded::<T>(element_read(obj@, element_index(index)))),
{
    match try_get_element(obj, index) {
        Some(outcome) => outcome,
        None => vstd::pervasive::unreached(),
    }
}

/// Sets the element at `index` to the encoding of `value`; `true`, as
/// nothing here can fail.
pub fn set_element<T: ToJSValue>(obj: &mut JSObject, index: usize, value: &T) -> (r: bool)
    ensures
        r,
        final(obj)@ == with_element(
            old(obj)@,
            element_index(index),
            SpecSlot::Holds(T::encoded(value.deep_view())),
        ),
{
    proof {
        lemma_object_view(*obj);
    }
    let ghost before = *obj;
    let i = runtime_index(index);
    let slot = Slot::Holds(value.to_js_value());
    if i < obj.elements.len() {
        obj.elements.set(i, slot);
    } else {
        while obj.elements.len() < i
            invariant
                old(obj).elements.len() <= obj.elements.len() <= i,
                obj.handle == old(obj).handle,
                obj.class == old(obj).class,
                obj.properties == old(obj).properties,
                forall|k: int|
                    0 <= k < old(obj).elements.len() ==> obj.elements[k] == old(obj).elements[k],
                forall|k: int|
                    old(obj).elements.len() <= k < obj.elements.len() ==> obj.elements[k]@
                        == SpecSlot::Holds(SpecValue::Undefined),
            decreases i - obj.elements.len(),
        {
            obj.elements.push(Slot::Holds(JSVal::Undefined));
        }
        obj.elements.push(slot);
    }
    proof {
        lemma_object_view(*obj);
        lemma_object_view(before);
        let expected = with_element(
            before@,
            element_index(index),
            SpecSlot::Holds(T::encoded(value.deep_view())),
        );
        assert(obj@.elements =~= expected.elements);
        assert(obj@.properties =~= expected.properties);
    }
    true
}

} // verus!

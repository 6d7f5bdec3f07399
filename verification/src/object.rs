//! Objects of the runtime, as native code holds them.

use crate::convert::{
    Decoded, FromJSValue, RoundTrip, ToJSValue, decoded_some, outcome_is, string_text,
};
use crate::exception::Exception;
use crate::jsval::{
    JSObject, JSVal, ObjectClass, SpecObject, SpecProperty, SpecSlot, SpecValue, lemma_object_view,
};
use crate::rooted::Rooted;
use crate::utils::{
    define_property, empty_object, new_object, has_property, lemma_with_property, position, property_read, slot_accepted,
    slot_decoded, spec_has_property, text_is, try_get_property, with_property,
};
use crate::value::{Value, ValueModel};
use vstd::prelude::*;

verus! {

/// An object of the runtime, held by native code.  Native code does not look
/// into it: it hands it back to the runtime as it got it.
#[derive(Debug, PartialEq, Eq)]
pub struct Object {
    object: JSObject,
}

impl View for Object {
    type V = SpecObject;

    open spec fn view(&self) -> SpecObject {
        self.rooted()@
    }
}

impl DeepView for Object {
    type V = SpecObject;

    open spec fn deep_view(&self) -> SpecObject {
        self@
    }
}

impl Object {
    /// Takes hold of the object.
    pub fn new(object: JSObject) -> (r: Object)
        ensures
            r@ == object@,
            r.rooted() == object,
    {
        Object { object }
    }
}

impl Rooted<JSObject> for Object {
    closed spec fn rooted(&self) -> JSObject {
        self.object
    }

    fn get(&self) -> (r: &JSObject) {
        &self.object
    }

    fn handle(&self) -> (r: &JSObject) {
        &self.object
    }

    fn handle_mut(&mut self) -> (r: &mut JSObject) {
        &mut self.object
    }
}

impl FromJSValue for Object {
    /// Any object.
    open spec fn accepts(v: SpecValue) -> bool {
        v is Object
    }

    open spec fn decoded(v: SpecValue) -> Decoded<SpecObject> {
        Ok(v->Object_0)
    }

    fn try_from_js_value(v: &JSVal) -> (r: Option<core::result::Result<Object, Exception>>) {
        proof {
            crate::jsval::lemma_value_view(*v);
        }
        match v {
            JSVal::Object(o) => {
                let held = Object::new(o.duplicate());
                assert(Object::accepts(v@));
                assert(Object::decoded(v@) == Ok::<SpecObject, SpecValue>(held.deep_view()));
                Some(Ok(held))
            },
            _ => None,
        }
    }
}

impl ToJSValue for Object {
    open spec fn encoded(m: SpecObject) -> SpecValue {
        SpecValue::Object(m)
    }

    fn to_js_value(&self) -> (r: JSVal) {
        JSVal::Object(self.object.duplicate())
    }
}

impl RoundTrip for Object {
    open spec fn legal(m: SpecObject) -> bool {
        true
    }

    proof fn round_trip(m: SpecObject) {
    }
}

/// What an object tells of one of its properties.  Each field is there
/// only where the runtime's descriptor has it.
#[derive(Debug, PartialEq, Eq)]
pub struct PropertyDescriptor {
    pub configurable: Option<bool>,
    pub enumerable: Option<bool>,
    pub writable: Option<bool>,
    pub value: Option<Value>,
    pub get: Option<Value>,
    pub set: Option<Value>,
}

/// Mathematical model of a [`PropertyDescriptor`].
pub struct DescriptorModel {
    pub configurable: Option<bool>,
    pub enumerable: Option<bool>,
    pub writable: Option<bool>,
    pub value: Option<ValueModel>,
    pub get: Option<ValueModel>,
    pub set: Option<ValueModel>,
}

impl DeepView for PropertyDescriptor {
    type V = DescriptorModel;

    open spec fn deep_view(&self) -> DescriptorModel {
        DescriptorModel {
            configurable: self.configurable,
            enumerable: self.enumerable,
            writable: self.writable,
            value: self.value.deep_view(),
            get: self.get.deep_view(),
            set: self.set.deep_view(),
        }
    }
}

/// Whether a conversion is for the named field of a descriptor: the field
/// may be missing; where it is there, the conversion is for what it holds.
pub open spec fn field_accepted<T: FromJSValue>(o: SpecObject, name: Seq<char>) -> bool {
    spec_has_property(o, name) ==> slot_accepted::<T>(property_read(o, name))
}

/// What reading the named field of a descriptor gives: `None` where the
/// object has no such property, else what the property converts to.
pub open spec fn field_decoded<T: FromJSValue>(o: SpecObject, name: Seq<char>) -> Decoded<
    Option<T::V>,
> {
    if spec_has_property(o, name) {
        decoded_some(slot_decoded::<T>(property_read(o, name)))
    } else {
        Ok(None)
    }
}

/// Reads the named field of a descriptor.
fn try_get_field<T: FromJSValue>(obj: &JSObject, name: &str) -> (r: Option<
    core::result::Result<Option<T>, Exception>,
>)
    ensures
        r is Some <==> field_accepted::<T>(obj@, name@),
        r matches Some(outcome) ==> outcome_is(outcome, field_decoded::<T>(obj@, name@)),
{
    if has_property(obj, name) {
        match try_get_property::<T>(obj, name) {
            Some(Ok(value)) => Some(Ok(Some(value))),
            Some(Err(e)) => Some(Err(e)),
            None => None,
        }
    } else {
        Some(Ok(None))
    }
}

/// The object with the named property holding `v`, where there is a `v`.
pub open spec fn with_optional(o: SpecObject, name: Seq<char>, v: Option<SpecValue>) -> SpecObject {
    match v {
        Some(x) => with_property(o, name, SpecSlot::Holds(x)),
        None => o,
    }
}

/// The encoding of an optional boolean field.
pub open spec fn encoded_flag(flag: Option<bool>) -> Option<SpecValue> {
    match flag {
        Some(b) => Some(SpecValue::Boolean(b)),
        None => None,
    }
}

/// The encoding of an optional value field.
pub open spec fn encoded_value(value: Option<ValueModel>) -> Option<SpecValue> {
    match value {
        Some(v) => Some(Value::encoded(v)),
        None => None,
    }
}

impl FromJSValue for PropertyDescriptor {
    /// An object whose fields, read in the order configurable, enumerable,
    /// writable, value, get, set up to the first that fails, are such that
    /// their conversions are for them.
    open spec fn accepts(v: SpecValue) -> bool {
        v matches SpecValue::Object(o) && {
            &&& field_accepted::<bool>(o, "configurable"@)
            &&& field_decoded::<bool>(o, "configurable"@) is Ok ==> {
                &&& field_accepted::<bool>(o, "enumerable"@)
                &&& field_decoded::<bool>(o, "enumerable"@) is Ok ==> {
                    &&& field_accepted::<bool>(o, "writable"@)
                    &&& field_decoded::<bool>(o, "writable"@) is Ok ==> {
                        &&& field_accepted::<Value>(o, "value"@)
                        &&& field_decoded::<Value>(o, "value"@) is Ok ==> {
                            &&& field_accepted::<Value>(o, "get"@)
                            &&& field_decoded::<Value>(o, "get"@) is Ok ==> field_accepted::<
                                Value,
                            >(o, "set"@)
                        }
                    }
                }
            }
        }
    }

    /// The six fields, or the exception of the first field that fails.
    open spec fn decoded(v: SpecValue) -> Decoded<DescriptorModel> {
        let o = v->Object_0;
        match field_decoded::<bool>(o, "configurable"@) {
            Err(e) => Err(e),
            Ok(configurable) => match field_decoded::<bool>(o, "enumerable"@) {
                Err(e) => Err(e),
                Ok(enumerable) => match field_decoded::<bool>(o, "writable"@) {
                    Err(e) => Err(e),
                    Ok(writable) => match field_decoded::<Value>(o, "value"@) {
                        Err(e) => Err(e),
                        Ok(value) => match field_decoded::<Value>(o, "get"@) {
                            Err(e) => Err(e),
                            Ok(get) => match field_decoded::<Value>(o, "set"@) {
                                Err(e) => Err(e),
                                Ok(set) => Ok(
                                    DescriptorModel {
                                        configurable,
                                        enumerable,
                                        writable,
                                        value,
                                        get,
                                        set,
                                    },
                                ),
                            },
                        },
                    },
                },
            },
        }
    }

    fn try_from_js_value(v: &JSVal) -> (r: Option<
        core::result::Result<PropertyDescriptor, Exception>,
    >) {
        let obj = match v {
            JSVal::Object(obj) => obj,
            _ => {
                return None;
            },
        };
        let configurable = match try_get_field::<bool>(obj, "configurable") {
            Some(Ok(field)) => field,
            Some(Err(e)) => {
                return Some(Err(e));
            },
            None => {
                return None;
            },
        };
        let enumerable = match try_get_field::<bool>(obj, "enumerable") {
            Some(Ok(field)) => field,
            Some(Err(e)) => {
                return Some(Err(e));
            },
            None => {
                return None;
            },
        };
        let writable = match try_get_field::<bool>(obj, "writable") {
            Some(Ok(field)) => field,
            Some(Err(e)) => {
                return Some(Err(e));
            },
            None => {
                return None;
            },
        };
        let value = match try_get_field::<Value>(obj, "value") {
            Some(Ok(field)) => field,
            Some(Err(e)) => {
                return Some(Err(e));
            },
            None => {
                return None;
            },
        };
        let get = match try_get_field::<Value>(obj, "get") {
            Some(Ok(field)) => field,
            Some(Err(e)) => {
                return Some(Err(e));
            },
            None => {
                return None;
            },
        };
        let set = match try_get_field::<Value>(obj, "set") {
            Some(Ok(field)) => field,
            Some(Err(e)) => {
                return Some(Err(e));
            },
            None => {
                return None;
            },
        };
        Some(Ok(PropertyDescriptor { configurable, enumerable, writable, value, get, set }))
    }
}

impl ToJSValue for PropertyDescriptor {
    /// A new object on which each field that is there was defined, in the
    /// order configurable, enumerable, writable, value, get, set.
    open spec fn encoded(m: DescriptorModel) -> SpecValue {
        let o0 = empty_object();
        let o1 = with_optional(o0, "configurable"@, encoded_flag(m.configurable));
        let o2 = with_optional(o1, "enumerable"@, encoded_flag(m.enumerable));
        let o3 = with_optional(o2, "writable"@, encoded_flag(m.writable));
        let o4 = with_optional(o3, "value"@, encoded_value(m.value));
        let o5 = with_optional(o4, "get"@, encoded_value(m.get));
        SpecValue::Object(with_optional(o5, "set"@, encoded_value(m.set)))
    }

    fn to_js_value(&self) -> (r: JSVal) {
        let mut obj = new_object();
        if let Some(configurable) = &self.configurable {
            define_property(&mut obj, "configurable", configurable);
        }
        if let Some(enumerable) = &self.enumerable {
            define_property(&mut obj, "enumerable", enumerable);
        }
        if let Some(writable) = &self.writable {
            define_property(&mut obj, "writable", writable);
        }
        if let Some(value) = &self.value {
            define_property(&mut obj, "value", value);
        }
        if let Some(get) = &self.get {
            define_property(&mut obj, "get", get);
        }
        if let Some(set) = &self.set {
            define_property(&mut obj, "set", set);
        }
        JSVal::Object(obj)
    }
}

/// After a property was set where there was a value for it, the object
/// reads as `lemma_with_property` says, and as before where there was none.
pub proof fn lemma_with_optional(
    o: SpecObject,
    name: Seq<char>,
    v: Option<SpecValue>,
    other: Seq<char>,
)
    ensures
        spec_has_property(with_optional(o, name, v), other) == ((other == name && v is Some)
            || spec_has_property(o, other)),
        property_read(with_optional(o, name, v), other) == if other == name && v is Some {
            SpecSlot::Holds(v->Some_0)
        } else {
            property_read(o, other)
        },
{
    if let Some(x) = v {
        lemma_with_property(o, name, SpecSlot::Holds(x), other);
    }
}

/// The six field names of a descriptor are six different names.
pub proof fn lemma_field_names_differ()
    ensures
        "configurable"@ != "enumerable"@,
        "configurable"@ != "writable"@,
        "configurable"@ != "value"@,
        "configurable"@ != "get"@,
        "configurable"@ != "set"@,
        "enumerable"@ != "writable"@,
        "enumerable"@ != "value"@,
        "enumerable"@ != "get"@,
        "enumerable"@ != "set"@,
        "writable"@ != "value"@,
        "writable"@ != "get"@,
        "writable"@ != "set"@,
        "value"@ != "get"@,
        "value"@ != "set"@,
        "get"@ != "set"@,
{
    reveal_strlit("configurable");
    reveal_strlit("enumerable");
    reveal_strlit("writable");
    reveal_strlit("value");
    reveal_strlit("get");
    reveal_strlit("set");
    assert("configurable"@.len() == 12);
    assert("enumerable"@.len() == 10);
    assert("writable"@.len() == 8);
    assert("value"@.len() == 5);
    assert("get"@.len() == 3);
    assert("set"@.len() == 3);
    assert("get"@[0] == 'g');
    assert("set"@[0] == 's');
}

impl RoundTrip for PropertyDescriptor {
    /// Each value that is there is legal.
    open spec fn legal(m: DescriptorModel) -> bool {
        &&& m.value matches Some(v) ==> Value::legal(v)
        &&& m.get matches Some(v) ==> Value::legal(v)
        &&& m.set matches Some(v) ==> Value::legal(v)
    }

    proof fn round_trip(m: DescriptorModel) {
        lemma_field_names_differ();
        let o0 = empty_object();
        let o1 = with_optional(o0, "configurable"@, encoded_flag(m.configurable));
        let o2 = with_optional(o1, "enumerable"@, encoded_flag(m.enumerable));
        let o3 = with_optional(o2, "writable"@, encoded_flag(m.writable));
        let o4 = with_optional(o3, "value"@, encoded_value(m.value));
        let o5 = with_optional(o4, "get"@, encoded_value(m.get));
        let o6 = with_optional(o5, "set"@, encoded_value(m.set));
        // how "configurable" reads on each object on the way
        lemma_with_optional(o0, "configurable"@, encoded_flag(m.configurable), "configurable"@);
        lemma_with_optional(o1, "enumerable"@, encoded_flag(m.enumerable), "configurable"@);
        lemma_with_optional(o2, "writable"@, encoded_flag(m.writable), "configurable"@);
        lemma_with_optional(o3, "value"@, encoded_value(m.value), "configurable"@);
        lemma_with_optional(o4, "get"@, encoded_value(m.get), "configurable"@);
        lemma_with_optional(o5, "set"@, encoded_value(m.set), "configurable"@);
        // how "enumerable" reads on each object on the way
        lemma_with_optional(o0, "configurable"@, encoded_flag(m.configurable), "enumerable"@);
        lemma_with_optional(o1, "enumerable"@, encoded_flag(m.enumerable), "enumerable"@);
        lemma_with_optional(o2, "writable"@, encoded_flag(m.writable), "enumerable"@);
        lemma_with_optional(o3, "value"@, encoded_value(m.value), "enumerable"@);
        lemma_with_optional(o4, "get"@, encoded_value(m.get), "enumerable"@);
        lemma_with_optional(o5, "set"@, encoded_value(m.set), "enumerable"@);
        // how "writable" reads on each object on the way
        lemma_with_optional(o0, "configurable"@, encoded_flag(m.configurable), "writable"@);
        lemma_with_optional(o1, "enumerable"@, encoded_flag(m.enumerable), "writable"@);
        lemma_with_optional(o2, "writable"@, encoded_flag(m.writable), "writable"@);
        lemma_with_optional(o3, "value"@, encoded_value(m.value), "writable"@);
        lemma_with_optional(o4, "get"@, encoded_value(m.get), "writable"@);
        lemma_with_optional(o5, "set"@, encoded_value(m.set), "writable"@);
        // how "value" reads on each object on the way
        lemma_with_optional(o0, "configurable"@, encoded_flag(m.configurable), "value"@);
        lemma_with_optional(o1, "enumerable"@, encoded_flag(m.enumerable), "value"@);
        lemma_with_optional(o2, "writable"@, encoded_flag(m.writable), "value"@);
        lemma_with_optional(o3, "value"@, encoded_value(m.value), "value"@);
        lemma_with_optional(o4, "get"@, encoded_value(m.get), "value"@);
        lemma_with_optional(o5, "set"@, encoded_value(m.set), "value"@);
        // how "get" reads on each object on the way
        lemma_with_optional(o0, "configurable"@, encoded_flag(m.configurable), "get"@);
        lemma_with_optional(o1, "enumerable"@, encoded_flag(m.enumerable), "get"@);
        lemma_with_optional(o2, "writable"@, encoded_flag(m.writable), "get"@);
        lemma_with_optional(o3, "value"@, encoded_value(m.value), "get"@);
        lemma_with_optional(o4, "get"@, encoded_value(m.get), "get"@);
        lemma_with_optional(o5, "set"@, encoded_value(m.set), "get"@);
        // how "set" reads on each object on the way
        lemma_with_optional(o0, "configurable"@, encoded_flag(m.configurable), "set"@);
        lemma_with_optional(o1, "enumerable"@, encoded_flag(m.enumerable), "set"@);
        lemma_with_optional(o2, "writable"@, encoded_flag(m.writable), "set"@);
        lemma_with_optional(o3, "value"@, encoded_value(m.value), "set"@);
        lemma_with_optional(o4, "get"@, encoded_value(m.get), "set"@);
        lemma_with_optional(o5, "set"@, encoded_value(m.set), "set"@);
        if let Some(v) = m.value {
            Value::round_trip(v);
        }
        if let Some(v) = m.get {
            Value::round_trip(v);
        }
        if let Some(v) = m.set {
            Value::round_trip(v);
        }
        let r = PropertyDescriptor::decoded(SpecValue::Object(o6));
        assert(field_decoded::<bool>(o6, "configurable"@) == Ok::<Option<bool>, SpecValue>(
            m.configurable,
        ));
        assert(field_decoded::<bool>(o6, "enumerable"@) == Ok::<Option<bool>, SpecValue>(
            m.enumerable,
        ));
        assert(field_decoded::<bool>(o6, "writable"@) == Ok::<Option<bool>, SpecValue>(m.writable));
        assert(field_decoded::<Value>(o6, "value"@) == Ok::<Option<ValueModel>, SpecValue>(m.value));
        assert(field_decoded::<Value>(o6, "get"@) == Ok::<Option<ValueModel>, SpecValue>(m.get));
        assert(field_decoded::<Value>(o6, "set"@) == Ok::<Option<ValueModel>, SpecValue>(m.set));
    }
}

/// The state of a promise.
#[derive(Clone, Copy, Debug, PartialEq, Eq, Structural)]
pub enum PromiseState {
    Pending,
    Fulfilled,
    Rejected,
}

impl DeepView for PromiseState {
    type V = PromiseState;

    open spec fn deep_view(&self) -> PromiseState {
        *self
    }
}

impl PromiseState {
    /// The variant that a word of the runtime names, if it names one.
    pub open spec fn named(text: Seq<char>) -> Option<PromiseState> {
        if text == "pending"@ {
            Some(PromiseState::Pending)
        } else if text == "fulfilled"@ {
            Some(PromiseState::Fulfilled)
        } else if text == "rejected"@ {
            Some(PromiseState::Rejected)
        } else {
            None
        }
    }

    /// The variant that `text` names, if it names one.
    pub fn from_name(text: &String) -> (r: Option<PromiseState>)
        ensures
            r == PromiseState::named(text@),
    {
        if text_is(text, "pending") {
            Some(PromiseState::Pending)
        } else if text_is(text, "fulfilled") {
            Some(PromiseState::Fulfilled)
        } else if text_is(text, "rejected") {
            Some(PromiseState::Rejected)
        } else {
            None
        }
    }
}

impl FromJSValue for PromiseState {
    /// A string whose text is one of the words that name a variant.
    open spec fn accepts(v: SpecValue) -> bool {
        v is String && PromiseState::named(string_text(v->String_0)) is Some
    }

    open spec fn decoded(v: SpecValue) -> Decoded<PromiseState> {
        Ok(PromiseState::named(string_text(v->String_0))->Some_0)
    }

    fn try_from_js_value(v: &JSVal) -> (r: Option<core::result::Result<PromiseState, Exception>>) {
        match String::try_from_js_value(v) {
            Some(Ok(text)) => match PromiseState::from_name(&text) {
                Some(variant) => Some(Ok(variant)),
                None => None,
            },
            _ => None,
        }
    }
}

} // verus!

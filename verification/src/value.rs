//! Any value of the runtime as a native enum, and the outcome of one step of
//! execution in the runtime.

use crate::convert::{
    Decoded, FromJSValue, RoundTrip, ToJSValue, outcome_is, string_text,
};
use crate::exception::Exception;
use crate::jsval::{
    Double, JSObject, JSString, JSVal, ObjectClass, Property, Slot, SpecObject, SpecProperty,
    SpecSlot, SpecString, SpecValue, lemma_object_view,
};
use crate::object::Object;
use crate::utf16;
use crate::utils::{position, property_read, spec_has_property};
use vstd::prelude::*;

verus! {

/// A value of the runtime, of any of the kinds that the binding converts.
#[derive(Debug, PartialEq, Eq)]
pub enum Value {
    Undefined,
    Boolean(bool),
    Int32(i32),
    Double(Double),
    String(String),
    Object(Object),
    Null,
}

/// Mathematical model of a [`Value`].
pub enum ValueModel {
    Undefined,
    Boolean(bool),
    Int32(i32),
    Double(Double),
    String(Seq<char>),
    Object(SpecObject),
    Null,
}

impl DeepView for Value {
    type V = ValueModel;

    open spec fn deep_view(&self) -> ValueModel {
        match self {
            Value::Undefined => ValueModel::Undefined,
            Value::Boolean(b) => ValueModel::Boolean(*b),
            Value::Int32(i) => ValueModel::Int32(*i),
            Value::Double(d) => ValueModel::Double(*d),
            Value::String(s) => ValueModel::String(s@),
            Value::Object(o) => ValueModel::Object(o@),
            Value::Null => ValueModel::Null,
        }
    }
}

impl FromJSValue for Value {
    /// Every value but a symbol or a big integer: those have no native
    /// counterpart here.
    open spec fn accepts(v: SpecValue) -> bool {
        !(v is Symbol) && !(v is BigInt)
    }

    /// The variant is chosen by the runtime's type tag; a number keeps the
    /// storage it has, a string is read as text.
    open spec fn decoded(v: SpecValue) -> Decoded<ValueModel> {
        Ok(
            match v {
                SpecValue::Undefined => ValueModel::Undefined,
                SpecValue::Boolean(b) => ValueModel::Boolean(b),
                SpecValue::Int32(i) => ValueModel::Int32(i),
                SpecValue::Double(bits) => ValueModel::Double(Double { bits }),
                SpecValue::String(s) => ValueModel::String(string_text(s)),
                SpecValue::Object(o) => ValueModel::Object(o),
                _ => ValueModel::Null,
            },
        )
    }

    fn try_from_js_value(v: &JSVal) -> (r: Option<core::result::Result<Value, Exception>>) {
        match v {
            JSVal::Undefined => Some(Ok(Value::Undefined)),
            JSVal::Boolean(b) => Some(Ok(Value::Boolean(*b))),
            JSVal::Int32(i) => Some(Ok(Value::Int32(*i))),
            JSVal::Double(d) => Some(Ok(Value::Double(*d))),
            JSVal::String(s) => match String::try_from_js_value(v) {
                Some(Ok(text)) => Some(Ok(Value::String(text))),
                _ => None,
            },
            JSVal::Object(o) => match Object::try_from_js_value(v) {
                Some(Ok(object)) => Some(Ok(Value::Object(object))),
                _ => None,
            },
            JSVal::Null => Some(Ok(Value::Null)),
            JSVal::Symbol => None,
            JSVal::BigInt => None,
        }
    }
}

impl ToJSValue for Value {
    /// Each variant is encoded as its payload is.
    open spec fn encoded(m: ValueModel) -> SpecValue {
        match m {
            ValueModel::Undefined => SpecValue::Undefined,
            ValueModel::Boolean(b) => SpecValue::Boolean(b),
            ValueModel::Int32(i) => SpecValue::Int32(i),
            ValueModel::Double(d) => Double::encoded(d),
            ValueModel::String(s) => String::encoded(s),
            ValueModel::Object(o) => SpecValue::Object(o),
            ValueModel::Null => SpecValue::Null,
        }
    }

    fn to_js_value(&self) -> (r: JSVal) {
        match self {
            Value::Undefined => JSVal::Undefined,
            Value::Boolean(b) => JSVal::Boolean(*b),
            Value::Int32(i) => JSVal::Int32(*i),
            Value::Double(d) => d.to_js_value(),
            Value::String(s) => s.to_js_value(),
            Value::Object(o) => o.to_js_value(),
            Value::Null => JSVal::Null,
        }
    }
}

impl RoundTrip for Value {
    /// A double comes back as a double unless it is a 32-bit integer: that
    /// one the runtime keeps in integer storage.
    open spec fn legal(m: ValueModel) -> bool {
        m matches ValueModel::Double(d) ==> !d.is_i32()
    }

    proof fn round_trip(m: ValueModel) {
        if let ValueModel::String(s) = m {
            utf16::lemma_utf16_round_trip(s);
        }
    }
}

/// How one step of execution in the runtime ended.
#[derive(Debug, PartialEq, Eq)]
pub enum CompletionValue {
    /// It returned this value.
    Return(Value),
    /// It threw this value.
    Throw(Value),
    /// It was terminated.
    Terminate,
}

/// What a handler tells the runtime to do with a step: `None` lets it go
/// on unchanged, `Some` forces the given completion.
pub type ResumptionValue = Option<CompletionValue>;

/// Mathematical model of a [`CompletionValue`].
pub enum CompletionModel {
    Return(ValueModel),
    Throw(ValueModel),
    Terminate,
}

impl DeepView for CompletionValue {
    type V = CompletionModel;

    open spec fn deep_view(&self) -> CompletionModel {
        match self {
            CompletionValue::Return(v) => CompletionModel::Return(v.deep_view()),
            CompletionValue::Throw(v) => CompletionModel::Throw(v.deep_view()),
            CompletionValue::Terminate => CompletionModel::Terminate,
        }
    }
}

/// The name of the property that marks a completion by return and holds
/// the returned value.
pub open spec fn return_marker() -> Seq<char> {
    "return"@
}

/// The name of the property that marks a completion by throw and holds the
/// thrown value.
pub open spec fn throw_marker() -> Seq<char> {
    "throw"@
}

/// The two markers are different names.
pub proof fn lemma_markers_differ()
    ensures
        return_marker() != throw_marker(),
{
    reveal_strlit("return");
    reveal_strlit("throw");
    assert(return_marker().len() == 6);
    assert(throw_marker().len() == 5);
}

/// The value that a slot holds, wrapped as returned; a failure stays as it
/// is.
pub open spec fn decoded_return(slot: SpecSlot) -> Decoded<CompletionModel> {
    match slot {
        SpecSlot::Holds(v) => Ok(CompletionModel::Return(Value::decoded(v)->Ok_0)),
        SpecSlot::Throws(e) => Err(e),
    }
}

/// The value that a slot holds, wrapped as thrown; a failure stays as it
/// is.
pub open spec fn decoded_throw(slot: SpecSlot) -> Decoded<CompletionModel> {
    match slot {
        SpecSlot::Holds(v) => Ok(CompletionModel::Throw(Value::decoded(v)->Ok_0)),
        SpecSlot::Throws(e) => Err(e),
    }
}

/// The object that carries the one property `name`, holding `v`.
pub open spec fn marked_object(name: Seq<char>, v: SpecValue) -> SpecValue {
    SpecValue::Object(
        SpecObject {
            handle: None,
            class: ObjectClass::Plain,
            elements: Seq::empty(),
            properties: seq![SpecProperty { name, slot: SpecSlot::Holds(v) }],
        },
    )
}

impl FromJSValue for CompletionValue {
    /// "null", or an object with exactly one of the two markers, whose value
    /// (where reading it does not throw) the conversion of values is for.
    open spec fn accepts(v: SpecValue) -> bool {
        v is Null || (v matches SpecValue::Object(o) && {
            let returned = spec_has_property(o, return_marker());
            let thrown = spec_has_property(o, throw_marker());
            let marker = if returned {
                return_marker()
            } else {
                throw_marker()
            };
            returned != thrown && (property_read(o, marker) matches SpecSlot::Holds(x)
                ==> Value::accepts(x))
        })
    }

    /// "null" is a termination; a return marker gives a return of the
    /// value that the marker holds, a throw marker a throw of it.
    open spec fn decoded(v: SpecValue) -> Decoded<CompletionModel> {
        if v is Null {
            Ok(CompletionModel::Terminate)
        } else if spec_has_property(v->Object_0, return_marker()) {
            decoded_return(property_read(v->Object_0, return_marker()))
        } else {
            decoded_throw(property_read(v->Object_0, throw_marker()))
        }
    }

    fn try_from_js_value(v: &JSVal) -> (r: Option<core::result::Result<CompletionValue, Exception>>) {
        match v {
            JSVal::Null => Some(Ok(CompletionValue::Terminate)),
            JSVal::Object(obj) => {
                let returned = crate::utils::has_property(obj, "return");
                let thrown = crate::utils::has_property(obj, "throw");
                if returned == thrown {
                    None
                } else if returned {
                    match crate::utils::try_get_property::<Value>(obj, "return") {
                        Some(Ok(value)) => Some(Ok(CompletionValue::Return(value))),
                        Some(Err(e)) => Some(Err(e)),
                        None => None,
                    }
                } else {
                    match crate::utils::try_get_property::<Value>(obj, "throw") {
                        Some(Ok(value)) => Some(Ok(CompletionValue::Throw(value))),
                        Some(Err(e)) => Some(Err(e)),
                        None => None,
                    }
                }
            },
            _ => None,
        }
    }
}

/// Builds the object that carries the one property `name`, holding `v`.
fn build_marked(name: &str, v: JSVal) -> (r: JSVal)
    ensures
        r@ == marked_object(name@, v@),
{
    let mut properties: Vec<Property> = Vec::new();
    properties.push(Property { name: name.to_owned(), slot: Slot::Holds(v) });
    let o = JSObject { handle: None, class: ObjectClass::Plain, elements: Vec::new(), properties };
    proof {
        lemma_object_view(o);
        let expected = marked_object(name@, v@)->Object_0;
        assert(o@.elements =~= expected.elements);
        assert(o@.properties =~= expected.properties);
    }
    JSVal::Object(o)
}

impl ToJSValue for CompletionValue {
    /// A termination gives "null"; a return or a throw gives a new object
    /// that carries its marker only, holding the encoding of the value.
    open spec fn encoded(m: CompletionModel) -> SpecValue {
        match m {
            CompletionModel::Return(v) => marked_object(return_marker(), Value::encoded(v)),
            CompletionModel::Throw(v) => marked_object(throw_marker(), Value::encoded(v)),
            CompletionModel::Terminate => SpecValue::Null,
        }
    }

    fn to_js_value(&self) -> (r: JSVal) {
        match self {
            CompletionValue::Return(value) => build_marked("return", value.to_js_value()),
            CompletionValue::Throw(value) => build_marked("throw", value.to_js_value()),
            CompletionValue::Terminate => JSVal::Null,
        }
    }
}

impl RoundTrip for CompletionValue {
    /// The value that is returned or thrown is legal.
    open spec fn legal(m: CompletionModel) -> bool {
        match m {
            CompletionModel::Return(v) => Value::legal(v),
            CompletionModel::Throw(v) => Value::legal(v),
            CompletionModel::Terminate => true,
        }
    }

    proof fn round_trip(m: CompletionModel) {
        lemma_markers_differ();
        match m {
            CompletionModel::Return(v) => {
                Value::round_trip(v);
                let o = marked_object(return_marker(), Value::encoded(v))->Object_0;
                assert(position(o.properties, return_marker()) == Some(0int));
                assert(position(o.properties.skip(1), throw_marker()) is None);
                assert(position(o.properties, throw_marker()) is None);
            },
            CompletionModel::Throw(v) => {
                Value::round_trip(v);
                let o = marked_object(throw_marker(), Value::encoded(v))->Object_0;
                assert(position(o.properties, throw_marker()) == Some(0int));
                assert(position(o.properties.skip(1), return_marker()) is None);
                assert(position(o.properties, return_marker()) is None);
            },
            CompletionModel::Terminate => {},
        }
    }
}

impl ToJSValue for Option<CompletionValue> {
    /// `None` gives "undefined", `Some` the encoding of the completion.
    open spec fn encoded(m: Option<CompletionModel>) -> SpecValue {
        match m {
            Some(completion) => CompletionValue::encoded(completion),
            None => SpecValue::Undefined,
        }
    }

    fn to_js_value(&self) -> (r: JSVal) {
        match self {
            Some(completion) => completion.to_js_value(),
            None => JSVal::Undefined,
        }
    }
}

} // verus!

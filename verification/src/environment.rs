//! What the runtime tells of a lexical environment.

use crate::convert::{Decoded, FromJSValue, RoundTrip, ToJSValue, string_text};
use crate::rooted::Rooted;
use crate::utils::{property_read, slot_accepted, slot_decoded, try_get_property};
use crate::value::{Value, ValueModel};
use crate::exception::Exception;
use crate::jsval::{JSObject, JSVal, SpecObject, SpecValue};
use crate::utils::text_is;
use vstd::prelude::*;

verus! {

/// The kind of a lexical environment.
#[derive(Clone, Copy, Debug, PartialEq, Eq, Structural)]
pub enum EnvironmentType {
    Declarative,
    Object,
    With,
}

impl DeepView for EnvironmentType {
    type V = EnvironmentType;

    open spec fn deep_view(&self) -> EnvironmentType {
        *self
    }
}

impl EnvironmentType {
    /// The variant that a word of the runtime names, if it names one.
    pub open spec fn named(text: Seq<char>) -> Option<EnvironmentType> {
        if text == "declarative"@ {
            Some(EnvironmentType::Declarative)
        } else if text == "object"@ {
            Some(EnvironmentType::Object)
        } else if text == "with"@ {
            Some(EnvironmentType::With)
        } else {
            None
        }
    }

    /// The variant that `text` names, if it names one.
    pub fn from_name(text: &String) -> (r: Option<EnvironmentType>)
        ensures
            r == EnvironmentType::named(text@),
    {
        if text_is(text, "declarative") {
            Some(EnvironmentType::Declarative)
        } else if text_is(text, "object") {
            Some(EnvironmentType::Object)
        } else if text_is(text, "with") {
            Some(EnvironmentType::With)
        } else {
            None
        }
    }
}

impl FromJSValue for EnvironmentType {
    /// A string whose text is one of the words that name a variant.
    open spec fn accepts(v: SpecValue) -> bool {
        v is String && EnvironmentType::named(string_text(v->String_0)) is Some
    }

    open spec fn decoded(v: SpecValue) -> Decoded<EnvironmentType> {
        Ok(EnvironmentType::named(string_text(v->String_0))->Some_0)
    }

    fn try_from_js_value(v: &JSVal) -> (r: Option<core::result::Result<EnvironmentType, Exception>>) {
        match String::try_from_js_value(v) {
            Some(Ok(text)) => match EnvironmentType::from_name(&text) {
                Some(variant) => Some(Ok(variant)),
                None => None,
            },
            _ => None,
        }
    }
}

/// A lexical environment of the runtime, held by native code.
#[derive(Debug, PartialEq, Eq)]
pub struct Environment {
    environment: JSObject,
}

impl View for Environment {
    type V = SpecObject;

    open spec fn view(&self) -> SpecObject {
        self.rooted()@
    }
}

impl DeepView for Environment {
    type V = SpecObject;

    open spec fn deep_view(&self) -> SpecObject {
        self@
    }
}

impl Environment {
    /// Takes hold of the object.
    pub fn new(environment: JSObject) -> (r: Environment)
        ensures
            r@ == environment@,
            r.rooted() == environment,
    {
        Environment { environment }
    }
}

impl Rooted<JSObject> for Environment {
    closed spec fn rooted(&self) -> JSObject {
        self.environment
    }

    fn get(&self) -> (r: &JSObject) {
        &self.environment
    }

    fn handle(&self) -> (r: &JSObject) {
        &self.environment
    }

    fn handle_mut(&mut self) -> (r: &mut JSObject) {
        &mut self.environment
    }
}

impl FromJSValue for Environment {
    /// Any object.
    open spec fn accepts(v: SpecValue) -> bool {
        v is Object
    }

    open spec fn decoded(v: SpecValue) -> Decoded<SpecObject> {
        Ok(v->Object_0)
    }

    fn try_from_js_value(v: &JSVal) -> (r: Option<core::result::Result<Environment, Exception>>) {
        proof {
            crate::jsval::lemma_value_view(*v);
        }
        match v {
            JSVal::Object(o) => {
                let held = Environment::new(o.duplicate());
                assert(Environment::accepts(v@));
                assert(Environment::decoded(v@) == Ok::<SpecObject, SpecValue>(held.deep_view()));
                Some(Ok(held))
            },
            _ => None,
        }
    }
}

impl ToJSValue for Environment {
    open spec fn encoded(m: SpecObject) -> SpecValue {
        SpecValue::Object(m)
    }

    fn to_js_value(&self) -> (r: JSVal) {
        JSVal::Object(self.environment.duplicate())
    }
}

impl RoundTrip for Environment {
    open spec fn legal(m: SpecObject) -> bool {
        true
    }

    proof fn round_trip(m: SpecObject) {
    }
}

/// The value of a variable, or `None` where the runtime has optimized the
/// variable away.
#[derive(Debug, PartialEq, Eq)]
pub struct OptimizedOutOrValue(pub Option<Value>);

impl OptimizedOutOrValue {
    /// The option that this wraps.
    pub fn into_option(self) -> (r: Option<Value>)
        ensures
            r == self.0,
    {
        self.0
    }
}

impl DeepView for OptimizedOutOrValue {
    type V = Option<ValueModel>;

    open spec fn deep_view(&self) -> Option<ValueModel> {
        self.0.deep_view()
    }
}

/// The name of the property by which the runtime marks the stand-in for a
/// variable that it has optimized away.
pub open spec fn optimized_out_marker() -> Seq<char> {
    "optimizedOut"@
}

impl FromJSValue for OptimizedOutOrValue {
    /// A value that the conversion of values is for; of an object, the
    /// marker property is read as a boolean.
    open spec fn accepts(v: SpecValue) -> bool {
        match v {
            SpecValue::Object(o) => slot_accepted::<bool>(
                property_read(o, optimized_out_marker()),
            ),
            _ => Value::accepts(v),
        }
    }

    /// An object whose marker reads as true is a variable that was optimized
    /// away; every other value is the variable's value.
    open spec fn decoded(v: SpecValue) -> Decoded<Option<ValueModel>> {
        match v {
            SpecValue::Object(o) => match slot_decoded::<bool>(
                property_read(o, optimized_out_marker()),
            ) {
                Err(e) => Err(e),
                Ok(true) => Ok(None),
                Ok(false) => Ok(Some(Value::decoded(v)->Ok_0)),
            },
            _ => Ok(Some(Value::decoded(v)->Ok_0)),
        }
    }

    fn try_from_js_value(v: &JSVal) -> (r: Option<
        core::result::Result<OptimizedOutOrValue, Exception>,
    >) {
        if let JSVal::Object(obj) = v {
            match try_get_property::<bool>(obj, "optimizedOut") {
                None => {
                    return None;
                },
                Some(Err(e)) => {
                    return Some(Err(e));
                },
                Some(Ok(true)) => {
                    return Some(Ok(OptimizedOutOrValue(None)));
                },
                Some(Ok(false)) => {},
            }
        }
        match Value::try_from_js_value(v) {
            Some(Ok(value)) => Some(Ok(OptimizedOutOrValue(Some(value)))),
            Some(Err(e)) => Some(Err(e)),
            None => None,
        }
    }
}

} // verus!

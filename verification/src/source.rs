//! Sources of scripts.

use crate::convert::{Decoded, FromJSValue, RoundTrip, ToJSValue};
use crate::exception::Exception;
use crate::jsval::{JSObject, JSVal, SpecObject, SpecValue};
use crate::rooted::Rooted;
use vstd::prelude::*;

verus! {

/// The source of a script, held by native code.
#[derive(Debug, PartialEq, Eq)]
pub struct Source {
    source: JSObject,
}

impl View for Source {
    type V = SpecObject;

    open spec fn view(&self) -> SpecObject {
        self.rooted()@
    }
}

impl DeepView for Source {
    type V = SpecObject;

    open spec fn deep_view(&self) -> SpecObject {
        self@
    }
}

impl Source {
    /// Takes hold of the object.
    pub fn new(source: JSObject) -> (r: Source)
        ensures
            r@ == source@,
            r.rooted() == source,
    {
        Source { source }
    }
}

impl Rooted<JSObject> for Source {
    closed spec fn rooted(&self) -> JSObject {
        self.source
    }

    fn get(&self) -> (r: &JSObject) {
        &self.source
    }

    fn handle(&self) -> (r: &JSObject) {
        &self.source
    }

    fn handle_mut(&mut self) -> (r: &mut JSObject) {
        &mut self.source
    }
}

impl FromJSValue for Source {
    /// Any object.
    open spec fn accepts(v: SpecValue) -> bool {
        v is Object
    }

    open spec fn decoded(v: SpecValue) -> Decoded<SpecObject> {
        Ok(v->Object_0)
    }

    fn try_from_js_value(v: &JSVal) -> (r: Option<core::result::Result<Source, Exception>>) {
        proof {
            crate::jsval::lemma_value_view(*v);
        }
        match v {
            JSVal::Object(o) => {
                let held = Source::new(o.duplicate());
                assert(Source::accepts(v@));
                assert(Source::decoded(v@) == Ok::<SpecObject, SpecValue>(held.deep_view()));
                Some(Ok(held))
            },
            _ => None,
        }
    }
}

impl ToJSValue for Source {
    open spec fn encoded(m: SpecObject) -> SpecValue {
        SpecValue::Object(m)
    }

    fn to_js_value(&self) -> (r: JSVal) {
        JSVal::Object(self.source.duplicate())
    }
}

impl RoundTrip for Source {
    open spec fn legal(m: SpecObject) -> bool {
        true
    }

    proof fn round_trip(m: SpecObject) {
    }
}

} // verus!

//! Scripts of the runtime and their breakpoints.

use crate::call::{argument, complete_call, spec_argument};
use crate::convert::{Decoded, FromJSValue, RoundTrip, ToJSValue, outcome_is};
use crate::exception::{Context, Exception};
use crate::frame::Frame;
use crate::jsval::{JSObject, JSVal, SpecObject, SpecValue};
use crate::rooted::Rooted;
use crate::value::{CompletionModel, ResumptionValue};
use vstd::prelude::*;

verus! {

/// A handler that the runtime calls when a breakpoint is hit.
pub trait OnHit {
    /// What one run of the handler may do: how the pending exception after
    /// the run and the outcome relate to the arguments and to the exception
    /// that was pending before.  A handler that does not say is taken to do
    /// anything.
    open spec fn hits(
        &self,
        frame: SpecObject,
        pending_before: Option<SpecValue>,
        pending_after: Option<SpecValue>,
        outcome: Decoded<Option<CompletionModel>>,
    ) -> bool {
        true
    }

    fn on_hit(&self, cx: &mut Context, frame: &Frame) -> (r: core::result::Result<
        ResumptionValue,
        Exception,
    >)
        ensures
            exists|outcome: Decoded<Option<CompletionModel>>|
                outcome_is(r, outcome) && #[trigger] self.hits(
                    frame.deep_view(),
                    old(cx).pending(),
                    final(cx).pending(),
                    outcome,
                ),
    ;
}

/// One call of a handler by the runtime: reads argument 0 as a Frame, runs
/// the handler on what was read, and ends the call with what the handler
/// gave.  Where the handler gave a result, the result slot `vp[0]` holds its
/// encoding and the call reports `true`; where it gave an exception, that
/// exception is pending, the result slot is as it was, and the call reports
/// `false`.  The rest of `vp` is never written.
pub fn call_on_hit<H: OnHit>(handler: &H, cx: &mut Context, argc: u32, vp: &mut Vec<JSVal>) -> (ok:
    bool)
    requires
        old(vp).len() == argc + 2,
        Frame::accepts(spec_argument(old(vp).deep_view(), 0)),
        Frame::decoded(spec_argument(old(vp).deep_view(), 0)) is Ok,
    ensures
        final(vp).len() == old(vp).len(),
        forall|i: int| 1 <= i < old(vp).len() ==> final(vp)[i] == old(vp)[i],
        exists|pending: Option<SpecValue>, outcome: Decoded<Option<CompletionModel>>| #[trigger]
            handler.hits(
                Frame::decoded(spec_argument(old(vp).deep_view(), 0))->Ok_0,
                old(cx).pending(),
                pending,
                outcome,
            ) && match outcome {
                Ok(result) => {
                    &&& ok
                    &&& final(vp)[0]@ == <ResumptionValue as ToJSValue>::encoded(result)
                    &&& final(cx).pending() == pending
                },
                Err(exception) => {
                    &&& !ok
                    &&& final(vp)[0]@ == old(vp)[0]@
                    &&& final(cx).pending() == Some(exception)
                },
            },
{
    let frame = match Frame::from_js_value(&argument(vp, argc, 0)) {
        Ok(frame) => frame,
        Err(_) => vstd::pervasive::unreached(),
    };
    let ghost pending_before = cx.pending();
    let outcome = handler.on_hit(cx, &frame);
    let ghost pending = cx.pending();
    let ghost model: Decoded<Option<CompletionModel>> = choose|model: Decoded<Option<CompletionModel>>|
        outcome_is(outcome, model) && #[trigger] handler.hits(
            frame.deep_view(),
            pending_before,
            pending,
            model,
        );
    let mut rval = vp[0].duplicate();
    let ok = complete_call(cx, &mut rval, outcome);
    vp.set(0, rval);
    proof {
        assert(handler.hits(
                Frame::decoded(spec_argument(old(vp).deep_view(), 0))->Ok_0,
            old(cx).pending(),
            pending,
            model,
        ));
    }
    ok
}

/// A breakpoint, held by native code: the object that wraps its handler.
#[derive(Debug, PartialEq, Eq)]
pub struct Breakpoint {
    breakpoint: JSObject,
}

impl View for Breakpoint {
    type V = SpecObject;

    open spec fn view(&self) -> SpecObject {
        self.rooted()@
    }
}

impl DeepView for Breakpoint {
    type V = SpecObject;

    open spec fn deep_view(&self) -> SpecObject {
        self@
    }
}

impl Breakpoint {
    /// Takes hold of the object.
    pub fn new(breakpoint: JSObject) -> (r: Breakpoint)
        ensures
            r@ == breakpoint@,
            r.rooted() == breakpoint,
    {
        Breakpoint { breakpoint }
    }
}

impl Rooted<JSObject> for Breakpoint {
    closed spec fn rooted(&self) -> JSObject {
        self.breakpoint
    }

    fn get(&self) -> (r: &JSObject) {
        &self.breakpoint
    }

    fn handle(&self) -> (r: &JSObject) {
        &self.breakpoint
    }

    fn handle_mut(&mut self) -> (r: &mut JSObject) {
        &mut self.breakpoint
    }
}

impl FromJSValue for Breakpoint {
    /// Any object.
    open spec fn accepts(v: SpecValue) -> bool {
        v is Object
    }

    open spec fn decoded(v: SpecValue) -> Decoded<SpecObject> {
        Ok(v->Object_0)
    }

    fn try_from_js_value(v: &JSVal) -> (r: Option<core::result::Result<Breakpoint, Exception>>) {
        proof {
            crate::jsval::lemma_value_view(*v);
        }
        match v {
            JSVal::Object(o) => {
                let held = Breakpoint::new(o.duplicate());
                assert(Breakpoint::accepts(v@));
                assert(Breakpoint::decoded(v@) == Ok::<SpecObject, SpecValue>(held.deep_view()));
                Some(Ok(held))
            },
            _ => None,
        }
    }
}

impl ToJSValue for Breakpoint {
    open spec fn encoded(m: SpecObject) -> SpecValue {
        SpecValue::Object(m)
    }

    fn to_js_value(&self) -> (r: JSVal) {
        JSVal::Object(self.breakpoint.duplicate())
    }
}

impl RoundTrip for Breakpoint {
    open spec fn legal(m: SpecObject) -> bool {
        true
    }

    proof fn round_trip(m: SpecObject) {
    }
}

/// A script of the runtime, held by native code.
#[derive(Debug, PartialEq, Eq)]
pub struct Script {
    script: JSObject,
}

impl View for Script {
    type V = SpecObject;

    open spec fn view(&self) -> SpecObject {
        self.rooted()@
    }
}

impl DeepView for Script {
    type V = SpecObject;

    open spec fn deep_view(&self) -> SpecObject {
        self@
    }
}

impl Script {
    /// Takes hold of the object.
    pub fn new(script: JSObject) -> (r: Script)
        ensures
            r@ == script@,
            r.rooted() == script,
    {
        Script { script }
    }
}

impl Rooted<JSObject> for Script {
    closed spec fn rooted(&self) -> JSObject {
        self.script
    }

    fn get(&self) -> (r: &JSObject) {
        &self.script
    }

    fn handle(&self) -> (r: &JSObject) {
        &self.script
    }

    fn handle_mut(&mut self) -> (r: &mut JSObject) {
        &mut self.script
    }
}

impl FromJSValue for Script {
    /// Any object.
    open spec fn accepts(v: SpecValue) -> bool {
        v is Object
    }

    open spec fn decoded(v: SpecValue) -> Decoded<SpecObject> {
        Ok(v->Object_0)
    }

    fn try_from_js_value(v: &JSVal) -> (r: Option<core::result::Result<Script, Exception>>) {
        proof {
            crate::jsval::lemma_value_view(*v);
        }
        match v {
            JSVal::Object(o) => {
                let held = Script::new(o.duplicate());
                assert(Script::accepts(v@));
                assert(Script::decoded(v@) == Ok::<SpecObject, SpecValue>(held.deep_view()));
                Some(Ok(held))
            },
            _ => None,
        }
    }
}

impl ToJSValue for Script {
    open spec fn encoded(m: SpecObject) -> SpecValue {
        SpecValue::Object(m)
    }

    fn to_js_value(&self) -> (r: JSVal) {
        JSVal::Object(self.script.duplicate())
    }
}

impl RoundTrip for Script {
    open spec fn legal(m: SpecObject) -> bool {
        true
    }

    proof fn round_trip(m: SpecObject) {
    }
}

} // verus!

//! What the runtime tells of a stack frame.

use crate::call::{argument, complete_call, spec_argument};
use crate::convert::{Decoded, FromJSValue, RoundTrip, ToJSValue, outcome_is, string_text};
use crate::exception::Context;
use crate::rooted::Rooted;
use crate::utils::{
    element_index, element_read, get_element, set_element, slot_accepted, slot_decoded,
    try_get_element, with_element,
};
use crate::value::{CompletionValue, ResumptionValue, Value};
use crate::exception::Exception;
use crate::jsval::{JSObject, JSVal, SpecObject, SpecSlot, SpecValue};
use crate::value::CompletionModel;
use crate::utils::text_is;
use vstd::prelude::*;

verus! {

/// The kind of code that a frame runs.
#[derive(Clone, Copy, Debug, PartialEq, Eq, Structural)]
pub enum FrameType {
    Call,
    Eval,
    Global,
    Module,
}

impl DeepView for FrameType {
    type V = FrameType;

    open spec fn deep_view(&self) -> FrameType {
        *self
    }
}

impl FrameType {
    /// The variant that a word of the runtime names, if it names one.
    pub open spec fn named(text: Seq<char>) -> Option<FrameType> {
        if text == "call"@ {
            Some(FrameType::Call)
        } else if text == "eval"@ {
            Some(FrameType::Eval)
        } else if text == "global"@ {
            Some(FrameType::Global)
        } else if text == "module"@ {
            Some(FrameType::Module)
        } else {
            None
        }
    }

    /// The variant that `text` names, if it names one.
    pub fn from_name(text: &String) -> (r: Option<FrameType>)
        ensures
            r == FrameType::named(text@),
    {
        if text_is(text, "call") {
            Some(FrameType::Call)
        } else if text_is(text, "eval") {
            Some(FrameType::Eval)
        } else if text_is(text, "global") {
            Some(FrameType::Global)
        } else if text_is(text, "module") {
            Some(FrameType::Module)
        } else {
            None
        }
    }
}

impl FromJSValue for FrameType {
    /// A string whose text is one of the words that name a variant.
    open spec fn accepts(v: SpecValue) -> bool {
        v is String && FrameType::named(string_text(v->String_0)) is Some
    }

    open spec fn decoded(v: SpecValue) -> Decoded<FrameType> {
        Ok(FrameType::named(string_text(v->String_0))->Some_0)
    }

    fn try_from_js_value(v: &JSVal) -> (r: Option<core::result::Result<FrameType, Exception>>) {
        match String::try_from_js_value(v) {
            Some(Ok(text)) => match FrameType::from_name(&text) {
                Some(variant) => Some(Ok(variant)),
                None => None,
            },
            _ => None,
        }
    }
}

/// The tier of the runtime that runs a frame.
#[derive(Clone, Copy, Debug, PartialEq, Eq, Structural)]
pub enum FrameImplementation {
    Interpreter,
    Baseline,
    Ion,
}

impl DeepView for FrameImplementation {
    type V = FrameImplementation;

    open spec fn deep_view(&self) -> FrameImplementation {
        *self
    }
}

impl FrameImplementation {
    /// The variant that a word of the runtime names, if it names one.
    pub open spec fn named(text: Seq<char>) -> Option<FrameImplementation> {
        if text == "interpreter"@ {
            Some(FrameImplementation::Interpreter)
        } else if text == "baseline"@ {
            Some(FrameImplementation::Baseline)
        } else if text == "ion"@ {
            Some(FrameImplementation::Ion)
        } else {
            None
        }
    }

    /// The variant that `text` names, if it names one.
    pub fn from_name(text: &String) -> (r: Option<FrameImplementation>)
        ensures
            r == FrameImplementation::named(text@),
    {
        if text_is(text, "interpreter") {
            Some(FrameImplementation::Interpreter)
        } else if text_is(text, "baseline") {
            Some(FrameImplementation::Baseline)
        } else if text_is(text, "ion") {
            Some(FrameImplementation::Ion)
        } else {
            None
        }
    }
}

impl FromJSValue for FrameImplementation {
    /// A string whose text is one of the words that name a variant.
    open spec fn accepts(v: SpecValue) -> bool {
        v is String && FrameImplementation::named(string_text(v->String_0)) is Some
    }

    open spec fn decoded(v: SpecValue) -> Decoded<FrameImplementation> {
        Ok(FrameImplementation::named(string_text(v->String_0))->Some_0)
    }

    fn try_from_js_value(v: &JSVal) -> (r: Option<core::result::Result<FrameImplementation, Exception>>) {
        match String::try_from_js_value(v) {
            Some(Ok(text)) => match FrameImplementation::from_name(&text) {
                Some(variant) => Some(Ok(variant)),
                None => None,
            },
            _ => None,
        }
    }
}

/// The arguments of a frame, held by native code.
#[derive(Debug, PartialEq, Eq)]
pub struct Arguments {
    arguments: JSObject,
}

impl View for Arguments {
    type V = SpecObject;

    open spec fn view(&self) -> SpecObject {
        self.rooted()@
    }
}

impl DeepView for Arguments {
    type V = SpecObject;

    open spec fn deep_view(&self) -> SpecObject {
        self@
    }
}

impl Arguments {
    /// Takes hold of the object.
    pub fn new(arguments: JSObject) -> (r: Arguments)
        ensures
            r@ == arguments@,
            r.rooted() == arguments,
    {
        Arguments { arguments }
    }
}

impl Arguments {
    /// The argument at `index`, or `None` where it is a value that has no
    /// native counterpart.
    pub fn try_get_element(&self, index: usize) -> (r: Option<
        core::result::Result<Value, Exception>,
    >)
        ensures
            r is Some <==> slot_accepted::<Value>(element_read(self@, element_index(index))),
            r matches Some(outcome) ==> outcome_is(
                outcome,
                slot_decoded::<Value>(element_read(self@, element_index(index))),
            ),
    {
        try_get_element::<Value>(&self.arguments, index)
    }

    /// The argument at `index`; "undefined" beyond the last.
    pub fn get_element(&self, index: usize) -> (r: core::result::Result<Value, Exception>)
        requires
            slot_accepted::<Value>(element_read(self@, element_index(index))),
        ensures
            outcome_is(r, slot_decoded::<Value>(element_read(self@, element_index(index)))),
    {
        get_element::<Value>(&self.arguments, index)
    }

    /// Sets the argument at `index` to `value`.
    pub fn set_element(&mut self, index: usize, value: &Value) -> (r: core::result::Result<
        (),
        Exception,
    >)
        ensures
            r is Ok,
            final(self)@ == with_element(
                old(self)@,
                element_index(index),
                SpecSlot::Holds(Value::encoded(value.deep_view())),
            ),
    {
        set_element(&mut self.arguments, index, value);
        Ok(())
    }
}

impl Rooted<JSObject> for Arguments {
    closed spec fn rooted(&self) -> JSObject {
        self.arguments
    }

    fn get(&self) -> (r: &JSObject) {
        &self.arguments
    }

    fn handle(&self) -> (r: &JSObject) {
        &self.arguments
    }

    fn handle_mut(&mut self) -> (r: &mut JSObject) {
        &mut self.arguments
    }
}

impl FromJSValue for Arguments {
    /// Any object.
    open spec fn accepts(v: SpecValue) -> bool {
        v is Object
    }

    open spec fn decoded(v: SpecValue) -> Decoded<SpecObject> {
        Ok(v->Object_0)
    }

    fn try_from_js_value(v: &JSVal) -> (r: Option<core::result::Result<Arguments, Exception>>) {
        proof {
            crate::jsval::lemma_value_view(*v);
        }
        match v {
            JSVal::Object(o) => {
                let held = Arguments::new(o.duplicate());
                assert(Arguments::accepts(v@));
                assert(Arguments::decoded(v@) == Ok::<SpecObject, SpecValue>(held.deep_view()));
                Some(Ok(held))
            },
            _ => None,
        }
    }
}

impl ToJSValue for Arguments {
    open spec fn encoded(m: SpecObject) -> SpecValue {
        SpecValue::Object(m)
    }

    fn to_js_value(&self) -> (r: JSVal) {
        JSVal::Object(self.arguments.duplicate())
    }
}

impl RoundTrip for Arguments {
    open spec fn legal(m: SpecObject) -> bool {
        true
    }

    proof fn round_trip(m: SpecObject) {
    }
}

/// A stack frame of the runtime, held by native code.
#[derive(Debug, PartialEq, Eq)]
pub struct Frame {
    frame: JSObject,
}

impl View for Frame {
    type V = SpecObject;

    open spec fn view(&self) -> SpecObject {
        self.rooted()@
    }
}

impl DeepView for Frame {
    type V = SpecObject;

    open spec fn deep_view(&self) -> SpecObject {
        self@
    }
}

impl Frame {
    /// Takes hold of the object.
    pub fn new(frame: JSObject) -> (r: Frame)
        ensures
            r@ == frame@,
            r.rooted() == frame,
    {
        Frame { frame }
    }
}

impl Rooted<JSObject> for Frame {
    closed spec fn rooted(&self) -> JSObject {
        self.frame
    }

    fn get(&self) -> (r: &JSObject) {
        &self.frame
    }

    fn handle(&self) -> (r: &JSObject) {
        &self.frame
    }

    fn handle_mut(&mut self) -> (r: &mut JSObject) {
        &mut self.frame
    }
}

impl FromJSValue for Frame {
    /// Any object.
    open spec fn accepts(v: SpecValue) -> bool {
        v is Object
    }

    open spec fn decoded(v: SpecValue) -> Decoded<SpecObject> {
        Ok(v->Object_0)
    }

    fn try_from_js_value(v: &JSVal) -> (r: Option<core::result::Result<Frame, Exception>>) {
        proof {
            crate::jsval::lemma_value_view(*v);
        }
        match v {
            JSVal::Object(o) => {
                let held = Frame::new(o.duplicate());
                assert(Frame::accepts(v@));
                assert(Frame::decoded(v@) == Ok::<SpecObject, SpecValue>(held.deep_view()));
                Some(Ok(held))
            },
            _ => None,
        }
    }
}

impl ToJSValue for Frame {
    open spec fn encoded(m: SpecObject) -> SpecValue {
        SpecValue::Object(m)
    }

    fn to_js_value(&self) -> (r: JSVal) {
        JSVal::Object(self.frame.duplicate())
    }
}

impl RoundTrip for Frame {
    open spec fn legal(m: SpecObject) -> bool {
        true
    }

    proof fn round_trip(m: SpecObject) {
    }
}

/// A handler that the runtime calls when a frame is about to be popped.
pub trait OnPop {
    /// What one run of the handler may do: how the pending exception after
    /// the run and the outcome relate to the arguments and to the exception
    /// that was pending before.  A handler that does not say is taken to do
    /// anything.
    open spec fn pops(
        &self,
        frame: SpecObject,
        value: CompletionModel,
        pending_before: Option<SpecValue>,
        pending_after: Option<SpecValue>,
        outcome: Decoded<Option<CompletionModel>>,
    ) -> bool {
        true
    }

    fn on_pop(&self, cx: &mut Context, frame: &Frame, value: &CompletionValue) -> (r: core::result::Result<
        ResumptionValue,
        Exception,
    >)
        ensures
            exists|outcome: Decoded<Option<CompletionModel>>|
                outcome_is(r, outcome) && #[trigger] self.pops(
                    frame.deep_view(), value.deep_view(),
                    old(cx).pending(),
                    final(cx).pending(),
                    outcome,
                ),
    ;
}

/// One call of a handler by the runtime: reads argument 0 as a Frame and argument 1 as a CompletionValue, runs
/// the handler on what was read, and ends the call with what the handler
/// gave.  Where the handler gave a result, the result slot `vp[0]` holds its
/// encoding and the call reports `true`; where it gave an exception, that
/// exception is pending, the result slot is as it was, and the call reports
/// `false`.  The rest of `vp` is never written.
pub fn call_on_pop<H: OnPop>(handler: &H, cx: &mut Context, argc: u32, vp: &mut Vec<JSVal>) -> (ok:
    bool)
    requires
        old(vp).len() == argc + 2,
        Frame::accepts(spec_argument(old(vp).deep_view(), 0)),
        CompletionValue::accepts(spec_argument(old(vp).deep_view(), 1)),
        Frame::decoded(spec_argument(old(vp).deep_view(), 0)) is Ok,
        CompletionValue::decoded(spec_argument(old(vp).deep_view(), 1)) is Ok,
    ensures
        final(vp).len() == old(vp).len(),
        forall|i: int| 1 <= i < old(vp).len() ==> final(vp)[i] == old(vp)[i],
        exists|pending: Option<SpecValue>, outcome: Decoded<Option<CompletionModel>>| #[trigger]
            handler.pops(
                Frame::decoded(spec_argument(old(vp).deep_view(), 0))->Ok_0,
                CompletionValue::decoded(spec_argument(old(vp).deep_view(), 1))->Ok_0,
                old(cx).pending(),
                pending,
                outcome,
            ) && match outcome {
                Ok(result) => {
                    &&& ok
                    &&& final(vp)[0]@ == <ResumptionValue as ToJSValue>::encoded(result)
                    &&& final(cx).pending() == pending
                },
                Err(exception) => {
                    &&& !ok
                    &&& final(vp)[0]@ == old(vp)[0]@
                    &&& final(cx).pending() == Some(exception)
                },
            },
{
    let frame = match Frame::from_js_value(&argument(vp, argc, 0)) {
        Ok(frame) => frame,
        Err(_) => vstd::pervasive::unreached(),
    };
    let value = match CompletionValue::from_js_value(&argument(vp, argc, 1)) {
        Ok(value) => value,
        Err(_) => vstd::pervasive::unreached(),
    };
    let ghost pending_before = cx.pending();
    let outcome = handler.on_pop(cx, &frame, &value);
    let ghost pending = cx.pending();
    let ghost model: Decoded<Option<CompletionModel>> = choose|model: Decoded<Option<CompletionModel>>|
        outcome_is(outcome, model) && #[trigger] handler.pops(
            frame.deep_view(), value.deep_view(),
            pending_before,
            pending,
            model,
        );
    let mut rval = vp[0].duplicate();
    let ok = complete_call(cx, &mut rval, outcome);
    vp.set(0, rval);
    proof {
        assert(handler.pops(
                Frame::decoded(spec_argument(old(vp).deep_view(), 0))->Ok_0,
                CompletionValue::decoded(spec_argument(old(vp).deep_view(), 1))->Ok_0,
            old(cx).pending(),
            pending,
            model,
        ));
    }
    ok
}

/// A handler that the runtime calls when a frame takes a step.
pub trait OnStep {
    /// What one run of the handler may do: how the pending exception after
    /// the run and the outcome relate to the arguments and to the exception
    /// that was pending before.  A handler that does not say is taken to do
    /// anything.
    open spec fn steps(
        &self,
        frame: SpecObject,
        pending_before: Option<SpecValue>,
        pending_after: Option<SpecValue>,
        outcome: Decoded<Option<CompletionModel>>,
    ) -> bool {
        true
    }

    fn on_step(&self, cx: &mut Context, frame: &Frame) -> (r: core::result::Result<
        ResumptionValue,
        Exception,
    >)
        ensures
            exists|outcome: Decoded<Option<CompletionModel>>|
                outcome_is(r, outcome) && #[trigger] self.steps(
                    frame.deep_view(),
                    old(cx).pending(),
                    final(cx).pending(),
                    outcome,
                ),
    ;
}

/// One call of a handler by the runtime: reads argument 0 as a Frame, runs
/// the handler on what was read, and ends the call with what the handler
/// gave.  Where the handler gave a result, the result slot `vp[0]` holds its
/// encoding and the call reports `true`; where it gave an exception, that
/// exception is pending, the result slot is as it was, and the call reports
/// `false`.  The rest of `vp` is never written.
pub fn call_on_step<H: OnStep>(handler: &H, cx: &mut Context, argc: u32, vp: &mut Vec<JSVal>) -> (ok:
    bool)
    requires
        old(vp).len() == argc + 2,
        Frame::accepts(spec_argument(old(vp).deep_view(), 0)),
        Frame::decoded(spec_argument(old(vp).deep_view(), 0)) is Ok,
    ensures
        final(vp).len() == old(vp).len(),
        forall|i: int| 1 <= i < old(vp).len() ==> final(vp)[i] == old(vp)[i],
        exists|pending: Option<SpecValue>, outcome: Decoded<Option<CompletionModel>>| #[trigger]
            handler.steps(
                Frame::decoded(spec_argument(old(vp).deep_view(), 0))->Ok_0,
                old(cx).pending(),
                pending,
                outcome,
            ) && match outcome {
                Ok(result) => {
                    &&& ok
                    &&& final(vp)[0]@ == <ResumptionValue as ToJSValue>::encoded(result)
                    &&& final(cx).pending() == pending
                },
                Err(exception) => {
                    &&& !ok
                    &&& final(vp)[0]@ == old(vp)[0]@
                    &&& final(cx).pending() == Some(exception)
                },
            },
{
    let frame = match Frame::from_js_value(&argument(vp, argc, 0)) {
        Ok(frame) => frame,
        Err(_) => vstd::pervasive::unreached(),
    };
    let ghost pending_before = cx.pending();
    let outcome = handler.on_step(cx, &frame);
    let ghost pending = cx.pending();
    let ghost model: Decoded<Option<CompletionModel>> = choose|model: Decoded<Option<CompletionModel>>|
        outcome_is(outcome, model) && #[trigger] handler.steps(
            frame.deep_view(),
            pending_before,
            pending,
            model,
        );
    let mut rval = vp[0].duplicate();
    let ok = complete_call(cx, &mut rval, outcome);
    vp.set(0, rval);
    proof {
        assert(handler.steps(
                Frame::decoded(spec_argument(old(vp).deep_view(), 0))->Ok_0,
            old(cx).pending(),
            pending,
            model,
        ));
    }
    ok
}

} // verus!

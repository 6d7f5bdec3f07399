//! The handlers that a debugger installs.

use crate::call::{argument, complete_call, spec_argument};
use crate::convert::{Decoded, FromJSValue, ToJSValue, outcome_is};
use crate::exception::{Context, Exception};
use crate::frame::Frame;
use crate::jsval::{JSVal, SpecObject, SpecValue};
use crate::script::Script;
use crate::value::{CompletionModel, ResumptionValue};
use vstd::prelude::*;

verus! {

/// A handler that the runtime calls when a script was compiled.
pub trait OnNewScript {
    /// What one run of the handler may do: how the pending exception after
    /// the run and the outcome relate to the arguments and to the exception
    /// that was pending before.  A handler that does not say is taken to do
    /// anything.
    open spec fn sees(
        &self,
        script: SpecObject,
        pending_before: Option<SpecValue>,
        pending_after: Option<SpecValue>,
        outcome: Decoded<()>,
    ) -> bool {
        true
    }

    fn on_new_script(&self, cx: &mut Context, script: &Script) -> (r: core::result::Result<
        (),
        Exception,
    >)
        ensures
            exists|outcome: Decoded<()>|
                outcome_is(r, outcome) && #[trigger] self.sees(
                    script.deep_view(),
                    old(cx).pending(),
                    final(cx).pending(),
                    outcome,
                ),
    ;
}

/// One call of a handler by the runtime: reads argument 0 as a Script, runs
/// the handler on what was read, and ends the call with what the handler
/// gave.  Where the handler gave a result, the result slot `vp[0]` holds its
/// encoding and the call reports `true`; where it gave an exception, that
/// exception is pending, the result slot is as it was, and the call reports
/// `false`.  The rest of `vp` is never written.
pub fn call_on_new_script<H: OnNewScript>(handler: &H, cx: &mut Context, argc: u32, vp: &mut Vec<JSVal>) -> (ok:
    bool)
    requires
        old(vp).len() == argc + 2,
        Script::accepts(spec_argument(old(vp).deep_view(), 0)),
        Script::decoded(spec_argument(old(vp).deep_view(), 0)) is Ok,
    ensures
        final(vp).len() == old(vp).len(),
        forall|i: int| 1 <= i < old(vp).len() ==> final(vp)[i] == old(vp)[i],
        exists|pending: Option<SpecValue>, outcome: Decoded<()>| #[trigger]
            handler.sees(
                Script::decoded(spec_argument(old(vp).deep_view(), 0))->Ok_0,
                old(cx).pending(),
                pending,
                outcome,
            ) && match outcome {
                Ok(result) => {
                    &&& ok
                    &&& final(vp)[0]@ == <() as ToJSValue>::encoded(result)
                    &&& final(cx).pending() == pending
                },
                Err(exception) => {
                    &&& !ok
                    &&& final(vp)[0]@ == old(vp)[0]@
                    &&& final(cx).pending() == Some(exception)
                },
            },
{
    let script = match Script::from_js_value(&argument(vp, argc, 0)) {
        Ok(script) => script,
        Err(_) => vstd::pervasive::unreached(),
    };
    let ghost pending_before = cx.pending();
    let outcome = handler.on_new_script(cx, &script);
    let ghost pending = cx.pending();
    let ghost model: Decoded<()> = choose|model: Decoded<()>|
        outcome_is(outcome, model) && #[trigger] handler.sees(
            script.deep_view(),
            pending_before,
            pending,
            model,
        );
    let mut rval = vp[0].duplicate();
    let ok = complete_call(cx, &mut rval, outcome);
    vp.set(0, rval);
    proof {
        assert(handler.sees(
                Script::decoded(spec_argument(old(vp).deep_view(), 0))->Ok_0,
            old(cx).pending(),
            pending,
            model,
        ));
    }
    ok
}

/// A handler that the runtime calls when a frame runs a `debugger` statement.
pub trait OnDebuggerStatement {
    /// What one run of the handler may do: how the pending exception after
    /// the run and the outcome relate to the arguments and to the exception
    /// that was pending before.  A handler that does not say is taken to do
    /// anything.
    open spec fn stops(
        &self,
        frame: SpecObject,
        pending_before: Option<SpecValue>,
        pending_after: Option<SpecValue>,
        outcome: Decoded<Option<CompletionModel>>,
    ) -> bool {
        true
    }

    fn on_debugger_statement(&self, cx: &mut Context, frame: &Frame) -> (r: core::result::Result<
        ResumptionValue,
        Exception,
    >)
        ensures
            exists|outcome: Decoded<Option<CompletionModel>>|
                outcome_is(r, outcome) && #[trigger] self.stops(
                    frame.deep_view(),
                    old(cx).pending(),
                    final(cx).pending(),
                    outcome,
                ),
    ;
}

/// One call of a handler by the runtime: reads argument 0 as a Frame, runs
/// the handler on what was read, and ends the call with what the handler
/// gave.  Where the handler gave a result, the result slot `vp[0]` holds its
/// encoding and the call reports `true`; where it gave an exception, that
/// exception is pending, the result slot is as it was, and the call reports
/// `false`.  The rest of `vp` is never written.
pub fn call_on_debugger_statement<H: OnDebuggerStatement>(handler: &H, cx: &mut Context, argc: u32, vp: &mut Vec<JSVal>) -> (ok:
    bool)
    requires
        old(vp).len() == argc + 2,
        Frame::accepts(spec_argument(old(vp).deep_view(), 0)),
        Frame::decoded(spec_argument(old(vp).deep_view(), 0)) is Ok,
    ensures
        final(vp).len() == old(vp).len(),
        forall|i: int| 1 <= i < old(vp).len() ==> final(vp)[i] == old(vp)[i],
        exists|pending: Option<SpecValue>, outcome: Decoded<Option<CompletionModel>>| #[trigger]
            handler.stops(
                Frame::decoded(spec_argument(old(vp).deep_view(), 0))->Ok_0,
                old(cx).pending(),
                pending,
                outcome,
            ) && match outcome {
                Ok(result) => {
                    &&& ok
                    &&& final(vp)[0]@ == <ResumptionValue as ToJSValue>::encoded(result)
                    &&& final(cx).pending() == pending
                },
                Err(exception) => {
                    &&& !ok
                    &&& final(vp)[0]@ == old(vp)[0]@
                    &&& final(cx).pending() == Some(exception)
                },
            },
{
    let frame = match Frame::from_js_value(&argument(vp, argc, 0)) {
        Ok(frame) => frame,
        Err(_) => vstd::pervasive::unreached(),
    };
    let ghost pending_before = cx.pending();
    let outcome = handler.on_debugger_statement(cx, &frame);
    let ghost pending = cx.pending();
    let ghost model: Decoded<Option<CompletionModel>> = choose|model: Decoded<Option<CompletionModel>>|
        outcome_is(outcome, model) && #[trigger] handler.stops(
            frame.deep_view(),
            pending_before,
            pending,
            model,
        );
    let mut rval = vp[0].duplicate();
    let ok = complete_call(cx, &mut rval, outcome);
    vp.set(0, rval);
    proof {
        assert(handler.stops(
                Frame::decoded(spec_argument(old(vp).deep_view(), 0))->Ok_0,
            old(cx).pending(),
            pending,
            model,
        ));
    }
    ok
}

} // verus!

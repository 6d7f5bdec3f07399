//! Errors of the runtime, captured as values.

use crate::jsval::{JSVal, SpecValue};
use vstd::prelude::*;

verus! {

/// A value that the runtime raised, held by native code.  It is whatever the
/// runtime's own `throw` was given: any value, not only an error object.
#[derive(Debug, PartialEq, Eq)]
pub struct Exception {
    pub value: JSVal,
}

impl View for Exception {
    type V = SpecValue;

    open spec fn view(&self) -> SpecValue {
        self.value@
    }
}

/// The runtime's slot for the exception that is pending: it holds at most
/// one value, which the runtime puts there when a call into it fails.
#[derive(Debug, PartialEq, Eq)]
pub struct Context {
    pending: Option<JSVal>,
}

impl Context {
    /// The value that is pending, if one is.
    pub closed spec fn pending(&self) -> Option<SpecValue> {
        match self.pending {
            Some(v) => Some(v@),
            None => None,
        }
    }

    /// A context in which nothing is pending.
    pub fn new() -> (cx: Context)
        ensures
            cx.pending() is None,
    {
        Context { pending: None }
    }

    /// Whether an exception is pending.
    pub fn is_exception_pending(&self) -> (r: bool)
        ensures
            r == self.pending() is Some,
    {
        self.pending.is_some()
    }

    /// Makes `value` the pending exception, in place of any that was
    /// pending.
    pub fn set_pending_exception(&mut self, value: JSVal)
        ensures
            final(self).pending() == Some(value@),
    {
        self.pending = Some(value);
    }

    /// Takes the pending exception out of the slot, which is then empty.
    pub fn take_pending_exception(&mut self) -> (r: Option<JSVal>)
        ensures
            final(self).pending() is None,
            match r {
                Some(v) => old(self).pending() == Some(v@),
                None => old(self).pending() is None,
            },
    {
        self.pending.take()
    }
}

impl Exception {
    /// Captures the pending exception: the exception holds what was
    /// pending, and nothing is pending any more.
    pub fn from_pending_exception(cx: &mut Context) -> (r: Exception)
        requires
            old(cx).pending() is Some,
        ensures
            Some(r@) == old(cx).pending(),
            final(cx).pending() is None,
    {
        match cx.take_pending_exception() {
            Some(value) => Exception { value },
            None => vstd::pervasive::unreached(),
        }
    }

    /// Gives the exception back to the runtime: it is pending again, and
    /// the result is the `false` by which a call reports failure.
    pub fn into_pending_exception(self, cx: &mut Context) -> (r: bool)
        ensures
            !r,
            final(cx).pending() == Some(self@),
    {
        cx.set_pending_exception(self.value);
        false
    }
}

/// Checks what a call into the runtime reported: on `true` nothing is
/// touched; on `false` the exception that the call left pending is
/// captured, after which nothing is pending.
pub fn check(cx: &mut Context, ok: bool) -> (r: core::result::Result<(), Exception>)
    requires
        !ok ==> old(cx).pending() is Some,
    ensures
        ok ==> r is Ok && final(cx).pending() == old(cx).pending(),
        !ok ==> r is Err && Some(r->Err_0@) == old(cx).pending() && final(cx).pending() is None,
{
    if ok {
        Ok(())
    } else {
        Err(Exception::from_pending_exception(cx))
    }
}

/// The result of a conversion from the runtime: a native value, or what the
/// runtime raised.
pub type Result<T> = core::result::Result<T, Exception>;

} // verus!

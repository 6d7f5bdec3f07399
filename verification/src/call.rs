//! Native closures that the runtime can call.
//!
//! The runtime calls a function with a vector `vp` of `argc + 2` values:
//! `vp[0]` holds the callee on entry and the result on return, `vp[1]` holds
//! `this`, and the arguments follow.  A native closure becomes callable by
//! being boxed into a table; the object that wraps it carries the number of
//! its box in its private slot.  The runtime's call hook for such objects is
//! [`Callables::call`], its finalize hook [`Callables::finalize`].

use crate::convert::ToJSValue;
use crate::exception::{Context, Exception};
use crate::jsval::{
    JSObject, JSVal, ObjectClass, SpecObject, SpecValue, lemma_object_view,
};
use std::rc::Rc;
use vstd::prelude::*;

verus! {

/// A native closure that the runtime can call.  The closure reads its
/// arguments from `vp` and, to succeed, writes its result to `vp[0]` and
/// gives `true`; to fail, it leaves an exception pending and gives `false`.
pub trait Call {
    /// What one call of the closure may do: how the pending exception and
    /// the vector after the call, and the result, relate to those before.
    /// A closure that does not say is taken to do anything.
    open spec fn calls(
        &self,
        pending_before: Option<SpecValue>,
        vp_before: Seq<SpecValue>,
        pending_after: Option<SpecValue>,
        vp_after: Seq<SpecValue>,
        ok: bool,
    ) -> bool {
        true
    }

    fn call(&self, cx: &mut Context, argc: u32, vp: &mut Vec<JSVal>) -> (ok: bool)
        requires
            old(vp).len() == argc + 2,
        ensures
            self.calls(
                old(cx).pending(),
                old(vp).deep_view(),
                final(cx).pending(),
                final(vp).deep_view(),
                ok,
            ),
    ;
}

impl<T: Call> Call for Rc<T> {
    /// A shared closure does what the closure does.
    open spec fn calls(
        &self,
        pending_before: Option<SpecValue>,
        vp_before: Seq<SpecValue>,
        pending_after: Option<SpecValue>,
        vp_after: Seq<SpecValue>,
        ok: bool,
    ) -> bool {
        (**self).calls(pending_before, vp_before, pending_after, vp_after, ok)
    }

    fn call(&self, cx: &mut Context, argc: u32, vp: &mut Vec<JSVal>) -> (ok: bool) {
        (**self).call(cx, argc, vp)
    }
}

/// The argument at `index`, "undefined" beyond the last argument.
pub open spec fn spec_argument(vp: Seq<SpecValue>, index: int) -> SpecValue {
    if 0 <= index && index + 2 < vp.len() {
        vp[index + 2]
    } else {
        SpecValue::Undefined
    }
}

/// The argument at `index` of a call with `argc` arguments, "undefined"
/// beyond the last argument.
pub fn argument(vp: &Vec<JSVal>, argc: u32, index: u32) -> (r: JSVal)
    requires
        vp.len() == argc + 2,
    ensures
        r@ == spec_argument(vp.deep_view(), index as int),
{
    if index < argc {
        vp[index as usize + 2].duplicate()
    } else {
        JSVal::Undefined
    }
}

/// Ends a call of a native handler: on success the encoding of the result
/// is written to the result slot, and the call reports `true`; on failure
/// the exception is made pending, the result slot is left as it was, and
/// the call reports `false`.
pub fn complete_call<T: ToJSValue>(
    cx: &mut Context,
    rval: &mut JSVal,
    outcome: core::result::Result<T, Exception>,
) -> (ok: bool)
    ensures
        match outcome {
            Ok(result) => {
                &&& ok
                &&& final(rval)@ == T::encoded(result.deep_view())
                &&& final(cx).pending() == old(cx).pending()
            },
            Err(exception) => {
                &&& !ok
                &&& final(rval)@ == old(rval)@
                &&& final(cx).pending() == Some(exception@)
            },
        },
{
    match outcome {
        Ok(result) => {
            *rval = result.to_js_value();
            true
        },
        Err(exception) => exception.into_pending_exception(cx),
    }
}

/// The boxes of the closures that are callable, by number.  A box is empty
/// once its wrapper object was finalized.
pub struct Callables<C> {
    boxes: Vec<Option<C>>,
}

/// The object that wraps the closure in box `number`.
pub open spec fn wrapper(number: u64) -> SpecValue {
    SpecValue::Object(
        SpecObject {
            handle: None,
            class: ObjectClass::Callable(number),
            elements: Seq::empty(),
            properties: Seq::empty(),
        },
    )
}

/// Whether `v` is an object that wraps a closure, and the box of that
/// closure is in `boxes` and not empty.
pub open spec fn wraps<C>(boxes: Seq<Option<C>>, v: SpecValue) -> bool {
    v matches SpecValue::Object(o) && o.class matches ObjectClass::Callable(number) && number
        < boxes.len() && boxes[number as int] is Some
}

/// The closure that the object `v` wraps.
pub open spec fn wrapped<C>(boxes: Seq<Option<C>>, v: SpecValue) -> C {
    boxes[v->Object_0.class->Callable_0 as int]->Some_0
}

/// How many of the boxes hold a closure.
pub open spec fn boxed<C>(boxes: Seq<Option<C>>) -> nat
    decreases boxes.len(),
{
    if boxes.len() == 0 {
        0
    } else {
        boxed(boxes.drop_last()) + if boxes.last() is Some {
            1nat
        } else {
            0nat
        }
    }
}

impl<C> View for Callables<C> {
    type V = Seq<Option<C>>;

    closed spec fn view(&self) -> Seq<Option<C>> {
        self.boxes@
    }
}

impl<C> Callables<C> {
    /// A table without boxes.
    pub fn new() -> (r: Callables<C>)
        ensures
            r@ == Seq::<Option<C>>::empty(),
    {
        Callables { boxes: Vec::new() }
    }

    /// The number of closures that are boxed at present.
    pub fn live(&self) -> (r: usize)
        ensures
            r == boxed(self@),
    {
        let mut count: usize = 0;
        let mut i: usize = 0;
        assert(self@.take(0) =~= Seq::<Option<C>>::empty());
        while i < self.boxes.len()
            invariant
                i <= self.boxes.len(),
                count <= i,
                count == boxed(self@.take(i as int)),
            decreases self.boxes.len() - i,
        {
            proof {
                assert(self@.take(i + 1).drop_last() =~= self@.take(i as int));
                assert(self@.take(i + 1).last() == self@[i as int]);
            }
            if self.boxes[i].is_some() {
                count += 1;
            }
            i += 1;
        }
        assert(self@.take(i as int) =~= self@);
        count
    }

    /// Whether `v` is a wrapper object whose closure is still boxed.
    pub fn is_wrapper(&self, v: &JSVal) -> (r: bool)
        ensures
            r == wraps(self@, v@),
    {
        match v {
            JSVal::Object(o) => {
                proof {
                    lemma_object_view(*o);
                }
                match o.class {
                    ObjectClass::Callable(number) => number < self.boxes.len() as u64
                        && self.boxes[number as usize].is_some(),
                    _ => false,
                }
            },
            _ => false,
        }
    }

    /// Boxes `closure` and builds the object that wraps it.  The box is a
    /// new one, so that no other wrapper shares it.
    pub fn wrap(&mut self, closure: C) -> (v: JSVal)
        ensures
            final(self)@ == old(self)@.push(Some(closure)),
            v@ == wrapper(old(self)@.len() as u64),
            wraps(final(self)@, v@),
            wrapped(final(self)@, v@) == closure,
    {
        let number = self.boxes.len() as u64;
        self.boxes.push(Some(closure));
        let o = JSObject {
            handle: None,
            class: ObjectClass::Callable(number),
            elements: Vec::new(),
            properties: Vec::new(),
        };
        proof {
            lemma_object_view(o);
            let expected = wrapper(number)->Object_0;
            assert(o@.elements =~= expected.elements);
            assert(o@.properties =~= expected.properties);
        }
        JSVal::Object(o)
    }

    /// The closure that the object `v` wraps.
    pub fn closure(&self, v: &JSVal) -> (r: &C)
        requires
            wraps(self@, v@),
        ensures
            *r == wrapped(self@, v@),
    {
        let number = self.box_number(v);
        match &self.boxes[number] {
            Some(closure) => closure,
            None => vstd::pervasive::unreached(),
        }
    }

    /// The number of the box whose closure the object `v` wraps.
    fn box_number(&self, v: &JSVal) -> (r: usize)
        requires
            wraps(self@, v@),
        ensures
            r == v@->Object_0.class->Callable_0,
            r < self.boxes.len(),
    {
        let ghost len = self.boxes.len();
        match v {
            JSVal::Object(o) => {
                proof {
                    lemma_object_view(*o);
                }
                match o.class {
                    ObjectClass::Callable(number) => number as usize,
                    _ => vstd::pervasive::unreached(),
                }
            },
            _ => vstd::pervasive::unreached(),
        }
    }

    /// Boxes the closure where there is one, and gives "undefined" where
    /// there is none: how a handler that may be unset is handed over.
    pub fn wrap_option(&mut self, closure: Option<C>) -> (v: JSVal)
        ensures
            match closure {
                Some(c) => {
                    &&& final(self)@ == old(self)@.push(Some(c))
                    &&& v@ == wrapper(old(self)@.len() as u64)
                },
                None => final(self)@ == old(self)@ && v@ is Undefined,
            },
    {
        match closure {
            Some(c) => self.wrap(c),
            None => JSVal::Undefined,
        }
    }

    /// The closure that `v` wraps, or `None` where `v` is "undefined".
    pub fn closure_option(&self, v: &JSVal) -> (r: Option<&C>)
        requires
            v@ is Undefined || wraps(self@, v@),
        ensures
            match r {
                Some(c) => wraps(self@, v@) && *c == wrapped(self@, v@),
                None => v@ is Undefined,
            },
    {
        match v {
            JSVal::Undefined => None,
            _ => Some(self.closure(v)),
        }
    }

    /// The finalize hook of wrapper objects: takes the closure out of its
    /// box, which stays empty from then on.  The result is the closure,
    /// for the caller to drop.
    pub fn finalize(&mut self, v: &JSVal) -> (r: C)
        requires
            wraps(old(self)@, v@),
        ensures
            r == wrapped(old(self)@, v@),
            final(self)@ == old(self)@.update(v@->Object_0.class->Callable_0 as int, None),
            !wraps(final(self)@, v@),
    {
        let number = self.box_number(v);
        let mut taken: Option<C> = None;
        core::mem::swap(&mut taken, &mut self.boxes[number]);
        assert(self@ =~= old(self)@.update(number as int, None));
        match taken {
            Some(closure) => closure,
            None => vstd::pervasive::unreached(),
        }
    }
}

impl<C: Call> Callables<C> {
    /// The call hook of wrapper objects: finds the closure of the callee,
    /// which stands in `vp[0]`, and hands the call on to it.  What the
    /// closure does and reports is what the call does and reports.
    pub fn call(&self, cx: &mut Context, argc: u32, vp: &mut Vec<JSVal>) -> (ok: bool)
        requires
            old(vp).len() == argc + 2,
            wraps(self@, old(vp)[0]@),
        ensures
            wrapped(self@, old(vp)[0]@).calls(
                old(cx).pending(),
                old(vp).deep_view(),
                final(cx).pending(),
                final(vp).deep_view(),
                ok,
            ),
    {
        let callee = vp[0].duplicate();
        self.closure(&callee).call(cx, argc, vp)
    }
}

} // verus!

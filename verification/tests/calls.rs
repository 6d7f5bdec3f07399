use js_debugger::call::{argument, complete_call, Call, Callables};
use js_debugger::convert::{FromJSValue, ToJSValue};
use js_debugger::debugger::{call_on_debugger_statement, call_on_new_script, OnDebuggerStatement, OnNewScript};
use js_debugger::exception::{check, Context, Exception};
use js_debugger::frame::{call_on_pop, call_on_step, Frame, OnPop, OnStep};
use js_debugger::jsval::{JSObject, JSString, JSVal, ObjectClass, Property, Slot};
use js_debugger::rooted::Rooted;
use js_debugger::script::{call_on_hit, OnHit, Script};
use js_debugger::utils;
use js_debugger::value::{CompletionValue, ResumptionValue, Value};
use std::rc::Rc;

fn text(s: &str) -> JSVal {
    JSVal::String(JSString::TwoByte(s.encode_utf16().collect()))
}

fn frame_object() -> JSObject {
    JSObject {
        handle: Some(3),
        class: ObjectClass::Plain,
        elements: vec![],
        properties: vec![Property {
            name: String::from("depth"),
            slot: Slot::Holds(JSVal::Int32(0)),
        }],
    }
}

/// A closure that returns 42; the token counts the closure's owners.
struct Answer {
    token: Rc<()>,
}

impl Call for Answer {
    fn call(&self, cx: &mut Context, _argc: u32, vp: &mut Vec<JSVal>) -> bool {
        let outcome: Result<ResumptionValue, Exception> =
            Ok(Some(CompletionValue::Return(Value::Int32(42))));
        let mut rval = JSVal::Undefined;
        let ok = complete_call(cx, &mut rval, outcome);
        vp[0] = rval;
        ok
    }
}

/// A closure that fails with what it was given as its first argument.
struct Thrower;

impl Call for Thrower {
    fn call(&self, cx: &mut Context, argc: u32, vp: &mut Vec<JSVal>) -> bool {
        let outcome: Result<(), Exception> = Err(Exception { value: argument(vp, argc, 0) });
        let mut rval = vp[0].duplicate();
        let ok = complete_call(cx, &mut rval, outcome);
        vp[0] = rval;
        ok
    }
}

#[test]
fn a_wrapped_closure_is_called_through_the_call_hook_and_freed_once() {
    let token = Rc::new(());
    let mut table: Callables<Answer> = Callables::new();
    let callee = table.wrap(Answer { token: token.clone() });
    assert_eq!(Rc::strong_count(&token), 2);
    assert!(table.is_wrapper(&callee));
    assert_eq!(table.live(), 1);

    let mut cx = Context::new();
    let mut vp = vec![callee.duplicate(), JSVal::Undefined];
    assert!(table.call(&mut cx, 0, &mut vp));
    assert!(!cx.is_exception_pending());
    assert_eq!(
        CompletionValue::from_js_value(&vp[0]),
        Ok(CompletionValue::Return(Value::Int32(42)))
    );

    let closure = table.finalize(&callee);
    assert_eq!(Rc::strong_count(&token), 2);
    drop(closure);
    assert_eq!(Rc::strong_count(&token), 1);
    assert!(!table.is_wrapper(&callee));
    assert_eq!(table.live(), 0);
}

#[test]
fn a_wrapper_carries_the_number_of_its_box() {
    let mut table: Callables<Thrower> = Callables::new();
    let first = table.wrap(Thrower);
    let second = table.wrap(Thrower);
    let expected = |number: u64| {
        JSVal::Object(JSObject {
            handle: None,
            class: ObjectClass::Callable(number),
            elements: vec![],
            properties: vec![],
        })
    };
    assert_eq!(first, expected(0));
    assert_eq!(second, expected(1));
    assert_eq!(table.live(), 2);
    table.finalize(&first);
    assert!(!table.is_wrapper(&first));
    assert!(table.is_wrapper(&second));
    assert!(!table.is_wrapper(&expected(2)));
    assert!(!table.is_wrapper(&JSVal::Null));
    assert!(!table.is_wrapper(&JSVal::Object(utils::new_object())));
}

#[test]
fn a_failed_call_leaves_its_exception_pending() {
    let mut table: Callables<Thrower> = Callables::new();
    let callee = table.wrap(Thrower);
    let mut cx = Context::new();
    let mut vp = vec![callee.duplicate(), JSVal::Undefined, text("oops")];
    assert!(!table.call(&mut cx, 1, &mut vp));
    assert_eq!(vp[0], callee);
    assert!(cx.is_exception_pending());
    assert_eq!(Exception::from_pending_exception(&mut cx), Exception { value: text("oops") });
}

#[test]
fn a_shared_closure_is_called_like_the_closure() {
    let token = Rc::new(());
    let shared = Rc::new(Answer { token: token.clone() });
    let mut table: Callables<Rc<Answer>> = Callables::new();
    let callee = table.wrap(shared.clone());
    let mut cx = Context::new();
    let mut vp = vec![callee.duplicate(), JSVal::Undefined];
    assert!(table.call(&mut cx, 0, &mut vp));
    assert_eq!(vp[0], CompletionValue::Return(Value::Int32(42)).to_js_value());
    assert!(Rc::ptr_eq(table.closure(&callee), &shared));
    drop(table.finalize(&callee));
    assert_eq!(Rc::strong_count(&shared), 1);
    drop(shared);
    assert_eq!(Rc::strong_count(&token), 1);
}

#[test]
fn arguments_beyond_the_last_are_undefined() {
    let vp = vec![JSVal::Null, JSVal::Null, JSVal::Int32(1), JSVal::Int32(2)];
    assert_eq!(argument(&vp, 2, 0), JSVal::Int32(1));
    assert_eq!(argument(&vp, 2, 1), JSVal::Int32(2));
    assert_eq!(argument(&vp, 2, 2), JSVal::Undefined);
    assert_eq!(argument(&vp, 2, u32::MAX), JSVal::Undefined);
}

#[test]
fn a_capture_empties_the_slot_and_a_reinstall_fills_it() {
    let mut cx = Context::new();
    assert!(!cx.is_exception_pending());
    // a property access fails: the runtime leaves what was thrown pending
    cx.set_pending_exception(text("TypeError"));
    assert!(cx.is_exception_pending());
    let exception = Exception::from_pending_exception(&mut cx);
    assert!(!cx.is_exception_pending());
    assert_eq!(exception, Exception { value: text("TypeError") });
    assert!(!exception.into_pending_exception(&mut cx));
    assert!(cx.is_exception_pending());
    assert_eq!(cx.take_pending_exception(), Some(text("TypeError")));
    assert_eq!(cx.take_pending_exception(), None);
}

#[test]
fn a_failed_call_is_checked_into_an_exception() {
    let mut cx = Context::new();
    assert_eq!(check(&mut cx, true), Ok(()));
    cx.set_pending_exception(JSVal::Int32(5));
    assert_eq!(check(&mut cx, true), Ok(()));
    assert!(cx.is_exception_pending());
    assert_eq!(check(&mut cx, false), Err(Exception { value: JSVal::Int32(5) }));
    assert!(!cx.is_exception_pending());
}

#[test]
fn completing_a_call_writes_the_result_or_raises() {
    let mut cx = Context::new();
    let mut rval = JSVal::Null;
    let done: Result<u32, Exception> = Ok(0x8000_0000);
    assert!(complete_call(&mut cx, &mut rval, done));
    assert_eq!(rval, 0x8000_0000u32.to_js_value());
    assert!(!cx.is_exception_pending());
    let failed: Result<u32, Exception> = Err(Exception { value: JSVal::Boolean(true) });
    assert!(!complete_call(&mut cx, &mut rval, failed));
    assert_eq!(rval, 0x8000_0000u32.to_js_value());
    assert_eq!(cx.take_pending_exception(), Some(JSVal::Boolean(true)));
}

struct Recorder;

impl OnNewScript for Recorder {
    fn on_new_script(&self, _cx: &mut Context, script: &Script) -> Result<(), Exception> {
        match utils::get_property::<i32>(script.get(), "depth") {
            Ok(0) => Ok(()),
            _ => Err(Exception { value: JSVal::Null }),
        }
    }
}

impl OnDebuggerStatement for Recorder {
    fn on_debugger_statement(
        &self,
        _cx: &mut Context,
        _frame: &Frame,
    ) -> Result<ResumptionValue, Exception> {
        Ok(None)
    }
}

impl OnStep for Recorder {
    fn on_step(&self, _cx: &mut Context, frame: &Frame) -> Result<ResumptionValue, Exception> {
        Err(Exception { value: frame.to_js_value() })
    }
}

impl OnHit for Recorder {
    fn on_hit(&self, _cx: &mut Context, _frame: &Frame) -> Result<ResumptionValue, Exception> {
        Ok(Some(CompletionValue::Terminate))
    }
}

impl OnPop for Recorder {
    fn on_pop(
        &self,
        _cx: &mut Context,
        _frame: &Frame,
        value: &CompletionValue,
    ) -> Result<ResumptionValue, Exception> {
        match value {
            CompletionValue::Return(Value::Int32(i)) => {
                Ok(Some(CompletionValue::Return(Value::Int32(*i + 1))))
            }
            _ => Ok(None),
        }
    }
}

#[test]
fn handlers_are_run_on_their_decoded_arguments() {
    let frame = JSVal::Object(frame_object());
    let mut cx = Context::new();

    let mut vp = vec![JSVal::Null, JSVal::Undefined, frame.duplicate()];
    assert!(call_on_new_script(&Recorder, &mut cx, 1, &mut vp));
    assert_eq!(vp, vec![JSVal::Undefined, JSVal::Undefined, frame.duplicate()]);

    let mut vp = vec![JSVal::Null, JSVal::Undefined, frame.duplicate()];
    assert!(call_on_debugger_statement(&Recorder, &mut cx, 1, &mut vp));
    assert_eq!(vp[0], JSVal::Undefined);

    let mut vp = vec![JSVal::Int32(0), JSVal::Undefined, frame.duplicate()];
    assert!(call_on_hit(&Recorder, &mut cx, 1, &mut vp));
    assert_eq!(vp[0], JSVal::Null);
    assert!(!cx.is_exception_pending());

    let mut vp = vec![JSVal::Int32(0), JSVal::Undefined, frame.duplicate()];
    assert!(!call_on_step(&Recorder, &mut cx, 1, &mut vp));
    assert_eq!(vp[0], JSVal::Int32(0));
    assert_eq!(cx.take_pending_exception(), Some(frame.duplicate()));

    let completion = CompletionValue::Return(Value::Int32(41)).to_js_value();
    let mut vp = vec![JSVal::Null, JSVal::Undefined, frame.duplicate(), completion];
    assert!(call_on_pop(&Recorder, &mut cx, 2, &mut vp));
    assert_eq!(
        CompletionValue::from_js_value(&vp[0]),
        Ok(CompletionValue::Return(Value::Int32(42)))
    );
    let mut vp = vec![JSVal::Int32(9), JSVal::Undefined, frame.duplicate(), JSVal::Null];
    assert!(call_on_pop(&Recorder, &mut cx, 2, &mut vp));
    assert_eq!(vp[0], JSVal::Undefined);
}

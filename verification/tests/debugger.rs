use js_debugger::convert::{NullOr, ToJSValue};
use js_debugger::debugger::{
    call_on_debugger_statement, call_on_new_script, OnDebuggerStatement, OnNewScript,
};
use js_debugger::exception::{Context, Exception, Result};
use js_debugger::frame::{Arguments, Frame};
use js_debugger::jsval::{JSObject, JSVal, ObjectClass, Property, Slot};
use js_debugger::rooted::Rooted;
use js_debugger::script::Script;
use js_debugger::source::Source;
use js_debugger::utils;
use js_debugger::value::{ResumptionValue, Value};

const PROGRAM: &str = r#"
            function f(x) {
                debugger;
            }

            f("TEST");
        "#;

fn object(handle: u64, properties: Vec<(&str, JSVal)>) -> JSObject {
    JSObject {
        handle: Some(handle),
        class: ObjectClass::Plain,
        elements: vec![],
        properties: properties
            .into_iter()
            .map(|(name, value)| Property { name: String::from(name), slot: Slot::Holds(value) })
            .collect(),
    }
}

struct Handler;

impl OnNewScript for Handler {
    fn on_new_script(&self, _cx: &mut Context, script: &Script) -> Result<()> {
        let source = utils::get_property::<Source>(script.get(), "source")?;
        let text = utils::get_property::<String>(source.get(), "text")?;
        println!("{}", text);
        if text == PROGRAM {
            Ok(())
        } else {
            Err(Exception { value: JSVal::Null })
        }
    }
}

impl OnDebuggerStatement for Handler {
    fn on_debugger_statement(&self, _cx: &mut Context, frame: &Frame) -> Result<ResumptionValue> {
        let arguments = utils::get_property::<NullOr<Arguments>>(frame.get(), "arguments")?
            .into_option()
            .unwrap();
        let argument = arguments.get_element(0)?;
        match argument {
            Value::String(s) => {
                println!("{}", s);
                assert_eq!(s, "TEST");
            }
            _ => {
                panic!()
            }
        }
        Ok(None)
    }
}

#[test]
fn it_works() {
    // what the runtime hands to the handlers when it runs the program
    let source = object(1, vec![("text", PROGRAM.to_js_value())]);
    let script = object(2, vec![("source", JSVal::Object(source))]);
    let mut arguments = object(3, vec![]);
    assert!(utils::set_element(&mut arguments, 0, &String::from("TEST")));
    let frame = object(4, vec![("arguments", JSVal::Object(arguments))]);

    let mut cx = Context::new();
    let mut vp = vec![JSVal::Null, JSVal::Undefined, JSVal::Object(script)];
    assert!(call_on_new_script(&Handler, &mut cx, 1, &mut vp));
    assert_eq!(vp[0], JSVal::Undefined);

    let mut vp = vec![JSVal::Null, JSVal::Undefined, JSVal::Object(frame)];
    assert!(call_on_debugger_statement(&Handler, &mut cx, 1, &mut vp));
    assert_eq!(vp[0], JSVal::Undefined);
    assert!(!cx.is_exception_pending());
}

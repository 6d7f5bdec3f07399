use js_debugger::exception::Exception;
use js_debugger::ext::{Heap, HeapExt};
use js_debugger::frame::{Arguments, Frame};
use js_debugger::jsval::{JSObject, JSString, JSVal, ObjectClass, Property, Slot};
use js_debugger::object::Object;
use js_debugger::rooted::Rooted;
use js_debugger::convert::{FromJSValue, ToJSValue};
use js_debugger::script::Script;
use js_debugger::utils;
use js_debugger::value::Value;

fn sample() -> JSObject {
    JSObject {
        handle: Some(1),
        class: ObjectClass::Plain,
        elements: vec![Slot::Holds(JSVal::Int32(10)), Slot::Throws(JSVal::Int32(11))],
        properties: vec![
            Property { name: String::from("live"), slot: Slot::Holds(JSVal::Boolean(true)) },
            Property { name: String::from("bad"), slot: Slot::Throws(JSVal::Null) },
        ],
    }
}

#[test]
fn properties_are_found_by_name() {
    let o = sample();
    assert!(utils::has_property(&o, "live"));
    assert!(utils::has_property(&o, "bad"));
    assert!(!utils::has_property(&o, "Live"));
    assert!(!utils::has_property(&o, ""));
}

#[test]
fn a_property_reads_as_its_value_or_its_exception() {
    let o = sample();
    assert_eq!(utils::get_property::<bool>(&o, "live"), Ok(true));
    assert_eq!(utils::get_property::<bool>(&o, "bad"), Err(Exception { value: JSVal::Null }));
    assert_eq!(utils::get_property::<()>(&o, "missing"), Ok(()));
    assert_eq!(utils::try_get_property::<i32>(&o, "live"), None);
    assert_eq!(utils::try_get_property::<bool>(&o, "missing"), None);
}

#[test]
fn an_element_reads_as_its_value_or_its_exception() {
    let o = sample();
    assert_eq!(utils::get_element::<i32>(&o, 0), Ok(10));
    assert_eq!(utils::get_element::<i32>(&o, 1), Err(Exception { value: JSVal::Int32(11) }));
    assert_eq!(utils::get_element::<()>(&o, 2), Ok(()));
    assert_eq!(utils::try_get_element::<bool>(&o, 0), None);
}

#[test]
fn defining_a_property_appends_or_replaces() {
    let mut o = utils::new_object();
    assert!(utils::define_property(&mut o, "a", &1i32));
    assert!(utils::define_property(&mut o, "b", &true));
    assert!(utils::set_property(&mut o, "a", String::from("x")));
    let names: Vec<&str> = o.properties.iter().map(|p| p.name.as_str()).collect();
    assert_eq!(names, vec!["a", "b"]);
    assert_eq!(utils::get_property::<String>(&o, "a"), Ok(String::from("x")));
    assert_eq!(utils::get_property::<bool>(&o, "b"), Ok(true));
    assert_eq!(o.handle, None);
    assert_eq!(o.elements.len(), 0);
}

#[test]
fn setting_an_element_overwrites_or_extends() {
    let mut o = utils::new_object();
    assert!(utils::set_element(&mut o, 0, &7i32));
    assert!(utils::set_element(&mut o, 3, &9i32));
    assert!(utils::set_element(&mut o, 0, &8i32));
    assert_eq!(
        o.elements,
        vec![
            Slot::Holds(JSVal::Int32(8)),
            Slot::Holds(JSVal::Undefined),
            Slot::Holds(JSVal::Undefined),
            Slot::Holds(JSVal::Int32(9)),
        ]
    );
    assert_eq!(utils::get_element::<i32>(&o, 3), Ok(9));
}

#[test]
fn a_native_index_is_cut_to_the_runtimes_index() {
    let o = sample();
    // 2^32 has the low 32 bits of index 0
    assert_eq!(utils::get_element::<i32>(&o, 0x1_0000_0000usize), Ok(10));
    let mut p = sample();
    assert!(utils::set_element(&mut p, 0x1_0000_0000usize, &5i32));
    assert_eq!(p.elements[0], Slot::Holds(JSVal::Int32(5)));
    assert_eq!(p.elements.len(), 2);
}

#[test]
fn text_is_compares_whole_texts() {
    assert!(utils::text_is(&String::from("call"), "call"));
    assert!(!utils::text_is(&String::from("call"), "cal"));
    assert!(!utils::text_is(&String::from(""), "x"));
}

#[test]
fn a_deep_copy_equals_what_was_copied() {
    let v = JSVal::Object(sample());
    assert_eq!(v.duplicate(), v);
    let s = JSString::Latin1(vec![1, 2]);
    assert_eq!(s.duplicate(), s);
}

#[test]
fn a_held_object_is_handed_back_as_it_came() {
    let mut held = Object::new(sample());
    assert_eq!(held.get(), &sample());
    assert_eq!(held.handle(), &sample());
    assert_eq!(held.to_js_value(), JSVal::Object(sample()));
    held.handle_mut().handle = Some(2);
    assert_eq!(held.get().handle, Some(2));
    assert_eq!(Object::from_js_value(&JSVal::Object(sample())), Ok(Object::new(sample())));
    assert_eq!(Object::try_from_js_value(&JSVal::Null), None);
}

#[test]
fn frames_and_scripts_hold_objects() {
    assert_eq!(Frame::from_js_value(&JSVal::Object(sample())), Ok(Frame::new(sample())));
    assert_eq!(Frame::new(sample()).to_js_value(), JSVal::Object(sample()));
    assert_eq!(Script::new(sample()).get(), &sample());
    assert_eq!(Script::try_from_js_value(&JSVal::Int32(1)), None);
}

#[test]
fn a_cell_holds_what_it_was_made_from() {
    let cell: Heap<u64> = Heap::new(5);
    assert_eq!(cell.ptr, 5);
    let other: Heap<JSVal> = HeapExt::new(JSVal::Null);
    assert_eq!(other, Heap { ptr: JSVal::Null });
}

#[test]
fn arguments_are_read_and_written_by_index() {
    let mut arguments = Arguments::new(JSObject {
        handle: Some(4),
        class: ObjectClass::Plain,
        elements: vec![Slot::Holds(JSVal::String(JSString::Latin1(vec![0x54, 0x45, 0x53, 0x54])))],
        properties: vec![],
    });
    assert_eq!(arguments.get_element(0), Ok(Value::String(String::from("TEST"))));
    assert_eq!(arguments.get_element(1), Ok(Value::Undefined));
    assert_eq!(arguments.set_element(1, &Value::Int32(2)), Ok(()));
    assert_eq!(arguments.get_element(1), Ok(Value::Int32(2)));
    assert_eq!(arguments.set_element(0, &Value::Null), Ok(()));
    assert_eq!(arguments.get_element(0), Ok(Value::Null));
    arguments.handle_mut().elements.push(Slot::Holds(JSVal::Symbol));
    assert_eq!(arguments.try_get_element(2), None);
}

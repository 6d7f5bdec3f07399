use js_debugger::convert::{
    map_to_js_value, slice_to_js_value, there_and_back, FromJSValue, Null, NullOr, ToJSValue,
    UndefinedOr,
};
use js_debugger::environment::{EnvironmentType, OptimizedOutOrValue};
use js_debugger::exception::Exception;
use js_debugger::frame::{FrameImplementation, FrameType};
use js_debugger::jsval::{Double, JSObject, JSString, JSVal, ObjectClass, Property, Slot};
use js_debugger::object::{Object, PromiseState, PropertyDescriptor};
use js_debugger::utils;
use js_debugger::value::{CompletionValue, ResumptionValue, Value};

fn double(x: f64) -> Double {
    Double { bits: x.to_bits() }
}

fn text(s: &str) -> JSVal {
    JSVal::String(JSString::TwoByte(s.encode_utf16().collect()))
}

fn object(properties: Vec<(&str, Slot)>) -> JSObject {
    JSObject {
        handle: Some(7),
        class: ObjectClass::Plain,
        elements: vec![],
        properties: properties
            .into_iter()
            .map(|(name, slot)| Property { name: String::from(name), slot })
            .collect(),
    }
}

fn array(elements: Vec<Slot>) -> JSVal {
    JSVal::Object(JSObject {
        handle: Some(9),
        class: ObjectClass::Array,
        elements,
        properties: vec![],
    })
}

#[test]
fn unit_is_undefined() {
    assert_eq!(().to_js_value(), JSVal::Undefined);
    assert_eq!(<()>::from_js_value(&JSVal::Undefined), Ok(()));
    assert_eq!(<()>::try_from_js_value(&JSVal::Null), None);
    assert_eq!(<()>::try_from_js_value(&JSVal::Int32(0)), None);
}

#[test]
fn booleans_round_trip() {
    for b in [true, false] {
        assert_eq!(b.to_js_value(), JSVal::Boolean(b));
        assert_eq!(bool::from_js_value(&b.to_js_value()), Ok(b));
    }
    assert_eq!(bool::try_from_js_value(&JSVal::Undefined), None);
}

#[test]
fn value_takes_the_variant_of_the_tag() {
    assert_eq!(Value::from_js_value(&JSVal::Undefined), Ok(Value::Undefined));
    assert_eq!(Value::from_js_value(&JSVal::Null), Ok(Value::Null));
    assert_eq!(Value::from_js_value(&JSVal::Boolean(true)), Ok(Value::Boolean(true)));
    assert_eq!(Value::from_js_value(&JSVal::Int32(-3)), Ok(Value::Int32(-3)));
    assert_eq!(
        Value::from_js_value(&JSVal::Double(double(3.14))),
        Ok(Value::Double(double(3.14)))
    );
    assert_eq!(Value::from_js_value(&text("TEST")), Ok(Value::String(String::from("TEST"))));
    assert_eq!(
        Value::from_js_value(&JSVal::String(JSString::Latin1(vec![0x54, 0xE9]))),
        Ok(Value::String(String::from("T\u{e9}")))
    );
    let o = object(vec![("x", Slot::Holds(JSVal::Int32(1)))]);
    assert_eq!(
        Value::from_js_value(&JSVal::Object(o.duplicate())),
        Ok(Value::Object(Object::new(o)))
    );
}

#[test]
fn value_rejects_the_tags_it_does_not_model() {
    assert_eq!(Value::try_from_js_value(&JSVal::Symbol), None);
    assert_eq!(Value::try_from_js_value(&JSVal::BigInt), None);
}

#[test]
fn values_round_trip() {
    let o = object(vec![("x", Slot::Holds(JSVal::Int32(1)))]);
    let values = vec![
        Value::Undefined,
        Value::Null,
        Value::Boolean(false),
        Value::Int32(i32::MIN),
        Value::Double(double(0.5)),
        Value::Double(double(-0.0)),
        Value::Double(double(f64::INFINITY)),
        Value::String(String::from("\u{1F600} and \u{e9}")),
        Value::Object(Object::new(o)),
    ];
    for value in values {
        assert_eq!(Value::from_js_value(&value.to_js_value()), Ok(value));
    }
}

#[test]
fn an_integral_double_comes_back_as_an_integer() {
    assert_eq!(Value::Double(double(42.0)).to_js_value(), JSVal::Int32(42));
    assert_eq!(
        Value::from_js_value(&Value::Double(double(42.0)).to_js_value()),
        Ok(Value::Int32(42))
    );
}

#[test]
fn sequences_round_trip_at_mixed_depth() {
    let flat: Vec<u32> = vec![0, 1, 0x8000_0000, u32::MAX];
    assert_eq!(Vec::<u32>::from_js_value(&flat.to_js_value()), Ok(flat));
    let nested: Vec<Vec<String>> = vec![
        vec![],
        vec![String::from("a")],
        vec![String::from("b\u{1F600}"), String::new()],
    ];
    assert_eq!(Vec::<Vec<String>>::from_js_value(&nested.to_js_value()), Ok(nested));
    let deep: Vec<Vec<Vec<i32>>> = vec![vec![vec![1, 2], vec![]], vec![]];
    assert_eq!(Vec::<Vec<Vec<i32>>>::from_js_value(&deep.to_js_value()), Ok(deep));
    let empty: Vec<bool> = vec![];
    assert_eq!(Vec::<bool>::from_js_value(&empty.to_js_value()), Ok(empty));
}

#[test]
fn a_sequence_becomes_a_new_array() {
    let items: Vec<i32> = vec![5, 6];
    let expected = JSVal::Object(JSObject {
        handle: None,
        class: ObjectClass::Array,
        elements: vec![Slot::Holds(JSVal::Int32(5)), Slot::Holds(JSVal::Int32(6))],
        properties: vec![],
    });
    assert_eq!(items.to_js_value(), expected);
    assert_eq!(slice_to_js_value(&items[..]), expected);
    assert_eq!(items[..].to_js_value(), expected);
}

#[test]
fn a_sequence_fails_on_its_first_failing_element() {
    let v = array(vec![
        Slot::Holds(JSVal::Int32(1)),
        Slot::Throws(text("first")),
        Slot::Holds(JSVal::Int32(3)),
        Slot::Throws(text("second")),
    ]);
    assert_eq!(Vec::<i32>::from_js_value(&v), Err(Exception { value: text("first") }));
}

#[test]
fn a_failure_inside_a_nested_sequence_fails_the_whole() {
    let inner = array(vec![Slot::Throws(JSVal::Int32(13))]);
    let v = array(vec![Slot::Holds(array(vec![])), Slot::Holds(inner), Slot::Throws(JSVal::Null)]);
    assert_eq!(Vec::<Vec<bool>>::from_js_value(&v), Err(Exception { value: JSVal::Int32(13) }));
}

#[test]
fn a_sequence_is_read_up_to_the_first_failure_only() {
    // the element after the failure is none that the conversion is for
    let v = array(vec![Slot::Throws(JSVal::Null), Slot::Holds(JSVal::Boolean(true))]);
    assert_eq!(Vec::<i32>::try_from_js_value(&v), Some(Err(Exception { value: JSVal::Null })));
    // the same element before the failure makes the whole value one that it is not for
    let w = array(vec![Slot::Holds(JSVal::Boolean(true)), Slot::Throws(JSVal::Null)]);
    assert_eq!(Vec::<i32>::try_from_js_value(&w), None);
    assert_eq!(Vec::<i32>::try_from_js_value(&JSVal::Int32(1)), None);
}

#[test]
fn null_reads_as_none_and_nothing_else_does() {
    assert_eq!(NullOr::<i32>::from_js_value(&JSVal::Null), Ok(NullOr(None)));
    assert_eq!(NullOr::<i32>::from_js_value(&JSVal::Int32(0)), Ok(NullOr(Some(0))));
    assert_eq!(
        NullOr::<String>::from_js_value(&text("null")),
        Ok(NullOr(Some(String::from("null"))))
    );
    assert_eq!(NullOr::<i32>::try_from_js_value(&JSVal::Undefined), None);
    assert_eq!(NullOr::<i32>(None).to_js_value(), JSVal::Null);
    assert_eq!(NullOr(Some(4i32)).to_js_value(), JSVal::Int32(4));
    assert_eq!(NullOr(Some(4i32)).into_option(), Some(4));
    assert_eq!(NullOr::<i32>(None).into_option(), None);
}

#[test]
fn undefined_reads_as_none_and_nothing_else_does() {
    assert_eq!(UndefinedOr::<bool>::from_js_value(&JSVal::Undefined), Ok(UndefinedOr(None)));
    assert_eq!(
        UndefinedOr::<bool>::from_js_value(&JSVal::Boolean(false)),
        Ok(UndefinedOr(Some(false)))
    );
    assert_eq!(UndefinedOr::<bool>::try_from_js_value(&JSVal::Null), None);
    assert_eq!(UndefinedOr::<bool>(None).to_js_value(), JSVal::Undefined);
    assert_eq!(UndefinedOr(Some(true)).to_js_value(), JSVal::Boolean(true));
    assert_eq!(UndefinedOr(Some(true)).into_option(), Some(true));
    assert_eq!(
        UndefinedOr::<Vec<String>>::from_js_value(&vec![String::from("x")].to_js_value())
            .map(|names| names.into_option()),
        Ok(Some(vec![String::from("x")]))
    );
}

#[test]
fn the_null_sentinel_converts_only_null() {
    assert_eq!(Null.to_js_value(), JSVal::Null);
    assert_eq!(Null::from_js_value(&JSVal::Null), Ok(Null));
    assert_eq!(Null::try_from_js_value(&JSVal::Undefined), None);
}

#[test]
fn a_throw_marker_decodes_to_a_throw() {
    let v = JSVal::Object(object(vec![("throw", Slot::Holds(JSVal::Double(double(3.14))))]));
    assert_eq!(
        CompletionValue::from_js_value(&v),
        Ok(CompletionValue::Throw(Value::Double(double(3.14))))
    );
}

#[test]
fn a_return_marker_decodes_to_a_return() {
    let v = JSVal::Object(object(vec![("return", Slot::Holds(JSVal::Int32(42)))]));
    assert_eq!(CompletionValue::from_js_value(&v), Ok(CompletionValue::Return(Value::Int32(42))));
}

#[test]
fn null_decodes_to_a_termination() {
    assert_eq!(CompletionValue::from_js_value(&JSVal::Null), Ok(CompletionValue::Terminate));
}

#[test]
fn both_markers_or_none_are_rejected() {
    let both = JSVal::Object(object(vec![
        ("return", Slot::Holds(JSVal::Int32(1))),
        ("throw", Slot::Holds(JSVal::Int32(2))),
    ]));
    assert_eq!(CompletionValue::try_from_js_value(&both), None);
    let neither = JSVal::Object(object(vec![("result", Slot::Holds(JSVal::Int32(1)))]));
    assert_eq!(CompletionValue::try_from_js_value(&neither), None);
    assert_eq!(CompletionValue::try_from_js_value(&JSVal::Undefined), None);
    let symbol = JSVal::Object(object(vec![("return", Slot::Holds(JSVal::Symbol))]));
    assert_eq!(CompletionValue::try_from_js_value(&symbol), None);
}

#[test]
fn a_marker_that_throws_fails_the_decoding() {
    let v = JSVal::Object(object(vec![("return", Slot::Throws(text("boom")))]));
    assert_eq!(CompletionValue::from_js_value(&v), Err(Exception { value: text("boom") }));
}

#[test]
fn completions_carry_their_marker_only() {
    let returned = CompletionValue::Return(Value::Boolean(true)).to_js_value();
    let expected = JSVal::Object(JSObject {
        handle: None,
        class: ObjectClass::Plain,
        elements: vec![],
        properties: vec![Property {
            name: String::from("return"),
            slot: Slot::Holds(JSVal::Boolean(true)),
        }],
    });
    assert_eq!(returned, expected);
    match CompletionValue::Throw(Value::Null).to_js_value() {
        JSVal::Object(o) => {
            assert_eq!(o.properties.len(), 1);
            assert!(utils::has_property(&o, "throw"));
            assert!(!utils::has_property(&o, "return"));
        }
        _ => panic!(),
    }
    assert_eq!(CompletionValue::Terminate.to_js_value(), JSVal::Null);
}

#[test]
fn completions_round_trip() {
    let completions = vec![
        CompletionValue::Return(Value::Int32(42)),
        CompletionValue::Return(Value::String(String::from("done"))),
        CompletionValue::Throw(Value::Double(double(3.14))),
        CompletionValue::Throw(Value::Undefined),
        CompletionValue::Terminate,
    ];
    for completion in completions {
        assert_eq!(CompletionValue::from_js_value(&completion.to_js_value()), Ok(completion));
    }
}

#[test]
fn no_resumption_is_undefined() {
    let none: ResumptionValue = None;
    assert_eq!(none.to_js_value(), JSVal::Undefined);
    let terminate: ResumptionValue = Some(CompletionValue::Terminate);
    assert_eq!(terminate.to_js_value(), JSVal::Null);
    let forced: ResumptionValue = Some(CompletionValue::Return(Value::Int32(1)));
    assert_eq!(forced.to_js_value(), CompletionValue::Return(Value::Int32(1)).to_js_value());
}

#[test]
fn descriptors_round_trip() {
    let full = PropertyDescriptor {
        configurable: Some(true),
        enumerable: Some(false),
        writable: Some(true),
        value: Some(Value::Int32(5)),
        get: Some(Value::Undefined),
        set: Some(Value::String(String::from("s"))),
    };
    assert_eq!(PropertyDescriptor::from_js_value(&full.to_js_value()), Ok(full));
    let sparse = PropertyDescriptor {
        configurable: None,
        enumerable: Some(true),
        writable: None,
        value: None,
        get: Some(Value::Null),
        set: None,
    };
    assert_eq!(PropertyDescriptor::from_js_value(&sparse.to_js_value()), Ok(sparse));
    let empty = PropertyDescriptor {
        configurable: None,
        enumerable: None,
        writable: None,
        value: None,
        get: None,
        set: None,
    };
    assert_eq!(empty.to_js_value(), JSVal::Object(utils::new_object()));
    assert_eq!(PropertyDescriptor::from_js_value(&empty.to_js_value()), Ok(empty));
}

#[test]
fn a_descriptor_defines_its_fields_in_order() {
    let d = PropertyDescriptor {
        configurable: Some(true),
        enumerable: None,
        writable: Some(false),
        value: Some(Value::Int32(1)),
        get: None,
        set: None,
    };
    match d.to_js_value() {
        JSVal::Object(o) => {
            let names: Vec<&str> = o.properties.iter().map(|p| p.name.as_str()).collect();
            assert_eq!(names, vec!["configurable", "writable", "value"]);
        }
        _ => panic!(),
    }
}

#[test]
fn a_descriptor_fails_on_its_first_failing_field() {
    let v = JSVal::Object(object(vec![
        ("set", Slot::Throws(JSVal::Int32(2))),
        ("writable", Slot::Throws(JSVal::Int32(1))),
        ("configurable", Slot::Holds(JSVal::Boolean(true))),
    ]));
    assert_eq!(PropertyDescriptor::from_js_value(&v), Err(Exception { value: JSVal::Int32(1) }));
    let ill = JSVal::Object(object(vec![("enumerable", Slot::Holds(JSVal::Int32(1)))]));
    assert_eq!(PropertyDescriptor::try_from_js_value(&ill), None);
    assert_eq!(PropertyDescriptor::try_from_js_value(&JSVal::Null), None);
}

#[test]
fn an_ordered_map_becomes_an_object_with_its_entries_in_order() {
    let entries: Vec<(String, i32)> =
        vec![(String::from("a"), 1), (String::from("b"), 2), (String::from("c"), 3)];
    match map_to_js_value(&entries) {
        JSVal::Object(o) => {
            assert_eq!(o.handle, None);
            assert_eq!(o.class, ObjectClass::Plain);
            let names: Vec<&str> = o.properties.iter().map(|p| p.name.as_str()).collect();
            assert_eq!(names, vec!["a", "b", "c"]);
            assert_eq!(utils::get_property::<i32>(&o, "a"), Ok(1));
            assert_eq!(utils::get_property::<i32>(&o, "b"), Ok(2));
            assert_eq!(utils::get_property::<i32>(&o, "c"), Ok(3));
        }
        _ => panic!(),
    }
    let none: Vec<(String, bool)> = vec![];
    assert_eq!(map_to_js_value(&none), JSVal::Object(utils::new_object()));
}

#[test]
fn states_and_kinds_are_read_from_their_words() {
    assert_eq!(PromiseState::from_js_value(&text("pending")), Ok(PromiseState::Pending));
    assert_eq!(PromiseState::from_js_value(&text("fulfilled")), Ok(PromiseState::Fulfilled));
    assert_eq!(PromiseState::from_js_value(&text("rejected")), Ok(PromiseState::Rejected));
    assert_eq!(PromiseState::try_from_js_value(&text("settled")), None);
    assert_eq!(FrameType::from_js_value(&text("call")), Ok(FrameType::Call));
    assert_eq!(FrameType::from_js_value(&text("eval")), Ok(FrameType::Eval));
    assert_eq!(FrameType::from_js_value(&text("global")), Ok(FrameType::Global));
    assert_eq!(FrameType::from_js_value(&text("module")), Ok(FrameType::Module));
    assert_eq!(FrameType::try_from_js_value(&text("Call")), None);
    assert_eq!(FrameType::try_from_js_value(&JSVal::Int32(0)), None);
    assert_eq!(
        FrameImplementation::from_js_value(&text("interpreter")),
        Ok(FrameImplementation::Interpreter)
    );
    assert_eq!(
        FrameImplementation::from_js_value(&text("baseline")),
        Ok(FrameImplementation::Baseline)
    );
    assert_eq!(
        FrameImplementation::from_js_value(&JSVal::String(JSString::Latin1(vec![0x69, 0x6F, 0x6E]))),
        Ok(FrameImplementation::Ion)
    );
    assert_eq!(FrameImplementation::try_from_js_value(&text("")), None);
    assert_eq!(
        EnvironmentType::from_js_value(&text("declarative")),
        Ok(EnvironmentType::Declarative)
    );
    assert_eq!(EnvironmentType::from_js_value(&text("object")), Ok(EnvironmentType::Object));
    assert_eq!(EnvironmentType::from_js_value(&text("with")), Ok(EnvironmentType::With));
    assert_eq!(EnvironmentType::try_from_js_value(&text("without")), None);
}

#[test]
fn an_optimized_out_variable_has_no_value() {
    let gone = JSVal::Object(object(vec![("optimizedOut", Slot::Holds(JSVal::Boolean(true)))]));
    assert_eq!(OptimizedOutOrValue::from_js_value(&gone), Ok(OptimizedOutOrValue(None)));
    let there = object(vec![("optimizedOut", Slot::Holds(JSVal::Boolean(false)))]);
    assert_eq!(
        OptimizedOutOrValue::from_js_value(&JSVal::Object(there.duplicate())),
        Ok(OptimizedOutOrValue(Some(Value::Object(Object::new(there)))))
    );
    assert_eq!(
        OptimizedOutOrValue::from_js_value(&JSVal::Int32(3)).map(|v| v.into_option()),
        Ok(Some(Value::Int32(3)))
    );
    let failing = JSVal::Object(object(vec![("optimizedOut", Slot::Throws(JSVal::Null))]));
    assert_eq!(OptimizedOutOrValue::from_js_value(&failing), Err(Exception { value: JSVal::Null }));
    let plain = JSVal::Object(object(vec![]));
    assert_eq!(OptimizedOutOrValue::try_from_js_value(&plain), None);
}

#[test]
fn there_and_back_gives_the_value_back() {
    assert_eq!(there_and_back(&0x8000_0000u32), Ok(0x8000_0000));
    assert_eq!(there_and_back(&String::from("\u{1F600}")), Ok(String::from("\u{1F600}")));
    assert_eq!(there_and_back(&NullOr(Some(vec![1i32, 2]))), Ok(NullOr(Some(vec![1, 2]))));
    assert_eq!(there_and_back(&UndefinedOr::<bool>(None)), Ok(UndefinedOr(None)));
    assert_eq!(
        there_and_back(&CompletionValue::Return(Value::Int32(42))),
        Ok(CompletionValue::Return(Value::Int32(42)))
    );
}

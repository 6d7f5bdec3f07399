use js_debugger::convert::{FromJSValue, ToJSValue};
use js_debugger::jsval::{JSString, JSVal};
use js_debugger::utf16;

#[test]
fn encode_matches_std() {
    let samples = ["", "hello", "h\u{e9}llo", "\u{20ac}", "\u{1F600}", "a\u{10000}b\u{10FFFF}c"];
    for s in samples {
        let expected: Vec<u16> = s.encode_utf16().collect();
        assert_eq!(utf16::encode(s), expected);
    }
}

#[test]
fn decode_lossy_matches_std() {
    let samples: Vec<Vec<u16>> = vec![
        vec![],
        vec![0x68, 0x69],
        vec![0xD83D, 0xDE00],
        vec![0xD83D],
        vec![0xDE00],
        vec![0xD83D, 0x41],
        vec![0xDE00, 0xD83D],
        vec![0xD83D, 0xD83D, 0xDE00],
        vec![0x41, 0xDBFF, 0xDFFF, 0x42],
        vec![0xFFFF, 0xD800, 0xDC00],
    ];
    for units in samples {
        assert_eq!(utf16::decode_lossy(&units), String::from_utf16_lossy(&units));
    }
}

#[test]
fn latin1_bytes_are_code_points() {
    assert_eq!(utf16::decode_latin1(&vec![0x68, 0xE9, 0xFF]), "h\u{e9}\u{ff}");
    assert_eq!(utf16::decode_latin1(&vec![]), "");
}

#[test]
fn multi_byte_text_survives_the_round_trip() {
    let text = String::from("na\u{ef}ve \u{65e5}\u{672c}\u{8a9e} \u{1F600}");
    let v = text.to_js_value();
    assert_eq!(String::from_js_value(&v), Ok(text.clone()));
    assert_eq!(text.as_str().to_js_value(), v);
}

#[test]
fn strings_are_built_two_byte() {
    assert_eq!("hi".to_js_value(), JSVal::String(JSString::TwoByte(vec![0x68, 0x69])));
}

#[test]
fn strings_are_read_in_either_width() {
    assert_eq!(
        String::from_js_value(&JSVal::String(JSString::Latin1(vec![0x63, 0x61, 0x66, 0xE9]))),
        Ok(String::from("caf\u{e9}"))
    );
    assert_eq!(
        String::from_js_value(&JSVal::String(JSString::TwoByte(vec![0x63, 0xD800]))),
        Ok(String::from("c\u{FFFD}"))
    );
    assert_eq!(String::try_from_js_value(&JSVal::Null), None);
}

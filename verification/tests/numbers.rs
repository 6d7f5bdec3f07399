use js_debugger::convert::{FromJSValue, ToJSValue};
use js_debugger::jsval::{Double, JSVal};

fn double(x: f64) -> Double {
    Double { bits: x.to_bits() }
}

#[test]
fn from_u32_matches_the_hardware() {
    let samples: [u32; 12] = [
        0, 1, 2, 3, 7, 255, 65_536, 0x7FFF_FFFF, 0x8000_0000, 0x8000_0001, 0xDEAD_BEEF,
        0xFFFF_FFFF,
    ];
    for u in samples {
        assert_eq!(Double::from_u32(u).bits, (u as f64).to_bits());
    }
}

#[test]
fn from_i32_matches_the_hardware() {
    let samples: [i32; 11] =
        [0, 1, -1, 2, -2, 1000, -1000, i32::MAX, i32::MIN, i32::MIN + 1, 0x4000_0000];
    for i in samples {
        assert_eq!(Double::from_i32(i).bits, (i as f64).to_bits());
    }
}

#[test]
fn to_i32_reads_exact_integers_only() {
    assert_eq!(double(0.0).to_i32(), Some(0));
    assert_eq!(double(-0.0).to_i32(), None);
    assert_eq!(double(1.0).to_i32(), Some(1));
    assert_eq!(double(-1.0).to_i32(), Some(-1));
    assert_eq!(double(2147483647.0).to_i32(), Some(i32::MAX));
    assert_eq!(double(-2147483648.0).to_i32(), Some(i32::MIN));
    assert_eq!(double(2147483648.0).to_i32(), None);
    assert_eq!(double(-2147483649.0).to_i32(), None);
    assert_eq!(double(0.5).to_i32(), None);
    assert_eq!(double(3.14).to_i32(), None);
    assert_eq!(double(1e300).to_i32(), None);
    assert_eq!(double(5e-324).to_i32(), None);
    assert_eq!(double(f64::NAN).to_i32(), None);
    assert_eq!(double(f64::INFINITY).to_i32(), None);
    assert_eq!(double(f64::NEG_INFINITY).to_i32(), None);
}

#[test]
fn to_u32_reads_exact_integers_only() {
    assert_eq!(double(0.0).to_u32(), Some(0));
    assert_eq!(double(-0.0).to_u32(), Some(0));
    assert_eq!(double(1.0).to_u32(), Some(1));
    assert_eq!(double(-1.0).to_u32(), None);
    assert_eq!(double(4294967295.0).to_u32(), Some(u32::MAX));
    assert_eq!(double(4294967296.0).to_u32(), None);
    assert_eq!(double(2147483648.0).to_u32(), Some(0x8000_0000));
    assert_eq!(double(2147483648.5).to_u32(), None);
    assert_eq!(double(f64::NAN).to_u32(), None);
    assert_eq!(double(f64::INFINITY).to_u32(), None);
}

#[test]
fn unsigned_boundary_uses_integer_storage_up_to_int32_max() {
    assert_eq!(0x7FFF_FFFFu32.to_js_value(), JSVal::Int32(0x7FFF_FFFF));
    assert_eq!(0x8000_0000u32.to_js_value(), JSVal::Double(double(2147483648.0)));
    assert_eq!(u32::from_js_value(&0x7FFF_FFFFu32.to_js_value()), Ok(0x7FFF_FFFF));
    assert_eq!(u32::from_js_value(&0x8000_0000u32.to_js_value()), Ok(0x8000_0000));
    assert_eq!(u32::from_js_value(&u32::MAX.to_js_value()), Ok(u32::MAX));
    assert_eq!(u32::from_js_value(&0u32.to_js_value()), Ok(0));
}

#[test]
fn negative_integer_storage_wraps_when_read_unsigned() {
    assert_eq!(u32::from_js_value(&JSVal::Int32(-1)), Ok(u32::MAX));
    assert_eq!(u32::from_js_value(&JSVal::Int32(i32::MIN)), Ok(0x8000_0000));
}

#[test]
fn doubles_take_integer_storage_where_they_are_integers() {
    assert_eq!(double(42.0).to_js_value(), JSVal::Int32(42));
    assert_eq!(double(-0.0).to_js_value(), JSVal::Double(double(-0.0)));
    assert_eq!(double(3.14).to_js_value(), JSVal::Double(double(3.14)));
    assert_eq!(Double::from_js_value(&double(42.0).to_js_value()), Ok(double(42.0)));
    assert_eq!(Double::from_js_value(&double(-0.0).to_js_value()), Ok(double(-0.0)));
    assert_eq!(Double::from_js_value(&double(3.14).to_js_value()), Ok(double(3.14)));
    assert_eq!(Double::from_js_value(&JSVal::Int32(-7)), Ok(double(-7.0)));
}

#[test]
fn integers_are_read_from_either_storage() {
    assert_eq!(i32::from_js_value(&JSVal::Int32(-5)), Ok(-5));
    assert_eq!(i32::from_js_value(&JSVal::Double(double(-5.0))), Ok(-5));
    assert_eq!(i32::try_from_js_value(&JSVal::Double(double(0.5))), None);
    assert_eq!(i32::try_from_js_value(&JSVal::Boolean(true)), None);
    assert_eq!(u32::try_from_js_value(&JSVal::Double(double(-1.0))), None);
}

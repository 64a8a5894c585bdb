use bytecode_parser::access_flag::{AccessFlag, AccessFlags};
use bytecode_parser::error::Error;
use bytecode_parser::float::{parse_double, parse_float, FloatValue};
use bytecode_parser::leb128::{encode_uleb128, parse_uleb128, read_uleb128};
use bytecode_parser::utf::{parse_utf16, parse_utf16_str};

fn value_of(v: FloatValue) -> f64 {
    match v {
        FloatValue::PosInfinity => f64::INFINITY,
        FloatValue::NegInfinity => f64::NEG_INFINITY,
        FloatValue::NaN => f64::NAN,
        FloatValue::Finite { negative, significand, exponent } => {
            let m = significand as f64 * 2f64.powi(exponent);
            if negative {
                -m
            } else {
                m
            }
        }
    }
}

#[test]
fn varint_round_trip_on_chosen_values() {
    for v in [0u32, 1, 127, 128, 300, 16383, 16384, 624485, 0x0fff_ffff, 0x1000_0000, u32::MAX] {
        let e = encode_uleb128(v);
        assert_eq!(parse_uleb128(&e), Some((v, e.len())));
    }
}

#[test]
fn varint_encodings_have_expected_bytes() {
    assert_eq!(encode_uleb128(0), vec![0x00]);
    assert_eq!(encode_uleb128(127), vec![0x7f]);
    assert_eq!(encode_uleb128(128), vec![0x80, 0x01]);
    assert_eq!(encode_uleb128(624485), vec![0xe5, 0x8e, 0x26]);
    assert_eq!(encode_uleb128(u32::MAX), vec![0xff, 0xff, 0xff, 0xff, 0x0f]);
}

#[test]
fn varint_decodes_known_value_and_stops_at_its_end() {
    assert_eq!(parse_uleb128(&[0xe5, 0x8e, 0x26, 0x99]), Some((624485, 3)));
    assert_eq!(parse_uleb128(&[0x05, 0x80]), Some((5, 1)));
}

#[test]
fn varint_cut_short_or_too_long_fails() {
    assert_eq!(parse_uleb128(&[]), None);
    assert_eq!(parse_uleb128(&[0x80, 0x80]), None);
    assert_eq!(parse_uleb128(&[0x80, 0x80, 0x80, 0x80, 0x80, 0x01]), None);
    assert_eq!(read_uleb128(&[0x80, 0x80], 0), Err(Error::Truncated));
    assert_eq!(read_uleb128(&[0x80, 0x80, 0x80, 0x80, 0x80, 0x01], 0), Err(Error::Format));
}

#[test]
fn float_special_patterns() {
    assert_eq!(parse_float(0x7f80_0000), FloatValue::PosInfinity);
    assert_eq!(parse_float(0xff80_0000), FloatValue::NegInfinity);
    assert_eq!(parse_float(0x7fc0_0000), FloatValue::NaN);
    assert_eq!(value_of(parse_float(0x7f80_0000)), f64::INFINITY);
    assert_eq!(value_of(parse_float(0xff80_0000)), f64::NEG_INFINITY);
    assert!(value_of(parse_float(0x7fc0_0000)).is_nan());
}

#[test]
fn float_zero_and_one() {
    assert_eq!(
        parse_float(0),
        FloatValue::Finite { negative: false, significand: 0, exponent: -150 }
    );
    assert_eq!(value_of(parse_float(0)), 0.0);
    assert_eq!(
        parse_float(0x3f80_0000),
        FloatValue::Finite { negative: false, significand: 0x80_0000, exponent: -23 }
    );
    assert_eq!(value_of(parse_float(0x3f80_0000)), 1.0);
    assert_eq!(value_of(parse_float(0xc000_0000)), -2.0);
}

#[test]
fn float_subnormal_has_no_leading_bit() {
    assert_eq!(
        parse_float(0x0000_0001),
        FloatValue::Finite { negative: false, significand: 2, exponent: -150 }
    );
    assert_eq!(value_of(parse_float(1)) as f32, f32::from_bits(1));
}

#[test]
fn double_patterns() {
    assert_eq!(parse_double(0x7ff0_0000_0000_0000), FloatValue::PosInfinity);
    assert_eq!(parse_double(0xfff0_0000_0000_0000), FloatValue::NegInfinity);
    assert_eq!(parse_double(0x7ff0_0000_0000_0001), FloatValue::NaN);
    assert_eq!(parse_double(0x7fff_ffff_ffff_ffff), FloatValue::NaN);
    assert_eq!(parse_double(0xfff0_0000_0000_0001), FloatValue::NaN);
    assert_eq!(value_of(parse_double(0x3ff0_0000_0000_0000)), 1.0);
    assert_eq!(value_of(parse_double(0x4009_21fb_5444_2d18)), std::f64::consts::PI);
    assert_eq!(value_of(parse_double(0)), 0.0);
}

#[test]
fn class_flags_follow_table_order() {
    let f = AccessFlags::new_class_flag(0x0021);
    assert_eq!(f.0, vec![AccessFlag::Public, AccessFlag::Super]);
    assert_eq!(f.1, 0x0021);
    let f = AccessFlags::new_class_flag(0x0601);
    assert_eq!(f.0, vec![AccessFlag::Public, AccessFlag::Interface, AccessFlag::Abstract]);
}

#[test]
fn field_and_method_flags_share_bits_differently() {
    let f = AccessFlags::new_field_flag(0x00c0);
    assert_eq!(f.0, vec![AccessFlag::Volatile, AccessFlag::Transient]);
    let m = AccessFlags::new_method_flag(0x00c0);
    assert_eq!(m.0, vec![AccessFlag::Bridge, AccessFlag::Varargs]);
    let m = AccessFlags::new_method_flag(0x0009);
    assert_eq!(m.0, vec![AccessFlag::Public, AccessFlag::Static]);
    assert_eq!(AccessFlags::new_method_flag(0).0, vec![]);
}

#[test]
fn flag_names() {
    assert_eq!(AccessFlag::Public.name(), "ACC_PUBLIC");
    assert_eq!(AccessFlag::Abstract.name(), "ACC_ABSTRACT");
    assert_eq!(AccessFlag::Enum.name(), "ACC_ENUM");
}

#[test]
fn utf16_one_to_four_bytes() {
    assert_eq!(parse_utf16(&[0x41], 0), Ok((0x41, 1)));
    assert_eq!(parse_utf16(&[0xc3, 0xa9], 0), Ok((0xe9, 2)));
    assert_eq!(parse_utf16(&[0xe2, 0x82, 0xac], 0), Ok((0x20ac, 3)));
    assert_eq!(parse_utf16(&[0xf0, 0x9f, 0x98, 0x80], 0), Ok((0xde00_d83d, 4)));
    assert_eq!(parse_utf16(&[0xe2, 0x82], 0), Err(Error::Truncated));
}

#[test]
fn utf16_string_with_surrogate_pair() {
    let b = [0x41, 0xf0, 0x9f, 0x98, 0x80, 0xc3, 0xa9, 0x00, 0x42];
    assert_eq!(parse_utf16_str(&b, 0), Ok((vec![0x41, 0xd83d, 0xde00, 0xe9], 7)));
    assert_eq!(parse_utf16_str(&[0x00], 0), Ok((vec![], 0)));
    assert_eq!(parse_utf16_str(&[0x41, 0x42], 0), Err(Error::Truncated));
}

use mqtt_simulator::data::{Endian, FloatWidth, IntWidth, StringEncoding, Value};
use mqtt_simulator::narrow::narrow_double_bits;

fn bytes_of(v: &Value) -> Vec<u8> {
    let mut out = Vec::new();
    v.serialize(&mut out);
    out
}

#[test]
fn bool_serializes_to_one_byte() {
    assert_eq!(bytes_of(&Value::Bool(true)), vec![1u8]);
    assert_eq!(bytes_of(&Value::Bool(false)), vec![0u8]);
}

#[test]
fn int_lengths_match_width_for_all_combinations() {
    let widths = [
        (IntWidth::Eight, 1usize),
        (IntWidth::Sixteen, 2),
        (IntWidth::Thirtytwo, 4),
        (IntWidth::Sixtyfour, 8),
    ];
    for (w, n) in widths {
        for e in [Endian::LittleEndian, Endian::BigEndian] {
            let u = Value::UInt { value: 0x1122334455667788, endian: e, width: w };
            assert_eq!(bytes_of(&u).len(), n);
            let i = Value::Int { value: -12345, endian: e, width: w };
            assert_eq!(bytes_of(&i).len(), n);
        }
    }
}

#[test]
fn truncation_int_300_width_eight() {
    let v = Value::Int { value: 300, endian: Endian::BigEndian, width: IntWidth::Eight };
    assert_eq!(bytes_of(&v), vec![0x2C]);
}

#[test]
fn truncation_minus_one_width_sixteen_little_endian() {
    let v = Value::Int { value: -1, endian: Endian::LittleEndian, width: IntWidth::Sixteen };
    assert_eq!(bytes_of(&v), vec![0xFF, 0xFF]);
}

#[test]
fn uint_byte_orders() {
    let v = Value::UInt {
        value: 0x0102030405060708,
        endian: Endian::BigEndian,
        width: IntWidth::Sixtyfour,
    };
    assert_eq!(bytes_of(&v), vec![1, 2, 3, 4, 5, 6, 7, 8]);
    let v = Value::UInt {
        value: 0x0102030405060708,
        endian: Endian::LittleEndian,
        width: IntWidth::Sixtyfour,
    };
    assert_eq!(bytes_of(&v), vec![8, 7, 6, 5, 4, 3, 2, 1]);
    let v = Value::UInt { value: 0xABCD, endian: Endian::BigEndian, width: IntWidth::Sixteen };
    assert_eq!(bytes_of(&v), vec![0xAB, 0xCD]);
}

#[test]
fn string_utf16le_and_utf8() {
    let v = Value::Text { value: "A".to_string(), encoding: StringEncoding::UTF16LE };
    assert_eq!(bytes_of(&v), vec![0xFF, 0xFE, 0x41, 0x00]);
    let v = Value::Text { value: "A".to_string(), encoding: StringEncoding::UTF8 };
    assert_eq!(bytes_of(&v), vec![0x41]);
}

#[test]
fn string_utf16be_with_surrogate_pair() {
    let v = Value::Text { value: "\u{1D11E}".to_string(), encoding: StringEncoding::UTF16BE };
    assert_eq!(bytes_of(&v), vec![0xFE, 0xFF, 0xD8, 0x34, 0xDD, 0x1E]);
}

#[test]
fn string_utf8_multibyte() {
    let v = Value::Text { value: "é".to_string(), encoding: StringEncoding::UTF8 };
    assert_eq!(bytes_of(&v), "é".as_bytes().to_vec());
}

#[test]
fn array_concatenates_elements() {
    let v = Value::Array(vec![
        Value::Bool(true),
        Value::UInt { value: 1, endian: Endian::BigEndian, width: IntWidth::Eight },
    ]);
    assert_eq!(bytes_of(&v), vec![0x01, 0x01]);
}

#[test]
fn empty_array_serializes_to_nothing() {
    assert_eq!(bytes_of(&Value::Array(vec![])), Vec::<u8>::new());
}

#[test]
fn json_passthrough_writes_stored_text() {
    let v = Value::Json(b"{\"a\":1}".to_vec());
    assert_eq!(bytes_of(&v), b"{\"a\":1}".to_vec());
}

#[test]
fn float_width_sixtyfour_writes_pattern_verbatim() {
    let x: f64 = 1.5;
    let v = Value::Float { bits: x.to_bits(), endian: Endian::BigEndian, width: FloatWidth::Sixtyfour };
    assert_eq!(bytes_of(&v), x.to_be_bytes().to_vec());
    let v = Value::Float { bits: x.to_bits(), endian: Endian::LittleEndian, width: FloatWidth::Sixtyfour };
    assert_eq!(bytes_of(&v), x.to_le_bytes().to_vec());
}

#[test]
fn float_width_thirtytwo_narrows_like_a_cast() {
    let x: f64 = 1.1;
    let v = Value::Float { bits: x.to_bits(), endian: Endian::BigEndian, width: FloatWidth::Thirtytwo };
    assert_eq!(bytes_of(&v), (x as f32).to_be_bytes().to_vec());
}

#[test]
fn narrowing_matches_the_standard_cast() {
    let samples: [f64; 14] = [
        0.0,
        -0.0,
        1.0,
        -1.5,
        1.1,
        3.1415926535897931,
        1.0e-40,
        -1.0e-40,
        1.0e-300,
        1.0e300,
        -1.0e39,
        3.4028235e38,
        f64::INFINITY,
        f64::NEG_INFINITY,
    ];
    for x in samples {
        assert_eq!(
            narrow_double_bits(x.to_bits()),
            (x as f32).to_bits(),
            "narrowing differs for {x}"
        );
    }
    // Ties round to even, in both directions.
    let tie = f64::from_bits(0x3FF0000010000000);
    assert_eq!(narrow_double_bits(tie.to_bits()), (tie as f32).to_bits());
    let tie2 = f64::from_bits(0x3FF0000030000000);
    assert_eq!(narrow_double_bits(tie2.to_bits()), (tie2 as f32).to_bits());
    // A NaN narrows to a NaN.
    assert!(f32::from_bits(narrow_double_bits(f64::NAN.to_bits())).is_nan());
}

#[test]
fn encode_method_appends_to_buffer() {
    let mut out = vec![0xAAu8];
    StringEncoding::UTF8.encode("hi", &mut out);
    assert_eq!(out, vec![0xAA, b'h', b'i']);
}

#[test]
fn defaults_are_big_endian_widest_utf8() {
    assert_eq!(Endian::default(), Endian::BigEndian);
    assert_eq!(IntWidth::default(), IntWidth::Sixtyfour);
    assert_eq!(FloatWidth::default(), FloatWidth::Sixtyfour);
    assert_eq!(StringEncoding::default(), StringEncoding::UTF8);
}

#[test]
fn width_eight_ignores_endianness() {
    for e in [Endian::LittleEndian, Endian::BigEndian] {
        let v = Value::UInt { value: 0x1234, endian: e, width: IntWidth::Eight };
        assert_eq!(bytes_of(&v), vec![0x34]);
    }
}

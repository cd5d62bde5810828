use mqtt_simulator::data::{Endian, FloatWidth, IntWidth, StringEncoding, Value};
use mqtt_simulator::parse::{parse, ParseError};

fn bytes_of(v: &Value) -> Vec<u8> {
    let mut out = Vec::new();
    v.serialize(&mut out);
    out
}

fn parse_single(data: &str) -> Value {
    let text = format!("[{{\"topic\":\"t\",\"data\":{data}}}]");
    let ds = parse(&text).expect("config should parse");
    assert_eq!(ds.len(), 1);
    assert_eq!(ds[0].topic(), "t");
    let mut it = ds.into_iter();
    let first = it.next().unwrap();
    first.data
}

fn parse_err(text: &str) -> ParseError {
    parse(text).expect_err("config should be rejected")
}

#[test]
fn object_with_unsigned_value_selects_uint() {
    let v = parse_single("{\"value\": 5}");
    assert_eq!(
        v,
        Value::UInt { value: 5, endian: Endian::BigEndian, width: IntWidth::Sixtyfour }
    );
}

#[test]
fn object_with_negative_value_selects_int() {
    let v = parse_single("{\"value\": -5}");
    assert_eq!(
        v,
        Value::Int { value: -5, endian: Endian::BigEndian, width: IntWidth::Sixtyfour }
    );
}

#[test]
fn object_with_fractional_value_selects_float() {
    let v = parse_single("{\"value\": 1.5}");
    assert_eq!(
        v,
        Value::Float {
            bits: 1.5f64.to_bits(),
            endian: Endian::BigEndian,
            width: FloatWidth::Sixtyfour
        }
    );
}

#[test]
fn object_with_string_value_selects_text() {
    let v = parse_single("{\"value\": \"A\", \"encoding\": \"UTF16LE\"}");
    assert_eq!(v, Value::Text { value: "A".to_string(), encoding: StringEncoding::UTF16LE });
}

#[test]
fn explicit_parameters_are_honoured() {
    let v = parse_single("{\"value\": 5, \"endian\": \"LittleEndian\", \"width\": \"16\"}");
    assert_eq!(
        v,
        Value::UInt { value: 5, endian: Endian::LittleEndian, width: IntWidth::Sixteen }
    );
}

#[test]
fn omitted_parameters_serialize_like_explicit_defaults() {
    let implicit = parse_single("{\"value\": 300}");
    let explicit = parse_single("{\"value\": 300, \"endian\": \"BigEndian\", \"width\": \"64\"}");
    assert_eq!(bytes_of(&implicit), bytes_of(&explicit));
    assert_eq!(implicit, explicit);
}

#[test]
fn bare_scalars_take_their_variant() {
    assert_eq!(parse_single("true"), Value::Bool(true));
    assert_eq!(
        parse_single("7"),
        Value::UInt { value: 7, endian: Endian::BigEndian, width: IntWidth::Sixtyfour }
    );
    assert_eq!(
        parse_single("-7"),
        Value::Int { value: -7, endian: Endian::BigEndian, width: IntWidth::Sixtyfour }
    );
    assert_eq!(
        parse_single("\"hi\""),
        Value::Text { value: "hi".to_string(), encoding: StringEncoding::UTF8 }
    );
    assert_eq!(
        parse_single("2.5"),
        Value::Float {
            bits: 2.5f64.to_bits(),
            endian: Endian::BigEndian,
            width: FloatWidth::Sixtyfour
        }
    );
}

#[test]
fn arrays_resolve_elementwise_in_order() {
    let v = parse_single("[true, {\"value\": 1, \"width\": \"8\"}]");
    assert_eq!(
        v,
        Value::Array(vec![
            Value::Bool(true),
            Value::UInt { value: 1, endian: Endian::BigEndian, width: IntWidth::Eight },
        ])
    );
    assert_eq!(bytes_of(&v), vec![0x01, 0x01]);
}

#[test]
fn unmatched_documents_fall_through_to_opaque_json() {
    assert_eq!(parse_single("null"), Value::Json(b"null".to_vec()));
    let v = parse_single("{\"a\": 1, \"b\": [true, null]}");
    assert_eq!(v, Value::Json(b"{\"a\":1,\"b\":[true,null]}".to_vec()));
    // An object without a recognised value field is opaque too.
    let v = parse_single("{\"value\": true}");
    assert_eq!(v, Value::Json(b"{\"value\":true}".to_vec()));
}

#[test]
fn opaque_json_keeps_float_text() {
    let v = parse_single("{\"x\": 1.5}");
    assert_eq!(v, Value::Json(b"{\"x\":1.5}".to_vec()));
}

#[test]
fn unknown_extra_fields_are_ignored() {
    let v = parse_single("{\"value\": 5, \"comment\": \"irrelevant\"}");
    assert_eq!(
        v,
        Value::UInt { value: 5, endian: Endian::BigEndian, width: IntWidth::Sixtyfour }
    );
}

#[test]
fn bad_parameters_are_rejected() {
    assert_eq!(
        parse_err("[{\"topic\":\"t\",\"data\":{\"value\":5,\"width\":7}}]"),
        ParseError::BadIntWidth
    );
    assert_eq!(
        parse_err("[{\"topic\":\"t\",\"data\":{\"value\":5,\"width\":\"7\"}}]"),
        ParseError::BadIntWidth
    );
    assert_eq!(
        parse_err("[{\"topic\":\"t\",\"data\":{\"value\":5,\"endian\":\"MiddleEndian\"}}]"),
        ParseError::BadEndian
    );
    assert_eq!(
        parse_err("[{\"topic\":\"t\",\"data\":{\"value\":1.5,\"width\":16}}]"),
        ParseError::BadFloatWidth
    );
    assert_eq!(
        parse_err("[{\"topic\":\"t\",\"data\":{\"value\":\"A\",\"encoding\":\"EBCDIC\"}}]"),
        ParseError::BadEncoding
    );
}

#[test]
fn document_shape_errors() {
    assert_eq!(parse_err("not json at all"), ParseError::Syntax);
    assert_eq!(parse_err("{\"topic\":\"t\"}"), ParseError::NotAnArray);
    assert_eq!(parse_err("[42]"), ParseError::EntryNotObject);
    assert_eq!(parse_err("[{\"data\": 5}]"), ParseError::BadTopic);
    assert_eq!(parse_err("[{\"topic\": 5, \"data\": 5}]"), ParseError::BadTopic);
    assert_eq!(parse_err("[{\"topic\":\"t\"}]"), ParseError::MissingData);
}

#[test]
fn entries_keep_document_order() {
    let ds = parse(
        "[{\"topic\":\"a\",\"data\":1},{\"topic\":\"b\",\"data\":2},{\"topic\":\"c\",\"data\":3}]",
    )
    .expect("config should parse");
    let topics: Vec<&str> = ds.iter().map(|d| d.topic()).collect();
    assert_eq!(topics, vec!["a", "b", "c"]);
}

#[test]
fn parsing_is_repeatable_without_side_effects() {
    let text = "[{\"topic\":\"t\",\"data\":{\"value\":5}}]";
    let first = parse(text).expect("config should parse");
    let second = parse(text).expect("config should parse");
    assert_eq!(first, second);
}

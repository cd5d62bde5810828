//! The config resolver: turns JSON text into an ordered dataset, choosing
//! each value's variant by structural matching in a fixed order — boolean,
//! then unsigned integer, signed integer, float, string, array, and finally
//! the opaque document that always matches.
use vstd::prelude::*;

use vstd::string::StringExecFns;

use crate::data::{Data, Endian, FloatWidth, IntWidth, StringEncoding, Value};
use crate::json::{json_text_of, json_to_vec, parse_json, parsed_json_of, JsonNode};
use crate::serialize::{spec_serialize, spec_serialize_seq};

verus! {

/// Why a config document was rejected.
#[derive(Clone, Copy, Debug, PartialEq, Eq, Structural)]
pub enum ParseError {
    /// The text is not valid JSON.
    Syntax,
    /// The top-level document is not an array.
    NotAnArray,
    /// An element of the top-level array is not an object.
    EntryNotObject,
    /// An entry has no topic field holding a string.
    BadTopic,
    /// An entry has no data field.
    MissingData,
    /// An endian field names no known byte order.
    BadEndian,
    /// A width field names no known integer width.
    BadIntWidth,
    /// A width field names no known float width.
    BadFloatWidth,
    /// An encoding field names no known string encoding.
    BadEncoding,
}

/// The value bound to the first field named `name`, if any.
pub open spec fn spec_lookup(fields: Seq<(String, JsonNode)>, name: Seq<char>) -> Option<JsonNode>
    decreases fields.len(),
{
    if fields.len() == 0 {
        None
    } else if fields[0].0@ == name {
        Some(fields[0].1)
    } else {
        spec_lookup(fields.subrange(1, fields.len() as int), name)
    }
}

fn lookup<'a>(fields: &'a Vec<(String, JsonNode)>, name: &String) -> (r: Option<&'a JsonNode>)
    ensures
        match r {
            Some(n) => spec_lookup(fields@, name@) == Some(*n),
            None => spec_lookup(fields@, name@) is None,
        },
{
    let mut i: usize = 0;
    assert(fields@.subrange(0, fields@.len() as int) =~= fields@);
    while i < fields.len()
        invariant
            i <= fields@.len(),
            spec_lookup(fields@.subrange(i as int, fields@.len() as int), name@) == spec_lookup(
                fields@,
                name@,
            ),
        decreases fields@.len() - i,
    {
        let sub = Ghost(fields@.subrange(i as int, fields@.len() as int));
        assert(sub@[0] == fields@[i as int]);
        if fields[i].0 == *name {
            return Some(&fields[i].1);
        }
        assert(sub@.subrange(1, sub@.len() as int) =~= fields@.subrange(
            i + 1 as int,
            fields@.len() as int,
        ));
        i = i + 1;
    }
    assert(fields@.subrange(fields@.len() as int, fields@.len() as int) =~= Seq::<(
        String,
        JsonNode,
    )>::empty());
    None
}

/// The byte order an object declares, or the default when it declares none.
pub open spec fn spec_read_endian(fields: Seq<(String, JsonNode)>) -> Result<Endian, ParseError> {
    match spec_lookup(fields, "endian"@) {
        Option::None => Ok(Endian::BigEndian),
        Option::Some(n) => match n {
            JsonNode::Text(s) => if s@ == "LittleEndian"@ {
                Ok(Endian::LittleEndian)
            } else if s@ == "BigEndian"@ {
                Ok(Endian::BigEndian)
            } else {
                Err(ParseError::BadEndian)
            },
            _ => Err(ParseError::BadEndian),
        },
    }
}

fn read_endian(fields: &Vec<(String, JsonNode)>) -> (r: Result<Endian, ParseError>)
    ensures
        r == spec_read_endian(fields@),
{
    match lookup(fields, &String::from_str("endian")) {
        None => Ok(Endian::BigEndian),
        Some(n) => match n {
            JsonNode::Text(s) => {
                if *s == String::from_str("LittleEndian") {
                    Ok(Endian::LittleEndian)
                } else if *s == String::from_str("BigEndian") {
                    Ok(Endian::BigEndian)
                } else {
                    Err(ParseError::BadEndian)
                }
            },
            _ => Err(ParseError::BadEndian),
        },
    }
}

/// The integer width a width field names: the written-out name or the
/// number of bits, as a string or as a number.
pub open spec fn spec_int_width_of(n: JsonNode) -> Option<IntWidth> {
    match n {
        JsonNode::Text(s) => if s@ == "Eight"@ || s@ == "8"@ {
            Some(IntWidth::Eight)
        } else if s@ == "Sixteen"@ || s@ == "16"@ {
            Some(IntWidth::Sixteen)
        } else if s@ == "Thirtytwo"@ || s@ == "32"@ {
            Some(IntWidth::Thirtytwo)
        } else if s@ == "Sixtyfour"@ || s@ == "64"@ {
            Some(IntWidth::Sixtyfour)
        } else {
            None
        },
        JsonNode::UInt(u) => if u == 8 {
            Some(IntWidth::Eight)
        } else if u == 16 {
            Some(IntWidth::Sixteen)
        } else if u == 32 {
            Some(IntWidth::Thirtytwo)
        } else if u == 64 {
            Some(IntWidth::Sixtyfour)
        } else {
            None
        },
        _ => None,
    }
}

/// The integer width an object declares, or the default when it declares
/// none.
pub open spec fn spec_read_int_width(fields: Seq<(String, JsonNode)>) -> Result<
    IntWidth,
    ParseError,
> {
    match spec_lookup(fields, "width"@) {
        Option::None => Ok(IntWidth::Sixtyfour),
        Option::Some(n) => match spec_int_width_of(n) {
            Some(w) => Ok(w),
            None => Err(ParseError::BadIntWidth),
        },
    }
}

fn read_int_width(fields: &Vec<(String, JsonNode)>) -> (r: Result<IntWidth, ParseError>)
    ensures
        r == spec_read_int_width(fields@),
{
    match lookup(fields, &String::from_str("width")) {
        None => Ok(IntWidth::Sixtyfour),
        Some(n) => match n {
            JsonNode::Text(s) => {
                if *s == String::from_str("Eight") || *s == String::from_str("8") {
                    Ok(IntWidth::Eight)
                } else if *s == String::from_str("Sixteen") || *s == String::from_str("16") {
                    Ok(IntWidth::Sixteen)
                } else if *s == String::from_str("Thirtytwo") || *s == String::from_str("32") {
                    Ok(IntWidth::Thirtytwo)
                } else if *s == String::from_str("Sixtyfour") || *s == String::from_str("64") {
                    Ok(IntWidth::Sixtyfour)
                } else {
                    Err(ParseError::BadIntWidth)
                }
            },
            JsonNode::UInt(u) => {
                if *u == 8 {
                    Ok(IntWidth::Eight)
                } else if *u == 16 {
                    Ok(IntWidth::Sixteen)
                } else if *u == 32 {
                    Ok(IntWidth::Thirtytwo)
                } else if *u == 64 {
                    Ok(IntWidth::Sixtyfour)
                } else {
                    Err(ParseError::BadIntWidth)
                }
            },
            _ => Err(ParseError::BadIntWidth),
        },
    }
}

/// The float width a width field names.
pub open spec fn spec_float_width_of(n: JsonNode) -> Option<FloatWidth> {
    match n {
        JsonNode::Text(s) => if s@ == "Thirtytwo"@ || s@ == "32"@ {
            Some(FloatWidth::Thirtytwo)
        } else if s@ == "Sixtyfour"@ || s@ == "64"@ {
            Some(FloatWidth::Sixtyfour)
        } else {
            None
        },
        JsonNode::UInt(u) => if u == 32 {
            Some(FloatWidth::Thirtytwo)
        } else if u == 64 {
            Some(FloatWidth::Sixtyfour)
        } else {
            None
        },
        _ => None,
    }
}

/// The float width an object declares, or the default when it declares
/// none.
pub open spec fn spec_read_float_width(fields: Seq<(String, JsonNode)>) -> Result<
    FloatWidth,
    ParseError,
> {
    match spec_lookup(fields, "width"@) {
        Option::None => Ok(FloatWidth::Sixtyfour),
        Option::Some(n) => match spec_float_width_of(n) {
            Some(w) => Ok(w),
            None => Err(ParseError::BadFloatWidth),
        },
    }
}

fn read_float_width(fields: &Vec<(String, JsonNode)>) -> (r: Result<FloatWidth, ParseError>)
    ensures
        r == spec_read_float_width(fields@),
{
    match lookup(fields, &String::from_str("width")) {
        None => Ok(FloatWidth::Sixtyfour),
        Some(n) => match n {
            JsonNode::Text(s) => {
                if *s == String::from_str("Thirtytwo") || *s == String::from_str("32") {
                    Ok(FloatWidth::Thirtytwo)
                } else if *s == String::from_str("Sixtyfour") || *s == String::from_str("64") {
                    Ok(FloatWidth::Sixtyfour)
                } else {
                    Err(ParseError::BadFloatWidth)
                }
            },
            JsonNode::UInt(u) => {
                if *u == 32 {
                    Ok(FloatWidth::Thirtytwo)
                } else if *u == 64 {
                    Ok(FloatWidth::Sixtyfour)
                } else {
                    Err(ParseError::BadFloatWidth)
                }
            },
            _ => Err(ParseError::BadFloatWidth),
        },
    }
}

/// The string encoding an object declares, or the default when it declares
/// none.
pub open spec fn spec_read_encoding(fields: Seq<(String, JsonNode)>) -> Result<
    StringEncoding,
    ParseError,
> {
    match spec_lookup(fields, "encoding"@) {
        Option::None => Ok(StringEncoding::UTF8),
        Option::Some(n) => match n {
            JsonNode::Text(s) => if s@ == "UTF8"@ {
                Ok(StringEncoding::UTF8)
            } else if s@ == "UTF16BE"@ {
                Ok(StringEncoding::UTF16BE)
            } else if s@ == "UTF16LE"@ {
                Ok(StringEncoding::UTF16LE)
            } else {
                Err(ParseError::BadEncoding)
            },
            _ => Err(ParseError::BadEncoding),
        },
    }
}

fn read_encoding(fields: &Vec<(String, JsonNode)>) -> (r: Result<StringEncoding, ParseError>)
    ensures
        r == spec_read_encoding(fields@),
{
    match lookup(fields, &String::from_str("encoding")) {
        None => Ok(StringEncoding::UTF8),
        Some(n) => match n {
            JsonNode::Text(s) => {
                if *s == String::from_str("UTF8") {
                    Ok(StringEncoding::UTF8)
                } else if *s == String::from_str("UTF16BE") {
                    Ok(StringEncoding::UTF16BE)
                } else if *s == String::from_str("UTF16LE") {
                    Ok(StringEncoding::UTF16LE)
                } else {
                    Err(ParseError::BadEncoding)
                }
            },
            _ => Err(ParseError::BadEncoding),
        },
    }
}

/// The error, if any, that resolving this JSON value yields: the first
/// parameter field that names nothing known, walking arrays in order.
/// Scalars and values that fall through to the opaque document never err.
pub open spec fn spec_resolve_err(n: JsonNode) -> Option<ParseError>
    decreases n,
{
    match n {
        JsonNode::Array(elems) => spec_resolve_seq_err(elems@),
        JsonNode::Object(fields) => match spec_lookup(fields@, "value"@) {
            Option::Some(JsonNode::UInt(_)) => spec_params_err(
                spec_read_endian(fields@),
                spec_read_int_width(fields@),
            ),
            Option::Some(JsonNode::Int(_)) => spec_params_err(
                spec_read_endian(fields@),
                spec_read_int_width(fields@),
            ),
            Option::Some(JsonNode::Float { .. }) => match (
                spec_read_endian(fields@),
                spec_read_float_width(fields@),
            ) {
                (Err(e), _) => Some(e),
                (Ok(_), Err(e)) => Some(e),
                (Ok(_), Ok(_)) => None,
            },
            Option::Some(JsonNode::Text(_)) => match spec_read_encoding(fields@) {
                Err(e) => Some(e),
                Ok(_) => None,
            },
            _ => None,
        },
        _ => None,
    }
}

/// The first error among an endian and an integer width parameter.
pub open spec fn spec_params_err(
    e: Result<Endian, ParseError>,
    w: Result<IntWidth, ParseError>,
) -> Option<ParseError> {
    match (e, w) {
        (Err(err), _) => Some(err),
        (Ok(_), Err(err)) => Some(err),
        (Ok(_), Ok(_)) => None,
    }
}

/// The first error among a sequence of values, in order.
pub open spec fn spec_resolve_seq_err(s: Seq<JsonNode>) -> Option<ParseError>
    decreases s,
{
    if s.len() == 0 {
        None
    } else {
        match spec_resolve_err(s[0]) {
            Some(e) => Some(e),
            None => spec_resolve_seq_err(s.subrange(1, s.len() as int)),
        }
    }
}

/// What value a JSON document resolves to, by the declared variant order: a
/// boolean stands for itself; a bare number or string takes its variant with
/// every parameter defaulted; an object whose `value` field holds a number
/// or a string takes that variant with the parameters the object declares;
/// an array resolves its elements in order; everything else is the opaque
/// document, held as its canonical text.
pub open spec fn resolves_to(n: JsonNode, v: Value) -> bool
    decreases n,
{
    match n {
        JsonNode::Null => v matches Value::Json(b) && b@ == json_text_of(n),
        JsonNode::Bool(x) => v == Value::Bool(x),
        JsonNode::UInt(u) => v == Value::UInt {
            value: u,
            endian: Endian::BigEndian,
            width: IntWidth::Sixtyfour,
        },
        JsonNode::Int(i) => v == Value::Int {
            value: i,
            endian: Endian::BigEndian,
            width: IntWidth::Sixtyfour,
        },
        JsonNode::Float { bits, text } => v == Value::Float {
            bits,
            endian: Endian::BigEndian,
            width: FloatWidth::Sixtyfour,
        },
        JsonNode::Text(s) => v == Value::Text { value: s, encoding: StringEncoding::UTF8 },
        JsonNode::Array(elems) => v matches Value::Array(vs) && resolve_seq_to(elems@, vs@),
        JsonNode::Object(fields) => match spec_lookup(fields@, "value"@) {
            Option::Some(JsonNode::UInt(u)) => spec_read_endian(fields@) matches Ok(e)
                && spec_read_int_width(fields@) matches Ok(w) && v == Value::UInt {
                value: u,
                endian: e,
                width: w,
            },
            Option::Some(JsonNode::Int(i)) => spec_read_endian(fields@) matches Ok(e)
                && spec_read_int_width(fields@) matches Ok(w) && v == Value::Int {
                value: i,
                endian: e,
                width: w,
            },
            Option::Some(JsonNode::Float { bits, text }) => spec_read_endian(fields@) matches Ok(e)
                && spec_read_float_width(fields@) matches Ok(w) && v == Value::Float {
                bits,
                endian: e,
                width: w,
            },
            Option::Some(JsonNode::Text(s)) => spec_read_encoding(fields@) matches Ok(enc) && v
                == Value::Text { value: s, encoding: enc },
            _ => v matches Value::Json(b) && b@ == json_text_of(n),
        },
    }
}

/// Elementwise resolution of a sequence of values, in order.
pub open spec fn resolve_seq_to(s: Seq<JsonNode>, vs: Seq<Value>) -> bool
    decreases s,
{
    if s.len() == 0 {
        vs.len() == 0
    } else {
        vs.len() == s.len() && resolves_to(s[0], vs[0]) && resolve_seq_to(
            s.subrange(1, s.len() as int),
            vs.subrange(1, vs.len() as int),
        )
    }
}

proof fn lemma_resolve_seq_push(s: Seq<JsonNode>, vs: Seq<Value>, n: JsonNode, v: Value)
    requires
        resolve_seq_to(s, vs),
        resolves_to(n, v),
    ensures
        resolve_seq_to(s.push(n), vs.push(v)),
    decreases s.len(),
{
    let t = s.push(n);
    let tv = vs.push(v);
    if s.len() == 0 {
        assert(t.subrange(1, t.len() as int) =~= s);
        assert(tv.subrange(1, tv.len() as int) =~= vs);
        assert(t[0] == n && tv[0] == v);
    } else {
        assert(t.subrange(1, t.len() as int) =~= s.subrange(1, s.len() as int).push(n));
        assert(tv.subrange(1, tv.len() as int) =~= vs.subrange(1, vs.len() as int).push(v));
        lemma_resolve_seq_push(s.subrange(1, s.len() as int), vs.subrange(1, vs.len() as int), n, v);
        assert(t[0] == s[0] && tv[0] == vs[0]);
    }
}

proof fn lemma_resolve_seq_err_push(s: Seq<JsonNode>, n: JsonNode)
    requires
        spec_resolve_seq_err(s) is None,
    ensures
        spec_resolve_seq_err(s.push(n)) == spec_resolve_err(n),
    decreases s.len(),
{
    let t = s.push(n);
    if s.len() == 0 {
        assert(t.subrange(1, t.len() as int) =~= s);
        assert(t[0] == n);
        if spec_resolve_err(n) is None {
            assert(spec_resolve_seq_err(s) is None);
        }
    } else {
        assert(t.subrange(1, t.len() as int) =~= s.subrange(1, s.len() as int).push(n));
        lemma_resolve_seq_err_push(s.subrange(1, s.len() as int), n);
        assert(t[0] == s[0]);
    }
}

/// Resolves one JSON value, returning the first parameter error where one
/// of its objects declares an unknown parameter.
#[verifier::rlimit(80)]
pub fn resolve_value(n: &JsonNode) -> (r: Result<Value, ParseError>)
    ensures
        match r {
            Ok(v) => spec_resolve_err(*n) is None && resolves_to(*n, v),
            Err(e) => spec_resolve_err(*n) == Some(e),
        },
    decreases *n,
{
    match n {
        JsonNode::Null => Ok(Value::Json(json_to_vec(n))),
        JsonNode::Bool(x) => Ok(Value::Bool(*x)),
        JsonNode::UInt(u) => Ok(
            Value::UInt { value: *u, endian: Endian::BigEndian, width: IntWidth::Sixtyfour },
        ),
        JsonNode::Int(i) => Ok(
            Value::Int { value: *i, endian: Endian::BigEndian, width: IntWidth::Sixtyfour },
        ),
        JsonNode::Float { bits, text } => Ok(
            Value::Float { bits: *bits, endian: Endian::BigEndian, width: FloatWidth::Sixtyfour },
        ),
        JsonNode::Text(s) => Ok(Value::Text { value: s.clone(), encoding: StringEncoding::UTF8 }),
        JsonNode::Array(elems) => {
            let mut vs: Vec<Value> = Vec::new();
            let mut i: usize = 0;
            while i < elems.len()
                invariant
                    i <= elems@.len(),
                    *n == JsonNode::Array(*elems),
                    resolve_seq_to(elems@.take(i as int), vs@),
                    spec_resolve_seq_err(elems@.take(i as int)) is None,
                decreases elems@.len() - i,
            {
                proof {
                    assert(decreases_to!(*n => (*n)->Array_0));
                    assert((*n)->Array_0 == *elems);
                    assert(decreases_to!(*elems => elems@));
                    assert(decreases_to!(elems@ => elems@[i as int]));
                }
                let done = Ghost(elems@.take(i as int));
                match resolve_value(&elems[i]) {
                    Ok(v) => {
                        proof {
                            lemma_resolve_seq_push(done@, vs@, elems@[i as int], v);
                            lemma_resolve_seq_err_push(done@, elems@[i as int]);
                            assert(elems@.take(i + 1 as int) =~= done@.push(elems@[i as int]));
                        }
                        vs.push(v);
                    },
                    Err(e) => {
                        proof {
                            lemma_resolve_seq_err_push(done@, elems@[i as int]);
                            assert(elems@.take(i + 1 as int) =~= done@.push(elems@[i as int]));
                            lemma_resolve_seq_err_prefix(
                                done@.push(elems@[i as int]),
                                elems@,
                                Some(e),
                            );
                        }
                        return Err(e);
                    },
                }
                i = i + 1;
            }
            assert(elems@.take(elems@.len() as int) =~= elems@);
            Ok(Value::Array(vs))
        },
        JsonNode::Object(fields) => {
            match lookup(fields, &String::from_str("value")) {
                Some(inner) => match inner {
                    JsonNode::UInt(u) => {
                        let e = match read_endian(fields) {
                            Ok(e) => e,
                            Err(err) => {
                                return Err(err);
                            },
                        };
                        let w = match read_int_width(fields) {
                            Ok(w) => w,
                            Err(err) => {
                                return Err(err);
                            },
                        };
                        Ok(Value::UInt { value: *u, endian: e, width: w })
                    },
                    JsonNode::Int(i) => {
                        let e = match read_endian(fields) {
                            Ok(e) => e,
                            Err(err) => {
                                return Err(err);
                            },
                        };
                        let w = match read_int_width(fields) {
                            Ok(w) => w,
                            Err(err) => {
                                return Err(err);
                            },
                        };
                        Ok(Value::Int { value: *i, endian: e, width: w })
                    },
                    JsonNode::Float { bits, text } => {
                        let e = match read_endian(fields) {
                            Ok(e) => e,
                            Err(err) => {
                                return Err(err);
                            },
                        };
                        let w = match read_float_width(fields) {
                            Ok(w) => w,
                            Err(err) => {
                                return Err(err);
                            },
                        };
                        Ok(Value::Float { bits: *bits, endian: e, width: w })
                    },
                    JsonNode::Text(s) => {
                        let enc = match read_encoding(fields) {
                            Ok(enc) => enc,
                            Err(err) => {
                                return Err(err);
                            },
                        };
                        Ok(Value::Text { value: s.clone(), encoding: enc })
                    },
                    _ => Ok(Value::Json(json_to_vec(n))),
                },
                None => Ok(Value::Json(json_to_vec(n))),
            }
        },
    }
}

/// A finished prefix with an error decides a whole sequence's first error.
proof fn lemma_resolve_seq_err_prefix(done: Seq<JsonNode>, whole: Seq<JsonNode>, e: Option<
    ParseError,
>)
    requires
        done.len() <= whole.len(),
        whole.take(done.len() as int) == done,
        spec_resolve_seq_err(done) == e,
        e is Some,
    ensures
        spec_resolve_seq_err(whole) == e,
    decreases done.len(),
{
    if done.len() == 0 {
    } else {
        assert(whole.len() > 0);
        assert(whole[0] == done[0]);
        if spec_resolve_err(done[0]) is None {
            assert(spec_resolve_seq_err(done) == spec_resolve_seq_err(
                done.subrange(1, done.len() as int),
            ));
            assert(whole.subrange(1, whole.len() as int).take((done.len() - 1) as int)
                =~= done.subrange(1, done.len() as int));
            lemma_resolve_seq_err_prefix(
                done.subrange(1, done.len() as int),
                whole.subrange(1, whole.len() as int),
                e,
            );
        }
    }
}

/// The error, if any, that one dataset entry yields: it must be an object
/// with a string `topic` and a `data` field whose value resolves.
pub open spec fn spec_entry_err(n: JsonNode) -> Option<ParseError> {
    match n {
        JsonNode::Object(fields) => match spec_lookup(fields@, "topic"@) {
            Option::Some(JsonNode::Text(_)) => match spec_lookup(fields@, "data"@) {
                Option::Some(d) => spec_resolve_err(d),
                Option::None => Some(ParseError::MissingData),
            },
            _ => Some(ParseError::BadTopic),
        },
        _ => Some(ParseError::EntryNotObject),
    }
}

/// One dataset entry resolved: the topic is the object's `topic` string and
/// the value is what its `data` field resolves to.
pub open spec fn entry_resolves_to(n: JsonNode, d: Data) -> bool {
    match n {
        JsonNode::Object(fields) => {
            &&& spec_lookup(fields@, "topic"@) matches Some(JsonNode::Text(t))
            &&& d.topic == t
            &&& spec_lookup(fields@, "data"@) matches Some(dn)
            &&& resolves_to(dn, d.data)
        },
        _ => false,
    }
}

/// The first error among a sequence of entries, in order.
pub open spec fn spec_entries_err(s: Seq<JsonNode>) -> Option<ParseError>
    decreases s,
{
    if s.len() == 0 {
        None
    } else {
        match spec_entry_err(s[0]) {
            Some(e) => Some(e),
            None => spec_entries_err(s.subrange(1, s.len() as int)),
        }
    }
}

/// Elementwise resolution of a sequence of entries, in order.
pub open spec fn entries_resolve_to(s: Seq<JsonNode>, ds: Seq<Data>) -> bool
    decreases s,
{
    if s.len() == 0 {
        ds.len() == 0
    } else {
        ds.len() == s.len() && entry_resolves_to(s[0], ds[0]) && entries_resolve_to(
            s.subrange(1, s.len() as int),
            ds.subrange(1, ds.len() as int),
        )
    }
}

proof fn lemma_entries_push(s: Seq<JsonNode>, ds: Seq<Data>, n: JsonNode, d: Data)
    requires
        entries_resolve_to(s, ds),
        entry_resolves_to(n, d),
    ensures
        entries_resolve_to(s.push(n), ds.push(d)),
    decreases s.len(),
{
    let t = s.push(n);
    let td = ds.push(d);
    if s.len() == 0 {
        assert(t.subrange(1, t.len() as int) =~= s);
        assert(td.subrange(1, td.len() as int) =~= ds);
        assert(t[0] == n && td[0] == d);
    } else {
        assert(t.subrange(1, t.len() as int) =~= s.subrange(1, s.len() as int).push(n));
        assert(td.subrange(1, td.len() as int) =~= ds.subrange(1, ds.len() as int).push(d));
        lemma_entries_push(s.subrange(1, s.len() as int), ds.subrange(1, ds.len() as int), n, d);
        assert(t[0] == s[0] && td[0] == ds[0]);
    }
}

proof fn lemma_entries_err_push(s: Seq<JsonNode>, n: JsonNode)
    requires
        spec_entries_err(s) is None,
    ensures
        spec_entries_err(s.push(n)) == spec_entry_err(n),
    decreases s.len(),
{
    let t = s.push(n);
    if s.len() == 0 {
        assert(t.subrange(1, t.len() as int) =~= s);
        assert(t[0] == n);
    } else {
        assert(t.subrange(1, t.len() as int) =~= s.subrange(1, s.len() as int).push(n));
        lemma_entries_err_push(s.subrange(1, s.len() as int), n);
        assert(t[0] == s[0]);
    }
}

/// A finished prefix with an error decides a whole entry sequence's first
/// error.
proof fn lemma_entries_err_prefix(done: Seq<JsonNode>, whole: Seq<JsonNode>, e: Option<ParseError>)
    requires
        done.len() <= whole.len(),
        whole.take(done.len() as int) == done,
        spec_entries_err(done) == e,
        e is Some,
    ensures
        spec_entries_err(whole) == e,
    decreases done.len(),
{
    if done.len() == 0 {
    } else {
        assert(whole.len() > 0);
        assert(whole[0] == done[0]);
        if spec_entry_err(done[0]) is None {
            assert(whole.subrange(1, whole.len() as int).take((done.len() - 1) as int)
                =~= done.subrange(1, done.len() as int));
            lemma_entries_err_prefix(
                done.subrange(1, done.len() as int),
                whole.subrange(1, whole.len() as int),
                e,
            );
        }
    }
}

fn resolve_entry(n: &JsonNode) -> (r: Result<Data, ParseError>)
    ensures
        match r {
            Ok(d) => spec_entry_err(*n) is None && entry_resolves_to(*n, d),
            Err(e) => spec_entry_err(*n) == Some(e),
        },
{
    match n {
        JsonNode::Object(fields) => {
            let topic = match lookup(fields, &String::from_str("topic")) {
                Some(JsonNode::Text(t)) => t.clone(),
                _ => {
                    return Err(ParseError::BadTopic);
                },
            };
            match lookup(fields, &String::from_str("data")) {
                Some(dn) => match resolve_value(dn) {
                    Ok(v) => Ok(Data::new(topic, v)),
                    Err(e) => Err(e),
                },
                None => Err(ParseError::MissingData),
            }
        },
        _ => Err(ParseError::EntryNotObject),
    }
}

/// The error, if any, that a whole config document yields.
pub open spec fn spec_doc_err(root: JsonNode) -> Option<ParseError> {
    match root {
        JsonNode::Array(es) => spec_entries_err(es@),
        _ => Some(ParseError::NotAnArray),
    }
}

/// A whole config document resolved: the dataset's entries, in the order
/// the document's top-level array gives them.
pub open spec fn doc_resolves_to(root: JsonNode, ds: Seq<Data>) -> bool {
    match root {
        JsonNode::Array(es) => entries_resolve_to(es@, ds),
        _ => false,
    }
}

/// Parses config text into the dataset it describes. Returns `Ok` exactly
/// when the text is valid JSON, its top level is an array of objects each
/// holding a string `topic` and a `data` value, and every declared encoding
/// parameter names something known; the first offence otherwise, in
/// document order. Performs no reads or writes: it is a function of the
/// text alone, safe to call again on the same text.
pub fn parse(text: &str) -> (r: Result<Vec<Data>, ParseError>)
    ensures
        match r {
            Ok(ds) => parsed_json_of(text@) matches Some(root) && spec_doc_err(root) is None
                && doc_resolves_to(root, ds@),
            Err(e) => match parsed_json_of(text@) {
                Option::None => e == ParseError::Syntax,
                Option::Some(root) => spec_doc_err(root) == Some(e),
            },
        },
{
    let root = match parse_json(text) {
        Ok(n) => n,
        Err(_) => {
            return Err(ParseError::Syntax);
        },
    };
    match &root {
        JsonNode::Array(entries) => {
            let mut ds: Vec<Data> = Vec::new();
            let mut i: usize = 0;
            while i < entries.len()
                invariant
                    i <= entries@.len(),
                    root == JsonNode::Array(*entries),
                    parsed_json_of(text@) == Some(root),
                    entries_resolve_to(entries@.take(i as int), ds@),
                    spec_entries_err(entries@.take(i as int)) is None,
                decreases entries@.len() - i,
            {
                let done = Ghost(entries@.take(i as int));
                match resolve_entry(&entries[i]) {
                    Ok(d) => {
                        proof {
                            lemma_entries_push(done@, ds@, entries@[i as int], d);
                            lemma_entries_err_push(done@, entries@[i as int]);
                            assert(entries@.take(i + 1 as int) =~= done@.push(entries@[i as int]));
                        }
                        ds.push(d);
                    },
                    Err(e) => {
                        proof {
                            lemma_entries_err_push(done@, entries@[i as int]);
                            assert(entries@.take(i + 1 as int) =~= done@.push(entries@[i as int]));
                            lemma_entries_err_prefix(
                                done@.push(entries@[i as int]),
                                entries@,
                                Some(e),
                            );
                        }
                        return Err(e);
                    },
                }
                i = i + 1;
            }
            assert(entries@.take(entries@.len() as int) =~= entries@);
            Ok(ds)
        },
        _ => Err(ParseError::NotAnArray),
    }
}

/// Law: a value object that names no byte order and no width gets the
/// defaults, big-endian and sixty-four bits wide, so it resolves — and
/// hence serializes — exactly as one that declares them outright.
pub proof fn lemma_default_application(n: JsonNode, v: Value, u: u64)
    requires
        (n matches JsonNode::Object(fields) && spec_lookup(fields@, "value"@) == Some(
            JsonNode::UInt(u),
        ) && (spec_lookup(fields@, "endian"@) is None) && (spec_lookup(fields@, "width"@) is None)),
        resolves_to(n, v),
    ensures
        v == (Value::UInt { value: u, endian: Endian::BigEndian, width: IntWidth::Sixtyfour }),
{
}

/// Law: an object whose `value` field holds an unsigned number resolves to
/// the unsigned-integer variant — not the signed or float one — and a
/// signed number to the signed variant, per the declared matching order.
pub proof fn lemma_variant_resolution(n: JsonNode, v: Value)
    requires
        resolves_to(n, v),
    ensures
        ((n matches JsonNode::Object(fields) && spec_lookup(fields@, "value"@) matches Some(
            JsonNode::UInt(_),
        )) ==> (v is UInt)),
        ((n matches JsonNode::Object(fields) && spec_lookup(fields@, "value"@) matches Some(
            JsonNode::Int(_),
        )) ==> (v is Int)),
{
}


/// Law: resolution pins the wire bytes. Any two values the same JSON
/// document resolves to serialize to the same byte sequence.
pub proof fn lemma_resolution_pins_bytes(n: JsonNode, a: Value, b: Value)
    requires
        resolves_to(n, a),
        resolves_to(n, b),
    ensures
        spec_serialize(a) == spec_serialize(b),
    decreases n,
{
    match n {
        JsonNode::Array(elems) => {
            lemma_seq_resolution_pins_bytes(elems@, a->Array_0@, b->Array_0@);
        },
        _ => {},
    }
}

proof fn lemma_seq_resolution_pins_bytes(s: Seq<JsonNode>, va: Seq<Value>, vb: Seq<Value>)
    requires
        resolve_seq_to(s, va),
        resolve_seq_to(s, vb),
    ensures
        spec_serialize_seq(va) == spec_serialize_seq(vb),
    decreases s,
{
    if s.len() == 0 {
    } else {
        lemma_resolution_pins_bytes(s[0], va[0], vb[0]);
        lemma_seq_resolution_pins_bytes(
            s.subrange(1, s.len() as int),
            va.subrange(1, va.len() as int),
            vb.subrange(1, vb.len() as int),
        );
    }
}


} // verus!

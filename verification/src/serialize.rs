//! The serializer: a deterministic function from a value to the bytes that
//! go out on the wire, proved against byte-level specifications.
use vstd::prelude::*;

use vstd::utf8::encode_utf8;

use crate::bytes::{be_bytes, le_bytes, lemma_le_bytes_len, push_be, push_le};
use crate::data::{Endian, FloatWidth, IntWidth, StringEncoding, Value};
use crate::narrow::{narrow_double_bits, spec_narrow_double_bits};
use vstd::string::StrSliceExecFns;

verus! {

broadcast use vstd::utf8::char_is_scalar;

/// The UTF-16 code units of one character: the character itself, or a
/// surrogate pair for one beyond the basic multilingual plane.
pub open spec fn utf16_units_of_char(c: char) -> Seq<u16> {
    let u = c as u32;
    if u < 0x10000 {
        seq![u as u16]
    } else {
        seq![
            (0xD800 + (((u - 0x10000) as u32) >> 10)) as u16,
            (0xDC00 + (((u - 0x10000) as u32) & 0x3FF)) as u16,
        ]
    }
}

/// One code unit as two bytes in the given order.
pub open spec fn unit_bytes(u: u16, e: Endian) -> Seq<u8> {
    match e {
        Endian::LittleEndian => seq![(u & 0xFF) as u8, (u >> 8) as u8],
        Endian::BigEndian => seq![(u >> 8) as u8, (u & 0xFF) as u8],
    }
}

/// One character's UTF-16 bytes in the given order.
pub open spec fn utf16_char_bytes(c: char, e: Endian) -> Seq<u8> {
    let units = utf16_units_of_char(c);
    if units.len() == 1 {
        unit_bytes(units[0], e)
    } else {
        unit_bytes(units[0], e) + unit_bytes(units[1], e)
    }
}

/// A character sequence's UTF-16 bytes in the given order, without a mark.
pub open spec fn utf16_bytes(s: Seq<char>, e: Endian) -> Seq<u8>
    decreases s.len(),
{
    if s.len() == 0 {
        Seq::empty()
    } else {
        utf16_char_bytes(s[0], e) + utf16_bytes(s.drop_first(), e)
    }
}

proof fn lemma_utf16_bytes_push(s: Seq<char>, c: char, e: Endian)
    ensures
        utf16_bytes(s.push(c), e) == utf16_bytes(s, e) + utf16_char_bytes(c, e),
    decreases s.len(),
{
    if s.len() == 0 {
        assert(s.push(c).drop_first() =~= s);
        assert(s.push(c)[0] == c);
        assert(utf16_bytes(s, e) =~= Seq::<u8>::empty());
        assert(utf16_bytes(s.push(c), e) =~= utf16_bytes(s, e) + utf16_char_bytes(c, e));
    } else {
        assert(s.push(c).drop_first() =~= s.drop_first().push(c));
        lemma_utf16_bytes_push(s.drop_first(), c, e);
        assert(utf16_bytes(s.push(c), e) =~= utf16_bytes(s, e) + utf16_char_bytes(c, e));
    }
}

/// What serializing a string under the given encoding yields: raw UTF-8
/// bytes, or a two-byte order mark followed by UTF-16 code units in that
/// byte order.
pub open spec fn spec_text_bytes(s: Seq<char>, enc: StringEncoding) -> Seq<u8> {
    match enc {
        StringEncoding::UTF8 => encode_utf8(s),
        StringEncoding::UTF16BE => unit_bytes(0xFEFF, Endian::BigEndian) + utf16_bytes(
            s,
            Endian::BigEndian,
        ),
        StringEncoding::UTF16LE => unit_bytes(0xFEFF, Endian::LittleEndian) + utf16_bytes(
            s,
            Endian::LittleEndian,
        ),
    }
}

/// The low `n` bytes of `v` in the given order.
pub open spec fn int_value_bytes(v: u64, e: Endian, n: nat) -> Seq<u8> {
    match e {
        Endian::LittleEndian => le_bytes(v, n),
        Endian::BigEndian => be_bytes(v, n),
    }
}

/// What serializing a value yields: one byte for a boolean; an integer's low
/// bytes, as many as the width says, in the declared order; a float's 64-bit
/// pattern, or that pattern narrowed to 32 bits; a string per its encoding;
/// an array's elements in order with no separators; an opaque document's
/// canonical text.
pub open spec fn spec_serialize(v: Value) -> Seq<u8>
    decreases v,
{
    match v {
        Value::Bool(b) => seq![if b { 1u8 } else { 0u8 }],
        Value::UInt { value, endian, width } => int_value_bytes(
            value,
            endian,
            width.spec_byte_len(),
        ),
        Value::Int { value, endian, width } => int_value_bytes(
            value as u64,
            endian,
            width.spec_byte_len(),
        ),
        Value::Float { bits, endian, width } => match width {
            FloatWidth::Sixtyfour => int_value_bytes(bits, endian, 8),
            FloatWidth::Thirtytwo => int_value_bytes(
                spec_narrow_double_bits(bits) as u64,
                endian,
                4,
            ),
        },
        Value::Text { value, encoding } => spec_text_bytes(value@, encoding),
        Value::Array(elems) => spec_serialize_seq(elems@),
        Value::Json(b) => b@,
    }
}

/// The concatenation of the serializations of a sequence of values.
pub open spec fn spec_serialize_seq(s: Seq<Value>) -> Seq<u8>
    decreases s,
{
    if s.len() == 0 {
        Seq::empty()
    } else {
        spec_serialize(s[0]) + spec_serialize_seq(s.subrange(1, s.len() as int))
    }
}

proof fn lemma_serialize_seq_push(s: Seq<Value>, v: Value)
    ensures
        spec_serialize_seq(s.push(v)) == spec_serialize_seq(s) + spec_serialize(v),
    decreases s.len(),
{
    let t = s.push(v);
    if s.len() == 0 {
        assert(t.subrange(1, t.len() as int) =~= s);
        assert(t[0] == v);
        assert(spec_serialize_seq(s) =~= Seq::<u8>::empty());
        assert(spec_serialize_seq(t) =~= spec_serialize_seq(s) + spec_serialize(v));
    } else {
        assert(t.subrange(1, t.len() as int) =~= s.subrange(1, s.len() as int).push(v));
        lemma_serialize_seq_push(s.subrange(1, s.len() as int), v);
        assert(t[0] == s[0]);
        assert(spec_serialize_seq(t) =~= spec_serialize_seq(s) + spec_serialize(v));
    }
}

fn push_unit(out: &mut Vec<u8>, u: u16, e: Endian)
    ensures
        final(out)@ == old(out)@ + unit_bytes(u, e),
{
    match e {
        Endian::LittleEndian => {
            out.push((u & 0xFF) as u8);
            out.push((u >> 8) as u8);
        },
        Endian::BigEndian => {
            out.push((u >> 8) as u8);
            out.push((u & 0xFF) as u8);
        },
    }
    assert(out@ =~= old(out)@ + unit_bytes(u, e));
}

fn push_utf16(value: &str, out: &mut Vec<u8>, e: Endian)
    ensures
        final(out)@ == old(out)@ + utf16_bytes(value@, e),
{
    let n = value.unicode_len();
    let mut i: usize = 0;
    while i < n
        invariant
            i <= n,
            n == value@.len(),
            out@ == old(out)@ + utf16_bytes(value@.take(i as int), e),
        decreases n - i,
    {
        let c = value.get_char(i);
        let u = c as u32;
        if u < 0x10000 {
            push_unit(out, u as u16, e);
        } else {
            let v = u - 0x10000;
            proof {
                assert(u <= 0x10FFFF);
                assert(v <= 0xFFFFF ==> (v >> 10) <= 0x3FF && (v & 0x3FF)
                    <= 0x3FF) by (bit_vector);
            }
            let hi: u16 = 0xD800 + ((v >> 10) as u16);
            let lo: u16 = 0xDC00 + ((v & 0x3FF) as u16);
            push_unit(out, hi, e);
            push_unit(out, lo, e);
        }
        proof {
            lemma_utf16_bytes_push(value@.take(i as int), c, e);
            assert(value@.take(i + 1 as int) =~= value@.take(i as int).push(c));
        }
        i = i + 1;
    }
    assert(value@.take(n as int) =~= value@);
}

fn extend_bytes(out: &mut Vec<u8>, b: &[u8])
    ensures
        final(out)@ == old(out)@ + b@,
{
    let mut i: usize = 0;
    while i < b.len()
        invariant
            i <= b@.len(),
            out@ == old(out)@ + b@.take(i as int),
        decreases b@.len() - i,
    {
        out.push(b[i]);
        assert(out@ =~= old(out)@ + b@.take(i + 1 as int));
        i = i + 1;
    }
    assert(b@.take(b@.len() as int) =~= b@);
}

fn push_int(out: &mut Vec<u8>, v: u64, e: Endian, n: usize)
    ensures
        final(out)@ == old(out)@ + int_value_bytes(v, e, n as nat),
{
    match e {
        Endian::LittleEndian => push_le(out, v, n),
        Endian::BigEndian => push_be(out, v, n),
    }
}

impl StringEncoding {
    /// Appends the encoding of `value` to `out`: its raw UTF-8 bytes, or an
    /// order mark and its UTF-16 code units in this encoding's byte order.
    pub fn encode(&self, value: &str, out: &mut Vec<u8>)
        ensures
            final(out)@ == old(out)@ + spec_text_bytes(value@, *self),
    {
        match self {
            StringEncoding::UTF8 => {
                extend_bytes(out, value.as_bytes());
            },
            StringEncoding::UTF16BE => {
                push_unit(out, 0xFEFF, Endian::BigEndian);
                push_utf16(value, out, Endian::BigEndian);
            },
            StringEncoding::UTF16LE => {
                push_unit(out, 0xFEFF, Endian::LittleEndian);
                push_utf16(value, out, Endian::LittleEndian);
            },
        }
        assert(out@ =~= old(out)@ + spec_text_bytes(value@, *self));
    }
}

impl Value {
    /// Appends this value's serialization to `out`.
    pub fn serialize(&self, out: &mut Vec<u8>)
        ensures
            final(out)@ == old(out)@ + spec_serialize(*self),
        decreases *self,
    {
        match self {
            Value::Bool(b) => {
                out.push(if *b {
                    1
                } else {
                    0
                });
                assert(out@ =~= old(out)@ + spec_serialize(*self));
            },
            Value::UInt { value, endian, width } => {
                push_int(out, *value, *endian, width.byte_len());
            },
            Value::Int { value, endian, width } => {
                push_int(out, #[verifier::truncate] (*value as u64), *endian, width.byte_len());
            },
            Value::Float { bits, endian, width } => {
                match width {
                    FloatWidth::Sixtyfour => push_int(out, *bits, *endian, 8),
                    FloatWidth::Thirtytwo => push_int(
                        out,
                        narrow_double_bits(*bits) as u64,
                        *endian,
                        4,
                    ),
                }
            },
            Value::Text { value, encoding } => {
                encoding.encode(value.as_str(), out);
            },
            Value::Array(elems) => {
                let mut i: usize = 0;
                while i < elems.len()
                    invariant
                        i <= elems@.len(),
                        *self == Value::Array(*elems),
                        out@ == old(out)@ + spec_serialize_seq(elems@.take(i as int)),
                    decreases elems@.len() - i,
                {
                    proof {
                        assert(decreases_to!(*self => (*self)->Array_0));
                        assert((*self)->Array_0 == *elems);
                        assert(decreases_to!(*elems => elems@));
                        assert(decreases_to!(elems@ => elems@[i as int]));
                    }
                    elems[i].serialize(out);
                    proof {
                        lemma_serialize_seq_push(elems@.take(i as int), elems@[i as int]);
                        assert(elems@.take(i + 1 as int) =~= elems@.take(i as int).push(
                            elems@[i as int],
                        ));
                    }
                    i = i + 1;
                }
                assert(elems@.take(elems@.len() as int) =~= elems@);
            },
            Value::Json(b) => {
                extend_bytes(out, b.as_slice());
            },
        }
    }
}

/// The byte length an integer value's width declares, where the value is an
/// integer at all.
pub open spec fn spec_declared_int_len(v: Value) -> Option<nat> {
    match v {
        Value::UInt { width, .. } => Some(width.spec_byte_len()),
        Value::Int { width, .. } => Some(width.spec_byte_len()),
        _ => None,
    }
}

/// Law: for every integer value and every width and byte-order combination,
/// the serialization is exactly as many bytes as the width divided by eight.
pub proof fn lemma_int_serialized_len(v: Value)
    ensures
        spec_declared_int_len(v) matches Some(n) ==> spec_serialize(v).len() == n,
{
    match v {
        Value::UInt { value, endian, width } => {
            lemma_le_bytes_len(value, width.spec_byte_len());
        },
        Value::Int { value, endian, width } => {
            lemma_le_bytes_len(value as u64, width.spec_byte_len());
        },
        _ => {},
    }
}

/// Law: at width eight the serialization is the value's single low byte,
/// whichever byte order is declared.
pub proof fn lemma_width_eight_endian_irrelevant(v: u64, e1: Endian, e2: Endian)
    ensures
        int_value_bytes(v, e1, 1) == int_value_bytes(v, e2, 1),
{
    lemma_le_bytes_len(v, 1);
    assert(be_bytes(v, 1) =~= le_bytes(v, 1));
}

/// Law: serializing the values of two sequences laid end to end yields the
/// concatenation of the serializations of the two sequences.
pub proof fn lemma_array_concat(a: Seq<Value>, b: Seq<Value>)
    ensures
        spec_serialize_seq(a + b) == spec_serialize_seq(a) + spec_serialize_seq(b),
    decreases a.len(),
{
    let t = a + b;
    if a.len() == 0 {
        assert(t =~= b);
        assert(spec_serialize_seq(a + b) =~= spec_serialize_seq(a) + spec_serialize_seq(b));
    } else {
        assert(t.subrange(1, t.len() as int) =~= a.subrange(1, a.len() as int) + b);
        assert(t[0] == a[0]);
        lemma_array_concat(a.subrange(1, a.len() as int), b);
        assert(spec_serialize_seq(a + b) =~= spec_serialize_seq(a) + spec_serialize_seq(b));
    }
}

/// Law: a one-element array serializes to exactly its element's
/// serialization.
pub proof fn lemma_array_singleton(v: Value)
    ensures
        spec_serialize_seq(seq![v]) == spec_serialize(v),
{
    assert(seq![v].subrange(1, 1) =~= Seq::<Value>::empty());
    assert(spec_serialize_seq(seq![v].subrange(1, 1)) =~= Seq::<u8>::empty());
    assert(spec_serialize_seq(seq![v]) =~= spec_serialize(v));
}

} // verus!

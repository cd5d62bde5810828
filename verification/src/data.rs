//! The typed value model: a dataset entry couples a topic with a value whose
//! binary encoding parameters (endianness, width, text encoding) it carries.
use vstd::prelude::*;

verus! {

/// Byte order for multi-byte integer and float encodings.
#[derive(Clone, Copy, Debug, PartialEq, Eq, Structural)]
pub enum Endian {
    LittleEndian,
    BigEndian,
}

impl Default for Endian {
    /// The byte order used when a value does not name one.
    fn default() -> (r: Self)
        ensures
            r == Endian::BigEndian,
    {
        Endian::BigEndian
    }
}

/// Bit width of an integer encoding.
#[derive(Clone, Copy, Debug, PartialEq, Eq, Structural)]
pub enum IntWidth {
    Eight,
    Sixteen,
    Thirtytwo,
    Sixtyfour,
}

impl IntWidth {
    /// How many bytes an integer of this width occupies on the wire.
    pub open spec fn spec_byte_len(self) -> nat {
        match self {
            IntWidth::Eight => 1,
            IntWidth::Sixteen => 2,
            IntWidth::Thirtytwo => 4,
            IntWidth::Sixtyfour => 8,
        }
    }

    pub fn byte_len(&self) -> (n: usize)
        ensures
            n == self.spec_byte_len(),
    {
        match self {
            IntWidth::Eight => 1,
            IntWidth::Sixteen => 2,
            IntWidth::Thirtytwo => 4,
            IntWidth::Sixtyfour => 8,
        }
    }
}

impl Default for IntWidth {
    /// The width used when an integer value does not name one.
    fn default() -> (r: Self)
        ensures
            r == IntWidth::Sixtyfour,
    {
        IntWidth::Sixtyfour
    }
}

/// Bit width of a float encoding.
#[derive(Clone, Copy, Debug, PartialEq, Eq, Structural)]
pub enum FloatWidth {
    Thirtytwo,
    Sixtyfour,
}

impl Default for FloatWidth {
    /// The width used when a float value does not name one.
    fn default() -> (r: Self)
        ensures
            r == FloatWidth::Sixtyfour,
    {
        FloatWidth::Sixtyfour
    }
}

/// Text encoding of a string value.
#[derive(Clone, Copy, Debug, PartialEq, Eq, Structural)]
pub enum StringEncoding {
    UTF8,
    UTF16BE,
    UTF16LE,
}

impl Default for StringEncoding {
    /// The encoding used when a string value does not name one.
    fn default() -> (r: Self)
        ensures
            r == StringEncoding::UTF8,
    {
        StringEncoding::UTF8
    }
}

/// A typed value together with its encoding parameters.
///
/// A float is held as the bits of its 64-bit IEEE-754 representation, so the
/// serializer works on plain integers throughout. An opaque JSON document is
/// held as its canonical compact text, rendered once when the config is
/// resolved; serializing it writes that text through unchanged.
#[derive(Debug, PartialEq)]
pub enum Value {
    Bool(bool),
    UInt { value: u64, endian: Endian, width: IntWidth },
    Int { value: i64, endian: Endian, width: IntWidth },
    Float { bits: u64, endian: Endian, width: FloatWidth },
    Text { value: String, encoding: StringEncoding },
    Array(Vec<Value>),
    Json(Vec<u8>),
}

/// One dataset entry: the topic a value is published under, and the value.
#[derive(Debug, PartialEq)]
pub struct Data {
    pub topic: String,
    pub data: Value,
}

impl Data {
    pub fn new(topic: String, data: Value) -> (d: Data)
        ensures
            d.topic == topic,
            d.data == data,
    {
        Data { topic, data }
    }

    /// The entry's value.
    pub fn data(&self) -> (r: &Value)
        ensures
            r == &self.data,
    {
        &self.data
    }

    /// The entry's topic.
    pub fn topic(&self) -> (r: &str)
        ensures
            r@ == self.topic@,
    {
        self.topic.as_str()
    }
}

} // verus!

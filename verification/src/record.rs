//! Decoded records: a typed value for every field, and the text of the
//! blobs that memo fields point to.

use crate::names::NameMap;
use crate::text::hex_text;
use crate::text::to_hex;
use vstd::prelude::*;

verus! {

/// The bits of a floating-point number, by width.
#[derive(Clone, Copy, Debug, PartialEq, Eq, Structural)]
pub enum FloatBits {
    /// The bits of a 32-bit number.
    Single(u32),
    /// The bits of a 64-bit number.
    Double(u64),
}

/// The value of one field.
#[allow(inconsistent_fields)]
#[derive(Clone, Debug, PartialEq, Eq)]
pub enum FieldValue {
    /// A text.
    String { value: String },
    /// An integer.
    Integer { value: i64 },
    /// A floating-point number, as the bits it is stored in.
    Float { value: FloatBits },
    /// Raw bytes, as lower-case hexadecimal text.
    Binary { value: String },
    /// No value.
    Null,
}

/// A field's value as contracts speak of it.
pub enum ValueSpec {
    String(Seq<char>),
    Integer(int),
    Float(FloatBits),
    Binary(Seq<char>),
    Null,
}

impl View for FieldValue {
    type V = ValueSpec;

    open spec fn view(&self) -> ValueSpec {
        match *self {
            FieldValue::String { value } => ValueSpec::String(value@),
            FieldValue::Integer { value } => ValueSpec::Integer(value as int),
            FieldValue::Float { value } => ValueSpec::Float(value),
            FieldValue::Binary { value } => ValueSpec::Binary(value@),
            FieldValue::Null => ValueSpec::Null,
        }
    }
}

impl FieldValue {
    /// A text value.
    pub fn string(s: String) -> (value: FieldValue)
        ensures
            value@ == ValueSpec::String(s@),
    {
        FieldValue::String { value: s }
    }

    /// An integer value.
    pub fn integer(i: i64) -> (value: FieldValue)
        ensures
            value@ == ValueSpec::Integer(i as int),
    {
        FieldValue::Integer { value: i }
    }

    /// A floating-point value, from its bits.
    pub fn float(bits: FloatBits) -> (value: FieldValue)
        ensures
            value@ == ValueSpec::Float(bits),
    {
        FieldValue::Float { value: bits }
    }

    /// A binary value: the bytes as hexadecimal text.
    pub fn binary(bytes: Vec<u8>) -> (value: FieldValue)
        ensures
            value@ == ValueSpec::Binary(hex_text(bytes@)),
    {
        FieldValue::Binary { value: to_hex(bytes.as_slice()) }
    }

    /// The value that stands for none.
    pub fn null() -> (value: FieldValue)
        ensures
            value@ == ValueSpec::Null,
    {
        FieldValue::Null
    }
}

/// A record with its fields decoded.
#[derive(Clone, Debug)]
pub struct Record {
    /// The record's index in its file.
    pub id: u32,
    /// The value of each field, by the field's name.
    pub fields: NameMap<FieldValue>,
    /// The text of each memo field that could be resolved, by the field's
    /// name.
    pub memo_data: NameMap<String>,
}

/// A decoded record as contracts speak of it.
pub struct RecordSpec {
    pub id: u32,
    pub fields: Map<Seq<char>, ValueSpec>,
    pub memo_data: Map<Seq<char>, Seq<char>>,
}

impl View for Record {
    type V = RecordSpec;

    open spec fn view(&self) -> RecordSpec {
        RecordSpec { id: self.id, fields: self.fields@, memo_data: self.memo_data@ }
    }
}

impl Record {
    /// Both maps hold each name once.
    pub open spec fn wf(&self) -> bool {
        self.fields.wf() && self.memo_data.wf()
    }
}

/// The records of a list, each as contracts speak of it.
pub open spec fn record_specs(records: Seq<Record>) -> Seq<RecordSpec> {
    records.map_values(|r: Record| r@)
}

} // verus!

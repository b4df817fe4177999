//! The layout of a table: its fields, and the files that hold it.

use vstd::prelude::*;
use vstd::string::StringExecFns;

verus! {

/// What kind of value a field holds.
#[derive(Clone, Copy, Debug, PartialEq, Eq, Structural)]
pub enum FieldType {
    /// Text, zero-terminated or padded.
    String,
    /// A little-endian integer.
    Integer,
    /// An IEEE 754 number.
    Float,
    /// A date.
    Date,
    /// A pointer into the blob file.
    Memo,
    /// Raw bytes.
    Binary,
    /// Not known.
    Unknown,
}

/// One field of a record: where it lies and what it holds.
#[derive(Clone, Debug, PartialEq, Eq)]
pub struct FieldInfo {
    /// The field's name.
    pub name: String,
    /// Where the field starts in the record, in bytes.
    pub offset: u32,
    /// How many bytes the field takes.
    pub length: u32,
    /// What the field holds.
    pub field_type: FieldType,
}

/// A field as contracts speak of it.
pub struct FieldSpec {
    pub name: Seq<char>,
    pub offset: u32,
    pub length: u32,
    pub field_type: FieldType,
}

impl View for FieldInfo {
    type V = FieldSpec;

    open spec fn view(&self) -> FieldSpec {
        FieldSpec {
            name: self.name@,
            offset: self.offset,
            length: self.length,
            field_type: self.field_type,
        }
    }
}

/// The fields of a list, each as contracts speak of it.
pub open spec fn field_specs(fields: Seq<FieldInfo>) -> Seq<FieldSpec> {
    fields.map_values(|f: FieldInfo| f@)
}

/// The layout inferred for records of `record_length` bytes: a four-byte
/// `id`, a one-byte `flags`, and the rest, if any, as one binary `data`.
pub open spec fn inferred_fields(record_length: u32) -> Seq<FieldSpec> {
    let fixed = seq![
        FieldSpec { name: "id"@, offset: 0, length: 4, field_type: FieldType::Integer },
        FieldSpec { name: "flags"@, offset: 4, length: 1, field_type: FieldType::Integer },
    ];
    if record_length > 5 {
        fixed.push(
            FieldSpec {
                name: "data"@,
                offset: 5,
                length: (record_length - 5) as u32,
                field_type: FieldType::Binary,
            },
        )
    } else {
        fixed
    }
}

/// Infers the layout of records of `record_length` bytes.
pub fn infer_fields(record_length: u32) -> (fields: Vec<FieldInfo>)
    ensures
        field_specs(fields@) == inferred_fields(record_length),
{
    let mut fields: Vec<FieldInfo> = Vec::new();
    fields.push(
        FieldInfo { name: String::from_str("id"), offset: 0, length: 4, field_type: FieldType::Integer },
    );
    fields.push(
        FieldInfo {
            name: String::from_str("flags"),
            offset: 4,
            length: 1,
            field_type: FieldType::Integer,
        },
    );
    if record_length > 5 {
        fields.push(
            FieldInfo {
                name: String::from_str("data"),
                offset: 5,
                length: record_length - 5,
                field_type: FieldType::Binary,
            },
        );
    }
    assert(field_specs(fields@) =~= inferred_fields(record_length));
    fields
}

/// The full description of a table.
#[derive(Clone, Debug, PartialEq, Eq)]
pub struct TableSchema {
    /// The table's name.
    pub name: String,
    /// The length of one record, in bytes.
    pub record_length: u32,
    /// How many fields the table has.
    pub field_count: u32,
    /// The fields, in record order.
    pub fields: Vec<FieldInfo>,
}

/// The files that together hold one table.
#[derive(Clone, Debug, PartialEq, Eq)]
pub struct TableFiles {
    /// The table's name.
    pub name: String,
    /// The path of the record file.
    pub fic_path: String,
    /// The path of the blob file, if the table has one.
    pub mmo_path: Option<String>,
    /// The paths of the index files, in the order of their numbers.
    pub ndx_paths: Vec<String>,
}

} // verus!

//! From a raw record and a field layout to a decoded record.

use crate::endian::le_signed;
use crate::endian::le_unsigned;
use crate::endian::lemma_le_unsigned_unfold;
use crate::endian::read_i16;
use crate::endian::read_i32;
use crate::endian::read_i64;
use crate::endian::read_u32;
use crate::endian::read_u64;
use crate::fic::FicRecord;
use crate::fic::RawRecord;
use crate::mmo::block_at;
use crate::mmo::MmoFile;
use crate::names::NameMap;
use crate::record::FieldValue;
use crate::record::FloatBits;
use crate::record::Record;
use crate::record::RecordSpec;
use crate::record::ValueSpec;
use crate::schema::field_specs;
use crate::schema::FieldInfo;
use crate::schema::FieldSpec;
use crate::schema::FieldType;
use crate::text::decodable_len;
use crate::text::decode_text;
use crate::text::hex_text;
use crate::text::text_of;
use crate::text::to_hex;
use crate::text::zero_terminated;
use crate::text::zero_terminated_len;
use vstd::prelude::*;
use vstd::slice::slice_subrange;
use vstd::string::StringExecFns;

verus! {

/// The integer that the bytes of a field spell: a signed number of the
/// field's width for widths 1, 2, 4 and 8; for another width the unsigned
/// number of its first four bytes, and 0 where it has fewer.
pub open spec fn integer_of(bytes: Seq<u8>) -> int {
    let width = bytes.len();
    if width == 1 || width == 2 || width == 4 || width == 8 {
        le_signed(bytes, width)
    } else if width >= 4 {
        le_unsigned(bytes, 4) as int
    } else {
        0
    }
}

/// The floating-point value that the bytes of a field spell, or none where
/// the field is neither four nor eight bytes wide.
pub open spec fn float_of(bytes: Seq<u8>) -> ValueSpec {
    if bytes.len() == 4 {
        ValueSpec::Float(FloatBits::Single(le_unsigned(bytes, 4) as u32))
    } else if bytes.len() == 8 {
        ValueSpec::Float(FloatBits::Double(le_unsigned(bytes, 8) as u64))
    } else {
        ValueSpec::Null
    }
}

/// The text of a field: what comes before its first zero byte, decoded.
pub open spec fn field_text(bytes: Seq<u8>) -> Seq<char> {
    text_of(zero_terminated(bytes))
}

/// The value of a field of type `field_type` whose bytes are `bytes`.
pub open spec fn decoded_value(bytes: Seq<u8>, field_type: FieldType) -> ValueSpec {
    match field_type {
        FieldType::Integer => ValueSpec::Integer(integer_of(bytes)),
        FieldType::Float => float_of(bytes),
        FieldType::String => ValueSpec::String(field_text(bytes)),
        FieldType::Binary => ValueSpec::Binary(hex_text(bytes)),
        FieldType::Memo => ValueSpec::Null,
        FieldType::Date | FieldType::Unknown => if field_text(bytes).len() == 0 {
            ValueSpec::Binary(hex_text(bytes))
        } else {
            ValueSpec::String(field_text(bytes))
        },
    }
}

fn decode_integer(bytes: &[u8]) -> (value: i64)
    ensures
        value as int == integer_of(bytes@),
{
    let width: usize = bytes.len();
    if width == 1 {
        proof {
            lemma_le_unsigned_unfold(bytes@);
        }
        let b: u8 = bytes[0];
        if b >= 128 {
            b as i64 - 256
        } else {
            b as i64
        }
    } else if width == 2 {
        read_i16(bytes) as i64
    } else if width == 4 {
        read_i32(bytes) as i64
    } else if width == 8 {
        read_i64(bytes)
    } else if width >= 4 {
        read_u32(bytes) as i64
    } else {
        0
    }
}

/// Decodes the bytes of one field as a value of the field's type.
pub fn decode_field(bytes: &[u8], field_type: FieldType) -> (value: FieldValue)
    requires
        decodable_len(bytes@.len()),
    ensures
        value@ == decoded_value(bytes@, field_type),
{
    match field_type {
        FieldType::Integer => FieldValue::Integer { value: decode_integer(bytes) },
        FieldType::Float => {
            if bytes.len() == 4 {
                FieldValue::Float { value: FloatBits::Single(read_u32(bytes)) }
            } else if bytes.len() == 8 {
                FieldValue::Float { value: FloatBits::Double(read_u64(bytes)) }
            } else {
                FieldValue::Null
            }
        },
        FieldType::String => {
            let end: usize = zero_terminated_len(bytes);
            FieldValue::String { value: decode_text(slice_subrange(bytes, 0, end)) }
        },
        FieldType::Binary => FieldValue::Binary { value: to_hex(bytes) },
        FieldType::Memo => FieldValue::Null,
        FieldType::Date | FieldType::Unknown => {
            let end: usize = zero_terminated_len(bytes);
            let text = decode_text(slice_subrange(bytes, 0, end));
            if text.as_str().unicode_len() == 0 {
                FieldValue::Binary { value: to_hex(bytes) }
            } else {
                FieldValue::String { value: text }
            }
        },
    }
}

/// The offset into the blob file that a memo field holds: its first four
/// bytes as one little-endian number, unless the field is shorter or the
/// number is 0 or 0xFFFFFFFF.
pub open spec fn memo_pointer(bytes: Seq<u8>) -> Option<u32> {
    if bytes.len() >= 4 && le_unsigned(bytes, 4) != 0 && le_unsigned(bytes, 4) < 0xFFFF_FFFF {
        Some(le_unsigned(bytes, 4) as u32)
    } else {
        None
    }
}

/// The text that a memo field resolves to: that of the block its pointer
/// leads to, where there is a blob file, the pointer is one, the block can
/// be read and it holds text.
pub open spec fn memo_text(bytes: Seq<u8>, blob: Option<Seq<u8>>) -> Option<Seq<char>> {
    match (memo_pointer(bytes), blob) {
        (Some(pointer), Some(file)) => match block_at(file, pointer) {
            Some(block) => block.text,
            None => None,
        },
        _ => None,
    }
}

/// The bytes of the blob file, if there is one.
pub open spec fn blob_contents(blob: Option<MmoFile>) -> Option<Seq<u8>> {
    match blob {
        Some(file) => Some(file.contents()),
        None => None,
    }
}

/// Resolves the pointer of a memo field against the blob file.
pub fn resolve_memo(bytes: &[u8], blob: &Option<MmoFile>) -> (text: Option<String>)
    ensures
        (match text {
            Some(t) => Some(t@),
            None => None,
        }) == memo_text(bytes@, blob_contents(*blob)),
{
    if bytes.len() < 4 {
        return None;
    }
    let pointer: u32 = read_u32(bytes);
    if pointer == 0 || pointer == 0xFFFF_FFFF {
        return None;
    }
    match blob {
        Some(file) => match file.read_text(pointer) {
            Ok(text) => Some(text),
            Err(_) => None,
        },
        None => None,
    }
}

/// The buffer that field offsets count in: a zero flag byte, then the
/// payload.
pub open spec fn full_buffer(data: Seq<u8>) -> Seq<u8> {
    seq![0u8] + data
}

/// A decoded record with one more field of the layout taken in. The field
/// named `id` is passed over; a field that reaches beyond the buffer has no
/// value; a memo field has no value either, and its text, where it
/// resolves, goes to the memo map.
pub open spec fn with_field(
    so_far: RecordSpec,
    full: Seq<u8>,
    field: FieldSpec,
    blob: Option<Seq<u8>>,
) -> RecordSpec {
    if field.name == "id"@ {
        so_far
    } else if field.offset + field.length > full.len() {
        RecordSpec {
            id: so_far.id,
            fields: so_far.fields.insert(field.name, ValueSpec::Null),
            memo_data: so_far.memo_data,
        }
    } else {
        let bytes = full.subrange(field.offset as int, field.offset + field.length);
        RecordSpec {
            id: so_far.id,
            fields: so_far.fields.insert(field.name, decoded_value(bytes, field.field_type)),
            memo_data: match memo_text(bytes, blob) {
                Some(text) if field.field_type == FieldType::Memo => so_far.memo_data.insert(
                    field.name,
                    text,
                ),
                _ => so_far.memo_data,
            },
        }
    }
}

/// The record decoded by the first `upto` fields of a layout.
pub open spec fn decoded_upto(
    record: RawRecord,
    fields: Seq<FieldSpec>,
    blob: Option<Seq<u8>>,
    upto: nat,
) -> RecordSpec
    recommends
        upto <= fields.len(),
    decreases upto,
{
    if upto == 0 {
        RecordSpec {
            id: record.id,
            fields: Map::empty().insert("id"@, ValueSpec::Integer(record.id as int)),
            memo_data: Map::empty(),
        }
    } else {
        with_field(
            decoded_upto(record, fields, blob, (upto - 1) as nat),
            full_buffer(record.data),
            fields[upto - 1],
            blob,
        )
    }
}

/// The record decoded by a layout: its index under `id`, then every field
/// of the layout in order, a later field of the same name replacing an
/// earlier one.
pub open spec fn decoded(record: RawRecord, fields: Seq<FieldSpec>, blob: Option<Seq<u8>>) -> RecordSpec {
    decoded_upto(record, fields, blob, fields.len())
}

/// Decodes a raw record by a field layout, resolving memo fields against
/// the blob file if there is one.
pub fn record_from_fic(fic_record: &FicRecord, fields: &[FieldInfo], blob: &Option<MmoFile>) -> (record: Record)
    requires
        decodable_len(fic_record.data@.len() + 1),
    ensures
        record.wf(),
        record@ == decoded(fic_record@, field_specs(fields@), blob_contents(*blob)),
{
    let ghost layout = field_specs(fields@);
    let ghost source = blob_contents(*blob);
    let mut values: NameMap<FieldValue> = NameMap::new();
    let mut memo_data: NameMap<String> = NameMap::new();
    let id_name = String::from_str("id");
    values.insert(String::from_str("id"), FieldValue::Integer { value: fic_record.id as i64 });
    let mut full: Vec<u8> = Vec::new();
    full.push(0u8);
    full.extend_from_slice(fic_record.data.as_slice());
    assert(full@ =~= full_buffer(fic_record.data@));
    let mut i: usize = 0;
    while i < fields.len()
        invariant
            i <= fields@.len(),
            layout == field_specs(fields@),
            source == blob_contents(*blob),
            id_name@ == "id"@,
            full@ == full_buffer(fic_record.data@),
            decodable_len(full@.len()),
            values.wf(),
            memo_data.wf(),
            (RecordSpec { id: fic_record.id, fields: values@, memo_data: memo_data@ })
                == decoded_upto(fic_record@, layout, source, i as nat),
        decreases fields@.len() - i,
    {
        let field = &fields[i];
        assert(layout[i as int] == field@);
        if field.name != id_name {
            let start: u64 = field.offset as u64;
            let end: u64 = start + field.length as u64;
            if end > full.len() as u64 {
                values.insert(field.name.clone(), FieldValue::Null);
            } else {
                let bytes = slice_subrange(full.as_slice(), start as usize, end as usize);
                let value = decode_field(bytes, field.field_type);
                values.insert(field.name.clone(), value);
                if let FieldType::Memo = field.field_type {
                    if let Some(text) = resolve_memo(bytes, blob) {
                        memo_data.insert(field.name.clone(), text);
                    }
                }
            }
        }
        i += 1;
    }
    Record { id: fic_record.id, fields: values, memo_data }
}

/// The bytes of a field in the buffer, where the buffer holds the field
/// whole.
pub open spec fn field_bytes(full: Seq<u8>, field: FieldSpec) -> Option<Seq<u8>> {
    if field.offset + field.length > full.len() {
        None
    } else {
        Some(full.subrange(field.offset as int, field.offset + field.length))
    }
}

/// Fields of other names leave what a name stands for as it is.
pub proof fn lemma_later_fields_keep(
    record: RawRecord,
    fields: Seq<FieldSpec>,
    blob: Option<Seq<u8>>,
    name: Seq<char>,
    from: nat,
    upto: nat,
)
    requires
        from <= upto <= fields.len(),
        forall|j: int| from <= j < upto ==> (#[trigger] fields[j]).name != name,
    ensures
        decoded_upto(record, fields, blob, upto).fields.contains_key(name) == decoded_upto(
            record,
            fields,
            blob,
            from,
        ).fields.contains_key(name),
        decoded_upto(record, fields, blob, upto).fields[name] == decoded_upto(
            record,
            fields,
            blob,
            from,
        ).fields[name],
        decoded_upto(record, fields, blob, upto).memo_data.contains_key(name) == decoded_upto(
            record,
            fields,
            blob,
            from,
        ).memo_data.contains_key(name),
        decoded_upto(record, fields, blob, upto).memo_data[name] == decoded_upto(
            record,
            fields,
            blob,
            from,
        ).memo_data[name],
    decreases upto,
{
    if upto > from {
        lemma_later_fields_keep(record, fields, blob, name, from, (upto - 1) as nat);
        assert(fields[upto - 1].name != name);
    }
}

/// A decoded record holds, under the name of a field that no later field
/// shares and that is not `id`, the value of that field: none where the
/// field reaches beyond the record, else what its bytes decode to.
pub proof fn lemma_field_value(
    record: RawRecord,
    fields: Seq<FieldSpec>,
    blob: Option<Seq<u8>>,
    at: int,
)
    requires
        0 <= at < fields.len(),
        fields[at].name != "id"@,
        forall|j: int| at < j < fields.len() ==> (#[trigger] fields[j]).name != fields[at].name,
    ensures
        decoded(record, fields, blob).fields.contains_key(fields[at].name),
        decoded(record, fields, blob).fields[fields[at].name] == match field_bytes(
            full_buffer(record.data),
            fields[at],
        ) {
            Some(bytes) => decoded_value(bytes, fields[at].field_type),
            None => ValueSpec::Null,
        },
{
    lemma_later_fields_keep(record, fields, blob, fields[at].name, (at + 1) as nat, fields.len());
}

/// The value of a memo field is none, whatever its pointer resolves to.
pub proof fn lemma_memo_value_is_null(
    record: RawRecord,
    fields: Seq<FieldSpec>,
    blob: Option<Seq<u8>>,
    at: int,
)
    requires
        0 <= at < fields.len(),
        fields[at].name != "id"@,
        fields[at].field_type == FieldType::Memo,
        forall|j: int| at < j < fields.len() ==> (#[trigger] fields[j]).name != fields[at].name,
    ensures
        decoded(record, fields, blob).fields.contains_key(fields[at].name),
        decoded(record, fields, blob).fields[fields[at].name] == ValueSpec::Null,
{
    lemma_field_value(record, fields, blob, at);
}

/// A memo field whose pointer leads to a block of the blob file that holds
/// text resolves: the memo map holds the block's text under the field's
/// name, and the field's value is none.
pub proof fn lemma_memo_resolves(
    record: RawRecord,
    fields: Seq<FieldSpec>,
    file: Seq<u8>,
    at: int,
    pointer: u32,
    text: Seq<char>,
)
    requires
        0 <= at < fields.len(),
        fields[at].name != "id"@,
        fields[at].field_type == FieldType::Memo,
        forall|j: int| at < j < fields.len() ==> (#[trigger] fields[j]).name != fields[at].name,
        field_bytes(full_buffer(record.data), fields[at]) matches Some(bytes) && memo_pointer(bytes)
            == Some(pointer),
        block_at(file, pointer) matches Some(block) && block.text == Some(text),
    ensures
        decoded(record, fields, Some(file)).memo_data.contains_key(fields[at].name),
        decoded(record, fields, Some(file)).memo_data[fields[at].name] == text,
        decoded(record, fields, Some(file)).fields[fields[at].name] == ValueSpec::Null,
{
    lemma_later_fields_keep(
        record,
        fields,
        Some(file),
        fields[at].name,
        (at + 1) as nat,
        fields.len(),
    );
}

/// A decoded record carries the index of the raw record, also as the value
/// of `id`: no field of the layout changes it.
pub proof fn lemma_id_field(record: RawRecord, fields: Seq<FieldSpec>, blob: Option<Seq<u8>>, upto: nat)
    requires
        upto <= fields.len(),
    ensures
        decoded_upto(record, fields, blob, upto).id == record.id,
        decoded_upto(record, fields, blob, upto).fields.contains_key("id"@),
        decoded_upto(record, fields, blob, upto).fields["id"@] == ValueSpec::Integer(
            record.id as int,
        ),
    decreases upto,
{
    if upto > 0 {
        lemma_id_field(record, fields, blob, (upto - 1) as nat);
    }
}

} // verus!

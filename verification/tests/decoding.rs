use fic_engine::decode::decode_field;
use fic_engine::decode::record_from_fic;
use fic_engine::decode::resolve_memo;
use fic_engine::fic::FicRecord;
use fic_engine::mmo::MmoFile;
use fic_engine::record::FieldValue;
use fic_engine::record::FloatBits;
use fic_engine::schema::FieldInfo;
use fic_engine::schema::FieldType;
use fic_engine::text::decode_blob;
use fic_engine::text::decode_text;
use fic_engine::text::text_from_readings;
use fic_engine::text::to_hex;
use fic_engine::text::zero_terminated_len;

fn integer(value: i64) -> FieldValue {
    FieldValue::Integer { value }
}

fn text(value: &str) -> FieldValue {
    FieldValue::String { value: value.to_string() }
}

fn binary(value: &str) -> FieldValue {
    FieldValue::Binary { value: value.to_string() }
}

fn field(name: &str, offset: u32, length: u32, field_type: FieldType) -> FieldInfo {
    FieldInfo { name: name.to_string(), offset, length, field_type }
}

fn raw(id: u32, data: &[u8]) -> FicRecord {
    FicRecord { id, deleted: false, data: data.to_vec(), memo_pointers: Vec::new() }
}

#[test]
fn integers_of_width_one_are_signed() {
    assert_eq!(decode_field(&[0x00], FieldType::Integer), integer(0));
    assert_eq!(decode_field(&[0x7F], FieldType::Integer), integer(127));
    assert_eq!(decode_field(&[0x80], FieldType::Integer), integer(-128));
    assert_eq!(decode_field(&[0xFF], FieldType::Integer), integer(-1));
}

#[test]
fn integers_of_width_two_four_and_eight_are_signed_little_endian() {
    assert_eq!(decode_field(&[0x34, 0x12], FieldType::Integer), integer(0x1234));
    assert_eq!(decode_field(&[0xFE, 0xFF], FieldType::Integer), integer(-2));
    assert_eq!(decode_field(&[0x78, 0x56, 0x34, 0x12], FieldType::Integer), integer(0x1234_5678));
    assert_eq!(decode_field(&[0x00, 0x00, 0x00, 0x80], FieldType::Integer), integer(-2_147_483_648));
    assert_eq!(
        decode_field(&[8, 7, 6, 5, 4, 3, 2, 1], FieldType::Integer),
        integer(0x0102_0304_0506_0708)
    );
    assert_eq!(decode_field(&[0xFF; 8], FieldType::Integer), integer(-1));
}

#[test]
fn integers_of_other_widths_are_the_unsigned_first_four_bytes() {
    assert_eq!(decode_field(&[0xFF, 0xFF, 0xFF, 0xFF, 0x01], FieldType::Integer), integer(4_294_967_295));
    assert_eq!(decode_field(&[1, 0, 0, 0, 9, 9], FieldType::Integer), integer(1));
    assert_eq!(decode_field(&[1, 2, 3, 4, 5, 6, 7, 8, 9], FieldType::Integer), integer(0x0403_0201));
    assert_eq!(decode_field(&[1, 2, 3], FieldType::Integer), integer(0));
    assert_eq!(decode_field(&[], FieldType::Integer), integer(0));
}

#[test]
fn floats_keep_their_bits() {
    assert_eq!(
        decode_field(&1.5f32.to_le_bytes(), FieldType::Float),
        FieldValue::Float { value: FloatBits::Single(1.5f32.to_bits()) }
    );
    assert_eq!(
        decode_field(&(-2.25f64).to_le_bytes(), FieldType::Float),
        FieldValue::Float { value: FloatBits::Double((-2.25f64).to_bits()) }
    );
    assert_eq!(decode_field(&[0, 0], FieldType::Float), FieldValue::Null);
    assert_eq!(decode_field(&[0; 5], FieldType::Float), FieldValue::Null);
    assert_eq!(decode_field(&[], FieldType::Float), FieldValue::Null);
}

#[test]
fn strings_end_at_the_first_zero_byte() {
    assert_eq!(decode_field(b"abc\0def", FieldType::String), text("abc"));
    assert_eq!(decode_field(b"\0abc", FieldType::String), text(""));
    assert_eq!(decode_field(b"abc", FieldType::String), text("abc"));
    assert_eq!(decode_field(b"", FieldType::String), text(""));
}

#[test]
fn strings_lose_trailing_white_space_only() {
    assert_eq!(decode_field(b"  abc  \t\r\n", FieldType::String), text("  abc"));
    assert_eq!(decode_field(b"a b   \0   ", FieldType::String), text("a b"));
    assert_eq!(decode_field(b"    ", FieldType::String), text(""));
    // 0xA0 is the no-break space of Windows-1252.
    assert_eq!(decode_field(&[b'a', 0xA0, 0xA0], FieldType::String), text("a"));
}

#[test]
fn byte_e9_in_a_string_is_e_acute() {
    assert_eq!(decode_field(&[0xE9], FieldType::String), text("é"));
    assert_eq!(decode_field(&[b'c', b'a', b'f', 0xE9, 0, 0], FieldType::String), text("café"));
    assert_eq!(decode_text(&[0xE9, 0xE8, 0xE0, 0xE7]), "éèàç");
}

#[test]
fn utf8_bytes_in_a_string_are_read_as_windows_1252() {
    // The Windows-1252 reading has no errors, so it stands.
    assert_eq!(decode_field("é".as_bytes(), FieldType::String), text("Ã©"));
}

#[test]
fn upper_half_of_windows_1252() {
    assert_eq!(decode_text(&[0x80]), "€");
    assert_eq!(decode_text(&[0x85]), "…");
    assert_eq!(decode_text(&[0xFF]), "ÿ");
    assert_eq!(decode_text(&[0x81]), "\u{81}");
}

#[test]
fn readings_are_chosen_by_the_error_flag() {
    let legacy = || "legacy  ".to_string();
    let utf8 = || Some("utf8  ".to_string());
    assert_eq!(text_from_readings(legacy(), false, utf8()), "legacy");
    assert_eq!(text_from_readings(legacy(), true, utf8()), "utf8");
    assert_eq!(text_from_readings(legacy(), true, None), "legacy");
    assert_eq!(text_from_readings(legacy(), false, None), "legacy");
    assert_eq!(text_from_readings("  \u{3000}\u{2003}".to_string(), false, None), "");
}

#[test]
fn zero_terminated_len_finds_the_first_zero() {
    assert_eq!(zero_terminated_len(b"abc\0\0"), 3);
    assert_eq!(zero_terminated_len(b"\0"), 0);
    assert_eq!(zero_terminated_len(b"abc"), 3);
    assert_eq!(zero_terminated_len(b""), 0);
}

#[test]
fn binary_is_lower_case_hex_of_every_byte() {
    assert_eq!(decode_field(&[0x00, 0x0F, 0xA0, 0xFF], FieldType::Binary), binary("000fa0ff"));
    assert_eq!(decode_field(&[0, 0, 0], FieldType::Binary), binary("000000"));
    assert_eq!(decode_field(&[], FieldType::Binary), binary(""));
    assert_eq!(to_hex(&[0x12, 0x34, 0x56, 0x78, 0x9A, 0xBC, 0xDE, 0xF0]), "123456789abcdef0");
    assert_eq!(FieldValue::binary(vec![0xDE, 0xAD]), binary("dead"));
}

#[test]
fn memo_fields_have_no_value() {
    assert_eq!(decode_field(&[4, 0, 0, 0], FieldType::Memo), FieldValue::Null);
    assert_eq!(decode_field(&[], FieldType::Memo), FieldValue::Null);
}

#[test]
fn dates_and_unknown_fall_back_to_hex_where_the_text_is_empty() {
    for kind in [FieldType::Date, FieldType::Unknown] {
        assert_eq!(decode_field(b"20240131", kind), text("20240131"));
        assert_eq!(decode_field(b"2024  \0\x01", kind), text("2024"));
        assert_eq!(decode_field(&[0, 1, 2], kind), binary("000102"));
        assert_eq!(decode_field(&[0x20, 0x20, 0x00], kind), binary("202000"));
        assert_eq!(decode_field(&[], kind), binary(""));
    }
}

#[test]
fn constructors_build_the_variants() {
    assert_eq!(FieldValue::string("x".to_string()), text("x"));
    assert_eq!(FieldValue::integer(-5), integer(-5));
    assert_eq!(
        FieldValue::float(FloatBits::Double(7)),
        FieldValue::Float { value: FloatBits::Double(7) }
    );
    assert_eq!(FieldValue::null(), FieldValue::Null);
}

fn blob_file(blocks: &[&[u8]]) -> (Vec<u8>, Vec<u32>) {
    let mut bytes = vec![0u8; 8];
    let mut offsets = Vec::new();
    for data in blocks {
        offsets.push(bytes.len() as u32);
        bytes.extend_from_slice(&(data.len() as u32).to_le_bytes());
        bytes.extend_from_slice(data);
    }
    (bytes, offsets)
}

#[test]
fn memo_pointer_resolves_to_the_text_of_its_block() {
    let (bytes, offsets) = blob_file(&[b"first note", &[b'n', 0xE9, b'e']]);
    let blob = Some(MmoFile::open(bytes));
    assert_eq!(resolve_memo(&offsets[0].to_le_bytes(), &blob).as_deref(), Some("first note"));
    assert_eq!(resolve_memo(&offsets[1].to_le_bytes(), &blob).as_deref(), Some("née"));
    let mut wide = offsets[0].to_le_bytes().to_vec();
    wide.extend_from_slice(&[9, 9, 9]);
    assert_eq!(resolve_memo(&wide, &blob).as_deref(), Some("first note"));
}

#[test]
fn memo_pointer_that_resolves_to_nothing() {
    let (bytes, offsets) = blob_file(&[b"note"]);
    let blob = Some(MmoFile::open(bytes));
    assert_eq!(resolve_memo(&[0, 0, 0, 0], &blob), None);
    assert_eq!(resolve_memo(&[0xFF, 0xFF, 0xFF, 0xFF], &blob), None);
    assert_eq!(resolve_memo(&[1, 0, 0], &blob), None);
    assert_eq!(resolve_memo(&1000u32.to_le_bytes(), &blob), None);
    assert_eq!(resolve_memo(&offsets[0].to_le_bytes(), &None), None);
}

#[test]
fn decode_blob_prefers_utf8() {
    assert_eq!(decode_blob("é".as_bytes()).as_deref(), Some("é"));
    assert_eq!(decode_blob(&[0xE9]).as_deref(), Some("é"));
    assert_eq!(decode_blob(b"").as_deref(), Some(""));
    assert_eq!(decode_blob(b"trailing  ").as_deref(), Some("trailing  "));
}

#[test]
fn record_is_decoded_field_by_field() {
    // Offsets count from the flag byte, which is always read as zero.
    let mut data = Vec::new();
    data.extend_from_slice(&(-7i32).to_le_bytes()); // 1..5
    data.extend_from_slice(b"Dupont\0\0"); // 5..13
    data.extend_from_slice(&[0xCA, 0xFE]); // 13..15
    let fields = vec![
        field("id", 0, 4, FieldType::Integer),
        field("flags", 0, 1, FieldType::Integer),
        field("balance", 1, 4, FieldType::Integer),
        field("name", 5, 8, FieldType::String),
        field("tag", 13, 2, FieldType::Binary),
        field("beyond", 14, 2, FieldType::Integer),
    ];
    let record = record_from_fic(&raw(42, &data), &fields, &None);
    assert_eq!(record.id, 42);
    assert_eq!(record.fields.len(), 6);
    assert_eq!(record.fields.get("id"), Some(&integer(42)));
    assert_eq!(record.fields.get("flags"), Some(&integer(0)));
    assert_eq!(record.fields.get("balance"), Some(&integer(-7)));
    assert_eq!(record.fields.get("name"), Some(&text("Dupont")));
    assert_eq!(record.fields.get("tag"), Some(&binary("cafe")));
    assert_eq!(record.fields.get("beyond"), Some(&FieldValue::Null));
    assert_eq!(record.fields.get("missing"), None);
    assert_eq!(record.memo_data.len(), 0);
}

#[test]
fn record_without_fields_has_its_id() {
    let record = record_from_fic(&raw(3, &[1, 2, 3]), &[], &None);
    assert_eq!(record.id, 3);
    assert_eq!(record.fields.len(), 1);
    assert_eq!(record.fields.get("id"), Some(&integer(3)));
}

#[test]
fn record_without_payload_has_only_the_flag_byte() {
    let fields = vec![
        field("flags", 0, 1, FieldType::Integer),
        field("data", 1, 1, FieldType::Binary),
        field("empty", 1, 0, FieldType::Binary),
    ];
    let record = record_from_fic(&raw(0, &[]), &fields, &None);
    assert_eq!(record.fields.get("flags"), Some(&integer(0)));
    assert_eq!(record.fields.get("data"), Some(&FieldValue::Null));
    assert_eq!(record.fields.get("empty"), Some(&binary("")));
}

#[test]
fn later_field_of_the_same_name_replaces_the_earlier() {
    let fields = vec![
        field("x", 1, 1, FieldType::Integer),
        field("y", 2, 1, FieldType::Integer),
        field("x", 3, 1, FieldType::Integer),
    ];
    let record = record_from_fic(&raw(0, &[10, 20, 30]), &fields, &None);
    assert_eq!(record.fields.len(), 3);
    assert_eq!(record.fields.get("x"), Some(&integer(30)));
    assert_eq!(record.fields.get("y"), Some(&integer(20)));
    assert_eq!(record.fields.entry(1).name, "x");
}

#[test]
fn memo_field_resolves_into_the_memo_map() {
    let (bytes, offsets) = blob_file(&[b"a long note", b"another"]);
    let blob = Some(MmoFile::open(bytes));
    let mut data = Vec::new();
    data.extend_from_slice(&offsets[1].to_le_bytes());
    data.extend_from_slice(&offsets[0].to_le_bytes());
    data.extend_from_slice(&0u32.to_le_bytes());
    let fields = vec![
        field("notes", 1, 4, FieldType::Memo),
        field("more", 5, 4, FieldType::Memo),
        field("none", 9, 4, FieldType::Memo),
        field("plain", 1, 4, FieldType::Integer),
    ];
    let record = record_from_fic(&raw(1, &data), &fields, &blob);
    assert_eq!(record.fields.get("notes"), Some(&FieldValue::Null));
    assert_eq!(record.fields.get("more"), Some(&FieldValue::Null));
    assert_eq!(record.fields.get("none"), Some(&FieldValue::Null));
    assert_eq!(record.memo_data.get("notes").map(|s| s.as_str()), Some("another"));
    assert_eq!(record.memo_data.get("more").map(|s| s.as_str()), Some("a long note"));
    assert_eq!(record.memo_data.get("none"), None);
    assert_eq!(record.memo_data.get("plain"), None);
    assert_eq!(record.memo_data.len(), 2);
    assert_eq!(record.fields.get("plain"), Some(&integer(offsets[1] as i64)));
}

#[test]
fn memo_field_without_a_blob_file_resolves_nothing() {
    let fields = vec![field("notes", 1, 4, FieldType::Memo)];
    let record = record_from_fic(&raw(1, &8u32.to_le_bytes()), &fields, &None);
    assert_eq!(record.fields.get("notes"), Some(&FieldValue::Null));
    assert_eq!(record.memo_data.len(), 0);
}

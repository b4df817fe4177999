use fic_engine::error::EngineError;
use fic_engine::fic::extract_memo_pointers;
use fic_engine::fic::merge_outcomes;
use fic_engine::fic::parse_header;
use fic_engine::fic::FicFile;
use fic_engine::fic::FicRecord;
use fic_engine::schema::FieldType;

/// A header in the 20-byte layout of the format.
fn header(magic: &[u8; 4], stored_length: u16, count: u16) -> Vec<u8> {
    let mut bytes = Vec::new();
    bytes.extend_from_slice(magic);
    bytes.extend_from_slice(&1u16.to_le_bytes());
    bytes.extend_from_slice(&0u16.to_le_bytes());
    bytes.extend_from_slice(&stored_length.to_le_bytes());
    bytes.extend_from_slice(&count.to_le_bytes());
    bytes.extend_from_slice(&0u16.to_le_bytes());
    bytes.extend_from_slice(&3u16.to_le_bytes());
    bytes.extend_from_slice(&0u16.to_le_bytes());
    bytes.extend_from_slice(&7u16.to_le_bytes());
    bytes
}

/// A file of `count` records of `length` bytes; record `i` holds `i` in the
/// first four bytes of its payload, and the records listed in `deleted`
/// have the lowest bit of their flag byte set.
fn table(count: u16, length: u16, deleted: &[u16]) -> Vec<u8> {
    let mut bytes = header(b"PCS\0", length, count);
    for i in 0..count {
        bytes.push(if deleted.contains(&i) { 0x01 } else { 0x00 });
        let mut payload = vec![0u8; length as usize - 1];
        payload[0..4].copy_from_slice(&(i as u32).to_le_bytes());
        bytes.extend_from_slice(&payload);
    }
    bytes
}

/// A file with a 32-byte header of 32-bit fields, then five records. Its
/// magic is stored as a number, so the file starts with a zero byte.
fn wide_header_image() -> Vec<u8> {
    let mut bytes = Vec::new();
    bytes.extend_from_slice(&0x46494300u32.to_le_bytes());
    bytes.extend_from_slice(&1u16.to_le_bytes());
    bytes.extend_from_slice(&100u32.to_le_bytes());
    bytes.extend_from_slice(&5u32.to_le_bytes());
    bytes.extend_from_slice(&0u32.to_le_bytes());
    bytes.extend_from_slice(&0u16.to_le_bytes());
    bytes.extend_from_slice(&32u32.to_le_bytes());
    bytes.extend_from_slice(&32u32.to_le_bytes());
    while bytes.len() < 32 {
        bytes.push(0);
    }
    for i in 0..5 {
        bytes.push(0);
        let mut record_data = vec![0u8; 99];
        record_data[0..4].copy_from_slice(&(i as u32).to_le_bytes());
        bytes.extend_from_slice(&record_data);
    }
    bytes
}

/// The same table in the 20-byte layout: magic `FIC`, five records of 100
/// bytes.
fn five_records() -> Vec<u8> {
    let mut bytes = header(b"FIC\0", 100, 5);
    for i in 0..5 {
        bytes.push(0);
        let mut record_data = vec![0u8; 99];
        record_data[0..4].copy_from_slice(&(i as u32).to_le_bytes());
        bytes.extend_from_slice(&record_data);
    }
    bytes
}

#[test]
fn test_read_header() {
    // A magic stored as a number starts with a zero byte, which is neither
    // `PCS` nor `FIC`.
    assert!(matches!(FicFile::open(wide_header_image()), Err(EngineError::Format)));

    let fic = FicFile::open(five_records()).unwrap();
    let header = fic.header();
    assert_eq!(header.magic, u32::from_le_bytes(*b"FIC\0"));
    assert_eq!(header.record_count, 5);
    assert_eq!(header.record_length, 100);
}

#[test]
fn test_read_record() {
    assert!(matches!(FicFile::open(wide_header_image()), Err(EngineError::Format)));

    let fic = FicFile::open(five_records()).unwrap();
    let record = fic.read_record(0).unwrap();
    assert_eq!(record.id, 0);
    assert!(!record.deleted);
}

#[test]
fn test_read_all_records() {
    assert!(matches!(FicFile::open(wide_header_image()), Err(EngineError::Format)));

    let fic = FicFile::open(five_records()).unwrap();
    let records = fic.read_all_records().unwrap();
    assert_eq!(records.len(), 5);
}

#[test]
fn header_fields_are_little_endian() {
    let mut bytes = header(b"PCS\0", 0x0102, 0x0304);
    bytes[4] = 0x34;
    bytes[5] = 0x12;
    let header = parse_header(&bytes).unwrap();
    assert_eq!(header.magic, 0x0053_4350);
    assert_eq!(header.version, 0x1234);
    assert_eq!(header.record_length, 0x0102);
    assert_eq!(header.record_count, 0x0304);
    assert_eq!(header.deleted_count, 3);
    assert_eq!(header.flags, 7);
    assert_eq!(header.header_size, 20);
    assert_eq!(header.data_offset, 20);
}

#[test]
fn open_accepts_both_magics() {
    assert!(FicFile::open(header(b"PCS\0", 10, 0)).is_ok());
    assert!(FicFile::open(header(b"FIC\0", 10, 0)).is_ok());
    assert!(FicFile::open(header(b"PCSX", 10, 0)).is_ok());
}

#[test]
fn open_rejects_other_magics() {
    assert!(matches!(FicFile::open(header(b"XYZ\0", 100, 0)), Err(EngineError::Format)));
    assert!(matches!(FicFile::open(header(b"pcs\0", 100, 0)), Err(EngineError::Format)));
    assert!(matches!(FicFile::open(header(b"PC\0\0", 100, 0)), Err(EngineError::Format)));
}

#[test]
fn open_rejects_short_headers() {
    assert!(matches!(FicFile::open(Vec::new()), Err(EngineError::Format)));
    assert!(matches!(FicFile::open(b"PCS\0".to_vec()), Err(EngineError::Format)));
    let mut bytes = header(b"PCS\0", 100, 0);
    bytes.pop();
    assert!(matches!(FicFile::open(bytes), Err(EngineError::Format)));
}

fn with_size(stored_length: u16, count: u16, file_size: usize) -> Vec<u8> {
    let mut bytes = header(b"PCS\0", stored_length, count);
    bytes.resize(file_size, 0);
    bytes
}

#[test]
fn sentinel_length_is_inferred_from_the_size() {
    // (1020 - 20) / 10 = 100
    assert_eq!(parse_header(&with_size(1, 10, 1020)).unwrap().record_length, 100);
    // (2570 - 20) / 10 = 255
    assert_eq!(parse_header(&with_size(1, 10, 2570)).unwrap().record_length, 255);
    // (1029 - 20) / 10 = 100, rounded down
    assert_eq!(parse_header(&with_size(1, 10, 1029)).unwrap().record_length, 100);
    // (200020 - 20) / 2 = 100000
    assert_eq!(parse_header(&with_size(1, 2, 200_020)).unwrap().record_length, 100_000);
}

#[test]
fn sentinel_length_out_of_range_is_the_default() {
    // (1010 - 20) / 10 = 99
    assert_eq!(parse_header(&with_size(1, 10, 1010)).unwrap().record_length, 65_536);
    // (200022 - 20) / 2 = 100001
    assert_eq!(parse_header(&with_size(1, 2, 200_022)).unwrap().record_length, 65_536);
    // no data at all
    assert_eq!(parse_header(&with_size(1, 10, 20)).unwrap().record_length, 65_536);
}

#[test]
fn sentinel_length_without_records_is_the_default() {
    assert_eq!(parse_header(&with_size(1, 0, 5000)).unwrap().record_length, 65_536);
}

#[test]
fn stored_length_is_taken_as_it_is() {
    assert_eq!(parse_header(&with_size(2, 10, 5000)).unwrap().record_length, 2);
    assert_eq!(parse_header(&with_size(0, 10, 5000)).unwrap().record_length, 0);
    assert_eq!(parse_header(&with_size(65_535, 1, 20)).unwrap().record_length, 65_535);
}

#[test]
fn read_record_splits_flag_and_payload() {
    let mut bytes = header(b"PCS\0", 6, 2);
    bytes.extend_from_slice(&[0x00, 1, 2, 3, 4, 5]);
    bytes.extend_from_slice(&[0x03, 9, 8, 7, 6, 5]);
    let fic = FicFile::open(bytes).unwrap();
    let first = fic.read_record(0).unwrap();
    assert_eq!(
        first,
        FicRecord { id: 0, deleted: false, data: vec![1, 2, 3, 4, 5], memo_pointers: vec![0x0403_0201] }
    );
    let second = fic.read_record(1).unwrap();
    assert_eq!(
        second,
        FicRecord { id: 1, deleted: true, data: vec![9, 8, 7, 6, 5], memo_pointers: vec![0x0607_0809] }
    );
}

#[test]
fn deleted_flag_is_the_lowest_bit_only() {
    let mut bytes = header(b"PCS\0", 2, 4);
    bytes.extend_from_slice(&[0x00, 0, 0x01, 0, 0x02, 0, 0xFF, 0]);
    let fic = FicFile::open(bytes).unwrap();
    assert!(!fic.read_record(0).unwrap().deleted);
    assert!(fic.read_record(1).unwrap().deleted);
    assert!(!fic.read_record(2).unwrap().deleted);
    assert!(fic.read_record(3).unwrap().deleted);
}

#[test]
fn read_record_out_of_range() {
    let fic = FicFile::open(table(3, 10, &[])).unwrap();
    assert!(matches!(fic.read_record(3), Err(EngineError::OutOfRange)));
    assert!(matches!(fic.read_record(u32::MAX), Err(EngineError::OutOfRange)));
    assert!(fic.read_record(2).is_ok());
}

#[test]
fn read_record_tolerates_a_short_last_record() {
    let mut bytes = table(3, 10, &[]);
    bytes.truncate(20 + 2 * 10 + 4);
    let fic = FicFile::open(bytes).unwrap();
    let last = fic.read_record(2).unwrap();
    assert_eq!(last.id, 2);
    assert_eq!(last.data, vec![2, 0, 0]);
    assert_eq!(last.memo_pointers, Vec::<u32>::new());
}

#[test]
fn read_record_fails_where_nothing_is_left() {
    let mut bytes = table(3, 10, &[]);
    bytes.truncate(20 + 2 * 10);
    let fic = FicFile::open(bytes).unwrap();
    assert!(matches!(fic.read_record(2), Err(EngineError::Decode)));
    assert!(fic.read_record(1).is_ok());
}

#[test]
fn read_record_cut_after_its_flag_byte_has_no_payload() {
    let mut bytes = header(b"PCS\0", 4, 2);
    bytes.extend_from_slice(&[0x00, 1, 2, 3, 0x01]);
    let fic = FicFile::open(bytes).unwrap();
    assert_eq!(
        fic.read_record(1).unwrap(),
        FicRecord { id: 1, deleted: true, data: vec![], memo_pointers: vec![] }
    );
}

#[test]
fn records_of_length_zero_cannot_be_read() {
    let bytes = with_size(0, 3, 100);
    let fic = FicFile::open(bytes).unwrap();
    assert!(matches!(fic.read_record(0), Err(EngineError::Decode)));
    assert!(matches!(fic.read_all_records(), Err(EngineError::Decode)));
}

#[test]
fn memo_pointers_are_the_first_four_bytes() {
    assert_eq!(extract_memo_pointers(&[0x10, 0, 0, 0, 9, 9]), vec![0x10]);
    assert_eq!(extract_memo_pointers(&[0xFE, 0xFF, 0xFF, 0xFF]), vec![0xFFFF_FFFE]);
    assert_eq!(extract_memo_pointers(&[0, 0, 0, 0, 1]), Vec::<u32>::new());
    assert_eq!(extract_memo_pointers(&[0xFF, 0xFF, 0xFF, 0xFF]), Vec::<u32>::new());
    assert_eq!(extract_memo_pointers(&[1, 2, 3]), Vec::<u32>::new());
    assert_eq!(extract_memo_pointers(&[]), Vec::<u32>::new());
}

#[test]
fn read_all_records_returns_at_most_the_count_with_ids_below_it() {
    for count in [0u16, 1, 7, 100, 101, 150] {
        let fic = FicFile::open(table(count, 12, &[])).unwrap();
        let records = fic.read_all_records().unwrap();
        assert!(records.len() <= count as usize);
        assert!(records.iter().all(|r| r.id < count as u32));
        assert_eq!(records.len(), count as usize);
    }
}

#[test]
fn read_all_records_ignores_bytes_after_the_last_record() {
    let mut bytes = table(3, 12, &[]);
    bytes.extend_from_slice(&[0xAA; 50]);
    let fic = FicFile::open(bytes).unwrap();
    assert_eq!(fic.read_all_records().unwrap().len(), 3);
}

#[test]
fn deleted_records_are_left_out_of_the_bulk_read_but_can_be_read() {
    for count in [10u16, 150] {
        let fic = FicFile::open(table(count, 12, &[0, 4, 9])).unwrap();
        let ids: Vec<u32> = fic.read_all_records().unwrap().iter().map(|r| r.id).collect();
        let expected: Vec<u32> = (0..count as u32).filter(|i| ![0, 4, 9].contains(i)).collect();
        assert_eq!(ids, expected);
        let fourth = fic.read_record(4).unwrap();
        assert!(fourth.deleted);
        assert_eq!(fourth.id, 4);
    }
}

#[test]
fn sequential_read_stops_at_the_first_missing_record() {
    let mut bytes = table(50, 12, &[3]);
    bytes.truncate(20 + 30 * 12);
    let fic = FicFile::open(bytes).unwrap();
    let ids: Vec<u32> = fic.read_all_records().unwrap().iter().map(|r| r.id).collect();
    let expected: Vec<u32> = (0..30).filter(|i| *i != 3).collect();
    assert_eq!(ids, expected);
}

#[test]
fn sequential_read_keeps_a_short_last_record() {
    let mut bytes = table(50, 12, &[]);
    bytes.truncate(20 + 30 * 12 + 5);
    let fic = FicFile::open(bytes).unwrap();
    let records = fic.read_all_records().unwrap();
    assert_eq!(records.len(), 31);
    assert_eq!(records[30].data.len(), 4);
}

#[test]
fn parallel_read_stops_at_the_first_incomplete_record() {
    let mut bytes = table(150, 12, &[7]);
    bytes.truncate(20 + 120 * 12 + 5);
    let fic = FicFile::open(bytes).unwrap();
    let ids: Vec<u32> = fic.read_all_records().unwrap().iter().map(|r| r.id).collect();
    let expected: Vec<u32> = (0..120).filter(|i| *i != 7).collect();
    assert_eq!(ids, expected);
}

#[test]
fn bulk_read_fails_where_the_first_record_is_missing() {
    for count in [50u16, 150] {
        let mut bytes = table(count, 12, &[]);
        bytes.truncate(20);
        let fic = FicFile::open(bytes).unwrap();
        assert!(matches!(fic.read_all_records(), Err(EngineError::Decode)));
    }
}

#[test]
fn both_strategies_read_the_same_records() {
    let small = FicFile::open(table(50, 16, &[5])).unwrap().read_all_records().unwrap();
    let large = FicFile::open(table(150, 16, &[5])).unwrap().read_all_records().unwrap();
    assert_eq!(small.len(), 49);
    assert_eq!(large.len(), 149);
    assert_eq!(&large[..49], &small[..]);
    assert!(large.windows(2).all(|w| w[0].id < w[1].id));
}

#[test]
fn threshold_of_the_parallel_read_is_above_one_hundred_records() {
    // A short last record is kept by the read of 100 records and ends the
    // read of 101.
    let mut hundred = table(100, 8, &[]);
    hundred.truncate(20 + 99 * 8 + 3);
    assert_eq!(FicFile::open(hundred).unwrap().read_all_records().unwrap().len(), 100);
    let mut more = table(101, 8, &[]);
    more.truncate(20 + 100 * 8 + 3);
    assert_eq!(FicFile::open(more).unwrap().read_all_records().unwrap().len(), 100);
}

#[test]
fn merge_keeps_active_records_before_the_first_failure() {
    let record = |id: u32, deleted: bool| FicRecord { id, deleted, data: vec![], memo_pointers: vec![] };
    let merged = merge_outcomes(vec![
        Some(record(0, false)),
        Some(record(1, true)),
        Some(record(2, false)),
        None,
        Some(record(4, false)),
    ])
    .unwrap();
    assert_eq!(merged, vec![record(0, false), record(2, false)]);
    assert!(matches!(
        merge_outcomes(vec![None, Some(record(1, false))]),
        Err(EngineError::Decode)
    ));
    assert_eq!(merge_outcomes(Vec::new()).unwrap(), Vec::<FicRecord>::new());
}

#[test]
fn schema_is_id_flags_and_the_rest() {
    let fic = FicFile::open(table(1, 12, &[])).unwrap();
    let fields = fic.analyze_schema();
    assert_eq!(fields.len(), 3);
    assert_eq!((fields[0].name.as_str(), fields[0].offset, fields[0].length), ("id", 0, 4));
    assert_eq!(fields[0].field_type, FieldType::Integer);
    assert_eq!((fields[1].name.as_str(), fields[1].offset, fields[1].length), ("flags", 4, 1));
    assert_eq!(fields[1].field_type, FieldType::Integer);
    assert_eq!((fields[2].name.as_str(), fields[2].offset, fields[2].length), ("data", 5, 7));
    assert_eq!(fields[2].field_type, FieldType::Binary);
}

#[test]
fn schema_of_short_records_has_no_data_field() {
    for length in [0u16, 2, 5] {
        let fic = FicFile::open(with_size(length, 1, 40)).unwrap();
        assert_eq!(fic.analyze_schema().len(), 2);
    }
    let fic = FicFile::open(with_size(6, 1, 40)).unwrap();
    let fields = fic.analyze_schema();
    assert_eq!(fields.len(), 3);
    assert_eq!(fields[2].length, 1);
}

#[test]
fn header_dump_shows_hex_and_characters() {
    let mut bytes = header(b"PCS\0", 100, 5);
    bytes.extend_from_slice(b"Hello, world! \x7f\xe9");
    bytes.resize(64, 0);
    let fic = FicFile::open(bytes).unwrap();
    let dump = fic.dump_header_hex().unwrap();
    let lines: Vec<&str> = dump.split('\n').collect();
    assert_eq!(lines.len(), 6);
    assert_eq!(lines[0], "Header (64 premiers bytes):");
    assert_eq!(lines[1], "0000: 50 43 53 00 01 00 00 00 64 00 05 00 00 00 03 00  |PCS.....d.......|");
    assert_eq!(lines[2], "0010: 00 00 07 00 48 65 6c 6c 6f 2c 20 77 6f 72 6c 64  |....Hello, world|");
    assert_eq!(lines[3], "0020: 21 20 7f e9 00 00 00 00 00 00 00 00 00 00 00 00  |! ..............|");
    assert_eq!(lines[4], "0030: 00 00 00 00 00 00 00 00 00 00 00 00 00 00 00 00  |................|");
    assert_eq!(lines[5], "");
}

#[test]
fn header_dump_needs_64_bytes() {
    let mut bytes = header(b"PCS\0", 100, 5);
    bytes.resize(63, 0);
    assert_eq!(FicFile::open(bytes).unwrap().dump_header_hex(), None);
}

#[test]
fn expected_size_is_header_and_all_records() {
    let fic = FicFile::open(table(7, 12, &[])).unwrap();
    assert_eq!(fic.expected_size(), 20 + 7 * 12);
    assert_eq!(fic.size(), 20 + 7 * 12);
    let mut bytes = table(7, 12, &[]);
    bytes.truncate(50);
    let fic = FicFile::open(bytes).unwrap();
    assert_eq!(fic.expected_size(), 104);
    assert_eq!(fic.size(), 50);
    let fic = FicFile::open(header(b"PCS\0", 65_535, 65_535)).unwrap();
    assert_eq!(fic.expected_size(), 20 + 65_535 * 65_535);
}

#[test]
fn into_bytes_gives_the_file_back() {
    let bytes = table(3, 12, &[1]);
    assert_eq!(FicFile::open(bytes.clone()).unwrap().into_bytes(), bytes);
}

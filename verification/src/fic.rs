//! The record file: a 20-byte header, then fixed-length records, each led
//! by a flag byte whose lowest bit marks the record as deleted.

use crate::endian::le_unsigned;
use crate::endian::lemma_le_unsigned_unfold;
use crate::endian::read_u16;
use crate::endian::read_u32;
use crate::error::EngineError;
use rayon::iter::IntoParallelIterator;
use rayon::iter::ParallelIterator;
use crate::schema::field_specs;
use crate::schema::infer_fields;
use crate::schema::inferred_fields;
use crate::schema::FieldInfo;
use crate::text::dump_header;
use crate::text::header_dump;
use vstd::prelude::*;
use vstd::slice::slice_subrange;

verus! {

/// The size of the header, which is also where the records start.
pub const HEADER_SIZE: u32 = 20;

/// The stored record length that says the length is not stored.
pub const LENGTH_SENTINEL: u16 = 1;

/// The smallest record length that is accepted from the file's size.
pub const MIN_INFERRED_LENGTH: u32 = 100;

/// The largest record length that is accepted from the file's size.
pub const MAX_INFERRED_LENGTH: u32 = 100_000;

/// The record length taken where none can be inferred.
pub const DEFAULT_LENGTH: u32 = 65_536;

/// Files with more records than this are decoded slice by slice, in parallel.
pub const PARALLEL_THRESHOLD: u32 = 100;

/// The metadata at the start of a record file.
#[derive(Clone, Copy, Debug, PartialEq, Eq, Structural)]
pub struct FicHeader {
    /// The four magic bytes, read as a little-endian number.
    pub magic: u32,
    /// The version of the format.
    pub version: u16,
    /// The length of one record, flag byte included.
    pub record_length: u32,
    /// How many records the file holds.
    pub record_count: u32,
    /// How many of them are marked as deleted.
    pub deleted_count: u32,
    /// The file's flags.
    pub flags: u16,
    /// The size of the header.
    pub header_size: u32,
    /// Where the records start.
    pub data_offset: u32,
}

/// Whether a file starts with `PCS` or with `FIC`.
pub open spec fn magic_accepted(file: Seq<u8>) -> bool {
    &&& file.len() >= 4
    &&& {
        ||| (file[0] == 0x50 && file[1] == 0x43 && file[2] == 0x53)
        ||| (file[0] == 0x46 && file[1] == 0x49 && file[2] == 0x43)
    }
}

/// Whether a file has a header that can be read.
pub open spec fn header_readable(file: Seq<u8>) -> bool {
    file.len() >= HEADER_SIZE && magic_accepted(file)
}

/// The 16-bit little-endian number at `at`.
pub open spec fn u16_at(file: Seq<u8>, at: int) -> nat {
    le_unsigned(file.subrange(at, at + 2), 2)
}

/// The record length of a file of `file_len` bytes whose header stores the
/// length `stored` and the record count `count`. The sentinel asks for the
/// length that the file's size gives, where that is a plausible one.
pub open spec fn record_length_for(file_len: nat, stored: nat, count: nat) -> nat {
    if stored == LENGTH_SENTINEL {
        if count > 0 {
            let inferred = (file_len - HEADER_SIZE) / (count as int);
            if MIN_INFERRED_LENGTH <= inferred <= MAX_INFERRED_LENGTH {
                inferred as nat
            } else {
                DEFAULT_LENGTH as nat
            }
        } else {
            DEFAULT_LENGTH as nat
        }
    } else {
        stored
    }
}

/// The header that a readable file spells.
pub open spec fn header_of(file: Seq<u8>) -> FicHeader
    recommends
        header_readable(file),
{
    FicHeader {
        magic: le_unsigned(file.subrange(0, 4), 4) as u32,
        version: u16_at(file, 4) as u16,
        record_length: record_length_for(file.len(), u16_at(file, 8), u16_at(file, 10)) as u32,
        record_count: u16_at(file, 10) as u32,
        deleted_count: u16_at(file, 14) as u32,
        flags: u16_at(file, 18) as u16,
        header_size: HEADER_SIZE,
        data_offset: HEADER_SIZE,
    }
}

/// With the sentinel as stored length, the record length is the file's size
/// after the header divided by the record count where that lies between
/// 100 and 100000, and 65536 otherwise, as it is without records.
pub proof fn lemma_sentinel_length(file_len: nat, count: nat)
    requires
        file_len >= HEADER_SIZE,
    ensures
        count > 0 ==> ({
            let inferred = (file_len - 20) / (count as int);
            record_length_for(file_len, 1, count) == if 100 <= inferred <= 100_000 {
                inferred
            } else {
                65_536
            }
        }),
        count == 0 ==> record_length_for(file_len, 1, count) == 65_536,
{
}

/// No header gives a record longer than 100000 bytes, nor more than 65535
/// records.
pub proof fn lemma_header_bounds(file: Seq<u8>)
    requires
        header_readable(file),
    ensures
        header_of(file).record_length <= MAX_INFERRED_LENGTH,
        header_of(file).record_count <= u16::MAX,
        header_of(file).record_length == record_length_for(
            file.len(),
            u16_at(file, 8),
            u16_at(file, 10),
        ),
        header_of(file).record_count == u16_at(file, 10),
{
    lemma_le_unsigned_unfold(file.subrange(8, 10));
    lemma_le_unsigned_unfold(file.subrange(10, 12));
}

/// Reads the header of a record file.
pub fn parse_header(file: &[u8]) -> (result: Result<FicHeader, EngineError>)
    ensures
        result == if header_readable(file@) {
            Ok::<FicHeader, EngineError>(header_of(file@))
        } else {
            Err::<FicHeader, EngineError>(EngineError::Format)
        },
{
    if file.len() < 20 {
        return Err(EngineError::Format);
    }
    let pcs: bool = file[0] == 0x50 && file[1] == 0x43 && file[2] == 0x53;
    let fic: bool = file[0] == 0x46 && file[1] == 0x49 && file[2] == 0x43;
    if !pcs && !fic {
        return Err(EngineError::Format);
    }
    let magic: u32 = read_u32(slice_subrange(file, 0, 4));
    let version: u16 = read_u16(slice_subrange(file, 4, 6));
    let stored: u16 = read_u16(slice_subrange(file, 8, 10));
    let count: u16 = read_u16(slice_subrange(file, 10, 12));
    let deleted: u16 = read_u16(slice_subrange(file, 14, 16));
    let flags: u16 = read_u16(slice_subrange(file, 18, 20));
    let record_length: u32 = if stored == LENGTH_SENTINEL {
        if count > 0 {
            let available: u64 = (file.len() - 20) as u64;
            let inferred: u64 = available / (count as u64);
            if inferred >= 100 && inferred <= 100_000 {
                inferred as u32
            } else {
                DEFAULT_LENGTH
            }
        } else {
            DEFAULT_LENGTH
        }
    } else {
        stored as u32
    };
    proof {
        lemma_header_bounds(file@);
    }
    Ok(
        FicHeader {
            magic,
            version,
            record_length,
            record_count: count as u32,
            deleted_count: deleted as u32,
            flags,
            header_size: HEADER_SIZE,
            data_offset: HEADER_SIZE,
        },
    )
}

/// One record as it lies in the file.
#[derive(Clone, Debug, PartialEq, Eq)]
pub struct FicRecord {
    /// The record's index in the file, from 0.
    pub id: u32,
    /// Whether the record is marked as deleted.
    pub deleted: bool,
    /// The record's bytes after the flag byte.
    pub data: Vec<u8>,
    /// The offsets into the blob file that the record seems to hold.
    pub memo_pointers: Vec<u32>,
}

/// A record as contracts speak of it.
pub struct RawRecord {
    pub id: u32,
    pub deleted: bool,
    pub data: Seq<u8>,
    pub memo_pointers: Seq<u32>,
}

impl View for FicRecord {
    type V = RawRecord;

    open spec fn view(&self) -> RawRecord {
        RawRecord {
            id: self.id,
            deleted: self.deleted,
            data: self.data@,
            memo_pointers: self.memo_pointers@,
        }
    }
}

/// The records of a list, each as contracts speak of it.
pub open spec fn raw_records(records: Seq<FicRecord>) -> Seq<RawRecord> {
    records.map_values(|r: FicRecord| r@)
}

/// The blob offsets that a payload may hold: its first four bytes as one
/// little-endian number, unless that is 0 or 0xFFFFFFFF.
pub open spec fn memo_candidates(data: Seq<u8>) -> Seq<u32> {
    if data.len() >= 4 {
        let pointer = le_unsigned(data, 4);
        if pointer != 0 && pointer < 0xFFFF_FFFF {
            seq![pointer as u32]
        } else {
            Seq::empty()
        }
    } else {
        Seq::empty()
    }
}

/// The record with index `id` that the bytes `stored` spell: the flag byte,
/// then the payload.
pub open spec fn record_of(stored: Seq<u8>, id: u32) -> RawRecord
    recommends
        stored.len() >= 1,
{
    let data = stored.subrange(1, stored.len() as int);
    RawRecord {
        id,
        deleted: (stored[0] & 1) != 0,
        data,
        memo_pointers: memo_candidates(data),
    }
}

/// Finds the blob offsets that a payload may hold.
pub fn extract_memo_pointers(data: &[u8]) -> (pointers: Vec<u32>)
    ensures
        pointers@ == memo_candidates(data@),
{
    let mut pointers: Vec<u32> = Vec::new();
    if data.len() >= 4 {
        let pointer: u32 = read_u32(data);
        if pointer != 0 && pointer < 0xFFFF_FFFF {
            pointers.push(pointer);
        }
    }
    assert(pointers@ =~= memo_candidates(data@));
    pointers
}

/// Builds the record with index `id` from its stored bytes.
pub fn parse_record(stored: &[u8], id: u32) -> (record: FicRecord)
    requires
        stored@.len() >= 1,
    ensures
        record@ == record_of(stored@, id),
{
    let deleted: bool = (stored[0] & 1) != 0;
    let payload = slice_subrange(stored, 1, stored.len());
    let memo_pointers = extract_memo_pointers(payload);
    let data = vstd::slice::slice_to_vec(payload);
    FicRecord { id, deleted, data, memo_pointers }
}

/// Where record `index` starts in the file.
pub open spec fn record_start(header: FicHeader, index: nat) -> nat {
    header.data_offset as nat + index * (header.record_length as nat)
}

/// How many bytes a read of record `index` gets from a file of `file_len`
/// bytes: a whole record, or what is left of the file if that is less.
pub open spec fn bytes_available(file_len: nat, header: FicHeader, index: nat) -> nat {
    let start = record_start(header, index);
    if start >= file_len {
        0
    } else if file_len - start < header.record_length {
        (file_len - start) as nat
    } else {
        header.record_length as nat
    }
}

/// Record `index` as a single read finds it: `None` where not one byte can
/// be read, else the record of the bytes that are there, short or not.
pub open spec fn stored_record(file: Seq<u8>, header: FicHeader, index: nat) -> Option<RawRecord> {
    let start = record_start(header, index) as int;
    let got = bytes_available(file.len(), header, index);
    if got == 0 {
        None
    } else {
        Some(record_of(file.subrange(start, start + got), index as u32))
    }
}

/// Record `index` as a slice of the loaded data region: `None` unless the
/// file holds the record whole.
pub open spec fn whole_record(file: Seq<u8>, header: FicHeader, index: nat) -> Option<RawRecord> {
    let start = record_start(header, index) as int;
    if header.record_length >= 1 && start + header.record_length <= file.len() {
        Some(record_of(file.subrange(start, start + header.record_length), index as u32))
    } else {
        None
    }
}

/// A record file in memory, with its header read.
pub struct FicFile {
    header: FicHeader,
    bytes: Vec<u8>,
}

impl FicFile {
    /// The bytes of the file.
    pub closed spec fn contents(&self) -> Seq<u8> {
        self.bytes@
    }

    /// The header as a contract sees it.
    pub closed spec fn spec_header(&self) -> FicHeader {
        self.header
    }

    /// The header is the one that the file's bytes spell; it announces at
    /// most 65535 records of at most 100000 bytes.
    pub open spec fn wf(&self) -> bool {
        &&& header_readable(self.contents())
        &&& self.spec_header() == header_of(self.contents())
        &&& self.spec_header().record_count <= u16::MAX
        &&& self.spec_header().record_length <= MAX_INFERRED_LENGTH
    }

    /// Takes the bytes of a record file and reads its header.
    pub fn open(bytes: Vec<u8>) -> (result: Result<FicFile, EngineError>)
        ensures
            header_readable(bytes@) <==> result.is_ok(),
            result matches Ok(file) ==> file.wf() && file.contents() == bytes@,
            result matches Err(e) ==> e == EngineError::Format,
    {
        match parse_header(bytes.as_slice()) {
            Ok(header) => {
                proof {
                    lemma_header_bounds(bytes@);
                }
                Ok(FicFile { header, bytes })
            },
            Err(e) => Err(e),
        }
    }

    /// The file's header.
    pub fn header(&self) -> (header: &FicHeader)
        ensures
            *header == self.spec_header(),
    {
        &self.header
    }

    /// How many records the header announces.
    pub fn record_count(&self) -> (count: u32)
        ensures
            count == self.spec_header().record_count,
    {
        self.header.record_count
    }

    /// Reads the record with the given index, deleted or not. A record cut
    /// short by the end of the file is returned with the bytes it has.
    pub fn read_record(&self, index: u32) -> (result: Result<FicRecord, EngineError>)
        requires
            self.wf(),
        ensures
            match result {
                Ok(record) => index < self.spec_header().record_count && stored_record(
                    self.contents(),
                    self.spec_header(),
                    index as nat,
                ) == Some(record@),
                Err(e) => if index >= self.spec_header().record_count {
                    e == EngineError::OutOfRange
                } else {
                    e == EngineError::Decode && stored_record(
                        self.contents(),
                        self.spec_header(),
                        index as nat,
                    ).is_none()
                },
            },
    {
        if index >= self.header.record_count {
            return Err(EngineError::OutOfRange);
        }
        proof {
            lemma_header_bounds(self.bytes@);
        }
        let length: u64 = self.header.record_length as u64;
        assert((index as u64) * length <= 0xFFFF * 100_000) by (nonlinear_arith)
            requires
                index <= 0xFFFF,
                length <= 100_000,
        ;
        let start: u64 = 20 + (index as u64) * length;
        let file_len: u64 = self.bytes.len() as u64;
        if start >= file_len {
            return Err(EngineError::Decode);
        }
        let left: u64 = file_len - start;
        let got: u64 = if left < length {
            left
        } else {
            length
        };
        if got == 0 {
            return Err(EngineError::Decode);
        }
        let stored = slice_subrange(self.bytes.as_slice(), start as usize, (start + got) as usize);
        Ok(parse_record(stored, index))
    }

    /// How long the file is if it holds every record that its header
    /// announces, whole. A shorter file has lost records at its end.
    pub fn expected_size(&self) -> (size: u64)
        requires
            self.wf(),
        ensures
            size == record_start(self.spec_header(), self.spec_header().record_count as nat),
    {
        let count: u64 = self.header.record_count as u64;
        let length: u64 = self.header.record_length as u64;
        assert(count * length <= 0xFFFF * 100_000) by (nonlinear_arith)
            requires
                count <= 0xFFFF,
                length <= 100_000,
        ;
        20 + count * length
    }

    /// Gives the bytes of the file back.
    pub fn into_bytes(self) -> (bytes: Vec<u8>)
        ensures
            bytes@ == self.contents(),
    {
        self.bytes
    }

    /// How long the file is.
    pub fn size(&self) -> (size: usize)
        ensures
            size == self.contents().len(),
    {
        self.bytes.len()
    }

    /// The first 64 bytes of the file in hexadecimal and as characters, or
    /// nothing for a file that has fewer.
    pub fn dump_header_hex(&self) -> (dump: Option<String>)
        ensures
            match dump {
                Some(text) => self.contents().len() >= 64 && text@ == header_dump(self.contents()),
                None => self.contents().len() < 64,
            },
    {
        if self.bytes.len() >= 64 {
            Some(dump_header(self.bytes.as_slice()))
        } else {
            None
        }
    }

    /// Infers the layout of the file's records.
    pub fn analyze_schema(&self) -> (fields: Vec<FieldInfo>)
        ensures
            field_specs(fields@) == inferred_fields(self.spec_header().record_length),
    {
        infer_fields(self.header.record_length)
    }
}

/// A record that was or was not decoded, as contracts speak of it.
pub open spec fn raw_outcome(outcome: Option<FicRecord>) -> Option<RawRecord> {
    match outcome {
        Some(record) => Some(record@),
        None => None,
    }
}

/// The outcomes of a list, each as contracts speak of it.
pub open spec fn raw_outcomes(outcomes: Seq<Option<FicRecord>>) -> Seq<Option<RawRecord>> {
    outcomes.map_values(|o: Option<FicRecord>| raw_outcome(o))
}

/// How many of the first `upto` outcomes come before the first failure.
pub open spec fn decoded_run(outcomes: Seq<Option<RawRecord>>, upto: nat) -> nat
    recommends
        upto <= outcomes.len(),
    decreases upto,
{
    if upto == 0 {
        0
    } else {
        let before = decoded_run(outcomes, (upto - 1) as nat);
        if before == upto - 1 && outcomes[upto - 1].is_some() {
            upto
        } else {
            before
        }
    }
}

/// The records among the first `upto` outcomes that were decoded and are
/// not marked as deleted, in their order.
pub open spec fn active_among(outcomes: Seq<Option<RawRecord>>, upto: nat) -> Seq<RawRecord>
    recommends
        upto <= outcomes.len(),
    decreases upto,
{
    if upto == 0 {
        Seq::empty()
    } else {
        let before = active_among(outcomes, (upto - 1) as nat);
        match outcomes[upto - 1] {
            Some(record) if !record.deleted => before.push(record),
            _ => before,
        }
    }
}

/// What a bulk read makes of the outcomes of its records: an error where
/// the first record failed, else the active records before the first
/// failure.
pub open spec fn merged(outcomes: Seq<Option<RawRecord>>) -> Result<Seq<RawRecord>, EngineError> {
    if outcomes.len() > 0 && outcomes[0].is_none() {
        Err(EngineError::Decode)
    } else {
        Ok(active_among(outcomes, decoded_run(outcomes, outcomes.len())))
    }
}

/// The run of decoded records never passes a failure.
pub proof fn lemma_decoded_run_stops(outcomes: Seq<Option<RawRecord>>, failed: nat, upto: nat)
    requires
        failed < upto <= outcomes.len(),
        outcomes[failed as int].is_none(),
        decoded_run(outcomes, failed) == failed,
    ensures
        decoded_run(outcomes, upto) == failed,
    decreases upto,
{
    if upto > failed + 1 {
        lemma_decoded_run_stops(outcomes, failed, (upto - 1) as nat);
    }
}

/// The run of decoded records is as long as the outcomes it is taken from
/// where all of them were decoded.
pub proof fn lemma_decoded_run_full(outcomes: Seq<Option<RawRecord>>, upto: nat)
    requires
        upto <= outcomes.len(),
        forall|j: int| 0 <= j < upto ==> outcomes[j].is_some(),
    ensures
        decoded_run(outcomes, upto) == upto,
    decreases upto,
{
    if upto > 0 {
        lemma_decoded_run_full(outcomes, (upto - 1) as nat);
    }
}

/// Merges the outcomes of a bulk read, in the order of the records.
pub fn merge_outcomes(outcomes: Vec<Option<FicRecord>>) -> (result: Result<Vec<FicRecord>, EngineError>)
    ensures
        match result {
            Ok(records) => merged(raw_outcomes(outcomes@)) == Ok::<Seq<RawRecord>, EngineError>(
                raw_records(records@),
            ),
            Err(e) => merged(raw_outcomes(outcomes@)) == Err::<Seq<RawRecord>, EngineError>(e),
        },
{
    let ghost source = outcomes@;
    let ghost all = raw_outcomes(outcomes@);
    let mut records: Vec<FicRecord> = Vec::new();
    let mut first: bool = true;
    for outcome in it: outcomes
        invariant
            it.seq() == source,
            first == (it.index() == 0),
            forall|j: int| 0 <= j < it.index() ==> (#[trigger] all[j]).is_some(),
            all == raw_outcomes(source),
            decoded_run(all, it.index() as nat) == it.index(),
            raw_records(records@) == active_among(all, it.index() as nat),
    {
        let ghost at = it.index();
        assert(all.len() == source.len());
        assert(all[at] == raw_outcome(outcome));
        match outcome {
            Some(record) => {
                if !record.deleted {
                    proof {
                        assert(raw_records(records@.push(record)) =~= raw_records(records@).push(
                            record@,
                        ));
                    }
                    records.push(record);
                }
                first = false;
            },
            None => {
                proof {
                    lemma_decoded_run_stops(all, at as nat, all.len());
                }
                if first {
                    return Err(EngineError::Decode);
                }
                return Ok(records);
            },
        }
    }
    assert(all.len() == source.len());
    Ok(records)
}

/// Record `index` as a bulk read finds it: by a read of its own in a small
/// file, as a slice of the loaded data region in a large one.
pub open spec fn bulk_record(file: Seq<u8>, header: FicHeader, index: nat) -> Option<RawRecord> {
    if header.record_count > PARALLEL_THRESHOLD {
        whole_record(file, header, index)
    } else {
        stored_record(file, header, index)
    }
}

/// The outcome of every record that the header announces, in a bulk read.
pub open spec fn bulk_outcomes(file: Seq<u8>, header: FicHeader) -> Seq<Option<RawRecord>> {
    Seq::new(header.record_count as nat, |i: int| bulk_record(file, header, i as nat))
}

/// Decodes record `index` from its slice of the file, if the file holds the
/// record whole.
pub fn parse_slice(file: &[u8], header: &FicHeader, index: u32) -> (outcome: Option<FicRecord>)
    requires
        header.record_length <= MAX_INFERRED_LENGTH,
        header.data_offset == HEADER_SIZE,
        index <= u16::MAX,
    ensures
        raw_outcome(outcome) == whole_record(file@, *header, index as nat),
{
    let length: u64 = header.record_length as u64;
    assert((index as u64) * length <= 0xFFFF * 100_000) by (nonlinear_arith)
        requires
            index <= 0xFFFF,
            length <= 100_000,
    ;
    let start: u64 = 20 + (index as u64) * length;
    let file_len: u64 = file.len() as u64;
    if length == 0 || start + length > file_len {
        return None;
    }
    let stored = slice_subrange(file, start as usize, (start + length) as usize);
    Some(parse_record(stored, index))
}

/// `rayon`'s `into_par_iter().map(..).collect()` over the record indices:
/// one `parse_slice` per record on the worker pool, the outcomes collected
/// in the order of the indices.
#[verifier::external_body]
fn parse_slices(file: &[u8], header: &FicHeader) -> (outcomes: Vec<Option<FicRecord>>)
    requires
        header.record_length <= MAX_INFERRED_LENGTH,
        header.data_offset == HEADER_SIZE,
        header.record_count <= u16::MAX,
    ensures
        raw_outcomes(outcomes@) == Seq::new(
            header.record_count as nat,
            |i: int| whole_record(file@, *header, i as nat),
        ),
{
    (0..header.record_count).into_par_iter().map(|index| parse_slice(file, header, index)).collect()
}

impl FicFile {
    /// The outcome of every record in a bulk read of this file.
    pub open spec fn outcomes(&self) -> Seq<Option<RawRecord>> {
        bulk_outcomes(self.contents(), self.spec_header())
    }

    /// What a bulk read of this file returns.
    pub open spec fn active_records(&self) -> Result<Seq<RawRecord>, EngineError> {
        merged(self.outcomes())
    }

    /// Reads all records that are not marked as deleted, in the order of
    /// their indices. A file of more than 100 records is decoded in
    /// parallel. If the first record cannot be decoded the read fails; a
    /// later failure ends the read, and what was decoded before it is
    /// returned.
    pub fn read_all_records(&self) -> (result: Result<Vec<FicRecord>, EngineError>)
        requires
            self.wf(),
        ensures
            match result {
                Ok(records) => self.active_records() == Ok::<Seq<RawRecord>, EngineError>(
                    raw_records(records@),
                ),
                Err(e) => self.active_records() == Err::<Seq<RawRecord>, EngineError>(e),
            },
            result matches Ok(records) ==> records@.len() <= self.spec_header().record_count,
            result matches Ok(records) ==> forall|k: int|
                0 <= k < records@.len() ==> (#[trigger] records@[k]).id
                    < self.spec_header().record_count && !records@[k].deleted
                    && records@[k].data@.len() < self.spec_header().record_length,
    {
        let result = if self.header.record_count > PARALLEL_THRESHOLD {
            self.read_all_records_parallel()
        } else {
            self.read_all_records_sequential()
        };
        proof {
            lemma_bulk_read_bounds(self.contents(), self.spec_header());
            if let Ok(ref records) = result {
                let raw = raw_records(records@);
                assert forall|k: int| 0 <= k < records@.len() implies (#[trigger] records@[k]).id
                    < self.spec_header().record_count && !records@[k].deleted
                    && records@[k].data@.len() < self.spec_header().record_length by {
                    assert(raw[k] == records@[k]@);
                }
            }
        }
        result
    }

    fn read_all_records_sequential(&self) -> (result: Result<Vec<FicRecord>, EngineError>)
        requires
            self.wf(),
            self.spec_header().record_count <= PARALLEL_THRESHOLD,
        ensures
            match result {
                Ok(records) => self.active_records() == Ok::<Seq<RawRecord>, EngineError>(
                    raw_records(records@),
                ),
                Err(e) => self.active_records() == Err::<Seq<RawRecord>, EngineError>(e),
            },
    {
        let ghost all = self.outcomes();
        let count: u32 = self.header.record_count;
        let mut records: Vec<FicRecord> = Vec::new();
        let mut i: u32 = 0;
        while i < count
            invariant
                self.wf(),
                i <= count,
                count == self.spec_header().record_count,
                count <= PARALLEL_THRESHOLD,
                all == self.outcomes(),
                decoded_run(all, i as nat) == i,
                forall|j: int| 0 <= j < i ==> (#[trigger] all[j]).is_some(),
                raw_records(records@) == active_among(all, i as nat),
            decreases count - i,
        {
            match self.read_record(i) {
                Ok(record) => {
                    assert(all[i as int] == Some(record@));
                    if !record.deleted {
                        proof {
                            assert(raw_records(records@.push(record)) =~= raw_records(
                                records@,
                            ).push(record@));
                        }
                        records.push(record);
                    }
                },
                Err(e) => {
                    assert(all[i as int].is_none());
                    proof {
                        lemma_decoded_run_stops(all, i as nat, count as nat);
                    }
                    if i == 0 {
                        return Err(e);
                    }
                    return Ok(records);
                },
            }
            i += 1;
        }
        Ok(records)
    }

    fn read_all_records_parallel(&self) -> (result: Result<Vec<FicRecord>, EngineError>)
        requires
            self.wf(),
            self.spec_header().record_count > PARALLEL_THRESHOLD,
        ensures
            match result {
                Ok(records) => self.active_records() == Ok::<Seq<RawRecord>, EngineError>(
                    raw_records(records@),
                ),
                Err(e) => self.active_records() == Err::<Seq<RawRecord>, EngineError>(e),
            },
    {
        proof {
            lemma_header_bounds(self.bytes@);
        }
        let outcomes = parse_slices(self.bytes.as_slice(), &self.header);
        assert(raw_outcomes(outcomes@) =~= self.outcomes());
        merge_outcomes(outcomes)
    }
}

/// Every outcome that is a record carries the index it was read at, and a
/// payload shorter than the record length.
pub proof fn lemma_outcome_ids(file: Seq<u8>, header: FicHeader, index: nat)
    requires
        header_readable(file),
        header == header_of(file),
        index < header.record_count,
    ensures
        bulk_outcomes(file, header)[index as int] matches Some(record) ==> record.id == index
            && record.data.len() < header.record_length,
{
    lemma_header_bounds(file);
}

/// The active records among the first `upto` outcomes are no more than
/// `upto`; each is one of those outcomes and is not marked as deleted.
pub proof fn lemma_active_among(outcomes: Seq<Option<RawRecord>>, upto: nat)
    requires
        upto <= outcomes.len(),
    ensures
        active_among(outcomes, upto).len() <= upto,
        forall|k: int|
            0 <= k < active_among(outcomes, upto).len() ==> {
                let record = #[trigger] active_among(outcomes, upto)[k];
                !record.deleted && exists|j: int| 0 <= j < upto && outcomes[j] == Some(record)
            },
        forall|j: int|
            0 <= j < upto ==> (#[trigger] outcomes[j] matches Some(record) ==> (record.deleted
                || active_among(outcomes, upto).contains(record))),
    decreases upto,
{
    if upto > 0 {
        let before = active_among(outcomes, (upto - 1) as nat);
        let now = active_among(outcomes, upto);
        lemma_active_among(outcomes, (upto - 1) as nat);
        assert forall|k: int| 0 <= k < now.len() implies {
            let record = #[trigger] now[k];
            !record.deleted && exists|j: int| 0 <= j < upto && outcomes[j] == Some(record)
        } by {
            if k < before.len() {
                let record = before[k];
                let j = choose|j: int| 0 <= j < upto - 1 && outcomes[j] == Some(record);
                assert(0 <= j < upto && outcomes[j] == Some(record));
            } else {
                assert(outcomes[upto - 1] == Some(now[k]));
            }
        }
        assert forall|j: int| 0 <= j < upto implies (#[trigger] outcomes[j] matches Some(record)
            ==> (record.deleted || now.contains(record))) by {
            if let Some(record) = outcomes[j] {
                if !record.deleted {
                    if j < upto - 1 {
                        assert(before.contains(record));
                        let k = choose|k: int| 0 <= k < before.len() && before[k] == record;
                        assert(now[k] == record);
                    } else {
                        assert(now[now.len() - 1] == record);
                    }
                }
            }
        }
    }
}

/// The run of decoded records is no longer than the outcomes it is taken
/// from, and holds no failure.
pub proof fn lemma_decoded_run(outcomes: Seq<Option<RawRecord>>, upto: nat)
    requires
        upto <= outcomes.len(),
    ensures
        decoded_run(outcomes, upto) <= upto,
        forall|j: int| 0 <= j < decoded_run(outcomes, upto) ==> (#[trigger] outcomes[j]).is_some(),
    decreases upto,
{
    if upto > 0 {
        lemma_decoded_run(outcomes, (upto - 1) as nat);
    }
}

/// A bulk read returns no more records than the header announces, each
/// with an index below the record count and a payload shorter than the
/// record length, and none marked as deleted.
pub proof fn lemma_bulk_read_bounds(file: Seq<u8>, header: FicHeader)
    requires
        header_readable(file),
        header == header_of(file),
    ensures
        merged(bulk_outcomes(file, header)) matches Ok(records) ==> {
            &&& records.len() <= header.record_count
            &&& forall|k: int|
                0 <= k < records.len() ==> (#[trigger] records[k]).id < header.record_count
                    && !records[k].deleted && records[k].data.len() < header.record_length
        },
{
    let outcomes = bulk_outcomes(file, header);
    let run = decoded_run(outcomes, outcomes.len());
    lemma_decoded_run(outcomes, outcomes.len());
    lemma_active_among(outcomes, run);
    let records = active_among(outcomes, run);
    assert forall|k: int| 0 <= k < records.len() implies (#[trigger] records[k]).id
        < header.record_count && !records[k].deleted && records[k].data.len()
        < header.record_length by {
        let record = records[k];
        let j = choose|j: int| 0 <= j < run && outcomes[j] == Some(record);
        lemma_outcome_ids(file, header, j as nat);
    }
}

/// A record whose flag byte has its lowest bit set is read by index with
/// the deleted mark, and no bulk read returns a record with its index.
pub proof fn lemma_deleted_record(file: Seq<u8>, header: FicHeader, index: nat)
    requires
        header_readable(file),
        header == header_of(file),
        index < header.record_count,
        record_start(header, index) < file.len(),
        header.record_length >= 1,
        (file[record_start(header, index) as int] & 1) != 0,
    ensures
        stored_record(file, header, index) matches Some(record) && record.deleted && record.id
            == index,
        merged(bulk_outcomes(file, header)) matches Ok(records) ==> forall|k: int|
            0 <= k < records.len() ==> (#[trigger] records[k]).id != index,
{
    lemma_header_bounds(file);
    let outcomes = bulk_outcomes(file, header);
    let run = decoded_run(outcomes, outcomes.len());
    lemma_decoded_run(outcomes, outcomes.len());
    lemma_active_among(outcomes, run);
    let records = active_among(outcomes, run);
    assert forall|k: int| 0 <= k < records.len() implies (#[trigger] records[k]).id != index by {
        let record = records[k];
        let j = choose|j: int| 0 <= j < run && outcomes[j] == Some(record);
        lemma_outcome_ids(file, header, j as nat);
        if j == index {
            assert(record.deleted);
        }
    }
}

/// Where record `failed`, not the first, is the first that cannot be
/// decoded, a bulk read succeeds and returns exactly the records before it
/// that are not marked as deleted.
pub proof fn lemma_truncated_tail(file: Seq<u8>, header: FicHeader, failed: nat)
    requires
        header_readable(file),
        header == header_of(file),
        0 < failed < header.record_count,
        bulk_record(file, header, failed).is_none(),
        forall|j: nat| j < failed ==> (#[trigger] bulk_record(file, header, j)).is_some(),
    ensures
        merged(bulk_outcomes(file, header)) == Ok::<Seq<RawRecord>, EngineError>(
            active_among(bulk_outcomes(file, header), failed),
        ),
        forall|k: int|
            0 <= k < active_among(bulk_outcomes(file, header), failed).len() ==> {
                let record = #[trigger] active_among(bulk_outcomes(file, header), failed)[k];
                record.id < failed && !record.deleted && bulk_record(file, header, record.id as nat)
                    == Some(record)
            },
        forall|j: nat|
            j < failed ==> (#[trigger] bulk_record(file, header, j) matches Some(record)
                ==> (record.deleted || active_among(bulk_outcomes(file, header), failed).contains(
                record,
            ))),
{
    let outcomes = bulk_outcomes(file, header);
    assert forall|j: int| 0 <= j < failed implies (#[trigger] outcomes[j]).is_some() by {
        assert(bulk_record(file, header, j as nat).is_some());
    }
    lemma_decoded_run_full(outcomes, failed);
    lemma_decoded_run_stops(outcomes, failed, outcomes.len());
    lemma_active_among(outcomes, failed);
    let records = active_among(outcomes, failed);
    assert forall|k: int| 0 <= k < records.len() implies {
        let record = #[trigger] records[k];
        record.id < failed && !record.deleted && bulk_record(file, header, record.id as nat)
            == Some(record)
    } by {
        let record = records[k];
        let j = choose|j: int| 0 <= j < failed && outcomes[j] == Some(record);
        lemma_outcome_ids(file, header, j as nat);
    }
    assert forall|j: nat| j < failed implies (#[trigger] bulk_record(file, header, j) matches Some(
        record,
    ) ==> (record.deleted || records.contains(record))) by {
        assert(outcomes[j as int] == bulk_record(file, header, j));
    }
}

/// A record that the file holds whole is the same to both strategies of a
/// bulk read.
pub proof fn lemma_whole_record_is_stored(file: Seq<u8>, header: FicHeader, index: nat)
    requires
        whole_record(file, header, index).is_some(),
    ensures
        stored_record(file, header, index) == whole_record(file, header, index),
{
}

/// The records among the first `upto` outcomes come in the order of the
/// outcomes they were taken from: where every record carries the index it
/// was read at, their indices rise.
pub proof fn lemma_active_ids_rise(outcomes: Seq<Option<RawRecord>>, upto: nat)
    requires
        upto <= outcomes.len(),
        forall|j: int|
            0 <= j < outcomes.len() ==> (#[trigger] outcomes[j] matches Some(record) ==> record.id
                == j),
    ensures
        forall|a: int, b: int|
            0 <= a < b < active_among(outcomes, upto).len() ==> (#[trigger] active_among(
                outcomes,
                upto,
            )[a]).id < (#[trigger] active_among(outcomes, upto)[b]).id,
        forall|a: int|
            0 <= a < active_among(outcomes, upto).len() ==> (#[trigger] active_among(
                outcomes,
                upto,
            )[a]).id < upto,
    decreases upto,
{
    if upto > 0 {
        lemma_active_ids_rise(outcomes, (upto - 1) as nat);
        let before = active_among(outcomes, (upto - 1) as nat);
        let now = active_among(outcomes, upto);
        assert forall|a: int| 0 <= a < now.len() implies (#[trigger] now[a]).id < upto by {
            if a < before.len() {
                assert(now[a] == before[a]);
            } else {
                assert(outcomes[upto - 1] == Some(now[a]));
            }
        }
        assert forall|a: int, b: int| 0 <= a < b < now.len() implies (#[trigger] now[a]).id < (
        #[trigger] now[b]).id by {
            assert(now[a] == before[a]);
            if b < before.len() {
                assert(now[b] == before[b]);
            } else {
                assert(outcomes[upto - 1] == Some(now[b]));
            }
        }
    }
}

/// A bulk read returns its records by rising index.
pub proof fn lemma_bulk_read_order(file: Seq<u8>, header: FicHeader)
    requires
        header_readable(file),
        header == header_of(file),
    ensures
        merged(bulk_outcomes(file, header)) matches Ok(records) ==> forall|a: int, b: int|
            0 <= a < b < records.len() ==> (#[trigger] records[a]).id < (#[trigger] records[b]).id,
{
    let outcomes = bulk_outcomes(file, header);
    lemma_decoded_run(outcomes, outcomes.len());
    assert forall|j: int| 0 <= j < outcomes.len() implies (#[trigger] outcomes[j] matches Some(
        record,
    ) ==> record.id == j) by {
        lemma_outcome_ids(file, header, j as nat);
    }
    lemma_active_ids_rise(outcomes, decoded_run(outcomes, outcomes.len()));
}

} // verus!

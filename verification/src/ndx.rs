//! The index file, read as a flat list: a 12-byte header, then entries of
//! a fixed-length key and a four-byte record id.

use crate::endian::le_unsigned;
use crate::endian::read_u32;
use crate::error::EngineError;
use vstd::prelude::*;
use vstd::slice::slice_subrange;
use vstd::slice::slice_to_vec;

verus! {

/// The size of the header of an index file.
pub const INDEX_HEADER_SIZE: u64 = 12;

/// One entry of an index.
#[derive(Clone, Debug, PartialEq, Eq)]
pub struct NdxEntry {
    /// The key, as it is stored.
    pub key: Vec<u8>,
    /// The record that the key leads to.
    pub record_id: u32,
    /// Where the entry starts in the index file.
    pub offset: u64,
}

/// An entry as contracts speak of it.
pub struct EntrySpec {
    pub key: Seq<u8>,
    pub record_id: u32,
    pub offset: u64,
}

impl View for NdxEntry {
    type V = EntrySpec;

    open spec fn view(&self) -> EntrySpec {
        EntrySpec { key: self.key@, record_id: self.record_id, offset: self.offset }
    }
}

/// The 32-bit little-endian number at `at`.
pub open spec fn u32_at(file: Seq<u8>, at: int) -> nat {
    le_unsigned(file.subrange(at, at + 4), 4)
}

/// How many entries the header announces.
pub open spec fn entry_count(file: Seq<u8>) -> nat
    recommends
        file.len() >= INDEX_HEADER_SIZE,
{
    u32_at(file, 4)
}

/// How long the header says each key is.
pub open spec fn key_length(file: Seq<u8>) -> nat
    recommends
        file.len() >= INDEX_HEADER_SIZE,
{
    u32_at(file, 8)
}

/// Where entry `index` starts.
pub open spec fn entry_start(file: Seq<u8>, index: nat) -> nat {
    INDEX_HEADER_SIZE as nat + index * (key_length(file) + 4)
}

/// Whether the file holds its header and every entry that the header
/// announces.
pub open spec fn index_readable(file: Seq<u8>) -> bool {
    file.len() >= INDEX_HEADER_SIZE && (entry_count(file) == 0 || entry_start(
        file,
        entry_count(file),
    ) <= file.len())
}

/// Entry `index` of a readable index file.
pub open spec fn entry_at(file: Seq<u8>, index: nat) -> EntrySpec {
    let start = entry_start(file, index) as int;
    let key_end = start + key_length(file);
    EntrySpec {
        key: file.subrange(start, key_end),
        record_id: u32_at(file, key_end) as u32,
        offset: start as u64,
    }
}

/// The entries of a readable index file, in file order.
pub open spec fn entries_of(file: Seq<u8>) -> Seq<EntrySpec> {
    Seq::new(entry_count(file), |i: int| entry_at(file, i as nat))
}

/// The entries of a list, each as contracts speak of it.
pub open spec fn entry_specs(entries: Seq<NdxEntry>) -> Seq<EntrySpec> {
    entries.map_values(|e: NdxEntry| e@)
}

/// Whether two runs of bytes are the same.
pub fn same_bytes(a: &[u8], b: &[u8]) -> (same: bool)
    ensures
        same == (a@ == b@),
{
    if a.len() != b.len() {
        return false;
    }
    let mut i: usize = 0;
    while i < a.len()
        invariant
            i <= a@.len(),
            a@.len() == b@.len(),
            forall|j: int| 0 <= j < i ==> a@[j] == b@[j],
        decreases a@.len() - i,
    {
        if a[i] != b[i] {
            return false;
        }
        i += 1;
    }
    assert(a@ =~= b@);
    true
}

/// An index file, with its entries read.
pub struct NdxFile {
    entries: Vec<NdxEntry>,
}

impl View for NdxFile {
    type V = Seq<EntrySpec>;

    closed spec fn view(&self) -> Seq<EntrySpec> {
        entry_specs(self.entries@)
    }
}

impl NdxFile {
    /// Takes the bytes of an index file and reads all its entries. Fails
    /// where the file ends before the last entry does.
    pub fn open(bytes: Vec<u8>) -> (result: Result<NdxFile, EngineError>)
        ensures
            match result {
                Ok(index) => index_readable(bytes@) && index@ == entries_of(bytes@),
                Err(e) => e == EngineError::Io && !index_readable(bytes@),
            },
    {
        let file = bytes.as_slice();
        if file.len() < 12 {
            return Err(EngineError::Io);
        }
        let count: u32 = read_u32(slice_subrange(file, 4, 8));
        let key_len: u32 = read_u32(slice_subrange(file, 8, 12));
        let stride: u64 = key_len as u64 + 4;
        let available: u64 = (file.len() - 12) as u64;
        let mut entries: Vec<NdxEntry> = Vec::new();
        if count == 0 {
            assert(entry_specs(entries@) =~= entries_of(bytes@));
            return Ok(NdxFile { entries });
        }
        assert(((available / (count as u64)) >= stride) <==> (count * stride <= available))
            by (nonlinear_arith)
            requires
                count > 0,
        ;
        if available / (count as u64) < stride {
            return Err(EngineError::Io);
        }
        let mut i: u32 = 0;
        let mut start: u64 = 12;
        while i < count
            invariant
                file@ == bytes@,
                i <= count,
                count == entry_count(bytes@),
                key_len == key_length(bytes@),
                stride == key_len + 4,
                12 + count * stride <= file@.len() <= usize::MAX,
                start == entry_start(bytes@, i as nat),
                entries@.len() == i,
                forall|j: int| 0 <= j < i ==> (#[trigger] entries@[j])@ == entry_at(bytes@, j as nat),
            decreases count - i,
        {
            proof {
                let done = i as int;
                let all = count as int;
                let step = stride as int;
                assert((done + 1) * step <= all * step) by (nonlinear_arith)
                    requires
                        done + 1 <= all,
                        step >= 0,
                ;
                assert((done + 1) * step == done * step + step) by (nonlinear_arith);
                assert(start == 12 + done * step);
                assert(entry_start(bytes@, (i + 1) as nat) == 12 + (done + 1) * step);
            }
            let key_end: u64 = start + key_len as u64;
            let key = slice_to_vec(slice_subrange(file, start as usize, key_end as usize));
            let record_id: u32 = read_u32(
                slice_subrange(file, key_end as usize, (key_end + 4) as usize),
            );
            entries.push(NdxEntry { key, record_id, offset: start });
            start = start + stride;
            i += 1;
        }
        assert(entry_specs(entries@) =~= entries_of(bytes@));
        Ok(NdxFile { entries })
    }

    /// The first entry with the given key, if there is one.
    pub fn find(&self, key: &[u8]) -> (found: Option<&NdxEntry>)
        ensures
            match found {
                Some(entry) => exists|i: int|
                    0 <= i < self@.len() && #[trigger] self@[i] == entry@ && entry@.key == key@
                        && forall|j: int| 0 <= j < i ==> (#[trigger] self@[j]).key != key@,
                None => forall|j: int| 0 <= j < self@.len() ==> (#[trigger] self@[j]).key != key@,
            },
    {
        let mut i: usize = 0;
        while i < self.entries.len()
            invariant
                i <= self.entries@.len(),
                self@ == entry_specs(self.entries@),
                forall|j: int| 0 <= j < i ==> (#[trigger] self@[j]).key != key@,
            decreases self.entries@.len() - i,
        {
            let entry = &self.entries[i];
            if same_bytes(entry.key.as_slice(), key) {
                assert(self@[i as int] == entry@);
                return Some(entry);
            }
            assert(self@[i as int].key != key@);
            i += 1;
        }
        None
    }

    /// All the entries, in file order.
    pub fn entries(&self) -> (entries: &[NdxEntry])
        ensures
            entry_specs(entries@) == self@,
    {
        self.entries.as_slice()
    }

    /// The entries that lead to the given record, in file order.
    pub fn find_by_record_id(&self, record_id: u32) -> (found: Vec<&NdxEntry>)
        ensures
            found@.map_values(|e: &NdxEntry| e@) == self@.filter(
                |e: EntrySpec| e.record_id == record_id,
            ),
    {
        let ghost wanted = |e: EntrySpec| e.record_id == record_id;
        let mut found: Vec<&NdxEntry> = Vec::new();
        let mut i: usize = 0;
        while i < self.entries.len()
            invariant
                i <= self.entries@.len(),
                self@ == entry_specs(self.entries@),
                wanted == |e: EntrySpec| e.record_id == record_id,
                found@.map_values(|e: &NdxEntry| e@) == self@.take(i as int).filter(wanted),
            decreases self.entries@.len() - i,
        {
            let entry = &self.entries[i];
            proof {
                let next = self@.take(i + 1);
                assert(next.drop_last() =~= self@.take(i as int));
                assert(next.last() == entry@);
                reveal(Seq::filter);
                assert(found@.push(entry).map_values(|e: &NdxEntry| e@) =~= found@.map_values(
                    |e: &NdxEntry| e@,
                ).push(entry@));
            }
            if entry.record_id == record_id {
                found.push(entry);
            }
            i += 1;
        }
        assert(self@.take(i as int) =~= self@);
        found
    }
}

} // verus!

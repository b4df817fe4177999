//! Paged reads of a table: all active records are read, a page of them is
//! cut out, and only the page is decoded.

use crate::decode::blob_contents;
use crate::decode::decoded;
use crate::decode::record_from_fic;
use crate::error::EngineError;
use crate::fic::bulk_outcomes;
use crate::fic::header_of;
use crate::fic::header_readable;
use crate::fic::merged;
use crate::fic::raw_records;
use crate::fic::FicRecord;
use crate::fic::RawRecord;
use crate::mmo::MmoFile;
use crate::names::NameMap;
use crate::record::record_specs;
use crate::record::Record;
use crate::record::RecordSpec;
use crate::schema::field_specs;
use crate::schema::inferred_fields;
use crate::schema::FieldInfo;
use crate::schema::FieldSpec;
use crate::text::decodable_len;
use rayon::iter::IntoParallelRefIterator;
use rayon::iter::ParallelIterator;
use vstd::prelude::*;

verus! {

/// The page size of a query that names none.
pub const DEFAULT_LIMIT: u32 = 100;

/// Pages of more records than this are decoded in parallel, where the
/// engine may.
pub const PARALLEL_DECODE_THRESHOLD: usize = 50;

/// What a query asks for.
#[derive(Clone, Debug)]
pub struct QueryFilters {
    /// The most records to return; 100 if not given.
    pub limit: Option<u32>,
    /// How many records to pass over first; none if not given.
    pub offset: Option<u32>,
    /// Values asked of fields, by field name. They are carried, and no
    /// record is left out on their account.
    pub field_filters: NameMap<String>,
}

impl QueryFilters {
    /// The offset that the query asks for.
    pub open spec fn spec_offset(&self) -> u32 {
        match self.offset {
            Some(offset) => offset,
            None => 0,
        }
    }

    /// The page size that the query asks for.
    pub open spec fn spec_limit(&self) -> u32 {
        match self.limit {
            Some(limit) => limit,
            None => DEFAULT_LIMIT,
        }
    }
}

/// One page of a table.
#[derive(Clone, Debug)]
pub struct QueryResult {
    /// The records of the page, decoded.
    pub records: Vec<Record>,
    /// How many active records the table has, whatever the page.
    pub total: u32,
    /// The offset that was used.
    pub offset: u32,
    /// The page size that was used.
    pub limit: u32,
}

/// A page as contracts speak of it.
pub struct QuerySpec {
    pub records: Seq<RecordSpec>,
    pub total: u32,
    pub offset: u32,
    pub limit: u32,
}

impl View for QueryResult {
    type V = QuerySpec;

    open spec fn view(&self) -> QuerySpec {
        QuerySpec {
            records: record_specs(self.records@),
            total: self.total,
            offset: self.offset,
            limit: self.limit,
        }
    }
}

/// Where the page at `offset` starts in a list of `total` items.
pub open spec fn page_start(total: nat, offset: nat) -> nat {
    if offset < total {
        offset
    } else {
        total
    }
}

/// How many items the page at `offset` of at most `limit` items holds, in
/// a list of `total` items.
pub open spec fn page_len(total: nat, offset: nat, limit: nat) -> nat {
    if limit < total - page_start(total, offset) {
        limit
    } else {
        (total - page_start(total, offset)) as nat
    }
}

/// The page at `offset` of at most `limit` items.
pub open spec fn page_of<T>(all: Seq<T>, offset: nat, limit: nat) -> Seq<T> {
    all.subrange(
        page_start(all.len(), offset) as int,
        (page_start(all.len(), offset) + page_len(all.len(), offset, limit)) as int,
    )
}

/// A page holds `limit` items, or what the list has from `offset` on if
/// that is less, and nothing where `offset` is beyond the list.
pub proof fn lemma_page_len<T>(all: Seq<T>, offset: nat, limit: nat)
    ensures
        page_of(all, offset, limit).len() == if all.len() - offset <= 0 {
            0
        } else if limit <= all.len() - offset {
            limit as int
        } else {
            all.len() - offset
        },
        forall|k: int|
            0 <= k < page_of(all, offset, limit).len() ==> #[trigger] page_of(all, offset, limit)[k]
                == all[offset + k],
{
}

/// Cuts the page at `offset` of at most `limit` records out of a list.
pub fn take_page(all: Vec<FicRecord>, offset: u32, limit: u32) -> (page: Vec<FicRecord>)
    ensures
        raw_records(page@) == page_of(raw_records(all@), offset as nat, limit as nat),
        forall|k: int| 0 <= k < page@.len() ==> all@.contains(#[trigger] page@[k]),
{
    let total: usize = all.len();
    let start: usize = if (offset as u64) < (total as u64) {
        offset as usize
    } else {
        total
    };
    let len: usize = if (limit as u64) < ((total - start) as u64) {
        limit as usize
    } else {
        total - start
    };
    let mut kept = all;
    kept.truncate(start + len);
    let page = kept.split_off(start);
    proof {
        assert(page@ =~= all@.subrange(start as int, start + len));
        assert(raw_records(page@) =~= page_of(raw_records(all@), offset as nat, limit as nat));
        assert forall|k: int| 0 <= k < page@.len() implies all@.contains(#[trigger] page@[k]) by {
            assert(all@[start + k] == page@[k]);
        }
    }
    page
}

/// The records of a list, each decoded by a layout.
pub open spec fn decoded_all(
    records: Seq<RawRecord>,
    fields: Seq<FieldSpec>,
    blob: Option<Seq<u8>>,
) -> Seq<RecordSpec> {
    records.map_values(|r: RawRecord| decoded(r, fields, blob))
}

/// `rayon`'s `par_iter().map(..).collect()` over the records of a page: one
/// `record_from_fic` per record on the worker pool, each with the blob file
/// to itself as far as it reads it, the decoded records collected in the
/// order of the page.
#[verifier::external_body]
fn decode_in_parallel(page: &Vec<FicRecord>, fields: &[FieldInfo], blob: &Option<MmoFile>) -> (records: Vec<Record>)
    requires
        forall|k: int| 0 <= k < page@.len() ==> decodable_len((#[trigger] page@[k]).data@.len() + 1),
    ensures
        record_specs(records@) == decoded_all(
            raw_records(page@),
            field_specs(fields@),
            blob_contents(*blob),
        ),
        forall|k: int| 0 <= k < records@.len() ==> (#[trigger] records@[k]).wf(),
{
    page.par_iter().map(|record| record_from_fic(record, fields, blob)).collect()
}

/// Decodes the records of a page by a layout, in the order of the page. A
/// page of more than 50 records is decoded in parallel if `parallel` is
/// set.
pub fn decode_page(page: &Vec<FicRecord>, fields: &[FieldInfo], blob: &Option<MmoFile>, parallel: bool) -> (records: Vec<Record>)
    requires
        forall|k: int| 0 <= k < page@.len() ==> decodable_len((#[trigger] page@[k]).data@.len() + 1),
    ensures
        record_specs(records@) == decoded_all(
            raw_records(page@),
            field_specs(fields@),
            blob_contents(*blob),
        ),
        forall|k: int| 0 <= k < records@.len() ==> (#[trigger] records@[k]).wf(),
{
    if parallel && page.len() > PARALLEL_DECODE_THRESHOLD {
        return decode_in_parallel(page, fields, blob);
    }
    let ghost wanted = decoded_all(raw_records(page@), field_specs(fields@), blob_contents(*blob));
    let mut records: Vec<Record> = Vec::new();
    let mut i: usize = 0;
    while i < page.len()
        invariant
            i <= page@.len(),
            wanted == decoded_all(raw_records(page@), field_specs(fields@), blob_contents(*blob)),
            forall|k: int|
                0 <= k < page@.len() ==> decodable_len((#[trigger] page@[k]).data@.len() + 1),
            records@.len() == i,
            forall|k: int| 0 <= k < i ==> (#[trigger] records@[k]).wf() && records@[k]@ == wanted[k],
        decreases page@.len() - i,
    {
        let record = record_from_fic(&page[i], fields, blob);
        assert(raw_records(page@)[i as int] == page@[i as int]@);
        records.push(record);
        i += 1;
    }
    assert(record_specs(records@) =~= wanted);
    records
}

/// What a query for the page at `offset` of at most `limit` records
/// returns from a record file and the blob file that goes with it: the
/// error of the header or of the bulk read, else the page of the active
/// records, decoded by the inferred layout, and the count of all active
/// records.
pub open spec fn selection(file: Seq<u8>, blob: Option<Seq<u8>>, offset: u32, limit: u32) -> Result<QuerySpec, EngineError> {
    if !header_readable(file) {
        Err(EngineError::Format)
    } else {
        match merged(bulk_outcomes(file, header_of(file))) {
            Err(e) => Err(e),
            Ok(active) => Ok(
                QuerySpec {
                    records: decoded_all(
                        page_of(active, offset as nat, limit as nat),
                        inferred_fields(header_of(file).record_length),
                        blob,
                    ),
                    total: active.len() as u32,
                    offset,
                    limit,
                },
            ),
        }
    }
}

/// A page has `limit` records, or what the table has from `offset` on if
/// that is less, and its total is the count of all active records.
pub proof fn lemma_selection_len(file: Seq<u8>, blob: Option<Seq<u8>>, offset: u32, limit: u32)
    requires
        header_readable(file),
    ensures
        selection(file, blob, offset, limit) matches Ok(page) ==> {
            &&& merged(bulk_outcomes(file, header_of(file))) matches Ok(active) && page.total
                == active.len()
            &&& page.records.len() == if page.total <= offset {
                0
            } else if limit <= page.total - offset {
                limit as int
            } else {
                page.total - offset
            }
        },
{
    let header = header_of(file);
    crate::fic::lemma_bulk_read_bounds(file, header);
    crate::fic::lemma_header_bounds(file);
    if let Ok(active) = merged(bulk_outcomes(file, header)) {
        lemma_page_len(active, offset as nat, limit as nat);
    }
}

/// Two queries on the same files succeed or fail together, and where they
/// succeed they report the same total, whatever pages they ask for.
pub proof fn lemma_total_ignores_page(
    file: Seq<u8>,
    blob: Option<Seq<u8>>,
    offset: u32,
    limit: u32,
    other_offset: u32,
    other_limit: u32,
)
    ensures
        match (
            selection(file, blob, offset, limit),
            selection(file, blob, other_offset, other_limit),
        ) {
            (Ok(page), Ok(other)) => page.total == other.total,
            (Err(e), Err(other)) => e == other,
            _ => false,
        },
{
}

} // verus!

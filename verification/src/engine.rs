//! The storage engine: the tables of one data directory, and reads of
//! their records. The engine does no input or output of its own; its
//! caller lists the directory and hands it the bytes of the files.

use crate::decode::blob_contents;
use crate::decode::decoded;
use crate::decode::record_from_fic;
use crate::error::EngineError;
use crate::fic::header_of;
use crate::fic::header_readable;
use crate::fic::lemma_header_bounds;
use crate::fic::stored_record;
use crate::fic::FicFile;
use crate::mmo::MmoFile;
use crate::names::has_name;
use crate::names::lemma_place_of;
use crate::names::place_of;
use crate::names::texts;
use crate::names::NameMap;
use crate::names::Named;
use crate::query::decode_page;
use crate::query::selection;
use crate::query::take_page;
use crate::query::QueryFilters;
use crate::query::QueryResult;
use crate::query::DEFAULT_LIMIT;
use crate::record::Record;
use crate::schema::field_specs;
use crate::schema::inferred_fields;
use crate::schema::TableFiles;
use crate::schema::TableSchema;
use crate::tables::associate_all;
use crate::tables::associated;
use crate::tables::candidates;
use crate::tables::find_candidates;
use crate::tables::scanned;
use crate::tables::TableFilesSpec;
use vstd::prelude::*;
use vstd::string::StringExecFns;

verus! {

/// The tables of one data directory.
pub struct StorageEngine {
    data_dir: String,
    tables: NameMap<TableFiles>,
    read_only: bool,
    parallel: bool,
}

/// The bytes of a blob file that was handed over, if one was.
pub open spec fn handed(bytes: Option<Vec<u8>>) -> Option<Seq<u8>> {
    match bytes {
        Some(b) => Some(b@),
        None => None,
    }
}

/// The blob that a read of a table goes by: the bytes handed over, where
/// the table has a blob file.
pub open spec fn blob_for(files: TableFilesSpec, bytes: Option<Seq<u8>>) -> Option<Seq<u8>> {
    if files.mmo_path.is_some() {
        bytes
    } else {
        None
    }
}

impl StorageEngine {
    /// The directory that the engine stands for.
    pub closed spec fn spec_data_dir(&self) -> Seq<char> {
        self.data_dir@
    }

    /// The tables that the engine knows, with their files, by name.
    pub closed spec fn tables(&self) -> Map<Seq<char>, TableFilesSpec> {
        self.tables@
    }

    /// Whether the engine refuses writes as such.
    pub closed spec fn is_read_only(&self) -> bool {
        self.read_only
    }

    /// Whether the engine may work in parallel.
    pub closed spec fn is_parallel(&self) -> bool {
        self.parallel
    }

    /// The engine's table cache holds each name once.
    pub closed spec fn wf(&self) -> bool {
        self.tables.wf()
    }

    /// An engine for `data_dir` that knows no table yet and may work in
    /// parallel.
    pub fn new(data_dir: String, read_only: bool) -> (engine: StorageEngine)
        ensures
            engine.wf(),
            engine.spec_data_dir() == data_dir@,
            engine.tables() == Map::<Seq<char>, TableFilesSpec>::empty(),
            engine.is_read_only() == read_only,
            engine.is_parallel(),
    {
        StorageEngine::new_with_parallel(data_dir, read_only, true)
    }

    /// An engine for `data_dir` that knows no table yet.
    pub fn new_with_parallel(data_dir: String, read_only: bool, parallel: bool) -> (engine: StorageEngine)
        ensures
            engine.wf(),
            engine.spec_data_dir() == data_dir@,
            engine.tables() == Map::<Seq<char>, TableFilesSpec>::empty(),
            engine.is_read_only() == read_only,
            engine.is_parallel() == parallel,
    {
        StorageEngine { data_dir, tables: NameMap::new(), read_only, parallel }
    }

    /// The directory that the engine stands for.
    pub fn data_dir(&self) -> (dir: &String)
        ensures
            dir@ == self.spec_data_dir(),
    {
        &self.data_dir
    }

    /// Takes the listing of the data directory and records every table in
    /// it with its files, in the place of what was known of a table of
    /// that name. Tables known before and not in the listing stay. Returns
    /// the names of the tables in the listing, each once.
    pub fn scan_tables(&mut self, listing: &Vec<String>) -> (names: Vec<String>)
        requires
            old(self).wf(),
        ensures
            final(self).wf(),
            final(self).tables() == old(self).tables().union_prefer_right(scanned(texts(listing@))),
            final(self).spec_data_dir() == old(self).spec_data_dir(),
            final(self).is_read_only() == old(self).is_read_only(),
            final(self).is_parallel() == old(self).is_parallel(),
            texts(names@).no_duplicates(),
            forall|name: Seq<char>|
                texts(names@).contains(name) <==> candidates(
                    texts(listing@),
                    listing@.len(),
                ).contains_key(name),
    {
        let ghost entries = texts(listing@);
        let ghost before = self.tables@;
        let found = find_candidates(listing);
        let mut tables = associate_all(&found, listing, self.parallel);
        let names = found.names();
        let ghost pairs = found.spec_entries();
        let ghost results = tables@;
        proof {
            found.lemma_entries();
        }
        // The results are taken from the back: the order in which the
        // cache is filled does not show in what it holds.
        while tables.len() > 0
            invariant
                self.tables.wf(),
                self.data_dir == old(self).data_dir,
                self.read_only == old(self).read_only,
                self.parallel == old(self).parallel,
                names_match(pairs, results, entries),
                crate::names::names_distinct(pairs),
                found@ == crate::names::map_of(pairs),
                tables@.len() <= results.len(),
                tables@ == results.subrange(0, tables@.len() as int),
                forall|name: Seq<char>|
                    #[trigger] has_name(
                        pairs.subrange(tables@.len() as int, pairs.len() as int),
                        name,
                    ) ==> self.tables@.contains_key(name) && self.tables@[name] == associated(
                        name,
                        found@[name],
                        entries,
                    ),
                forall|name: Seq<char>|
                    !(#[trigger] has_name(
                        pairs.subrange(tables@.len() as int, pairs.len() as int),
                        name,
                    )) ==> (self.tables@.contains_key(name) == before.contains_key(name)
                        && self.tables@[name] == before[name]),
            decreases tables@.len(),
        {
            let ghost at = tables@.len() - 1;
            let ghost tail_before = pairs.subrange(at + 1, pairs.len() as int);
            let ghost tail_after = pairs.subrange(at, pairs.len() as int);
            assert(tables@[at] == results[at]);
            let files = tables.pop().unwrap();
            let ghost name = pairs[at].name@;
            proof {
                lemma_place_of(pairs, at);
                assert(files@ == associated(name, found@[name], entries));
                assert forall|other: Seq<char>| #[trigger] has_name(tail_after, other) <==> (
                has_name(tail_before, other) || other == name) by {
                    if has_name(tail_after, other) {
                        let i = place_of(tail_after, other);
                        if i > 0 {
                            assert(tail_before[i - 1].name@ == other);
                        }
                    }
                    if has_name(tail_before, other) {
                        let i = place_of(tail_before, other);
                        assert(tail_after[i + 1].name@ == other);
                    }
                    if other == name {
                        assert(tail_after[0].name@ == other);
                    }
                }
            }
            self.tables.insert(files.name.clone(), files);
        }
        proof {
            let now = self.tables@;
            let wanted = before.union_prefer_right(scanned(entries));
            assert(pairs.subrange(0, pairs.len() as int) =~= pairs);
            assert forall|name: Seq<char>| #[trigger]
                now.contains_key(name) == wanted.contains_key(name) && (now.contains_key(name)
                    ==> now[name] == wanted[name]) by {
                if has_name(pairs, name) {
                    assert(found@.contains_key(name));
                } else {
                    assert(!found@.contains_key(name));
                }
            }
            assert(now =~= wanted);
        }
        names
    }

    /// The names of the tables that the engine knows, each once.
    pub fn list_tables(&self) -> (names: Vec<String>)
        requires
            self.wf(),
        ensures
            texts(names@).no_duplicates(),
            forall|name: Seq<char>| texts(names@).contains(name) <==> self.tables().contains_key(name),
    {
        self.tables.names()
    }

    /// The files of a table, by its name.
    pub fn table_files(&self, table: &str) -> (result: Result<&TableFiles, EngineError>)
        requires
            self.wf(),
        ensures
            match result {
                Ok(files) => self.tables().contains_key(table@) && self.tables()[table@] == files@,
                Err(e) => e == EngineError::NotFound && !self.tables().contains_key(table@),
            },
    {
        match self.tables.get(table) {
            Some(files) => Ok(files),
            None => Err(EngineError::NotFound),
        }
    }
}

/// Each association result is that of the candidate at its place.
pub open spec fn names_match(
    pairs: Seq<Named<String>>,
    results: Seq<TableFiles>,
    entries: Seq<Seq<char>>,
) -> bool {
    &&& results.len() == pairs.len()
    &&& forall|i: int|
        0 <= i < results.len() ==> (#[trigger] results[i])@ == associated(
            pairs[i].name@,
            pairs[i].value@,
            entries,
        )
}

/// What a read of record `id` returns from a record file and the blob file
/// that goes with it: the error of the header or of the read, else the
/// record decoded by the inferred layout.
pub open spec fn fetched(file: Seq<u8>, blob: Option<Seq<u8>>, id: u32) -> Result<
    crate::record::RecordSpec,
    EngineError,
> {
    if !header_readable(file) {
        Err(EngineError::Format)
    } else if id >= header_of(file).record_count {
        Err(EngineError::OutOfRange)
    } else {
        match stored_record(file, header_of(file), id as nat) {
            Some(record) => Ok(
                decoded(record, inferred_fields(header_of(file).record_length), blob),
            ),
            None => Err(EngineError::Decode),
        }
    }
}

/// The outcome of a write on an engine: refused as such in read-only mode,
/// and not implemented otherwise.
pub open spec fn write_refusal(read_only: bool) -> EngineError {
    if read_only {
        EngineError::ReadOnly
    } else {
        EngineError::NotImplemented
    }
}

impl StorageEngine {
    fn open_blob(files: &TableFiles, mmo: Option<Vec<u8>>) -> (blob: Option<MmoFile>)
        ensures
            blob_contents(blob) == blob_for(files@, handed(mmo)),
    {
        match mmo {
            Some(bytes) => {
                if files.mmo_path.is_some() {
                    Some(MmoFile::open(bytes))
                } else {
                    None
                }
            },
            None => None,
        }
    }

    /// The schema of a table, inferred from the bytes of its record file.
    pub fn get_schema(&self, table: &str, fic: Vec<u8>) -> (result: Result<TableSchema, EngineError>)
        requires
            self.wf(),
        ensures
            match result {
                Ok(schema) => {
                    &&& self.tables().contains_key(table@)
                    &&& header_readable(fic@)
                    &&& schema.name@ == table@
                    &&& schema.record_length == header_of(fic@).record_length
                    &&& schema.field_count == schema.fields@.len()
                    &&& field_specs(schema.fields@) == inferred_fields(
                        header_of(fic@).record_length,
                    )
                },
                Err(e) => if !self.tables().contains_key(table@) {
                    e == EngineError::NotFound
                } else {
                    e == EngineError::Format && !header_readable(fic@)
                },
            },
    {
        if !self.tables.contains_key(table) {
            return Err(EngineError::NotFound);
        }
        let file = match FicFile::open(fic) {
            Ok(file) => file,
            Err(e) => {
                return Err(e);
            },
        };
        let fields = file.analyze_schema();
        assert(field_specs(fields@).len() == fields@.len());
        Ok(
            TableSchema {
                name: String::from_str(table),
                record_length: file.header().record_length,
                field_count: fields.len() as u32,
                fields,
            },
        )
    }

    /// Reads one page of a table from the bytes of its record file and,
    /// where it has one, of its blob file. All active records are read;
    /// the page is cut out of them, and its records are decoded by the
    /// inferred layout. The field filters of the query are not applied.
    pub fn select(&self, table: &str, filters: QueryFilters, fic: Vec<u8>, mmo: Option<Vec<u8>>) -> (result:
        Result<QueryResult, EngineError>)
        requires
            self.wf(),
        ensures
            match result {
                Ok(page) => {
                    &&& self.tables().contains_key(table@)
                    &&& selection(
                        fic@,
                        blob_for(self.tables()[table@], handed(mmo)),
                        filters.spec_offset(),
                        filters.spec_limit(),
                    ) == Ok::<crate::query::QuerySpec, EngineError>(page@)
                    &&& forall|k: int| 0 <= k < page.records@.len() ==> (#[trigger] page.records@[k]).wf()
                },
                Err(e) => if !self.tables().contains_key(table@) {
                    e == EngineError::NotFound
                } else {
                    selection(
                        fic@,
                        blob_for(self.tables()[table@], handed(mmo)),
                        filters.spec_offset(),
                        filters.spec_limit(),
                    ) == Err::<crate::query::QuerySpec, EngineError>(e)
                },
            },
    {
        let files = match self.tables.get(table) {
            Some(files) => files,
            None => {
                return Err(EngineError::NotFound);
            },
        };
        let file = match FicFile::open(fic) {
            Ok(file) => file,
            Err(e) => {
                return Err(e);
            },
        };
        let fields = file.analyze_schema();
        let blob = StorageEngine::open_blob(files, mmo);
        let all = match file.read_all_records() {
            Ok(all) => all,
            Err(e) => {
                return Err(e);
            },
        };
        proof {
            lemma_header_bounds(file.contents());
        }
        let total: u32 = all.len() as u32;
        let offset: u32 = match filters.offset {
            Some(offset) => offset,
            None => 0,
        };
        let limit: u32 = match filters.limit {
            Some(limit) => limit,
            None => DEFAULT_LIMIT,
        };
        let page = take_page(all, offset, limit);
        let records = decode_page(&page, fields.as_slice(), &blob, self.parallel);
        Ok(QueryResult { records, total, offset, limit })
    }

    /// Reads the record with index `id` of a table, deleted or not, from
    /// the bytes of its record file and, where it has one, of its blob
    /// file, and decodes it by the inferred layout.
    pub fn get_by_id(&self, table: &str, id: u32, fic: Vec<u8>, mmo: Option<Vec<u8>>) -> (result: Result<
        Record,
        EngineError,
    >)
        requires
            self.wf(),
        ensures
            match result {
                Ok(record) => {
                    &&& self.tables().contains_key(table@)
                    &&& record.wf()
                    &&& fetched(fic@, blob_for(self.tables()[table@], handed(mmo)), id) == Ok::<
                        crate::record::RecordSpec,
                        EngineError,
                    >(record@)
                },
                Err(e) => if !self.tables().contains_key(table@) {
                    e == EngineError::NotFound
                } else {
                    fetched(fic@, blob_for(self.tables()[table@], handed(mmo)), id) == Err::<
                        crate::record::RecordSpec,
                        EngineError,
                    >(e)
                },
            },
    {
        let files = match self.tables.get(table) {
            Some(files) => files,
            None => {
                return Err(EngineError::NotFound);
            },
        };
        let file = match FicFile::open(fic) {
            Ok(file) => file,
            Err(e) => {
                return Err(e);
            },
        };
        let fields = file.analyze_schema();
        let blob = StorageEngine::open_blob(files, mmo);
        let raw = match file.read_record(id) {
            Ok(raw) => raw,
            Err(e) => {
                return Err(e);
            },
        };
        proof {
            lemma_header_bounds(file.contents());
        }
        Ok(record_from_fic(&raw, fields.as_slice(), &blob))
    }

    /// Inserting is refused: as such in read-only mode, as not implemented
    /// otherwise.
    pub fn insert(&self, _table: &str, _record: Record) -> (result: Result<u32, EngineError>)
        ensures
            result == Err::<u32, EngineError>(write_refusal(self.is_read_only())),
    {
        if self.read_only {
            return Err(EngineError::ReadOnly);
        }
        Err(EngineError::NotImplemented)
    }

    /// Updating is refused: as such in read-only mode, as not implemented
    /// otherwise.
    pub fn update(&self, _table: &str, _id: u32, _record: Record) -> (result: Result<(), EngineError>)
        ensures
            result == Err::<(), EngineError>(write_refusal(self.is_read_only())),
    {
        if self.read_only {
            return Err(EngineError::ReadOnly);
        }
        Err(EngineError::NotImplemented)
    }

    /// Deleting is refused: as such in read-only mode, as not implemented
    /// otherwise.
    pub fn delete(&self, _table: &str, _id: u32) -> (result: Result<(), EngineError>)
        ensures
            result == Err::<(), EngineError>(write_refusal(self.is_read_only())),
    {
        if self.read_only {
            return Err(EngineError::ReadOnly);
        }
        Err(EngineError::NotImplemented)
    }
}

} // verus!

//! Finding tables in the listing of a directory: every file with the
//! extension `fic`, in any case, is a table, and its blob and index files
//! go by the table's name.

use crate::names::texts;
use crate::names::NameMap;
use rayon::iter::IntoParallelIterator;
use rayon::iter::ParallelIterator;
use crate::schema::TableFiles;
use crate::text::hex_digit;
use crate::text::hex_digit_str;
use vstd::prelude::*;
use vstd::string::StringExecFns;

verus! {

/// The files of a table as contracts speak of them.
pub struct TableFilesSpec {
    pub name: Seq<char>,
    pub fic_path: Seq<char>,
    pub mmo_path: Option<Seq<char>>,
    pub ndx_paths: Seq<Seq<char>>,
}

impl View for TableFiles {
    type V = TableFilesSpec;

    open spec fn view(&self) -> TableFilesSpec {
        TableFilesSpec {
            name: self.name@,
            fic_path: self.fic_path@,
            mmo_path: match self.mmo_path {
                Some(path) => Some(path@),
                None => None,
            },
            ndx_paths: texts(self.ndx_paths@),
        }
    }
}

/// Where the last dot of a file name is, or -1 if it has none.
pub open spec fn last_dot(name: Seq<char>) -> int
    decreases name.len(),
{
    if name.len() == 0 {
        -1
    } else if name.last() == '.' {
        name.len() - 1
    } else {
        last_dot(name.drop_last())
    }
}

/// Whether an extension is `fic`, in any case.
pub open spec fn is_fic_extension(extension: Seq<char>) -> bool {
    &&& extension.len() == 3
    &&& (extension[0] == 'f' || extension[0] == 'F')
    &&& (extension[1] == 'i' || extension[1] == 'I')
    &&& (extension[2] == 'c' || extension[2] == 'C')
}

/// The name of the table that a file holds the records of: what stands
/// before the last dot of the file's name, where that is not empty and
/// what follows the dot is `fic` in any case.
pub open spec fn table_name(file_name: Seq<char>) -> Option<Seq<char>> {
    let dot = last_dot(file_name);
    if dot > 0 && is_fic_extension(file_name.subrange(dot + 1, file_name.len() as int)) {
        Some(file_name.subrange(0, dot))
    } else {
        None
    }
}

/// The last dot is a dot, and no dot follows it.
pub proof fn lemma_last_dot(name: Seq<char>)
    ensures
        -1 <= last_dot(name) < name.len(),
        last_dot(name) >= 0 ==> name[last_dot(name)] == '.',
        forall|j: int| last_dot(name) < j < name.len() ==> name[j] != '.',
    decreases name.len(),
{
    if name.len() > 0 && name.last() != '.' {
        let shorter = name.drop_last();
        lemma_last_dot(shorter);
        assert forall|j: int| last_dot(name) < j < name.len() implies name[j] != '.' by {
            if j < shorter.len() {
                assert(shorter[j] == name[j]);
            }
        }
    }
}

/// A position holds the last dot if it holds a dot and none follows.
pub proof fn lemma_last_dot_is(name: Seq<char>, dot: int)
    requires
        -1 <= dot < name.len(),
        dot >= 0 ==> name[dot] == '.',
        forall|j: int| dot < j < name.len() ==> name[j] != '.',
    ensures
        last_dot(name) == dot,
{
    lemma_last_dot(name);
}

/// The name of the table that the file `file_name` holds the records of,
/// if it is a record file.
pub fn fic_table_name(file_name: &str) -> (name: Option<String>)
    ensures
        (match name {
            Some(n) => Some(n@),
            None => None,
        }) == table_name(file_name@),
{
    let len: usize = file_name.unicode_len();
    let mut at: usize = len;
    while at > 0 && file_name.get_char(at - 1) != '.'
        invariant
            at <= len,
            len == file_name@.len(),
            forall|j: int| at <= j < len ==> file_name@[j] != '.',
        decreases at,
    {
        at -= 1;
    }
    proof {
        lemma_last_dot_is(file_name@, at as int - 1);
    }
    if at < 2 || len - at != 3 {
        return None;
    }
    let f: char = file_name.get_char(at);
    let i: char = file_name.get_char(at + 1);
    let c: char = file_name.get_char(at + 2);
    let ghost extension = file_name@.subrange(at as int, len as int);
    assert(extension[0] == f && extension[1] == i && extension[2] == c);
    if (f == 'f' || f == 'F') && (i == 'i' || i == 'I') && (c == 'c' || c == 'C') {
        Some(String::from_str(file_name.substring_char(0, at - 1)))
    } else {
        None
    }
}

/// A number in decimal digits.
pub open spec fn decimal_text(n: nat) -> Seq<char>
    decreases n,
{
    if n < 10 {
        seq![hex_digit(n)]
    } else {
        decimal_text(n / 10).push(hex_digit(n % 10))
    }
}

/// Writes a number in decimal digits.
pub fn decimal(n: u64) -> (text: String)
    ensures
        text@ == decimal_text(n as nat),
    decreases n,
{
    if n < 10 {
        String::from_str(hex_digit_str(n as u8))
    } else {
        let head = decimal(n / 10);
        let tail = hex_digit_str((n % 10) as u8);
        let text = head.concat(tail);
        assert(text@ =~= decimal_text(n as nat));
        text
    }
}

/// The name of the blob file of a table.
pub open spec fn mmo_name(table: Seq<char>) -> Seq<char> {
    table + ".mmo"@
}

/// The name of index file `number` of a table.
pub open spec fn ndx_name(table: Seq<char>, number: nat) -> Seq<char> {
    table + ".ndx"@ + decimal_text(number)
}

/// How many index files a table has among the first `upto` numbers: those
/// numbered from 0 without a gap.
pub open spec fn index_run(listing: Seq<Seq<char>>, table: Seq<char>, upto: nat) -> nat
    decreases upto,
{
    if upto == 0 {
        0
    } else {
        let before = index_run(listing, table, (upto - 1) as nat);
        if before == upto - 1 && listing.contains(ndx_name(table, (upto - 1) as nat)) {
            upto
        } else {
            before
        }
    }
}

/// The run of index files never passes a missing number.
pub proof fn lemma_index_run_stops(listing: Seq<Seq<char>>, table: Seq<char>, missing: nat, upto: nat)
    requires
        missing < upto,
        !listing.contains(ndx_name(table, missing)),
        index_run(listing, table, missing) == missing,
    ensures
        index_run(listing, table, upto) == missing,
    decreases upto,
{
    if upto > missing + 1 {
        lemma_index_run_stops(listing, table, missing, (upto - 1) as nat);
    }
}

/// The files of the table `table`, whose record file is `fic_name`, in a
/// directory with the entries `listing`: the blob file if the directory
/// has it, and the index files numbered from 0 without a gap. No table has
/// more index files than the directory has entries.
pub open spec fn associated(table: Seq<char>, fic_name: Seq<char>, listing: Seq<Seq<char>>) -> TableFilesSpec {
    TableFilesSpec {
        name: table,
        fic_path: fic_name,
        mmo_path: if listing.contains(mmo_name(table)) {
            Some(mmo_name(table))
        } else {
            None
        },
        ndx_paths: Seq::new(
            index_run(listing, table, listing.len()),
            |i: int| ndx_name(table, i as nat),
        ),
    }
}

/// Whether a directory listing has an entry of the given name.
pub fn listing_contains(listing: &Vec<String>, name: &String) -> (found: bool)
    ensures
        found == texts(listing@).contains(name@),
{
    let mut i: usize = 0;
    while i < listing.len()
        invariant
            i <= listing@.len(),
            forall|j: int| 0 <= j < i ==> (#[trigger] texts(listing@)[j]) != name@,
        decreases listing@.len() - i,
    {
        if listing[i] == *name {
            assert(texts(listing@)[i as int] == name@);
            return true;
        }
        i += 1;
    }
    false
}

/// Finds the blob file and the index files of a table in the listing of
/// its directory.
pub fn associate(table: &str, fic_name: &str, listing: &Vec<String>) -> (files: TableFiles)
    ensures
        files@ == associated(table@, fic_name@, texts(listing@)),
{
    let ghost entries = texts(listing@);
    let mmo = String::from_str(table).concat(".mmo");
    let mmo_path = if listing_contains(listing, &mmo) {
        Some(mmo)
    } else {
        None
    };
    let mut ndx_paths: Vec<String> = Vec::new();
    let mut number: usize = 0;
    let mut gap: bool = false;
    while !gap && number < listing.len()
        invariant
            number <= listing@.len(),
            entries == texts(listing@),
            gap ==> index_run(entries, table@, listing@.len()) == number,
            index_run(entries, table@, number as nat) == number,
            ndx_paths@.len() == number,
            forall|j: int| 0 <= j < number ==> (#[trigger] ndx_paths@[j])@ == ndx_name(table@, j as nat),
        decreases
                (if gap {
                    0
                } else {
                    listing@.len() - number + 1
                }),
    {
        let ndx = String::from_str(table).concat(".ndx").concat(
            decimal(number as u64).as_str(),
        );
        if listing_contains(listing, &ndx) {
            ndx_paths.push(ndx);
            number += 1;
        } else {
            proof {
                lemma_index_run_stops(entries, table@, number as nat, listing@.len());
            }
            gap = true;
        }
    }
    let files = TableFiles {
        name: String::from_str(table),
        fic_path: String::from_str(fic_name),
        mmo_path,
        ndx_paths,
    };
    assert(files@.ndx_paths =~= associated(table@, fic_name@, entries).ndx_paths);
    files
}

/// Tables in more number than this have their files found in parallel,
/// where the engine may.
pub const PARALLEL_SCAN_THRESHOLD: usize = 5;

/// The tables among the first `upto` entries of a listing, each with the
/// name of its record file. Where two record files give one table name,
/// the later entry stands.
pub open spec fn candidates(listing: Seq<Seq<char>>, upto: nat) -> Map<Seq<char>, Seq<char>>
    recommends
        upto <= listing.len(),
    decreases upto,
{
    if upto == 0 {
        Map::empty()
    } else {
        let before = candidates(listing, (upto - 1) as nat);
        match table_name(listing[upto - 1]) {
            Some(name) => before.insert(name, listing[upto - 1]),
            None => before,
        }
    }
}

/// The tables of a directory with their files, by table name.
pub open spec fn scanned(listing: Seq<Seq<char>>) -> Map<Seq<char>, TableFilesSpec> {
    Map::new(
        |name: Seq<char>| candidates(listing, listing.len()).contains_key(name),
        |name: Seq<char>| associated(name, candidates(listing, listing.len())[name], listing),
    )
}

/// Finds the record files in a listing, by table name.
pub fn find_candidates(listing: &Vec<String>) -> (found: NameMap<String>)
    ensures
        found.wf(),
        found@ == candidates(texts(listing@), listing@.len()),
{
    let ghost entries = texts(listing@);
    let mut found: NameMap<String> = NameMap::new();
    let mut i: usize = 0;
    while i < listing.len()
        invariant
            i <= listing@.len(),
            entries == texts(listing@),
            found.wf(),
            found@ == candidates(entries, i as nat),
        decreases listing@.len() - i,
    {
        assert(entries[i as int] == listing@[i as int]@);
        if let Some(name) = fic_table_name(listing[i].as_str()) {
            found.insert(name, listing[i].clone());
        }
        i += 1;
    }
    found
}

/// Finds the files of the table at place `at` of the candidates.
pub fn associate_entry(found: &NameMap<String>, listing: &Vec<String>, at: usize) -> (files: TableFiles)
    requires
        at < found.spec_entries().len(),
    ensures
        files@ == associated(
            found.spec_entries()[at as int].name@,
            found.spec_entries()[at as int].value@,
            texts(listing@),
        ),
{
    let entry = found.entry(at);
    associate(entry.name.as_str(), entry.value.as_str(), listing)
}

/// `rayon`'s `into_par_iter().map(..).collect()` over the places of the
/// candidates: one `associate_entry` per table on the worker pool, the
/// results collected in the order of the candidates.
#[verifier::external_body]
fn associate_in_parallel(found: &NameMap<String>, listing: &Vec<String>) -> (tables: Vec<TableFiles>)
    ensures
        tables@.len() == found.spec_entries().len(),
        forall|i: int|
            0 <= i < tables@.len() ==> (#[trigger] tables@[i])@ == associated(
                found.spec_entries()[i].name@,
                found.spec_entries()[i].value@,
                texts(listing@),
            ),
{
    (0..found.len()).into_par_iter().map(|at| associate_entry(found, listing, at)).collect()
}

/// Finds the files of every candidate, in the order of the candidates.
/// More than 5 tables are handled in parallel if `parallel` is set.
pub fn associate_all(found: &NameMap<String>, listing: &Vec<String>, parallel: bool) -> (tables: Vec<TableFiles>)
    ensures
        tables@.len() == found.spec_entries().len(),
        forall|i: int|
            0 <= i < tables@.len() ==> (#[trigger] tables@[i])@ == associated(
                found.spec_entries()[i].name@,
                found.spec_entries()[i].value@,
                texts(listing@),
            ),
{
    if parallel && found.len() > PARALLEL_SCAN_THRESHOLD {
        return associate_in_parallel(found, listing);
    }
    let mut tables: Vec<TableFiles> = Vec::new();
    let mut i: usize = 0;
    while i < found.len()
        invariant
            i <= found.spec_entries().len(),
            tables@.len() == i,
            forall|j: int|
                0 <= j < i ==> (#[trigger] tables@[j])@ == associated(
                    found.spec_entries()[j].name@,
                    found.spec_entries()[j].value@,
                    texts(listing@),
                ),
        decreases found.spec_entries().len() - i,
    {
        tables.push(associate_entry(found, listing, i));
        i += 1;
    }
    tables
}

} // verus!

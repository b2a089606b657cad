//! The archive collaborators, used through their contracts alone:
//! list the entries of a zip archive, stream one entry's bytes, and
//! decode a tabular entry into rows of string fields. The verified
//! entry filter picks the first qualifying tabular entry.

use vstd::prelude::*;
use vstd::string::*;

use crate::model::LoadError;
use crate::text::{seq_contains_seq, seq_ends_with, str_contains, str_ends_with};

verus! {

/// The entry names of the archive the bytes hold, in central-directory
/// order, or absent when the bytes are not a readable archive. A
/// function of the bytes alone.
pub uninterp spec fn archive_listing(bytes: Seq<u8>) -> Option<Seq<Seq<char>>>;

/// The bytes of the named archive entry, or absent when the archive or
/// the entry cannot be read. A function of the bytes and name alone.
pub uninterp spec fn archive_entry(bytes: Seq<u8>, name: Seq<char>) -> Option<Seq<u8>>;

/// The rows of the tabular data the bytes hold, header row included,
/// or absent when they cannot be decoded. A function of the bytes
/// alone.
pub uninterp spec fn csv_table(bytes: Seq<u8>) -> Option<Seq<Seq<Seq<char>>>>;

/// The view of decoded rows: each row a sequence of field texts.
pub open spec fn table_view(rows: Seq<Vec<String>>) -> Seq<Seq<Seq<char>>> {
    rows.map_values(|r: Vec<String>| r@.map_values(|s: String| s@))
}

/// Relies on zip's `ZipArchive`: opening a byte buffer and reading the
/// entry names by index walks the central directory in order, a
/// function of the bytes alone.
#[verifier::external_body]
pub(crate) fn archive_entry_names(bytes: &Vec<u8>) -> (r: Result<Vec<String>, LoadError>)
    ensures
        match r {
            Ok(names) => archive_listing(bytes@) == Some(
                names@.map_values(|s: String| s@),
            ),
            Err(e) => archive_listing(bytes@) is None && e == LoadError::Archive,
        },
{
    let cursor = std::io::Cursor::new(bytes.as_slice());
    let archive = match zip::ZipArchive::new(cursor) {
        Ok(a) => a,
        Err(_) => return Err(LoadError::Archive),
    };
    let mut names: Vec<String> = Vec::new();
    for i in 0..archive.len() {
        match archive.name_for_index(i) {
            Some(n) => names.push(n.to_string()),
            None => return Err(LoadError::Archive),
        }
    }
    Ok(names)
}

/// Relies on zip's `ZipArchive::by_name` and the entry's `Read` impl:
/// the decompressed bytes of one named entry, a function of the
/// archive bytes and the name alone.
#[verifier::external_body]
pub(crate) fn archive_entry_bytes(bytes: &Vec<u8>, name: &str) -> (r: Result<Vec<u8>, LoadError>)
    ensures
        match r {
            Ok(data) => archive_entry(bytes@, name@) == Some(data@),
            Err(e) => archive_entry(bytes@, name@) is None && e == LoadError::Archive,
        },
{
    let cursor = std::io::Cursor::new(bytes.as_slice());
    let mut archive = match zip::ZipArchive::new(cursor) {
        Ok(a) => a,
        Err(_) => return Err(LoadError::Archive),
    };
    let mut entry = match archive.by_name(name) {
        Ok(f) => f,
        Err(_) => return Err(LoadError::Archive),
    };
    let mut data: Vec<u8> = Vec::new();
    match std::io::Read::read_to_end(&mut entry, &mut data) {
        Ok(_) => Ok(data),
        Err(_) => Err(LoadError::Archive),
    }
}

/// Relies on csv's `Reader`: decodes comma-separated rows, header row
/// included, erroring on malformed input; a function of the bytes
/// alone.
#[verifier::external_body]
pub(crate) fn csv_rows(bytes: &Vec<u8>) -> (r: Result<Vec<Vec<String>>, LoadError>)
    ensures
        match r {
            Ok(rows) => csv_table(bytes@) == Some(table_view(rows@)),
            Err(e) => csv_table(bytes@) is None && e == LoadError::Csv,
        },
{
    let mut rdr = csv::ReaderBuilder::new().has_headers(false).from_reader(bytes.as_slice());
    let mut rows: Vec<Vec<String>> = Vec::new();
    for rec in rdr.records() {
        match rec {
            Ok(r) => rows.push(r.iter().map(|f| f.to_string()).collect()),
            Err(_) => return Err(LoadError::Csv),
        }
    }
    Ok(rows)
}

/// An entry that qualifies as the dataset's tabular file: a `.csv`
/// whose name carries the dataset's marker.
pub open spec fn qualifying_name(name: Seq<char>) -> bool {
    seq_ends_with(name, ".csv"@) && seq_contains_seq(name, "POS_File"@)
}

/// Index of the first qualifying entry name, or -1 when none
/// qualifies.
pub open spec fn first_qualifying(names: Seq<Seq<char>>) -> int
    decreases names.len(),
{
    if names.len() == 0 {
        -1
    } else if qualifying_name(names[0]) {
        0
    } else {
        let r = first_qualifying(names.drop_first());
        if r < 0 {
            -1
        } else {
            r + 1
        }
    }
}

proof fn lemma_first_qualifying_skip(names: Seq<Seq<char>>, i: int)
    requires
        0 <= i <= names.len(),
        forall|j: int| 0 <= j < i ==> !qualifying_name(#[trigger] names[j]),
    ensures
        first_qualifying(names) == if first_qualifying(names.skip(i)) < 0 {
            -1
        } else {
            i + first_qualifying(names.skip(i))
        },
    decreases i,
{
    if i > 0 {
        lemma_first_qualifying_skip(names.drop_first(), i - 1);
        assert(names.drop_first().skip(i - 1) =~= names.skip(i));
        assert(!qualifying_name(names[0]));
    } else {
        assert(names.skip(0) =~= names);
    }
}

/// Picks the first archive entry that qualifies as the dataset's
/// tabular file.
pub fn select_entry(names: &Vec<String>) -> (res: Option<usize>)
    ensures
        match res {
            Some(i) => i < names@.len() && first_qualifying(
                names@.map_values(|s: String| s@),
            ) == i as int,
            None => first_qualifying(names@.map_values(|s: String| s@)) < 0,
        },
{
    let ghost nv = names@.map_values(|s: String| s@);
    let n = names.len();
    let mut i: usize = 0;
    while i < n
        invariant
            n == names@.len(),
            nv == names@.map_values(|s: String| s@),
            i <= n,
            forall|j: int| 0 <= j < i ==> !qualifying_name(#[trigger] nv[j]),
        decreases n - i,
    {
        let name = &names[i];
        if str_ends_with(name.as_str(), ".csv") && str_contains(name.as_str(), "POS_File") {
            proof {
                lemma_first_qualifying_skip(nv, i as int);
                assert(nv.skip(i as int)[0] == nv[i as int]);
            }
            return Some(i);
        }
        i = i + 1;
    }
    proof {
        lemma_first_qualifying_skip(nv, i as int);
        assert(nv.skip(i as int) =~= Seq::empty());
    }
    None
}

} // verus!

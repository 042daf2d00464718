//! The index of one directory: a table of files by name, and what its rows mean.
use vstd::prelude::*;

use crate::aggregate::{AggregateBlobMeta, AggregateFileEntry, AggregateRestoreInfo};
use crate::aggregate_index::{InfoView};
use crate::metadata::clone_text;
use crate::paths;
use crate::text;

verus! {

pub const SQLITE_INDEX_FILE_NAME: &'static str = "AGGREGATE_IDX.sqlite";

/// One row of the table. Rows are entered in order, and a row replaces an earlier one
/// with the same file name.
#[derive(Debug)]
pub struct DirIndexRow {
    pub file_name: String,
    pub blob_name: String,
    pub offset: i64,
    pub size: i64,
    pub mtime: i64,
    pub mode: i64,
    pub xattrs: Option<String>,
    pub acl: Option<String>,
}

/// One row as values.
pub struct DirRowView {
    pub file_name: Seq<char>,
    pub blob_name: Seq<char>,
    pub offset: i64,
    pub size: i64,
    pub mtime: i64,
    pub mode: i64,
    pub xattrs: Option<Seq<char>>,
    pub acl: Option<Seq<char>>,
}

impl View for DirIndexRow {
    type V = DirRowView;

    open spec fn view(&self) -> DirRowView {
        DirRowView {
            file_name: self.file_name@,
            blob_name: self.blob_name@,
            offset: self.offset,
            size: self.size,
            mtime: self.mtime,
            mode: self.mode,
            xattrs: crate::aggregate_index::text_view(self.xattrs),
            acl: crate::aggregate_index::text_view(self.acl),
        }
    }
}

/// The row for one file of a blob: both are known by the last component of their path.
pub open spec fn row_of(blob_path: Seq<char>, e: AggregateFileEntry) -> DirRowView {
    DirRowView {
        file_name: paths::file_name(e.relative_path@)->0,
        blob_name: paths::file_name(blob_path)->0,
        offset: e.offset as i64,
        size: e.size as i64,
        mtime: e.mtime as i64,
        mode: e.mode as i64,
        xattrs: crate::aggregate_index::text_view(e.xattrs),
        acl: crate::aggregate_index::text_view(e.acl),
    }
}

/// Whether a blob and all its files have names.
pub open spec fn nameable(b: AggregateBlobMeta) -> bool {
    &&& paths::file_name(b.blob_path@) is Some
    &&& forall|i: int|
        0 <= i < b.files@.len() ==> paths::file_name((#[trigger] b.files@[i]).relative_path@) is Some
}

/// The rows of the files of one blob.
pub open spec fn blob_rows(b: AggregateBlobMeta) -> Seq<DirRowView> {
    Seq::new(b.files@.len(), |i: int| row_of(b.blob_path@, b.files@[i]))
}

/// The rows of the files of several blobs.
pub open spec fn all_rows(blobs: Seq<AggregateBlobMeta>) -> Seq<DirRowView>
    decreases blobs.len(),
{
    if blobs.len() == 0 {
        Seq::empty()
    } else {
        all_rows(blobs.drop_last()) + blob_rows(blobs.last())
    }
}

pub open spec fn dir_row_views(rows: Seq<DirIndexRow>) -> Seq<DirRowView> {
    rows.map_values(|r: DirIndexRow| r@)
}

/// The message about the first blob or file of a list that has no name.
pub open spec fn first_unnameable(b: AggregateBlobMeta, m: Seq<char>) -> bool {
    if paths::file_name(b.blob_path@) is None {
        m == "invalid blob path "@ + b.blob_path@
    } else {
        exists|i: int|
            0 <= i < b.files@.len() && paths::file_name((#[trigger] b.files@[i]).relative_path@) is None
                && (forall|j: int|
                0 <= j < i ==> paths::file_name((#[trigger] b.files@[j]).relative_path@) is Some)
                && m == "invalid relative path "@ + b.files@[i].relative_path@
    }
}

/// Adds the rows of one blob.
fn push_blob_rows(rows: &mut Vec<DirIndexRow>, blob: &AggregateBlobMeta) -> (r: Result<(), String>)
    ensures
        match r {
            Ok(_) => nameable(*blob) && dir_row_views(final(rows)@) == dir_row_views(old(rows)@)
                + blob_rows(*blob),
            Err(m) => !nameable(*blob) && first_unnameable(*blob, m@),
        },
{
    let ghost start = dir_row_views(rows@);
    let blob_name = match paths::file_name_of(blob.blob_path.as_str()) {
        Some(n) => n,
        None => {
            return Err(text::concat("invalid blob path ", blob.blob_path.as_str()));
        },
    };
    let mut i: usize = 0;
    while i < blob.files.len()
        invariant
            i <= blob.files@.len(),
            paths::file_name(blob.blob_path@) == Some(blob_name@),
            forall|j: int|
                0 <= j < i ==> paths::file_name((#[trigger] blob.files@[j]).relative_path@) is Some,
            dir_row_views(rows@) =~= start + blob_rows(*blob).take(i as int),
        decreases blob.files@.len() - i,
    {
        let entry = &blob.files[i];
        match paths::file_name_of(entry.relative_path.as_str()) {
            None => {
                return Err(text::concat("invalid relative path ", entry.relative_path.as_str()));
            },
            Some(file_name) => {
                let ghost before = rows@;
                let row = DirIndexRow {
                    file_name,
                    blob_name: blob_name.clone(),
                    offset: entry.offset as i64,
                    size: entry.size as i64,
                    mtime: entry.mtime as i64,
                    mode: entry.mode as i64,
                    xattrs: clone_text(&entry.xattrs),
                    acl: clone_text(&entry.acl),
                };
                rows.push(row);
                assert(dir_row_views(rows@) =~= dir_row_views(before).push(row@));
                assert(row@ == blob_rows(*blob)[i as int]);
            },
        }
        i += 1;
    }
    assert(blob_rows(*blob).take(i as int) =~= blob_rows(*blob));
    Ok(())
}

/// The rows of a directory's index, in the order in which they are entered, or the
/// message about the first blob or file without a name.
pub fn write_dir_index(blobs: &Vec<AggregateBlobMeta>) -> (r: Result<Vec<DirIndexRow>, String>)
    ensures
        match r {
            Ok(rows) => (forall|i: int| 0 <= i < blobs@.len() ==> nameable(#[trigger] blobs@[i]))
                && dir_row_views(rows@) == all_rows(blobs@),
            Err(m) => exists|i: int|
                0 <= i < blobs@.len() && !nameable(#[trigger] blobs@[i]) && first_unnameable(
                    blobs@[i],
                    m@,
                ) && (forall|j: int| 0 <= j < i ==> nameable(#[trigger] blobs@[j])),
        },
{
    let mut rows: Vec<DirIndexRow> = Vec::new();
    let mut i: usize = 0;
    assert(blobs@.take(0) =~= Seq::<AggregateBlobMeta>::empty());
    assert(dir_row_views(rows@) =~= all_rows(blobs@.take(0)));
    while i < blobs.len()
        invariant
            i <= blobs@.len(),
            forall|j: int| 0 <= j < i ==> nameable(#[trigger] blobs@[j]),
            dir_row_views(rows@) == all_rows(blobs@.take(i as int)),
        decreases blobs@.len() - i,
    {
        assert(blobs@.take(i + 1).drop_last() =~= blobs@.take(i as int));
        match push_blob_rows(&mut rows, &blobs[i]) {
            Ok(()) => {},
            Err(m) => {
                return Err(m);
            },
        }
        i += 1;
    }
    assert(blobs@.take(i as int) =~= blobs@);
    Ok(rows)
}

/// What a row says of a file whose blobs lie in the directory `blob_dir_rel`.
pub open spec fn info_of(row: DirRowView, blob_dir_rel: Seq<char>) -> InfoView {
    InfoView {
        blob_path: text::forward_slashes(paths::join(blob_dir_rel, row.blob_name)),
        offset: row.offset as u64,
        size: row.size as u64,
        mtime: row.mtime as u64,
        mode: row.mode as u32,
        xattrs: row.xattrs,
        acl: row.acl,
    }
}

/// What the table says of a file: nothing where it has no row for it.
pub fn read_dir_index(row: Option<DirIndexRow>, blob_dir_rel: &str) -> (r: Option<
    AggregateRestoreInfo,
>)
    ensures
        match row {
            None => r is None,
            Some(found) => r matches Some(info) && info@ == info_of(found@, blob_dir_rel@),
        },
{
    match row {
        None => None,
        Some(found) => {
            let joined = paths::join_path(blob_dir_rel, found.blob_name.as_str());
            Some(
                AggregateRestoreInfo {
                    blob_path: text::to_forward_slashes(joined.as_str()),
                    offset: found.offset as u64,
                    size: found.size as u64,
                    mtime: found.mtime as u64,
                    mode: found.mode as u32,
                    xattrs: found.xattrs,
                    acl: found.acl,
                },
            )
        },
    }
}

/// A file's row gives back its place in the blob and its metadata, although the table
/// holds signed numbers.
pub proof fn law_row_keeps_entry(blob_path: Seq<char>, e: AggregateFileEntry, dir: Seq<char>)
    ensures
        info_of(row_of(blob_path, e), dir).offset == e.offset,
        info_of(row_of(blob_path, e), dir).size == e.size,
        info_of(row_of(blob_path, e), dir).mtime == e.mtime,
        info_of(row_of(blob_path, e), dir).mode == e.mode,
        info_of(row_of(blob_path, e), dir).xattrs == crate::aggregate_index::text_view(e.xattrs),
        info_of(row_of(blob_path, e), dir).acl == crate::aggregate_index::text_view(e.acl),
{
    let (a, b, c, d) = (e.offset, e.size, e.mtime, e.mode);
    assert((a as i64) as u64 == a && (b as i64) as u64 == b && (c as i64) as u64 == c && (
    d as i64) as u32 == d) by (bit_vector);
}

/// The table of a directory lists the files of its blobs, one blob after the other.
pub proof fn law_rows_come_blob_by_blob(
    a: Seq<AggregateBlobMeta>,
    b: Seq<AggregateBlobMeta>,
    blob: AggregateBlobMeta,
)
    ensures
        all_rows(a + b) == all_rows(a) + all_rows(b),
        all_rows(seq![blob]).len() == blob.files@.len(),
        forall|i: int|
            0 <= i < blob.files@.len() ==> (#[trigger] all_rows(seq![blob])[i]).file_name
                == paths::file_name(blob.files@[i].relative_path@)->0,
    decreases b.len(),
{
    reveal_with_fuel(all_rows, 2);
    assert(seq![blob].drop_last() =~= Seq::empty());
    assert(all_rows(seq![blob]) =~= blob_rows(blob));
    if b.len() == 0 {
        assert(a + b =~= a);
        assert(all_rows(a + b) =~= all_rows(a) + all_rows(b));
    } else {
        law_rows_come_blob_by_blob(a, b.drop_last(), blob);
        assert((a + b).drop_last() =~= a + b.drop_last());
        assert((a + b).last() == b.last());
        assert(all_rows(a + b) =~= all_rows(a) + all_rows(b));
    }
}

/// A blob can be listed exactly where it has a name and all its files have; otherwise the
/// message names the blob or one of its files that has none.
pub proof fn law_blobs_without_names_are_told(b: AggregateBlobMeta, m: Seq<char>)
    ensures
        nameable(b) ==> !first_unnameable(b, m),
        first_unnameable(b, m) ==> m == "invalid blob path "@ + b.blob_path@ || exists|i: int|
            0 <= i < b.files@.len() && m == "invalid relative path "@ + (
            #[trigger] b.files@[i]).relative_path@,
        paths::file_name(b.blob_path@) is None ==> !nameable(b),
        forall|i: int|
            0 <= i < b.files@.len() && paths::file_name((#[trigger] b.files@[i]).relative_path@)
                is None ==> !nameable(b),
{
}

} // verus!

//! The shard index: which blob holds a file and where, and its form on disk.
use vstd::prelude::*;
use vstd::hash_map::StringHashMap;

use crate::aggregate::{AggregateBlobMeta, AggregateFileEntry, AggregateRestoreInfo};
use crate::metadata::clone_text;
use crate::text;

verus! {

pub const BINARY_INDEX_FILE_NAME: &'static str = "AGGREGATE_INDEX.bidx";

// ---------------------------------------------------------------------------
// Model
// ---------------------------------------------------------------------------

/// What the index says of one file.
pub struct InfoView {
    pub blob_path: Seq<char>,
    pub offset: u64,
    pub size: u64,
    pub mtime: u64,
    pub mode: u32,
    pub xattrs: Option<Seq<char>>,
    pub acl: Option<Seq<char>>,
}

/// One record on disk: path, blob, offset, size, modification time, mode,
/// extended attributes and access control list.
pub type IndexRow = (String, String, u64, u64, u64, u32, Option<String>, Option<String>);

/// One record as values.
pub type RowView = (
    Seq<char>,
    Seq<char>,
    u64,
    u64,
    u64,
    u32,
    Option<Seq<char>>,
    Option<Seq<char>>,
);

pub open spec fn text_view(s: Option<String>) -> Option<Seq<char>> {
    match s {
        Some(t) => Some(t@),
        None => None,
    }
}

pub open spec fn row_view(r: IndexRow) -> RowView {
    (r.0@, r.1@, r.2, r.3, r.4, r.5, text_view(r.6), text_view(r.7))
}

pub open spec fn row_views(rows: Seq<IndexRow>) -> Seq<RowView> {
    rows.map_values(|r: IndexRow| row_view(r))
}

pub open spec fn row_info(r: RowView) -> InfoView {
    InfoView {
        blob_path: r.1,
        offset: r.2,
        size: r.3,
        mtime: r.4,
        mode: r.5,
        xattrs: r.6,
        acl: r.7,
    }
}

impl View for AggregateRestoreInfo {
    type V = InfoView;

    open spec fn view(&self) -> InfoView {
        InfoView {
            blob_path: self.blob_path@,
            offset: self.offset,
            size: self.size,
            mtime: self.mtime,
            mode: self.mode,
            xattrs: text_view(self.xattrs),
            acl: text_view(self.acl),
        }
    }
}

/// What an index learns of a file from the blob that holds it.
pub open spec fn entry_info(blob_path: Seq<char>, e: AggregateFileEntry) -> InfoView {
    InfoView {
        blob_path,
        offset: e.offset,
        size: e.size,
        mtime: e.mtime,
        mode: e.mode,
        xattrs: text_view(e.xattrs),
        acl: text_view(e.acl),
    }
}

/// The index `m` after the files of a blob were entered in order; a later entry of a
/// path replaces an earlier one.
pub open spec fn with_files(
    m: Map<Seq<char>, InfoView>,
    blob_path: Seq<char>,
    files: Seq<AggregateFileEntry>,
) -> Map<Seq<char>, InfoView>
    decreases files.len(),
{
    if files.len() == 0 {
        m
    } else {
        with_files(m, blob_path, files.drop_last()).insert(
            files.last().relative_path@,
            entry_info(blob_path, files.last()),
        )
    }
}

/// The index that a list of records denotes; a later record replaces an earlier one.
pub open spec fn map_of_rows(rows: Seq<RowView>) -> Map<Seq<char>, InfoView>
    decreases rows.len(),
{
    if rows.len() == 0 {
        Map::empty()
    } else {
        map_of_rows(rows.drop_last()).insert(rows.last().0, row_info(rows.last()))
    }
}

/// Sum of the sizes of the given records.
pub open spec fn total_size(rows: Seq<RowView>) -> nat
    decreases rows.len(),
{
    if rows.len() == 0 {
        0
    } else {
        total_size(rows.drop_last()) + rows.last().3 as nat
    }
}

// ---------------------------------------------------------------------------
// Encoding of the records
// ---------------------------------------------------------------------------

/// What `bincode::deserialize` makes of bytes that should hold a list of records: the
/// records, or the text of its error; there is no text where the bytes end too early.
pub uninterp spec fn bincode_rows(bytes: Seq<u8>) -> Result<Seq<RowView>, Option<Seq<char>>>;

/// The bytes that `bincode::serialize` makes of a list of records.
pub uninterp spec fn bincode_bytes(rows: Seq<RowView>) -> Seq<u8>;

/// Trusted: `bincode::deserialize` on a list of records. Its result depends on the
/// bytes alone. Its one error of input and output is that the bytes end too early; of the
/// others the text is given.
#[verifier::external_body]
fn decode_rows(bytes: &[u8]) -> (r: Result<Vec<IndexRow>, Option<String>>)
    ensures
        match r {
            Ok(rows) => bincode_rows(bytes@) matches Ok(v) && v == row_views(rows@),
            Err(e) => bincode_rows(bytes@) matches Err(m) && m == text_view(e),
        },
{
    bincode::deserialize(bytes).map_err(|e| match *e {
        bincode::ErrorKind::Io(_) => None,
        other => Some(other.to_string()),
    })
}

/// The message about records that do not decode, as for a file that is read piece by piece.
pub open spec fn decode_message(e: Option<Seq<char>>) -> Seq<char> {
    match e {
        Some(text) => text,
        None => "io error: failed to fill whole buffer"@,
    }
}

/// Trusted: `bincode::serialize` on a list of records. There is no size limit by
/// default and every field type has a fixed encoding, so it succeeds; the bytes depend
/// on the records alone, and `bincode::deserialize` reads the same records from them.
#[verifier::external_body]
fn encode_rows(rows: &Vec<IndexRow>) -> (r: Result<Vec<u8>, String>)
    ensures
        r is Ok,
        r->Ok_0@ == bincode_bytes(row_views(rows@)),
        bincode_rows(r->Ok_0@) is Ok,
        bincode_rows(r->Ok_0@)->Ok_0 == row_views(rows@),
{
    bincode::serialize(rows).map_err(|e| e.to_string())
}

/// The eight bytes in front of the records: `BAGG0002`.
pub open spec fn index_magic() -> Seq<u8> {
    seq![66u8, 65u8, 71u8, 71u8, 48u8, 48u8, 48u8, 50u8]
}

fn magic_bytes() -> (v: Vec<u8>)
    ensures
        v@ == index_magic(),
{
    vec![66u8, 65u8, 71u8, 71u8, 48u8, 48u8, 48u8, 50u8]
}

fn has_magic(bytes: &Vec<u8>) -> (r: bool)
    requires
        bytes@.len() >= 8,
    ensures
        r == (bytes@.take(8) == index_magic()),
{
    let magic = magic_bytes();
    let mut i: usize = 0;
    while i < 8
        invariant
            i <= 8 <= bytes@.len(),
            magic@ == index_magic(),
            forall|k: int| 0 <= k < i ==> bytes@[k] == magic@[k],
        decreases 8 - i,
    {
        if bytes[i] != magic[i] {
            assert(bytes@.take(8)[i as int] != index_magic()[i as int]);
            return false;
        }
        i += 1;
    }
    assert(bytes@.take(8) =~= index_magic());
    true
}

// ---------------------------------------------------------------------------
// Errors and statistics
// ---------------------------------------------------------------------------

#[derive(Debug)]
pub enum AggregateIndexError {
    /// The file could not be read or written.
    Io(String),
    Other(String),
}

impl AggregateIndexError {
    pub open spec fn text(self) -> Seq<char> {
        match self {
            AggregateIndexError::Io(e) => "IO error: "@ + e@,
            AggregateIndexError::Other(e) => e@,
        }
    }

    /// The message shown to users.
    pub fn message(&self) -> (s: String)
        ensures
            s@ == self.text(),
    {
        match self {
            AggregateIndexError::Io(e) => text::concat("IO error: ", e.as_str()),
            AggregateIndexError::Other(e) => e.clone(),
        }
    }
}

#[derive(Debug, Clone, Copy, PartialEq, Eq, Structural)]
pub struct IndexStats {
    pub total_files: u64,
    pub total_blobs: u64,
    pub total_size: u64,
}

impl Default for IndexStats {
    fn default() -> (r: Self)
        ensures
            r == (IndexStats { total_files: 0, total_blobs: 0, total_size: 0 }),
    {
        IndexStats { total_files: 0, total_blobs: 0, total_size: 0 }
    }
}

// ---------------------------------------------------------------------------
// The index
// ---------------------------------------------------------------------------

/// Whether the contents of an index file can be read; a file that is not there is an
/// empty index.
pub open spec fn readable(contents: Option<Vec<u8>>) -> bool {
    match contents {
        None => true,
        Some(bytes) => bytes@.len() >= 8 && bytes@.take(8) == index_magic() && bincode_rows(
            bytes@.skip(8),
        ) is Ok,
    }
}

/// What the contents of an index file denote.
pub open spec fn read_map(contents: Option<Vec<u8>>) -> Map<Seq<char>, InfoView> {
    match contents {
        None => Map::empty(),
        Some(bytes) => map_of_rows(bincode_rows(bytes@.skip(8))->Ok_0),
    }
}

/// The error for contents that cannot be read: too short for the magic, another magic,
/// or records that do not decode.
pub open spec fn open_error(bytes: Seq<u8>, path: Seq<char>, e: AggregateIndexError) -> bool {
    if bytes.len() < 8 {
        e matches AggregateIndexError::Io(m) && m@ == "failed to fill whole buffer"@
    } else if bytes.take(8) != index_magic() {
        e matches AggregateIndexError::Other(m) && m@ == "invalid aggregate index magic: "@ + path
    } else {
        e matches AggregateIndexError::Other(m) && m@ == "decode aggregate index: "@
            + decode_message(bincode_rows(bytes.skip(8))->Err_0)
    }
}

struct IndexRecord {
    relative_path: String,
    info: AggregateRestoreInfo,
}

/// The files of all blobs by their relative path.
pub struct AggregateIndex {
    index_path: String,
    records: Vec<IndexRecord>,
    slots: StringHashMap<usize>,
}

impl View for AggregateIndex {
    type V = Map<Seq<char>, InfoView>;

    closed spec fn view(&self) -> Map<Seq<char>, InfoView> {
        Map::new(
            |k: Seq<char>| self.slots@.contains_key(k),
            |k: Seq<char>| self.records@[self.slots@[k] as int].info@,
        )
    }
}

impl AggregateIndex {
    /// Every record is found under its path, and nothing else is.
    pub closed spec fn wf(&self) -> bool {
        &&& forall|k: Seq<char>| #[trigger]
            self.slots@.contains_key(k) ==> self.slots@[k] < self.records@.len()
                && self.records@[self.slots@[k] as int].relative_path@ == k
        &&& forall|i: int|
            0 <= i < self.records@.len() ==> self.slots@.contains_key(
                #[trigger] self.records@[i].relative_path@,
            ) && self.slots@[self.records@[i].relative_path@] == i
    }

    /// Where the index is kept.
    pub closed spec fn path(&self) -> Seq<char> {
        self.index_path@
    }

    /// The records in the order in which their paths first came.
    pub closed spec fn rows(&self) -> Seq<RowView> {
        self.records@.map_values(
            |r: IndexRecord|
                (
                    r.relative_path@,
                    r.info@.blob_path,
                    r.info.offset,
                    r.info.size,
                    r.info.mtime,
                    r.info.mode,
                    r.info@.xattrs,
                    r.info@.acl,
                ),
        )
    }

    /// The records list exactly what the index holds, each path once.
    pub proof fn lemma_rows(&self)
        requires
            self.wf(),
        ensures
            map_of_rows(self.rows()) == self@,
            forall|i: int, j: int|
                0 <= i < j < self.rows().len() ==> (#[trigger] self.rows()[i]).0 != (
                #[trigger] self.rows()[j]).0,
            forall|i: int|
                0 <= i < self.rows().len() ==> self@.contains_key((#[trigger] self.rows()[i]).0)
                    && self@[self.rows()[i].0] == row_info(self.rows()[i]),
            forall|k: Seq<char>| #[trigger]
                self@.contains_key(k) ==> exists|i: int|
                    0 <= i < self.rows().len() && (#[trigger] self.rows()[i]).0 == k,
            self@.dom().finite(),
            self@.len() == self.rows().len(),
            self.rows().map_values(|row: RowView| row.1).to_set() == self@.values().map(
                |i: InfoView| i.blob_path,
            ),
    {
        let rows = self.rows();
        assert forall|i: int| 0 <= i < rows.len() implies self@.contains_key(
            (#[trigger] rows[i]).0,
        ) && self@[rows[i].0] == row_info(rows[i]) by {
            assert(rows[i].0 == self.records@[i].relative_path@);
        }
        assert forall|i: int, j: int| 0 <= i < j < rows.len() implies (#[trigger] rows[i]).0 != (
        #[trigger] rows[j]).0 by {
            assert(rows[i].0 == self.records@[i].relative_path@);
            assert(rows[j].0 == self.records@[j].relative_path@);
        }
        assert forall|k: Seq<char>| #[trigger] self@.contains_key(k) implies exists|i: int|
            0 <= i < rows.len() && (#[trigger] rows[i]).0 == k by {
            assert(rows[self.slots@[k] as int].0 == k);
        }
        lemma_map_of_distinct_rows(rows);
        assert(map_of_rows(rows) =~= self@) by {
            assert forall|k: Seq<char>| map_of_rows(rows).contains_key(k) == self@.contains_key(
                k,
            ) by {}
        }
        let keys = rows.map_values(|row: RowView| row.0);
        assert(keys.no_duplicates()) by {
            assert forall|i: int, j: int| 0 <= i < j < keys.len() implies keys[i] != keys[j] by {
                assert(keys[i] == rows[i].0 && keys[j] == rows[j].0);
            }
        }
        keys.unique_seq_to_set();
        assert(keys.to_set() =~= self@.dom()) by {
            assert forall|k: Seq<char>| keys.to_set().contains(k) == self@.contains_key(k) by {
                if keys.contains(k) {
                    let i = choose|i: int| 0 <= i < keys.len() && keys[i] == k;
                    assert(rows[i].0 == k);
                }
                if self@.contains_key(k) {
                    let i = choose|i: int| 0 <= i < rows.len() && (#[trigger] rows[i]).0 == k;
                    assert(keys[i] == k);
                }
            }
        }
        let blobs = rows.map_values(|row: RowView| row.1);
        let named = self@.values().map(|i: InfoView| i.blob_path);
        assert forall|p: Seq<char>| blobs.to_set().contains(p) == named.contains(p) by {
            if blobs.contains(p) {
                let i = choose|i: int| 0 <= i < blobs.len() && blobs[i] == p;
                assert(self@.contains_key(rows[i].0));
                assert(self@.values().contains(row_info(rows[i])));
                assert(row_info(rows[i]).blob_path == p);
            }
            if named.contains(p) {
                let info = choose|info: InfoView| #[trigger]
                    self@.values().contains(info) && info.blob_path == p;
                let k = choose|k: Seq<char>| #[trigger] self@.contains_key(k) && self@[k] == info;
                let i = choose|i: int| 0 <= i < rows.len() && (#[trigger] rows[i]).0 == k;
                assert(blobs[i] == p);
            }
        }
        assert(blobs.to_set() =~= named);
    }

    /// An index without files.
    fn empty(index_path: &str) -> (r: Self)
        ensures
            r.wf(),
            r@ == Map::<Seq<char>, InfoView>::empty(),
            r.rows() == Seq::<RowView>::empty(),
            r.path() == index_path@,
    {
        let r = AggregateIndex {
            index_path: index_path.to_owned(),
            records: Vec::new(),
            slots: StringHashMap::new(),
        };
        assert(r@ =~= Map::<Seq<char>, InfoView>::empty());
        assert(r.rows() =~= Seq::<RowView>::empty());
        r
    }

    /// Enters one file, in place of what was known of its path.
    fn insert(&mut self, relative_path: String, info: AggregateRestoreInfo)
        requires
            old(self).wf(),
        ensures
            final(self).wf(),
            final(self)@ == old(self)@.insert(relative_path@, info@),
            final(self).path() == old(self).path(),
    {
        let ghost before = self@;
        let ghost key = relative_path@;
        let found: Option<usize> = match self.slots.get(relative_path.as_str()) {
            Some(i) => Some(*i),
            None => None,
        };
        match found {
            Some(i) => {
                self.records[i] = IndexRecord { relative_path, info };
            },
            None => {
                let i: usize = self.records.len();
                let ghost path = relative_path@;
                let shared = relative_path.clone();
                self.records.push(IndexRecord { relative_path, info });
                self.slots.insert(shared, i);
            },
        }
        assert(self@ =~= before.insert(key, info@));
    }

    /// The index kept at `index_path`: empty where there is no file yet, otherwise read
    /// from the contents of the file.
    pub fn open(index_path: &str, contents: Option<Vec<u8>>) -> (r: Result<
        AggregateIndex,
        AggregateIndexError,
    >)
        ensures
            match r {
                Ok(index) => readable(contents) && index.wf() && index@ == read_map(contents)
                    && index.path() == index_path@,
                Err(e) => contents is Some && !readable(contents) && open_error(
                    contents->0@,
                    index_path@,
                    e,
                ),
            },
    {
        match contents {
            None => Ok(AggregateIndex::empty(index_path)),
            Some(bytes) => {
                if bytes.len() < 8 {
                    return Err(AggregateIndexError::Io(text::copy_of("failed to fill whole buffer")));
                }
                if !has_magic(&bytes) {
                    return Err(
                        AggregateIndexError::Other(
                            text::concat("invalid aggregate index magic: ", index_path),
                        ),
                    );
                }
                let payload = vstd::slice::slice_subrange(bytes.as_slice(), 8, bytes.len());
                assert(payload@ =~= bytes@.skip(8));
                match decode_rows(payload) {
                    Err(e) => {
                        let message = match &e {
                            Some(text) => text.as_str(),
                            None => "io error: failed to fill whole buffer",
                        };
                        Err(
                            AggregateIndexError::Other(
                                text::concat("decode aggregate index: ", message),
                            ),
                        )
                    },
                    Ok(rows) => Ok(AggregateIndex::from_rows(index_path, rows)),
                }
            },
        }
    }

    /// The index that a list of records denotes.
    pub fn from_rows(index_path: &str, rows: Vec<IndexRow>) -> (index: Self)
        ensures
            index.wf(),
            index@ == map_of_rows(row_views(rows@)),
            index.path() == index_path@,
    {
        let mut index = AggregateIndex::empty(index_path);
        let mut i: usize = 0;
        let ghost views = row_views(rows@);
        assert(views.take(0) =~= Seq::<RowView>::empty());
        while i < rows.len()
            invariant
                i <= rows@.len(),
                views == row_views(rows@),
                index.wf(),
                index@ == map_of_rows(views.take(i as int)),
                index.path() == index_path@,
            decreases rows@.len() - i,
        {
            let row = &rows[i];
            let info = AggregateRestoreInfo {
                blob_path: row.1.clone(),
                offset: row.2,
                size: row.3,
                mtime: row.4,
                mode: row.5,
                xattrs: clone_text(&row.6),
                acl: clone_text(&row.7),
            };
            assert(views.take(i + 1).drop_last() =~= views.take(i as int));
            assert(views.take(i + 1).last() == row_view(rows@[i as int]));
            index.insert(row.0.clone(), info);
            i += 1;
        }
        assert(views.take(i as int) =~= views);
        index
    }

    /// Enters the files of a blob.
    pub fn add_blob(&mut self, blob_meta: &AggregateBlobMeta) -> (r: Result<
        (),
        AggregateIndexError,
    >)
        requires
            old(self).wf(),
        ensures
            r is Ok,
            final(self).wf(),
            final(self)@ == with_files(old(self)@, blob_meta.blob_path@, blob_meta.files@),
            final(self).path() == old(self).path(),
    {
        let ghost before = self@;
        let ghost path = self.path();
        let mut i: usize = 0;
        assert(blob_meta.files@.take(0) =~= Seq::<AggregateFileEntry>::empty());
        while i < blob_meta.files.len()
            invariant
                i <= blob_meta.files@.len(),
                self.wf(),
                self.path() == path,
                self@ == with_files(before, blob_meta.blob_path@, blob_meta.files@.take(i as int)),
            decreases blob_meta.files@.len() - i,
        {
            let entry = &blob_meta.files[i];
            let info = AggregateRestoreInfo {
                blob_path: blob_meta.blob_path.clone(),
                offset: entry.offset,
                size: entry.size,
                mtime: entry.mtime,
                mode: entry.mode,
                xattrs: clone_text(&entry.xattrs),
                acl: clone_text(&entry.acl),
            };
            assert(blob_meta.files@.take(i + 1).drop_last() =~= blob_meta.files@.take(i as int));
            self.insert(entry.relative_path.clone(), info);
            i += 1;
        }
        assert(blob_meta.files@.take(i as int) =~= blob_meta.files@);
        Ok(())
    }

    /// The bytes to be kept on disk: the magic and the encoded records. They are to
    /// replace the file at `index_path` as a whole.
    pub fn flush(&self) -> (r: Result<Vec<u8>, AggregateIndexError>)
        requires
            self.wf(),
        ensures
            r matches Ok(bytes) && bytes@ == index_magic() + bincode_bytes(self.rows())
                && bincode_rows(bytes@.skip(8)) is Ok && bincode_rows(bytes@.skip(8))->Ok_0
                == self.rows() && readable(Some(bytes)) && read_map(Some(bytes)) == self@,
    {
        let mut rows: Vec<IndexRow> = Vec::new();
        let mut i: usize = 0;
        while i < self.records.len()
            invariant
                i <= self.records@.len(),
                row_views(rows@) =~= self.rows().take(i as int),
            decreases self.records@.len() - i,
        {
            let rec = &self.records[i];
            let ghost before = rows@;
            let row: IndexRow = (
                rec.relative_path.clone(),
                rec.info.blob_path.clone(),
                rec.info.offset,
                rec.info.size,
                rec.info.mtime,
                rec.info.mode,
                clone_text(&rec.info.xattrs),
                clone_text(&rec.info.acl),
            );
            rows.push(row);
            assert(row_views(rows@) =~= row_views(before).push(row_view(row)));
            assert(row_view(row) == self.rows()[i as int]);
            i += 1;
        }
        assert(row_views(rows@) =~= self.rows());
        match encode_rows(&rows) {
            Ok(payload) => {
                let mut bytes = magic_bytes();
                let mut tail = payload;
                let ghost encoded = tail@;
                bytes.append(&mut tail);
                assert(bytes@.skip(8) =~= encoded);
                assert(bytes@.take(8) =~= index_magic());
                proof {
                    self.lemma_rows();
                }
                Ok(bytes)
            },
            Err(e) => Err(
                AggregateIndexError::Other(text::concat("encode aggregate index: ", e.as_str())),
            ),
        }
    }

    /// What the index says of a file.
    pub fn query_file(&self, relative_path: &str) -> (r: Result<
        Option<AggregateRestoreInfo>,
        AggregateIndexError,
    >)
        requires
            self.wf(),
        ensures
            r is Ok,
            match r->Ok_0 {
                Some(info) => self@.contains_key(relative_path@) && info@
                    == self@[relative_path@],
                None => !self@.contains_key(relative_path@),
            },
    {
        match self.slots.get(relative_path) {
            Some(i) => Ok(Some(self.records[*i].info.clone())),
            None => Ok(None),
        }
    }

    pub fn is_aggregated(&self, relative_path: &str) -> (r: Result<bool, AggregateIndexError>)
        requires
            self.wf(),
        ensures
            r matches Ok(b) && b == self@.contains_key(relative_path@),
    {
        Ok(self.slots.contains_key(relative_path))
    }

    /// The files of one blob, in the order of the records. The index does not keep the
    /// creation time of a file: it comes back as zero.
    pub fn get_blob_files(&self, blob_path: &str) -> (r: Result<
        Vec<AggregateFileEntry>,
        AggregateIndexError,
    >)
        requires
            self.wf(),
        ensures
            r is Ok,
            entry_rows(r->Ok_0@, blob_path@) == self.rows().filter(
                |row: RowView| row.1 == blob_path@,
            ),
            forall|i: int| 0 <= i < r->Ok_0@.len() ==> (#[trigger] r->Ok_0@[i]).ctime == 0,
    {
        let mut out: Vec<AggregateFileEntry> = Vec::new();
        let mut i: usize = 0;
        let ghost pred = |row: RowView| row.1 == blob_path@;
        assert(self.rows().take(0).filter(pred) =~= Seq::<RowView>::empty()) by {
            reveal_with_fuel(Seq::filter, 1);
        }
        while i < self.records.len()
            invariant
                i <= self.records@.len(),
                pred == (|row: RowView| row.1 == blob_path@),
                entry_rows(out@, blob_path@) =~= self.rows().take(i as int).filter(pred),
                forall|k: int| 0 <= k < out@.len() ==> (#[trigger] out@[k]).ctime == 0,
            decreases self.records@.len() - i,
        {
            let rec = &self.records[i];
            let ghost before = out@;
            assert(self.rows().take(i + 1).drop_last() =~= self.rows().take(i as int));
            assert(self.rows().take(i + 1).last() == self.rows()[i as int]);
            reveal_with_fuel(Seq::filter, 1);
            if text::same(rec.info.blob_path.as_str(), blob_path) {
                let entry = AggregateFileEntry {
                    relative_path: rec.relative_path.clone(),
                    offset: rec.info.offset,
                    size: rec.info.size,
                    ctime: 0,
                    mtime: rec.info.mtime,
                    mode: rec.info.mode,
                    xattrs: clone_text(&rec.info.xattrs),
                    acl: clone_text(&rec.info.acl),
                };
                out.push(entry);
                assert(entry_rows(out@, blob_path@) =~= entry_rows(before, blob_path@).push(
                    self.rows()[i as int],
                ));
            }
            i += 1;
        }
        assert(self.rows().take(i as int) =~= self.rows());
        Ok(out)
    }

    /// Removes the files of one blob and tells how many there were.
    pub fn delete_blob_entries(&mut self, blob_path: &str) -> (r: Result<
        usize,
        AggregateIndexError,
    >)
        requires
            old(self).wf(),
        ensures
            r is Ok,
            final(self).wf(),
            final(self).path() == old(self).path(),
            final(self)@ == Map::new(
                |k: Seq<char>| old(self)@.contains_key(k) && old(self)@[k].blob_path != blob_path@,
                |k: Seq<char>| old(self)@[k],
            ),
            r->Ok_0 == old(self)@.len() - final(self)@.len(),
    {
        proof {
            self.lemma_rows();
        }
        let ghost before = self@;
        let ghost path = self.path();
        let ghost old_rows = self.rows();
        let total: usize = self.records.len();
        let mut kept: Vec<IndexRecord> = Vec::new();
        let mut slots: StringHashMap<usize> = StringHashMap::new();
        let mut i: usize = 0;
        while i < self.records.len()
            invariant
                i <= self.records@.len(),
                self.wf(),
                self@ == before,
                self.path() == path,
                self.rows() == old_rows,
                total == self.records@.len(),
                kept@.len() <= i,
                forall|k: Seq<char>| #[trigger]
                    slots@.contains_key(k) ==> slots@[k] < kept@.len()
                        && kept@[slots@[k] as int].relative_path@ == k,
                forall|j: int|
                    0 <= j < kept@.len() ==> slots@.contains_key(
                        #[trigger] kept@[j].relative_path@,
                    ) && slots@[kept@[j].relative_path@] == j,
                forall|k: Seq<char>|
                    #![trigger slots@.contains_key(k)]
                    #![trigger self.slots@.contains_key(k)]
                    slots@.contains_key(k) == (self.slots@.contains_key(k) && self.slots@[k] < i
                        && before[k].blob_path != blob_path@),
                forall|k: Seq<char>| #[trigger]
                    slots@.contains_key(k) ==> kept@[slots@[k] as int].info@ == before[k],
            decreases self.records@.len() - i,
        {
            let rec = &self.records[i];
            let ghost prev = slots@;
            assert(before[rec.relative_path@] == rec.info@);
            if !text::same(rec.info.blob_path.as_str(), blob_path) {
                let at: usize = kept.len();
                slots.insert(rec.relative_path.clone(), at);
                kept.push(
                    IndexRecord { relative_path: rec.relative_path.clone(), info: rec.info.clone() },
                );
            }
            assert forall|k: Seq<char>|
                #![trigger slots@.contains_key(k)]
                #![trigger self.slots@.contains_key(k)]
                slots@.contains_key(k) == (self.slots@.contains_key(k) && self.slots@[k] < i + 1
                    && before[k].blob_path != blob_path@) by {
                if self.slots@.contains_key(k) && self.slots@[k] == i {
                    assert(k == rec.relative_path@);
                }
                if slots@.contains_key(k) && k != rec.relative_path@ {
                    assert(prev.contains_key(k));
                }
            }
            i += 1;
        }
        let removed: usize = total - kept.len();
        self.records = kept;
        self.slots = slots;
        assert(self.rows().len() == kept@.len());
        assert(self@ =~= Map::new(
            |k: Seq<char>| before.contains_key(k) && before[k].blob_path != blob_path@,
            |k: Seq<char>| before[k],
        ));
        proof {
            self.lemma_rows();
        }
        Ok(removed)
    }

    /// Counts files, distinct blobs and bytes.
    pub fn get_stats(&self) -> (r: Result<IndexStats, AggregateIndexError>)
        requires
            self.wf(),
            total_size(self.rows()) <= u64::MAX,
        ensures
            r is Ok,
            r->Ok_0.total_files == self@.len(),
            r->Ok_0.total_blobs == self@.values().map(|i: InfoView| i.blob_path).len(),
            r->Ok_0.total_size == total_size(self.rows()),
    {
        let ghost rows = self.rows();
        let ghost blobs = rows.map_values(|row: RowView| row.1);
        let mut seen: StringHashMap<bool> = StringHashMap::new();
        let mut size: u64 = 0;
        let mut i: usize = 0;
        assert(rows.take(0) =~= Seq::<RowView>::empty());
        while i < self.records.len()
            invariant
                i <= self.records@.len(),
                rows == self.rows(),
                blobs == rows.map_values(|row: RowView| row.1),
                total_size(rows) <= u64::MAX,
                size == total_size(rows.take(i as int)),
                forall|k: Seq<char>|
                    #![trigger seen@.contains_key(k)]
                    seen@.contains_key(k) <==> exists|j: int| 0 <= j < i && #[trigger] blobs[j] == k,
            decreases self.records@.len() - i,
        {
            let rec = &self.records[i];
            assert(rows.take(i + 1).drop_last() =~= rows.take(i as int));
            proof {
                lemma_total_size_grows(rows, i + 1);
            }
            size = size + rec.info.size;
            let ghost before = seen@;
            seen.insert(rec.info.blob_path.clone(), true);
            assert(blobs[i as int] == rec.info.blob_path@);
            assert forall|k: Seq<char>| #![trigger seen@.contains_key(k)]
                seen@.contains_key(k) <==> exists|j: int|
                    0 <= j < i + 1 && #[trigger] blobs[j] == k by {
                if exists|j: int| 0 <= j < i + 1 && #[trigger] blobs[j] == k {
                    let j = choose|j: int| 0 <= j < i + 1 && #[trigger] blobs[j] == k;
                    if j < i {
                        assert(before.contains_key(k));
                    }
                }
                if seen@.contains_key(k) && k != rec.info.blob_path@ {
                    assert(before.contains_key(k));
                }
            }
            i += 1;
        }
        assert(rows.take(i as int) =~= rows);
        assert(seen@.dom() =~= blobs.to_set());
        proof {
            self.lemma_rows();
        }
        Ok(
            IndexStats {
                total_files: self.records.len() as u64,
                total_blobs: seen.len() as u64,
                total_size: size,
            },
        )
    }
}

/// The given entries as records of one blob.
pub open spec fn entry_rows(
    entries: Seq<AggregateFileEntry>,
    blob_path: Seq<char>,
) -> Seq<RowView> {
    entries.map_values(
        |e: AggregateFileEntry|
            (
                e.relative_path@,
                blob_path,
                e.offset,
                e.size,
                e.mtime,
                e.mode,
                text_view(e.xattrs),
                text_view(e.acl),
            ),
    )
}

proof fn lemma_total_size_grows(rows: Seq<RowView>, n: int)
    requires
        0 <= n <= rows.len(),
    ensures
        total_size(rows.take(n)) <= total_size(rows),
    decreases rows.len(),
{
    if n == rows.len() {
        assert(rows.take(n) =~= rows);
    } else {
        lemma_total_size_grows(rows.drop_last(), n);
        assert(rows.drop_last().take(n) =~= rows.take(n));
    }
}

proof fn lemma_map_of_distinct_rows(rows: Seq<RowView>)
    requires
        forall|i: int, j: int|
            0 <= i < j < rows.len() ==> (#[trigger] rows[i]).0 != (#[trigger] rows[j]).0,
    ensures
        forall|k: Seq<char>| #[trigger]
            map_of_rows(rows).contains_key(k) <==> exists|i: int|
                0 <= i < rows.len() && (#[trigger] rows[i]).0 == k,
        forall|i: int|
            0 <= i < rows.len() ==> map_of_rows(rows)[(#[trigger] rows[i]).0] == row_info(rows[i]),
    decreases rows.len(),
{
    if rows.len() > 0 {
        let front = rows.drop_last();
        lemma_map_of_distinct_rows(front);
        assert forall|k: Seq<char>| #[trigger] map_of_rows(rows).contains_key(k) <==> exists|i: int|
            0 <= i < rows.len() && (#[trigger] rows[i]).0 == k by {
            if map_of_rows(rows).contains_key(k) {
                if k == rows.last().0 {
                    assert(rows[rows.len() - 1].0 == k);
                } else {
                    let i = choose|i: int| 0 <= i < front.len() && (#[trigger] front[i]).0 == k;
                    assert(rows[i].0 == k);
                }
            }
            if exists|i: int| 0 <= i < rows.len() && (#[trigger] rows[i]).0 == k {
                let i = choose|i: int| 0 <= i < rows.len() && (#[trigger] rows[i]).0 == k;
                if i < rows.len() - 1 {
                    assert(front[i].0 == k);
                }
            }
        }
        assert forall|i: int| 0 <= i < rows.len() implies map_of_rows(rows)[(
        #[trigger] rows[i]).0] == row_info(rows[i]) by {
            if i < rows.len() - 1 {
                assert(front[i] == rows[i]);
                assert(rows[i].0 != rows[rows.len() - 1].0);
            }
        }
    }
}

/// An index read from the bytes that another one wrote holds the same.
pub proof fn law_index_reopens(index: AggregateIndex, bytes: Seq<u8>)
    requires
        index.wf(),
        bytes == index_magic() + bincode_bytes(index.rows()),
        bincode_rows(bytes.skip(8)) is Ok,
        bincode_rows(bytes.skip(8))->Ok_0 == index.rows(),
    ensures
        bytes.len() >= 8,
        bytes.take(8) == index_magic(),
        bincode_rows(bytes.skip(8)) matches Ok(rows) && map_of_rows(rows) == index@,
{
    index.lemma_rows();
    assert(bytes.take(8) =~= index_magic());
}

/// A file of a blob is found in the index once the blob was entered: under its path
/// stands the last entry of the blob with that path.
pub proof fn law_added_file_is_found(
    m: Map<Seq<char>, InfoView>,
    blob_path: Seq<char>,
    files: Seq<AggregateFileEntry>,
    i: int,
)
    requires
        0 <= i < files.len(),
        forall|j: int| i < j < files.len() ==> (#[trigger] files[j]).relative_path@
            != files[i].relative_path@,
    ensures
        with_files(m, blob_path, files).contains_key(files[i].relative_path@),
        with_files(m, blob_path, files)[files[i].relative_path@] == entry_info(blob_path, files[i]),
    decreases files.len(),
{
    if i < files.len() - 1 {
        let front = files.drop_last();
        assert(files[files.len() - 1].relative_path@ != files[i].relative_path@);
        assert forall|j: int| i < j < front.len() implies (#[trigger] front[j]).relative_path@
            != front[i].relative_path@ by {
            assert(front[j] == files[j]);
        }
        law_added_file_is_found(m, blob_path, front, i);
    }
}

/// A path that no file of the blob has keeps what the index said of it.
pub proof fn law_other_files_are_kept(
    m: Map<Seq<char>, InfoView>,
    blob_path: Seq<char>,
    files: Seq<AggregateFileEntry>,
    k: Seq<char>,
)
    requires
        forall|j: int| 0 <= j < files.len() ==> (#[trigger] files[j]).relative_path@ != k,
    ensures
        with_files(m, blob_path, files).contains_key(k) == m.contains_key(k),
        m.contains_key(k) ==> with_files(m, blob_path, files)[k] == m[k],
    decreases files.len(),
{
    if files.len() > 0 {
        let front = files.drop_last();
        assert(files[files.len() - 1].relative_path@ != k);
        assert forall|j: int| 0 <= j < front.len() implies (#[trigger] front[j]).relative_path@
            != k by {
            assert(front[j] == files[j]);
        }
        law_other_files_are_kept(m, blob_path, front, k);
    }
}

/// The sizes of two lists of records are those of both together.
pub proof fn law_sizes_add_up(a: Seq<RowView>, b: Seq<RowView>, row: RowView)
    ensures
        total_size(a + b) == total_size(a) + total_size(b),
        total_size(seq![row]) == row_info(row).size,
    decreases b.len(),
{
    reveal_with_fuel(total_size, 2);
    assert(seq![row].drop_last() =~= Seq::empty());
    if b.len() == 0 {
        assert(a + b =~= a);
    } else {
        law_sizes_add_up(a, b.drop_last(), row);
        assert((a + b).drop_last() =~= a + b.drop_last());
        assert((a + b).last() == b.last());
    }
}

/// What is recorded of a file is read again from its record.
pub proof fn law_records_keep_their_entry(entries: Seq<AggregateFileEntry>, blob: Seq<char>, i: int)
    requires
        0 <= i < entries.len(),
    ensures
        ({
            let info = row_info(entry_rows(entries, blob)[i]);
            let e = entries[i];
            &&& entry_rows(entries, blob)[i].0 == e.relative_path@
            &&& info.blob_path == blob
            &&& (info.offset, info.size, info.mtime, info.mode) == (e.offset, e.size, e.mtime, e.mode)
            &&& info.xattrs == text_view(e.xattrs) && info.acl == text_view(e.acl)
            &&& info == entry_info(blob, e)
        }),
{
}

/// A later record of a path replaces an earlier one, and a record changes no other path.
pub proof fn law_later_records_replace_earlier_ones(rows: Seq<RowView>, row: RowView, path: Seq<char>)
    ensures
        map_of_rows(rows.push(row)).contains_key(row.0) && map_of_rows(rows.push(row))[row.0]
            == row_info(row),
        path != row.0 ==> (map_of_rows(rows.push(row)).contains_key(path) <==> map_of_rows(
            rows,
        ).contains_key(path)),
        path != row.0 && map_of_rows(rows).contains_key(path) ==> map_of_rows(rows.push(row))[path]
            == map_of_rows(rows)[path],
        !map_of_rows(Seq::empty()).contains_key(path),
{
    assert(rows.push(row).drop_last() =~= rows);
}

/// An index can be read only where it begins with its mark, and a missing one is empty.
pub proof fn law_indexes_begin_with_their_mark(bytes: Vec<u8>, path: Seq<char>, e: AggregateIndexError)
    ensures
        readable(Some(bytes)) ==> bytes@.len() >= 8 && bytes@.take(8) == seq![
            66u8,
            65u8,
            71u8,
            71u8,
            48u8,
            48u8,
            48u8,
            50u8,
        ],
        bytes@.len() < 8 ==> !readable(Some(bytes)),
        bytes@.len() >= 8 && bytes@.take(8) == index_magic() ==> (readable(Some(bytes))
            <==> bincode_rows(bytes@.skip(8)) is Ok),
        readable(None) && read_map(None) == Map::<Seq<char>, InfoView>::empty(),
        bytes@.len() < 8 && open_error(bytes@, path, e) ==> e is Io,
        bytes@.len() >= 8 && open_error(bytes@, path, e) ==> e is Other,
        bytes@.len() >= 8 && bytes@.take(8) != index_magic() && open_error(bytes@, path, e)
            ==> e.text() == "invalid aggregate index magic: "@ + path,
{
}

} // verus!

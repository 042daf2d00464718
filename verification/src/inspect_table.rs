//! Records of inspected files, and the tables that show them.
use vstd::prelude::*;

use crate::delete::{DeleteEntry, DeleteEntryType};
use crate::failure::csv_record;
use crate::hardlink::{HardlinkFileEntry, HardlinkInodeEntry};
use crate::inspect::{inspect_kind_name, DirCacheEntry, FileCacheEntry, InspectInputKind};
use crate::metadata::{DirEntry, DirMeta, EntryDiff, FileEntry, FileMeta};
use crate::order;
use crate::text;

verus! {

// ---------------------------------------------------------------------------
// Fields
// ---------------------------------------------------------------------------

/// The value of a field.
#[derive(Debug)]
pub enum FieldValue {
    Text(String),
    Number(u64),
}

/// The value of a field in the model.
pub enum FieldView {
    Text(Seq<char>),
    Number(u64),
}

impl FieldView {
    /// How the value is shown.
    pub open spec fn text(self) -> Seq<char> {
        match self {
            FieldView::Text(s) => s,
            FieldView::Number(n) => text::decimal(n as nat),
        }
    }
}

impl View for FieldValue {
    type V = FieldView;

    open spec fn view(&self) -> FieldView {
        match *self {
            FieldValue::Text(s) => FieldView::Text(s@),
            FieldValue::Number(n) => FieldView::Number(n),
        }
    }
}

impl Clone for FieldValue {
    fn clone(&self) -> (r: Self)
        ensures
            r == *self,
    {
        match self {
            FieldValue::Text(s) => FieldValue::Text(s.clone()),
            FieldValue::Number(n) => FieldValue::Number(*n),
        }
    }
}

/// How a value is shown; a missing one is empty.
pub fn value_to_string(value: Option<&FieldValue>) -> (s: String)
    ensures
        s@ == (match value {
            Some(v) => v@.text(),
            None => Seq::empty(),
        }),
{
    match value {
        Some(FieldValue::Text(s)) => s.clone(),
        Some(FieldValue::Number(n)) => text::decimal_string(*n),
        None => {
            let s = String::new();
            assert(s@ =~= Seq::empty());
            s
        },
    }
}

#[derive(Debug)]
pub struct Field {
    pub key: String,
    pub value: FieldValue,
}

/// Whether the keys of fields are in ascending order, so that none occurs twice.
pub open spec fn keys_ascend(fields: Seq<Field>) -> bool {
    forall|i: int, j: int|
        0 <= i < j < fields.len() ==> order::before(
            (#[trigger] fields[i]).key@,
            (#[trigger] fields[j]).key@,
        )
}

/// Whether a key stands at a place.
pub open spec fn key_at(fields: Seq<Field>, key: Seq<char>, i: int) -> bool {
    0 <= i < fields.len() && fields[i].key@ == key
}

/// The fields as a map from keys to values.
pub open spec fn field_map(fields: Seq<Field>) -> Map<Seq<char>, FieldView> {
    Map::new(
        |k: Seq<char>| exists|i: int| key_at(fields, k, i),
        |k: Seq<char>| fields[choose|i: int| key_at(fields, k, i)].value@,
    )
}

proof fn lemma_field_at(fields: Seq<Field>, i: int)
    requires
        keys_ascend(fields),
        0 <= i < fields.len(),
    ensures
        field_map(fields).contains_key(fields[i].key@),
        field_map(fields)[fields[i].key@] == fields[i].value@,
{
    let key = fields[i].key@;
    assert(key_at(fields, key, i));
    let j = choose|j: int| key_at(fields, key, j);
    order::law_order_is_total(key, key);
    if i < j {
        assert(order::before(fields[i].key@, fields[j].key@));
    } else if j < i {
        assert(order::before(fields[j].key@, fields[i].key@));
    }
}

// ---------------------------------------------------------------------------
// Records
// ---------------------------------------------------------------------------

/// One record of an inspected file.
#[derive(Debug)]
pub struct InspectRecord {
    pub kind: String,
    pub record_type: String,
    pub fields: Vec<Field>,
}

impl Clone for InspectRecord {
    fn clone(&self) -> (r: Self)
        ensures
            r.same_as(*self),
            self.wf() ==> r.wf(),
    {
        let mut fields: Vec<Field> = Vec::new();
        let mut i: usize = 0;
        while i < self.fields.len()
            invariant
                i <= self.fields@.len(),
                fields@.len() == i,
                forall|k: int| 0 <= k < i ==> #[trigger] fields@[k] == self.fields@[k],
            decreases self.fields@.len() - i,
        {
            fields.push(
                Field { key: self.fields[i].key.clone(), value: self.fields[i].value.clone() },
            );
            i += 1;
        }
        assert(fields@ =~= self.fields@);
        InspectRecord {
            kind: self.kind.clone(),
            record_type: self.record_type.clone(),
            fields,
        }
    }
}

impl InspectRecord {
    pub open spec fn wf(&self) -> bool {
        keys_ascend(self.fields@)
    }

    pub open spec fn same_as(&self, other: Self) -> bool {
        self.kind@ == other.kind@ && self.record_type@ == other.record_type@ && self.fields@
            == other.fields@
    }

    /// The fields as a map from keys to values.
    pub open spec fn map(&self) -> Map<Seq<char>, FieldView> {
        field_map(self.fields@)
    }

    /// What is shown in a column.
    pub open spec fn cell(&self, column: Seq<char>) -> Seq<char> {
        if column == "kind"@ {
            self.kind@
        } else if column == "record_type"@ {
            self.record_type@
        } else if self.map().contains_key(column) {
            self.map()[column].text()
        } else {
            Seq::empty()
        }
    }

    pub fn new(kind: &str, record_type: &str) -> (r: Self)
        ensures
            r.wf(),
            r.kind@ == kind@,
            r.record_type@ == record_type@,
            r.map() == Map::<Seq<char>, FieldView>::empty(),
    {
        let r = InspectRecord {
            kind: kind.to_owned(),
            record_type: record_type.to_owned(),
            fields: Vec::new(),
        };
        assert(r.map() =~= Map::<Seq<char>, FieldView>::empty());
        r
    }

    fn with_field(self, key: &str, value: FieldValue) -> (r: Self)
        requires
            self.wf(),
        ensures
            r.wf(),
            r.kind == self.kind,
            r.record_type == self.record_type,
            r.map() == self.map().insert(key@, value@),
    {
        let ghost before = self.fields@;
        let ghost v = value@;
        let mut record = self;
        let mut at: usize = 0;
        while at < record.fields.len() && order::comes_before(record.fields[at].key.as_str(), key)
            invariant
                at <= record.fields@.len(),
                record.fields@ == before,
                record.kind == self.kind,
                record.record_type == self.record_type,
                forall|i: int| 0 <= i < at ==> order::before((#[trigger] before[i]).key@, key@),
            decreases record.fields@.len() - at,
        {
            at += 1;
        }
        let present = at < record.fields.len() && text::same(record.fields[at].key.as_str(), key);
        proof {
            assert forall|i: int| at < i < before.len() implies order::before(
                key@,
                (#[trigger] before[i]).key@,
            ) by {
                assert(order::before(before[at as int].key@, before[i].key@));
                order::law_order_is_total(before[at as int].key@, key@);
                if before[at as int].key@ != key@ {
                    order::law_order_is_transitive(
                        key@,
                        before[at as int].key@,
                        before[i].key@,
                    );
                }
            }
            if !present && at < before.len() {
                order::law_order_is_total(before[at as int].key@, key@);
            }
        }
        if present {
            record.fields.set(at, Field { key: key.to_owned(), value });
            proof {
                let now = record.fields@;
                assert(now[at as int].key@ == key@);
                assert forall|i: int, j: int| 0 <= i < j < now.len() implies order::before(
                    (#[trigger] now[i]).key@,
                    (#[trigger] now[j]).key@,
                ) by {
                    assert(order::before(before[i].key@, before[j].key@));
                }
                lemma_replaced(before, now, at as int, key@, v);
            }
        } else {
            record.fields.insert(at, Field { key: key.to_owned(), value });
            proof {
                let now = record.fields@;
                assert forall|i: int, j: int| 0 <= i < j < now.len() implies order::before(
                    (#[trigger] now[i]).key@,
                    (#[trigger] now[j]).key@,
                ) by {
                    let a = if i < at {
                        i
                    } else {
                        i - 1
                    };
                    let b = if j < at {
                        j
                    } else {
                        j - 1
                    };
                    if i != at {
                        assert(now[i] == before[a]);
                    }
                    if j != at {
                        assert(now[j] == before[b]);
                    }
                    if i != at && j != at {
                        assert(order::before(before[a].key@, before[b].key@));
                    }
                }
                lemma_inserted(before, now, at as int, key@, v);
            }
        }
        record
    }

    pub fn with_string(self, key: &str, value: &str) -> (r: Self)
        requires
            self.wf(),
        ensures
            r.wf(),
            r.kind == self.kind,
            r.record_type == self.record_type,
            r.map() == self.map().insert(key@, FieldView::Text(value@)),
    {
        self.with_field(key, FieldValue::Text(value.to_owned()))
    }

    pub fn with_u32(self, key: &str, value: u32) -> (r: Self)
        requires
            self.wf(),
        ensures
            r.wf(),
            r.kind == self.kind,
            r.record_type == self.record_type,
            r.map() == self.map().insert(key@, FieldView::Number(value as u64)),
    {
        self.with_field(key, FieldValue::Number(value as u64))
    }

    pub fn with_u64(self, key: &str, value: u64) -> (r: Self)
        requires
            self.wf(),
        ensures
            r.wf(),
            r.kind == self.kind,
            r.record_type == self.record_type,
            r.map() == self.map().insert(key@, FieldView::Number(value)),
    {
        self.with_field(key, FieldValue::Number(value))
    }

    /// A number in base 16, as a text of at least eight digits.
    pub fn with_hex_u32(self, key: &str, value: u32) -> (r: Self)
        requires
            self.wf(),
        ensures
            r.wf(),
            r.kind == self.kind,
            r.record_type == self.record_type,
            r.map() == self.map().insert(key@, hex_field(value)),
    {
        self.with_field(key, FieldValue::Text(text::hex_padded(value as u64, 8, true)))
    }

    /// A number in base 8, as a text.
    pub fn with_oct_u32(self, key: &str, value: u32) -> (r: Self)
        requires
            self.wf(),
        ensures
            r.wf(),
            r.kind == self.kind,
            r.record_type == self.record_type,
            r.map() == self.map().insert(key@, oct_field(value)),
    {
        self.with_field(key, FieldValue::Text(text::octal_string(value as u64)))
    }

    /// What is shown in a column.
    pub fn value(&self, column: &str) -> (s: String)
        requires
            self.wf(),
        ensures
            s@ == self.cell(column@),
    {
        if text::same(column, "kind") {
            return self.kind.clone();
        }
        if text::same(column, "record_type") {
            return self.record_type.clone();
        }
        let mut i: usize = 0;
        while i < self.fields.len()
            invariant
                i <= self.fields@.len(),
                self.wf(),
                column@ != "kind"@,
                column@ != "record_type"@,
                forall|k: int| 0 <= k < i ==> (#[trigger] self.fields@[k]).key@ != column@,
            decreases self.fields@.len() - i,
        {
            if text::same(self.fields[i].key.as_str(), column) {
                proof {
                    lemma_field_at(self.fields@, i as int);
                }
                return value_to_string(Some(&self.fields[i].value));
            }
            i += 1;
        }
        assert forall|k: int| !key_at(self.fields@, column@, k) by {}
        value_to_string(None)
    }
}

pub open spec fn hex_field(value: u32) -> FieldView {
    FieldView::Text(text::pad_left(text::digits(value as nat, 16, true), 8, '0'))
}

pub open spec fn oct_field(value: u32) -> FieldView {
    FieldView::Text(text::digits(value as nat, 8, false))
}

proof fn lemma_replaced(
    before: Seq<Field>,
    now: Seq<Field>,
    at: int,
    key: Seq<char>,
    value: FieldView,
)
    requires
        keys_ascend(before),
        keys_ascend(now),
        now.len() == before.len(),
        0 <= at < now.len(),
        before[at].key@ == key,
        now[at].key@ == key,
        now[at].value@ == value,
        forall|i: int| 0 <= i < now.len() && i != at ==> #[trigger] now[i] == before[i],
    ensures
        field_map(now) == field_map(before).insert(key, value),
{
    let a = field_map(now);
    let b = field_map(before).insert(key, value);
    assert forall|k: Seq<char>| a.contains_key(k) == b.contains_key(k) by {
        if a.contains_key(k) {
            let i = choose|i: int| key_at(now, k, i);
            assert(i != at ==> now[i] == before[i]);
            assert(i != at ==> key_at(before, k, i));
        }
        if b.contains_key(k) {
            if k == key {
                assert(key_at(now, k, at));
            } else {
                let i = choose|i: int| key_at(before, k, i);
                assert(i != at);
                assert(now[i] == before[i]);
                assert(key_at(now, k, i));
            }
        }
    }
    assert forall|k: Seq<char>| a.contains_key(k) implies a[k] == b[k] by {
        let i = choose|i: int| key_at(now, k, i);
        lemma_field_at(now, i);
        if i != at {
            assert(now[i] == before[i]);
            lemma_field_at(before, i);
            order::law_order_is_total(key, k);
            if i < at {
                assert(order::before(now[i].key@, now[at].key@));
            } else {
                assert(order::before(now[at].key@, now[i].key@));
            }
        }
    }
    assert(a =~= b);
}

proof fn lemma_inserted(
    before: Seq<Field>,
    now: Seq<Field>,
    at: int,
    key: Seq<char>,
    value: FieldView,
)
    requires
        keys_ascend(before),
        keys_ascend(now),
        0 <= at <= before.len(),
        now == before.insert(at, now[at]),
        now[at].key@ == key,
        now[at].value@ == value,
    ensures
        field_map(now) == field_map(before).insert(key, value),
{
    let a = field_map(now);
    let b = field_map(before).insert(key, value);
    assert forall|k: Seq<char>| a.contains_key(k) == b.contains_key(k) by {
        if a.contains_key(k) {
            let i = choose|i: int| key_at(now, k, i);
            if i < at {
                assert(now[i] == before[i]);
                assert(key_at(before, k, i));
            } else if i > at {
                assert(now[i] == before[i - 1]);
                assert(key_at(before, k, i - 1));
            }
        }
        if b.contains_key(k) {
            if k == key {
                assert(key_at(now, k, at));
            } else {
                let i = choose|i: int| key_at(before, k, i);
                if i < at {
                    assert(now[i] == before[i]);
                    assert(key_at(now, k, i));
                } else {
                    assert(now[i + 1] == before[i]);
                    assert(key_at(now, k, i + 1));
                }
            }
        }
    }
    assert forall|k: Seq<char>| a.contains_key(k) implies a[k] == b[k] by {
        let i = choose|i: int| key_at(now, k, i);
        lemma_field_at(now, i);
        if i != at {
            let j = if i < at {
                i
            } else {
                i - 1
            };
            assert(now[i] == before[j]);
            lemma_field_at(before, j);
            order::law_order_is_total(key, k);
            if i < at {
                assert(order::before(now[i].key@, now[at].key@));
            } else {
                assert(order::before(now[at].key@, now[i].key@));
            }
        }
    }
    assert(a =~= b);
}

// ---------------------------------------------------------------------------
// Records of the kinds of files
// ---------------------------------------------------------------------------

pub open spec fn number(n: u64) -> FieldView {
    FieldView::Number(n)
}

pub open spec fn words(s: Seq<char>) -> FieldView {
    FieldView::Text(s)
}

/// Whether a record is of the given kind and type and has the given fields.
pub open spec fn is_record(
    r: InspectRecord,
    kind: Seq<char>,
    record_type: Seq<char>,
    fields: Map<Seq<char>, FieldView>,
) -> bool {
    r.wf() && r.kind@ == kind && r.record_type@ == record_type && r.map() == fields
}

pub open spec fn no_fields() -> Map<Seq<char>, FieldView> {
    Map::empty()
}

/// Whether a record shows an entry of a directory cache.
pub open spec fn shows_dcache(r: InspectRecord, e: DirCacheEntry) -> bool {
    is_record(
        r,
        "dcache"@,
        "dir_cache"@,
        no_fields().insert("id"@, number(e.id)).insert("hash"@, hex_field(e.hash)).insert(
            "meta_fid"@,
            number(e.meta_loc.0 as u64),
        ).insert("meta_offset"@, number(e.meta_loc.1 as u64)).insert(
            "files_count"@,
            number(e.files_count as u64),
        ).insert("fcache_fid"@, number(e.fcache_fid as u64)).insert(
            "fcache_offset"@,
            number(e.fcache_offset as u64),
        ),
    )
}

pub fn record_from_dcache(e: &DirCacheEntry) -> (r: InspectRecord)
    ensures
        shows_dcache(r, *e),
{
    InspectRecord::new("dcache", "dir_cache").with_u64("id", e.id).with_hex_u32(
        "hash",
        e.hash,
    ).with_u32("meta_fid", e.meta_loc.0).with_u32("meta_offset", e.meta_loc.1).with_u32(
        "files_count",
        e.files_count,
    ).with_u32("fcache_fid", e.fcache_fid).with_u32("fcache_offset", e.fcache_offset)
}

/// Whether a record shows an entry of a file cache.
pub open spec fn shows_fcache(r: InspectRecord, e: FileCacheEntry) -> bool {
    is_record(
        r,
        "fcache"@,
        "file_cache"@,
        no_fields().insert("id"@, number(e.id)).insert("hash"@, hex_field(e.hash)).insert(
            "meta_fid"@,
            number(e.meta_loc.0 as u64),
        ).insert("meta_offset"@, number(e.meta_loc.1 as u64)),
    )
}

pub fn record_from_fcache(e: &FileCacheEntry) -> (r: InspectRecord)
    ensures
        shows_fcache(r, *e),
{
    InspectRecord::new("fcache", "file_cache").with_u64("id", e.id).with_hex_u32(
        "hash",
        e.hash,
    ).with_u32("meta_fid", e.meta_loc.0).with_u32("meta_offset", e.meta_loc.1)
}

pub fn record_from_dir_meta(dir: &DirMeta) -> (r: InspectRecord)
    ensures
        is_record(
            r,
            "meta"@,
            "dir_meta"@,
            no_fields().insert("name"@, words(dir.common.name@)).insert(
                "path"@,
                words(dir.path@),
            ).insert("id"@, number(dir.common.id)).insert(
                "device"@,
                number(dir.common.devno),
            ).insert("mode"@, oct_field(dir.common.mode)).insert(
                "atime"@,
                number(dir.common.atime as u64),
            ).insert("mtime"@, number(dir.common.mtime as u64)).insert(
                "ctime"@,
                number(dir.common.ctime as u64),
            ),
        ),
{
    InspectRecord::new("meta", "dir_meta").with_string(
        "name",
        dir.common.name.as_str(),
    ).with_string("path", dir.path.as_str()).with_u64("id", dir.common.id).with_u64(
        "device",
        dir.common.devno,
    ).with_oct_u32("mode", dir.common.mode).with_u64("atime", dir.common.atime as u64).with_u64(
        "mtime",
        dir.common.mtime as u64,
    ).with_u64("ctime", dir.common.ctime as u64)
}

pub fn record_from_file_meta(file: &FileMeta) -> (r: InspectRecord)
    ensures
        is_record(
            r,
            "meta"@,
            "file_meta"@,
            no_fields().insert("name"@, words(file.common.name@)).insert(
                "id"@,
                number(file.common.id),
            ).insert("device"@, number(file.common.devno)).insert(
                "size"@,
                number(file.size),
            ).insert("link_count"@, number(file.links)).insert(
                "mode"@,
                oct_field(file.common.mode),
            ).insert("atime"@, number(file.common.atime as u64)).insert(
                "mtime"@,
                number(file.common.mtime as u64),
            ).insert("ctime"@, number(file.common.ctime as u64)),
        ),
{
    InspectRecord::new("meta", "file_meta").with_string(
        "name",
        file.common.name.as_str(),
    ).with_u64("id", file.common.id).with_u64("device", file.common.devno).with_u64(
        "size",
        file.size,
    ).with_u64("link_count", file.links).with_oct_u32("mode", file.common.mode).with_u64(
        "atime",
        file.common.atime as u64,
    ).with_u64("mtime", file.common.mtime as u64).with_u64("ctime", file.common.ctime as u64)
}

pub open spec fn diff_word(d: EntryDiff) -> Seq<char> {
    match d {
        EntryDiff::New => "New"@,
        EntryDiff::Modified => "Modified"@,
        EntryDiff::Unchanged => "Unchanged"@,
    }
}

fn diff_name(d: EntryDiff) -> (s: &'static str)
    ensures
        s@ == diff_word(d),
{
    match d {
        EntryDiff::New => "New",
        EntryDiff::Modified => "Modified",
        EntryDiff::Unchanged => "Unchanged",
    }
}

/// Whether a record shows a directory of a copy control file.
pub open spec fn shows_copy_dir(r: InspectRecord, dir: DirEntry) -> bool {
    is_record(
        r,
        "control"@,
        "copy_dir"@,
        no_fields().insert("type"@, words("DIR"@)).insert("path"@, words(dir.path@)).insert(
            "diff"@,
            words(diff_word(dir.diff)),
        ).insert("meta_fid"@, number(dir.meta_fid as u64)).insert(
            "meta_offset"@,
            number(dir.meta_offset as u64),
        ).insert("files_count"@, number(dir.files_count as u64)),
    )
}

pub fn record_from_copy_dir(dir: &DirEntry) -> (r: InspectRecord)
    ensures
        shows_copy_dir(r, *dir),
{
    InspectRecord::new("control", "copy_dir").with_string("type", "DIR").with_string(
        "path",
        dir.path.as_str(),
    ).with_string("diff", diff_name(dir.diff)).with_u32("meta_fid", dir.meta_fid).with_u32(
        "meta_offset",
        dir.meta_offset,
    ).with_u32("files_count", dir.files_count)
}

/// Whether a record shows a file of a copy control file, which lies in the given directory,
/// or in the root without one.
pub open spec fn shows_copy_file(
    r: InspectRecord,
    current_dir: Option<Seq<char>>,
    file: FileEntry,
) -> bool {
    is_record(
        r,
        "control"@,
        "copy_file"@,
        no_fields().insert("type"@, words("FILE"@)).insert(
            "path"@,
            words(
                logical_path(
                    match current_dir {
                        Some(d) => d,
                        None => "/"@,
                    },
                    file.name@,
                ),
            ),
        ).insert("diff"@, words(diff_word(file.diff))).insert(
            "meta_fid"@,
            number(file.meta_fid as u64),
        ).insert("meta_offset"@, number(file.meta_offset as u64)).insert(
            "files_count"@,
            words("N/A"@),
        ),
    )
}

/// The record of a file, which lies in the directory that was named last, or in the root
/// where none was.
pub fn record_from_copy_file(current_dir: Option<&str>, file: &FileEntry) -> (r: InspectRecord)
    ensures
        shows_copy_file(
            r,
            match current_dir {
                Some(d) => Some(d@),
                None => None,
            },
            *file,
        ),
{
    let dir = match current_dir {
        Some(d) => d,
        None => "/",
    };
    let path = join_logical_path(dir, file.name.as_str());
    InspectRecord::new("control", "copy_file").with_string("type", "FILE").with_string(
        "path",
        path.as_str(),
    ).with_string("diff", diff_name(file.diff)).with_u32("meta_fid", file.meta_fid).with_u32(
        "meta_offset",
        file.meta_offset,
    ).with_string("files_count", "N/A")
}

/// Whether a record shows an entry of a delete control file.
pub open spec fn shows_delete(r: InspectRecord, e: DeleteEntry) -> bool {
    is_record(
        r,
        "control"@,
        (if e.entry_type == DeleteEntryType::Dir {
            "delete_dir"@
        } else {
            "delete_file"@
        }),
        no_fields().insert(
            "type"@,
            words(
                if e.entry_type == DeleteEntryType::Dir {
                    "DIR"@
                } else {
                    "FILE"@
                },
            ),
        ).insert("path"@, words(e.path@)),
    )
}

pub fn record_from_delete(e: &DeleteEntry) -> (r: InspectRecord)
    ensures
        shows_delete(r, *e),
{
    match e.entry_type {
        DeleteEntryType::Dir => InspectRecord::new("control", "delete_dir").with_string(
            "type",
            "DIR",
        ).with_string("path", e.path.as_str()),
        DeleteEntryType::File => InspectRecord::new("control", "delete_file").with_string(
            "type",
            "FILE",
        ).with_string("path", e.path.as_str()),
    }
}

/// What an mtime control file records of a directory besides its times.
#[derive(Debug)]
pub struct MtimeRecord {
    pub path: String,
    pub mode: u32,
    pub uid: u32,
    pub gid: u32,
    pub atime: u64,
    pub mtime: u64,
}

/// Whether a record shows a directory of an mtime control file.
pub open spec fn shows_mtime(r: InspectRecord, e: MtimeRecord) -> bool {
    is_record(
        r,
        "control"@,
        "mtime_dir"@,
        no_fields().insert("type"@, words("DIR"@)).insert("path"@, words(e.path@)).insert(
            "mode"@,
            oct_field(e.mode),
        ).insert("uid"@, number(e.uid as u64)).insert("gid"@, number(e.gid as u64)).insert(
            "atime"@,
            number(e.atime),
        ).insert("mtime"@, number(e.mtime)),
    )
}

pub fn record_from_mtime(e: &MtimeRecord) -> (r: InspectRecord)
    ensures
        shows_mtime(r, *e),
{
    InspectRecord::new("control", "mtime_dir").with_string("type", "DIR").with_string(
        "path",
        e.path.as_str(),
    ).with_oct_u32("mode", e.mode).with_u32("uid", e.uid).with_u32("gid", e.gid).with_u64(
        "atime",
        e.atime,
    ).with_u64("mtime", e.mtime)
}

/// Whether a record shows the inode of a group of links.
pub open spec fn shows_inode(r: InspectRecord, e: HardlinkInodeEntry) -> bool {
    is_record(
        r,
        "control"@,
        "hardlink_inode"@,
        no_fields().insert("type"@, words("INODE"@)).insert("inode"@, number(e.inode)).insert(
            "device"@,
            number(e.device),
        ).insert("link_count"@, number(e.link_count as u64)),
    )
}

pub fn record_from_inode(e: &HardlinkInodeEntry) -> (r: InspectRecord)
    ensures
        shows_inode(r, *e),
{
    InspectRecord::new("control", "hardlink_inode").with_string("type", "INODE").with_u64(
        "inode",
        e.inode,
    ).with_u64("device", e.device).with_u32("link_count", e.link_count)
}

/// Whether a record shows a file of a group of links.
pub open spec fn shows_link(r: InspectRecord, e: HardlinkFileEntry) -> bool {
    is_record(
        r,
        "control"@,
        "hardlink_file"@,
        no_fields().insert("type"@, words("FILE"@)).insert("path"@, words(e.path@)).insert(
            "meta_fid"@,
            number(e.meta_fid as u64),
        ).insert("meta_offset"@, number(e.meta_offset as u64)),
    )
}

pub fn record_from_link(e: &HardlinkFileEntry) -> (r: InspectRecord)
    ensures
        shows_link(r, *e),
{
    InspectRecord::new("control", "hardlink_file").with_string("type", "FILE").with_string(
        "path",
        e.path.as_str(),
    ).with_u32("meta_fid", e.meta_fid).with_u32("meta_offset", e.meta_offset)
}

/// A path without the slashes at its end.
pub open spec fn without_slashes(s: Seq<char>) -> Seq<char>
    decreases s.len(),
{
    if s.len() > 0 && s.last() == '/' {
        without_slashes(s.drop_last())
    } else {
        s
    }
}

/// A name in a directory of a control file.
pub open spec fn logical_path(dir: Seq<char>, name: Seq<char>) -> Seq<char> {
    if dir == "/"@ {
        "/"@ + name
    } else {
        without_slashes(dir) + "/"@ + name
    }
}

pub fn join_logical_path(dir: &str, name: &str) -> (s: String)
    ensures
        s@ == logical_path(dir@, name@),
{
    if text::same(dir, "/") {
        return text::concat("/", name);
    }
    let chars = text::chars_of(dir);
    let mut end: usize = chars.len();
    assert(chars@.take(end as int) =~= dir@);
    while end > 0 && chars[end - 1] == '/'
        invariant
            end <= chars@.len(),
            without_slashes(chars@.take(end as int)) == without_slashes(dir@),
        decreases end,
    {
        assert(chars@.take(end as int).drop_last() =~= chars@.take(end - 1));
        end -= 1;
    }
    let kept = text::slice_of(&chars, 0, end);
    assert(kept@ =~= chars@.take(end as int));
    let mut s = text::string_of(&kept);
    s.append("/");
    s.append(name);
    s
}

// ---------------------------------------------------------------------------
// Columns
// ---------------------------------------------------------------------------

/// Whether texts are in ascending order, so that none occurs twice.
pub open spec fn ascending(s: Seq<Seq<char>>) -> bool {
    forall|i: int, j: int| 0 <= i < j < s.len() ==> order::before(#[trigger] s[i], #[trigger] s[j])
}

/// The keys of a record in order.
pub open spec fn keys(fields: Seq<Field>) -> Seq<Seq<char>> {
    fields.map_values(|f: Field| f.key@)
}

/// The keys of all records, one record after the other.
pub open spec fn all_keys(records: Seq<InspectRecord>) -> Seq<Seq<char>>
    decreases records.len(),
{
    if records.len() == 0 {
        Seq::empty()
    } else {
        all_keys(records.drop_last()) + keys(records.last().fields@)
    }
}

/// Whether columns are the given keys in ascending order, each of them once.
pub open spec fn sorted_columns(columns: Seq<Seq<char>>, used: Seq<Seq<char>>) -> bool {
    ascending(columns) && forall|k: Seq<char>| #[trigger]
        columns.contains(k) <==> used.contains(k)
}

/// Puts a text at its place, unless it is there.
fn insert_unique(list: &mut Vec<String>, key: &str)
    requires
        ascending(text::views(old(list)@)),
    ensures
        ascending(text::views(final(list)@)),
        forall|k: Seq<char>| #[trigger]
            text::views(final(list)@).contains(k) <==> text::views(old(list)@).contains(k) || k
                == key@,
{
    let ghost before = text::views(list@);
    let mut at: usize = 0;
    while at < list.len() && order::comes_before(list[at].as_str(), key)
        invariant
            at <= list@.len(),
            before == text::views(list@),
            forall|i: int| 0 <= i < at ==> order::before(#[trigger] before[i], key@),
        decreases list@.len() - at,
    {
        at += 1;
    }
    if at < list.len() && text::same(list[at].as_str(), key) {
        assert(before[at as int] == key@);
        return;
    }
    proof {
        assert forall|i: int| at <= i < before.len() implies order::before(
            key@,
            #[trigger] before[i],
        ) by {
            order::law_order_is_total(before[at as int], key@);
            if at < i {
                assert(order::before(before[at as int], before[i]));
                order::law_order_is_transitive(key@, before[at as int], before[i]);
            }
        }
    }
    list.insert(at, key.to_owned());
    proof {
        let now = text::views(list@);
        assert(now =~= before.insert(at as int, key@));
        assert forall|i: int, j: int| 0 <= i < j < now.len() implies order::before(
            #[trigger] now[i],
            #[trigger] now[j],
        ) by {
            let a = if i < at {
                i
            } else {
                i - 1
            };
            let b = if j < at {
                j
            } else {
                j - 1
            };
            if i != at {
                assert(now[i] == before[a]);
            }
            if j != at {
                assert(now[j] == before[b]);
            }
        }
        assert forall|k: Seq<char>| #[trigger] now.contains(k) implies before.contains(k) || k
            == key@ by {
            let i = choose|i: int| 0 <= i < now.len() && now[i] == k;
            if i < at {
                assert(before[i] == k);
            } else if i > at {
                assert(before[i - 1] == k);
            }
        }
        assert forall|k: Seq<char>| before.contains(k) || k == key@ implies #[trigger] now.contains(
            k,
        ) by {
            if k == key@ {
                assert(now[at as int] == k);
            } else {
                let i = choose|i: int| 0 <= i < before.len() && before[i] == k;
                if i < at {
                    assert(now[i] == k);
                } else {
                    assert(now[i + 1] == k);
                }
            }
        }
    }
}

/// The columns of a group of records: all their keys in ascending order.
pub fn group_columns(records: &Vec<InspectRecord>) -> (out: Vec<String>)
    ensures
        sorted_columns(text::views(out@), all_keys(records@)),
{
    let mut out: Vec<String> = Vec::new();
    let mut i: usize = 0;
    assert(records@.take(0) =~= Seq::empty());
    while i < records.len()
        invariant
            i <= records@.len(),
            sorted_columns(text::views(out@), all_keys(records@.take(i as int))),
        decreases records@.len() - i,
    {
        let ghost seen = all_keys(records@.take(i as int));
        let ghost more = keys(records@[i as int].fields@);
        assert(records@.take(i + 1).drop_last() =~= records@.take(i as int));
        let fields = &records[i].fields;
        let mut j: usize = 0;
        assert(seen + more.take(0) =~= seen);
        while j < fields.len()
            invariant
                j <= fields@.len(),
                more == keys(fields@),
                sorted_columns(text::views(out@), seen + more.take(j as int)),
            decreases fields@.len() - j,
        {
            let ghost before = seen + more.take(j as int);
            let ghost key = fields@[j as int].key@;
            insert_unique(&mut out, fields[j].key.as_str());
            proof {
                assert(seen + more.take(j + 1) =~= before.push(key));
                assert forall|k: Seq<char>| #[trigger]
                    text::views(out@).contains(k) <==> (seen + more.take(j + 1)).contains(k) by {
                    lemma_push_contains(before, key, k);
                }
            }
            j += 1;
        }
        assert(more.take(j as int) =~= more);
        i += 1;
    }
    assert(records@.take(i as int) =~= records@);
    out
}

proof fn lemma_push_contains(s: Seq<Seq<char>>, a: Seq<char>, k: Seq<char>)
    ensures
        s.push(a).contains(k) <==> s.contains(k) || k == a,
{
    if s.contains(k) {
        let i = choose|i: int| 0 <= i < s.len() && s[i] == k;
        assert(s.push(a)[i] == k);
    }
    if k == a {
        assert(s.push(a)[s.len() as int] == k);
    }
    if s.push(a).contains(k) {
        let i = choose|i: int| 0 <= i < s.push(a).len() && s.push(a)[i] == k;
        if i < s.len() {
            assert(s[i] == k);
        }
    }
}

/// The columns of the CSV form: kind and type, and then all keys in ascending order.
pub fn union_columns(records: &Vec<InspectRecord>) -> (out: Vec<String>)
    ensures
        out@.len() >= 2,
        out@[0]@ == "kind"@,
        out@[1]@ == "record_type"@,
        sorted_columns(text::views(out@).skip(2), all_keys(records@)),
{
    let mut out: Vec<String> = vec![text::copy_of("kind"), text::copy_of("record_type")];
    let mut rest = group_columns(records);
    let ghost sorted = text::views(rest@);
    out.append(&mut rest);
    assert(text::views(out@).skip(2) =~= sorted);
    out
}

/// The columns that come first in a table of control entries.
pub open spec fn preferred_columns() -> Seq<Seq<char>> {
    seq!["type"@, "path"@, "diff"@, "meta_fid"@, "meta_offset"@, "files_count"@]
}

/// The columns with new keys behind them, in order of appearance.
pub open spec fn with_new(columns: Seq<Seq<char>>, used: Seq<Seq<char>>) -> Seq<Seq<char>>
    decreases used.len(),
{
    if used.len() == 0 {
        columns
    } else {
        let earlier = with_new(columns, used.drop_last());
        if earlier.contains(used.last()) {
            earlier
        } else {
            earlier.push(used.last())
        }
    }
}

/// The texts that are used, in order.
pub open spec fn only_used(columns: Seq<Seq<char>>, used: Seq<Seq<char>>) -> Seq<Seq<char>>
    decreases columns.len(),
{
    if columns.len() == 0 {
        Seq::empty()
    } else if used.contains(columns.last()) {
        only_used(columns.drop_last(), used).push(columns.last())
    } else {
        only_used(columns.drop_last(), used)
    }
}

fn holds(list: &Vec<String>, key: &str) -> (r: bool)
    ensures
        r == text::views(list@).contains(key@),
{
    let mut i: usize = 0;
    while i < list.len()
        invariant
            i <= list@.len(),
            forall|k: int| 0 <= k < i ==> (#[trigger] list@[k])@ != key@,
        decreases list@.len() - i,
    {
        if text::same(list[i].as_str(), key) {
            assert(text::views(list@)[i as int] == key@);
            return true;
        }
        i += 1;
    }
    assert forall|k: int| 0 <= k < list@.len() implies text::views(list@)[k] != key@ by {
        assert(list@[k]@ != key@);
    }
    false
}

fn flat_keys(records: &Vec<InspectRecord>) -> (out: Vec<String>)
    ensures
        text::views(out@) == all_keys(records@),
{
    let mut out: Vec<String> = Vec::new();
    let mut i: usize = 0;
    assert(records@.take(0) =~= Seq::empty());
    assert(text::views(out@) =~= Seq::empty());
    while i < records.len()
        invariant
            i <= records@.len(),
            text::views(out@) == all_keys(records@.take(i as int)),
        decreases records@.len() - i,
    {
        let ghost seen = all_keys(records@.take(i as int));
        let ghost more = keys(records@[i as int].fields@);
        assert(records@.take(i + 1).drop_last() =~= records@.take(i as int));
        let fields = &records[i].fields;
        let mut j: usize = 0;
        assert(seen + more.take(0) =~= seen);
        while j < fields.len()
            invariant
                j <= fields@.len(),
                more == keys(fields@),
                text::views(out@) == seen + more.take(j as int),
            decreases fields@.len() - j,
        {
            let ghost before = text::views(out@);
            out.push(fields[j].key.clone());
            assert(text::views(out@) =~= before.push(more[j as int]));
            assert(seen + more.take(j + 1) =~= (seen + more.take(j as int)).push(more[j as int]));
            j += 1;
        }
        assert(more.take(j as int) =~= more);
        i += 1;
    }
    assert(records@.take(i as int) =~= records@);
    out
}

/// The columns of a table of control entries: the usual ones that are used, and then the
/// other keys in order of appearance.
pub fn control_tab_columns(records: &Vec<InspectRecord>) -> (out: Vec<String>)
    ensures
        text::views(out@) == with_new(
            only_used(preferred_columns(), all_keys(records@)),
            all_keys(records@),
        ),
{
    let used = flat_keys(records);
    let ghost all = text::views(used@);
    let preferred: Vec<String> = vec![
        text::copy_of("type"),
        text::copy_of("path"),
        text::copy_of("diff"),
        text::copy_of("meta_fid"),
        text::copy_of("meta_offset"),
        text::copy_of("files_count"),
    ];
    let ghost usual = text::views(preferred@);
    assert(usual =~= preferred_columns());
    let mut out: Vec<String> = Vec::new();
    let mut i: usize = 0;
    assert(usual.take(0) =~= Seq::empty());
    assert(text::views(out@) =~= Seq::empty());
    while i < preferred.len()
        invariant
            i <= preferred@.len(),
            usual == text::views(preferred@),
            all == text::views(used@),
            text::views(out@) == only_used(usual.take(i as int), all),
        decreases preferred@.len() - i,
    {
        assert(usual.take(i + 1).drop_last() =~= usual.take(i as int));
        let ghost before = text::views(out@);
        if holds(&used, preferred[i].as_str()) {
            out.push(preferred[i].clone());
            assert(text::views(out@) =~= before.push(usual[i as int]));
        }
        i += 1;
    }
    assert(usual.take(i as int) =~= usual);
    let ghost first = text::views(out@);
    let mut k: usize = 0;
    assert(all.take(0) =~= Seq::empty());
    while k < used.len()
        invariant
            k <= used@.len(),
            all == text::views(used@),
            text::views(out@) == with_new(first, all.take(k as int)),
        decreases used@.len() - k,
    {
        assert(all.take(k + 1).drop_last() =~= all.take(k as int));
        let ghost before = text::views(out@);
        if !holds(&out, used[k].as_str()) {
            out.push(used[k].clone());
            assert(text::views(out@) =~= before.push(all[k as int]));
        }
        k += 1;
    }
    assert(all.take(k as int) =~= all);
    out
}

// ---------------------------------------------------------------------------
// Tables
// ---------------------------------------------------------------------------

/// A value as it appears in a table: line feeds, carriage returns and tabs are written
/// out.
pub open spec fn sanitized(value: Seq<char>) -> Seq<char> {
    text::replace(
        text::replace(text::replace(value, '\n', "\\n"@), '\r', "\\r"@),
        '\t',
        "\\t"@,
    )
}

pub fn sanitize_tab_value(value: &str) -> (s: String)
    ensures
        s@ == sanitized(value@),
{
    let a = text::replace_char(value, '\n', "\\n");
    let b = text::replace_char(a.as_str(), '\r', "\\r");
    text::replace_char(b.as_str(), '\t', "\\t")
}

/// A value in a table takes up a single line.
pub proof fn law_table_values_stay_on_one_line(value: Seq<char>)
    ensures
        !sanitized(value).contains('\n'),
        !sanitized(value).contains('\r'),
        !sanitized(value).contains('\t'),
{
    reveal_strlit("\\n");
    reveal_strlit("\\r");
    reveal_strlit("\\t");
    let a = text::replace(value, '\n', "\\n"@);
    let b = text::replace(a, '\r', "\\r"@);
    text::lemma_replace_keeps_out(value, '\n', "\\n"@, '\n');
    text::lemma_replace_keeps_out(a, '\r', "\\r"@, '\n');
    text::lemma_replace_keeps_out(b, '\t', "\\t"@, '\n');
    text::lemma_replace_keeps_out(a, '\r', "\\r"@, '\r');
    text::lemma_replace_keeps_out(b, '\t', "\\t"@, '\r');
    text::lemma_replace_keeps_out(b, '\t', "\\t"@, '\t');
}

pub open spec fn larger(a: nat, b: nat) -> nat {
    if a >= b {
        a
    } else {
        b
    }
}

/// The width of a column: that of its title or of its widest value.
pub open spec fn width(column: Seq<char>, records: Seq<InspectRecord>) -> nat
    decreases records.len(),
{
    if records.len() == 0 {
        column.len()
    } else {
        larger(
            width(column, records.drop_last()),
            sanitized(records.last().cell(column)).len(),
        )
    }
}

pub open spec fn all_wf(records: Seq<InspectRecord>) -> bool {
    forall|i: int| 0 <= i < records.len() ==> (#[trigger] records[i]).wf()
}

fn column_width(column: &str, records: &Vec<InspectRecord>) -> (n: usize)
    requires
        all_wf(records@),
    ensures
        n == width(column@, records@),
{
    let title = text::chars_of(column);
    let mut n: usize = title.len();
    let mut i: usize = 0;
    assert(records@.take(0) =~= Seq::empty());
    while i < records.len()
        invariant
            i <= records@.len(),
            all_wf(records@),
            n == width(column@, records@.take(i as int)),
        decreases records@.len() - i,
    {
        assert(records@.take(i + 1).drop_last() =~= records@.take(i as int));
        let value = sanitize_tab_value(records[i].value(column).as_str());
        let chars = text::chars_of(value.as_str());
        if chars.len() > n {
            n = chars.len();
        }
        i += 1;
    }
    assert(records@.take(i as int) =~= records@);
    n
}

/// The widths of the columns.
pub fn column_widths(columns: &Vec<String>, records: &Vec<InspectRecord>) -> (out: Vec<usize>)
    requires
        all_wf(records@),
    ensures
        out@.len() == columns@.len(),
        forall|i: int|
            0 <= i < out@.len() ==> #[trigger] out@[i] == width(columns@[i]@, records@),
{
    let mut out: Vec<usize> = Vec::new();
    let mut i: usize = 0;
    while i < columns.len()
        invariant
            i <= columns@.len(),
            all_wf(records@),
            out@.len() == i,
            forall|k: int|
                0 <= k < i ==> #[trigger] out@[k] == width(columns@[k]@, records@),
        decreases columns@.len() - i,
    {
        out.push(column_width(columns[i].as_str(), records));
        i += 1;
    }
    out
}

/// A line of cells, each filled up to the width of its column, with two blanks between.
pub open spec fn line_of(cells: Seq<Seq<char>>, widths: Seq<usize>, fill: char) -> Seq<char> {
    text::join(
        Seq::new(cells.len(), |i: int| text::pad_right(cells[i], widths[i] as nat, fill)),
        "  "@,
    )
}

fn make_line(cells: &Vec<String>, widths: &Vec<usize>, fill: char) -> (s: String)
    requires
        cells@.len() == widths@.len(),
    ensures
        s@ == line_of(text::views(cells@), widths@, fill),
{
    let ghost all = text::views(cells@);
    let mut padded: Vec<String> = Vec::new();
    let mut i: usize = 0;
    while i < cells.len()
        invariant
            i <= cells@.len(),
            all == text::views(cells@),
            cells@.len() == widths@.len(),
            padded@.len() == i,
            forall|k: int|
                0 <= k < i ==> (#[trigger] padded@[k])@ == text::pad_right(
                    all[k],
                    widths@[k] as nat,
                    fill,
                ),
        decreases cells@.len() - i,
    {
        let chars = text::chars_of(cells[i].as_str());
        assert(all[i as int] == chars@);
        let filled = text::pad_chars_right(chars, widths[i], fill);
        padded.push(text::string_of(&filled));
        i += 1;
    }
    assert(text::views(padded@) =~= Seq::new(
        all.len(),
        |i: int| text::pad_right(all[i], widths@[i] as nat, fill),
    ));
    text::join_strings(&padded, "  ")
}

/// What a record shows in the columns of a table.
pub open spec fn cells(r: InspectRecord, columns: Seq<Seq<char>>) -> Seq<Seq<char>> {
    columns.map_values(|c: Seq<char>| sanitized(r.cell(c)))
}

pub open spec fn blanks(n: nat) -> Seq<Seq<char>> {
    Seq::new(n, |i: int| Seq::empty())
}

/// The lines of a table: the titles, a rule, and a line for each record.
pub open spec fn table_lines(
    columns: Seq<Seq<char>>,
    widths: Seq<usize>,
    records: Seq<InspectRecord>,
) -> Seq<Seq<char>> {
    seq![
        line_of(columns, widths, ' '),
        line_of(blanks(columns.len()), widths, '-'),
    ] + records.map_values(|r: InspectRecord| line_of(cells(r, columns), widths, ' '))
}

pub fn write_tab_table(columns: &Vec<String>, widths: &Vec<usize>, records: &Vec<InspectRecord>)
    -> (out: Vec<String>)
    requires
        columns@.len() == widths@.len(),
        all_wf(records@),
    ensures
        text::views(out@) == table_lines(text::views(columns@), widths@, records@),
{
    let ghost titles = text::views(columns@);
    let mut empty: Vec<String> = Vec::new();
    let mut i: usize = 0;
    while i < columns.len()
        invariant
            i <= columns@.len(),
            empty@.len() == i,
            forall|k: int| 0 <= k < i ==> (#[trigger] empty@[k])@.len() == 0,
        decreases columns@.len() - i,
    {
        empty.push(String::new());
        i += 1;
    }
    proof {
        assert forall|k: int| 0 <= k < empty@.len() implies text::views(empty@)[k] == Seq::<
            char,
        >::empty() by {
            assert(empty@[k]@.len() == 0);
            assert(empty@[k]@ =~= Seq::empty());
        }
        assert(text::views(empty@) =~= blanks(titles.len()));
    }
    let mut out: Vec<String> = vec![
        make_line(columns, widths, ' '),
        make_line(&empty, widths, '-'),
    ];
    let ghost head = text::views(out@);
    let ghost rows = records@.map_values(
        |r: InspectRecord| line_of(cells(r, titles), widths@, ' '),
    );
    let mut k: usize = 0;
    assert(head =~= head + rows.take(0));
    while k < records.len()
        invariant
            k <= records@.len(),
            columns@.len() == widths@.len(),
            all_wf(records@),
            titles == text::views(columns@),
            rows == records@.map_values(
                |r: InspectRecord| line_of(cells(r, titles), widths@, ' '),
            ),
            text::views(out@) == head + rows.take(k as int),
        decreases records@.len() - k,
    {
        let mut row: Vec<String> = Vec::new();
        let mut c: usize = 0;
        while c < columns.len()
            invariant
                c <= columns@.len(),
                k < records@.len(),
                all_wf(records@),
                row@.len() == c,
                forall|j: int|
                    0 <= j < c ==> (#[trigger] row@[j])@ == sanitized(
                        records@[k as int].cell(columns@[j]@),
                    ),
            decreases columns@.len() - c,
        {
            let value = records[k].value(columns[c].as_str());
            row.push(sanitize_tab_value(value.as_str()));
            c += 1;
        }
        assert(text::views(row@) =~= cells(records@[k as int], titles));
        let ghost before = text::views(out@);
        let line = make_line(&row, widths, ' ');
        assert(rows[k as int] == line@);
        out.push(line);
        assert(text::views(out@) =~= before.push(rows[k as int]));
        assert(head + rows.take(k + 1) =~= (head + rows.take(k as int)).push(rows[k as int]));
        k += 1;
    }
    assert(rows.take(k as int) =~= rows);
    assert(text::views(out@) =~= table_lines(titles, widths@, records@));
    out
}

// ---------------------------------------------------------------------------
// CSV
// ---------------------------------------------------------------------------

/// The lines of the CSV form: the titles, and then the records.
pub open spec fn csv_rows(columns: Seq<Seq<char>>, records: Seq<InspectRecord>) -> Seq<u8>
    decreases records.len(),
{
    if records.len() == 0 {
        crate::failure::csv_line(columns)
    } else {
        csv_rows(columns, records.drop_last()) + crate::failure::csv_line(
            columns.map_values(|c: Seq<char>| records.last().cell(c)),
        )
    }
}

/// The CSV form of records, in the given columns.
pub fn write_csv(columns: &Vec<String>, records: &Vec<InspectRecord>) -> (r: Result<
    Vec<u8>,
    String,
>)
    requires
        all_wf(records@),
    ensures
        r is Ok,
        r->Ok_0@ == csv_rows(text::views(columns@), records@),
{
    let ghost titles = text::views(columns@);
    let mut out = match csv_record(columns) {
        Ok(line) => line,
        Err(e) => {
            return Err(e);
        },
    };
    let mut i: usize = 0;
    assert(records@.take(0) =~= Seq::empty());
    while i < records.len()
        invariant
            i <= records@.len(),
            all_wf(records@),
            titles == text::views(columns@),
            out@ == csv_rows(titles, records@.take(i as int)),
        decreases records@.len() - i,
    {
        assert(records@.take(i + 1).drop_last() =~= records@.take(i as int));
        let mut row: Vec<String> = Vec::new();
        let mut c: usize = 0;
        while c < columns.len()
            invariant
                c <= columns@.len(),
                i < records@.len(),
                all_wf(records@),
                row@.len() == c,
                forall|j: int|
                    0 <= j < c ==> (#[trigger] row@[j])@ == records@[i as int].cell(columns@[j]@),
            decreases columns@.len() - c,
        {
            row.push(records[i].value(columns[c].as_str()));
            c += 1;
        }
        assert(text::views(row@) =~= titles.map_values(
            |c: Seq<char>| records@[i as int].cell(c),
        ));
        match csv_record(&row) {
            Ok(line) => {
                let mut line = line;
                out.append(&mut line);
            },
            Err(e) => {
                return Err(e);
            },
        }
        i += 1;
    }
    assert(records@.take(i as int) =~= records@);
    Ok(out)
}

// ---------------------------------------------------------------------------
// Groups
// ---------------------------------------------------------------------------

/// Records of one kind and type.
#[derive(Debug)]
pub struct RecordGroup {
    pub kind: String,
    pub record_type: String,
    pub records: Vec<InspectRecord>,
}

/// Whether one pair of kind and type comes before another.
pub open spec fn pair_before(a: (Seq<char>, Seq<char>), b: (Seq<char>, Seq<char>)) -> bool {
    order::before(a.0, b.0) || (a.0 == b.0 && order::before(a.1, b.1))
}

pub open spec fn label(r: InspectRecord) -> (Seq<char>, Seq<char>) {
    (r.kind@, r.record_type@)
}

pub open spec fn group_label(g: RecordGroup) -> (Seq<char>, Seq<char>) {
    (g.kind@, g.record_type@)
}

/// The records with the given kind and type, in order.
pub open spec fn members(records: Seq<InspectRecord>, of: (Seq<char>, Seq<char>)) -> Seq<
    InspectRecord,
>
    decreases records.len(),
{
    if records.len() == 0 {
        Seq::empty()
    } else if label(records.last()) == of {
        members(records.drop_last(), of).push(records.last())
    } else {
        members(records.drop_last(), of)
    }
}

/// Whether two lists of records show the same.
pub open spec fn same_records(a: Seq<InspectRecord>, b: Seq<InspectRecord>) -> bool {
    a.len() == b.len() && forall|i: int| 0 <= i < a.len() ==> (#[trigger] a[i]).same_as(b[i])
}

/// Whether groups are in ascending order, hold the records of their kind and type, and
/// leave none out.
pub open spec fn groups_records(groups: Seq<RecordGroup>, records: Seq<InspectRecord>) -> bool {
    &&& forall|i: int, j: int|
        0 <= i < j < groups.len() ==> pair_before(
            group_label(#[trigger] groups[i]),
            group_label(#[trigger] groups[j]),
        )
    &&& forall|i: int|
        0 <= i < groups.len() ==> same_records(
            (#[trigger] groups[i]).records@,
            members(records, group_label(groups[i])),
        ) && groups[i].records@.len() > 0
    &&& forall|i: int|
        0 <= i < groups.len() ==> (all_wf(records) ==> all_wf(
            (#[trigger] groups[i]).records@,
        ))
    &&& forall|i: int|
        0 <= i < records.len() ==> has_group(groups, label(#[trigger] records[i]))
}

/// Whether there is a group for a kind and type.
pub open spec fn has_group(groups: Seq<RecordGroup>, of: (Seq<char>, Seq<char>)) -> bool {
    exists|g: int| 0 <= g < groups.len() && group_label(#[trigger] groups[g]) == of
}

fn pair_comes_before(kind_a: &str, type_a: &str, kind_b: &str, type_b: &str) -> (r: bool)
    ensures
        r == pair_before((kind_a@, type_a@), (kind_b@, type_b@)),
{
    order::comes_before(kind_a, kind_b) || (text::same(kind_a, kind_b) && order::comes_before(
        type_a,
        type_b,
    ))
}

proof fn lemma_pairs(a: (Seq<char>, Seq<char>), b: (Seq<char>, Seq<char>))
    ensures
        !(pair_before(a, b) && pair_before(b, a)),
        a == b <==> !pair_before(a, b) && !pair_before(b, a),
{
    order::law_order_is_total(a.0, b.0);
    order::law_order_is_total(a.1, b.1);
}

proof fn lemma_pairs_transitive(
    a: (Seq<char>, Seq<char>),
    b: (Seq<char>, Seq<char>),
    c: (Seq<char>, Seq<char>),
)
    requires
        pair_before(a, b),
        pair_before(b, c),
    ensures
        pair_before(a, c),
{
    if order::before(a.0, b.0) && order::before(b.0, c.0) {
        order::law_order_is_transitive(a.0, b.0, c.0);
    }
    if order::before(a.1, b.1) && order::before(b.1, c.1) {
        order::law_order_is_transitive(a.1, b.1, c.1);
    }
}

proof fn lemma_no_members(records: Seq<InspectRecord>, of: (Seq<char>, Seq<char>))
    requires
        forall|i: int| 0 <= i < records.len() ==> label(#[trigger] records[i]) != of,
    ensures
        members(records, of).len() == 0,
    decreases records.len(),
{
    if records.len() > 0 {
        assert(label(records[records.len() - 1]) != of);
        assert forall|i: int| 0 <= i < records.drop_last().len() implies label(
            #[trigger] records.drop_last()[i],
        ) != of by {
            assert(label(records[i]) != of);
        }
        lemma_no_members(records.drop_last(), of);
    }
}

/// Puts a record into its group, which is made where there is none yet.
fn add_to_groups(groups: &mut Vec<RecordGroup>, record: &InspectRecord, Ghost(seen): Ghost<
    Seq<InspectRecord>,
>)
    requires
        groups_records(old(groups)@, seen),
    ensures
        groups_records(final(groups)@, seen.push(*record)),
{
    let ghost before = groups@;
    let ghost of = label(*record);
    let ghost now_seen = seen.push(*record);
    let mut at: usize = 0;
    while at < groups.len() && pair_comes_before(
        groups[at].kind.as_str(),
        groups[at].record_type.as_str(),
        record.kind.as_str(),
        record.record_type.as_str(),
    )
        invariant
            at <= groups@.len(),
            groups@ == before,
            of == label(*record),
            forall|i: int| 0 <= i < at ==> pair_before(group_label(#[trigger] before[i]), of),
        decreases groups@.len() - at,
    {
        at += 1;
    }
    proof {
        assert(now_seen.drop_last() =~= seen);
        assert forall|l: (Seq<char>, Seq<char>)| #[trigger] members(now_seen, l) == (if l == of {
            members(seen, l).push(*record)
        } else {
            members(seen, l)
        }) by {}
    }
    let present = at < groups.len() && text::same(
        groups[at].kind.as_str(),
        record.kind.as_str(),
    ) && text::same(groups[at].record_type.as_str(), record.record_type.as_str());
    if present {
        assert(group_label(before[at as int]) == of);
        let copy = record.clone();
        let mut records: Vec<InspectRecord> = Vec::new();
        std::mem::swap(&mut records, &mut groups[at].records);
        records.push(copy);
        groups[at].records = records;
        proof {
            let now = groups@;
            assert(forall|i: int| 0 <= i < now.len() && i != at ==> #[trigger] now[i] == before[i]);
            assert(group_label(now[at as int]) == of);
            assert forall|i: int, j: int| 0 <= i < j < now.len() implies pair_before(
                group_label(#[trigger] now[i]),
                group_label(#[trigger] now[j]),
            ) by {
                assert(pair_before(group_label(before[i]), group_label(before[j])));
            }
            assert forall|i: int| 0 <= i < now.len() implies same_records(
                (#[trigger] now[i]).records@,
                members(now_seen, group_label(now[i])),
            ) && now[i].records@.len() > 0 && (all_wf(now_seen) ==> all_wf(now[i].records@)) by {
                assert(same_records(
                    before[i].records@,
                    members(seen, group_label(before[i])),
                ));
                if all_wf(now_seen) {
                    assert(all_wf(seen)) by {
                        assert forall|x: int| 0 <= x < seen.len() implies (#[trigger] seen[x]).wf() by {
                            assert(now_seen[x].wf());
                        }
                    }
                    assert(now_seen[seen.len() as int].wf());
                    assert(all_wf(before[i].records@));
                }
                if i != at {
                    lemma_pairs(group_label(before[i]), of);
                    if i < at {
                        assert(pair_before(group_label(before[i]), group_label(before[at as int])));
                    } else {
                        assert(pair_before(group_label(before[at as int]), group_label(before[i])));
                    }
                }
            }
            assert forall|i: int| 0 <= i < now_seen.len() implies has_group(
                now,
                label(#[trigger] now_seen[i]),
            ) by {
                if i < seen.len() {
                    assert(now_seen[i] == seen[i]);
                    assert(has_group(before, label(seen[i])));
                    let g = choose|g: int|
                        0 <= g < before.len() && group_label(#[trigger] before[g]) == label(
                            seen[i],
                        );
                    assert(group_label(now[g]) == label(seen[i]));
                } else {
                    assert(group_label(now[at as int]) == of);
                }
            }
        }
    } else {
        proof {
            assert forall|i: int| at <= i < before.len() implies pair_before(
                of,
                group_label(#[trigger] before[i]),
            ) by {
                lemma_pairs(of, group_label(before[at as int]));
                if at < i {
                    assert(pair_before(group_label(before[at as int]), group_label(before[i])));
                    lemma_pairs_transitive(
                        of,
                        group_label(before[at as int]),
                        group_label(before[i]),
                    );
                }
            }
            assert forall|i: int| 0 <= i < seen.len() implies label(#[trigger] seen[i]) != of by {
                assert(has_group(before, label(seen[i])));
                let g = choose|g: int|
                    0 <= g < before.len() && group_label(#[trigger] before[g]) == label(seen[i]);
                lemma_pairs(group_label(before[g]), of);
                if g < at {
                    assert(pair_before(group_label(before[g]), of));
                } else {
                    assert(pair_before(of, group_label(before[g])));
                }
            }
            lemma_no_members(seen, of);
        }
        let copy = record.clone();
        let group = RecordGroup {
            kind: record.kind.clone(),
            record_type: record.record_type.clone(),
            records: vec![copy],
        };
        groups.insert(at, group);
        proof {
            let now = groups@;
            assert(now =~= before.insert(at as int, now[at as int]));
            assert(group_label(now[at as int]) == of);
            assert forall|i: int, j: int| 0 <= i < j < now.len() implies pair_before(
                group_label(#[trigger] now[i]),
                group_label(#[trigger] now[j]),
            ) by {
                let a = if i < at {
                    i
                } else {
                    i - 1
                };
                let b = if j < at {
                    j
                } else {
                    j - 1
                };
                if i != at {
                    assert(now[i] == before[a]);
                }
                if j != at {
                    assert(now[j] == before[b]);
                }
                if i != at && j != at {
                    assert(pair_before(group_label(before[a]), group_label(before[b])));
                }
            }
            assert forall|i: int| 0 <= i < now.len() implies same_records(
                (#[trigger] now[i]).records@,
                members(now_seen, group_label(now[i])),
            ) && now[i].records@.len() > 0 && (all_wf(now_seen) ==> all_wf(now[i].records@)) by {
                if all_wf(now_seen) {
                    assert(all_wf(seen)) by {
                        assert forall|x: int| 0 <= x < seen.len() implies (#[trigger] seen[x]).wf() by {
                            assert(now_seen[x].wf());
                        }
                    }
                    assert(now_seen[seen.len() as int].wf());
                }
                if i != at {
                    let a = if i < at {
                        i
                    } else {
                        i - 1
                    };
                    assert(now[i] == before[a]);
                    lemma_pairs(group_label(before[a]), of);
                    assert(same_records(
                        before[a].records@,
                        members(seen, group_label(before[a])),
                    ));
                } else {
                    assert(members(now_seen, of).len() == 1);
                }
            }
            assert forall|i: int| 0 <= i < now_seen.len() implies has_group(
                now,
                label(#[trigger] now_seen[i]),
            ) by {
                if i < seen.len() {
                    assert(now_seen[i] == seen[i]);
                    assert(has_group(before, label(seen[i])));
                    let g = choose|g: int|
                        0 <= g < before.len() && group_label(#[trigger] before[g]) == label(
                            seen[i],
                        );
                    let h = if g < at {
                        g
                    } else {
                        g + 1
                    };
                    assert(now[h] == before[g]);
                    assert(group_label(now[h]) == label(seen[i]));
                } else {
                    assert(group_label(now[at as int]) == of);
                }
            }
        }
    }
}

/// The records by kind and type, in ascending order of both.
pub fn group_by_record_type(records: &Vec<InspectRecord>) -> (groups: Vec<RecordGroup>)
    ensures
        groups_records(groups@, records@),
{
    let mut groups: Vec<RecordGroup> = Vec::new();
    let mut i: usize = 0;
    while i < records.len()
        invariant
            i <= records@.len(),
            groups_records(groups@, records@.take(i as int)),
        decreases records@.len() - i,
    {
        add_to_groups(&mut groups, &records[i], Ghost(records@.take(i as int)));
        assert(records@.take(i as int).push(records@[i as int]) =~= records@.take(i + 1));
        i += 1;
    }
    assert(records@.take(i as int) =~= records@);
    groups
}

// ---------------------------------------------------------------------------
// The whole output
// ---------------------------------------------------------------------------

/// The lines in front of the tables.
pub open spec fn head_lines(path: Seq<char>, kind: InspectInputKind, count: nat) -> Seq<Seq<char>> {
    seq![
        "Input        : "@ + path,
        "Detected type: "@ + crate::inspect::kind_word(kind),
        "Records      : "@ + text::decimal(count),
        ""@,
    ]
}

/// Whether lines are the table of records in some columns, as wide as they need to be.
pub open spec fn shows_table(
    lines: Seq<Seq<char>>,
    columns: Seq<Seq<char>>,
    records: Seq<InspectRecord>,
) -> bool {
    exists|w: Seq<usize>|
        w.len() == columns.len() && (forall|i: int|
            0 <= i < w.len() ==> #[trigger] w[i] == width(columns[i], records)) && lines
            == #[trigger] table_lines(columns, w, records)
}

fn make_table(columns: &Vec<String>, records: &Vec<InspectRecord>) -> (out: Vec<String>)
    requires
        all_wf(records@),
    ensures
        shows_table(text::views(out@), text::views(columns@), records@),
{
    let w = column_widths(columns, records);
    let out = write_tab_table(columns, &w, records);
    proof {
        let titles = text::views(columns@);
        assert forall|i: int| 0 <= i < w@.len() implies #[trigger] w@[i] == width(
            titles[i],
            records@,
        ) by {}
        assert(text::views(out@) == table_lines(titles, w@, records@));
    }
    out
}

/// Whether lines are the table of a control file.
pub open spec fn shows_control(lines: Seq<Seq<char>>, records: Seq<InspectRecord>) -> bool {
    shows_table(
        lines,
        with_new(only_used(preferred_columns(), all_keys(records)), all_keys(records)),
        records,
    )
}

/// The table of a control file, behind the lines in front of it.
fn write_control_tab(path: &str, records: &Vec<InspectRecord>) -> (out: Vec<String>)
    requires
        all_wf(records@),
    ensures
        text::views(out@).len() >= 4,
        text::views(out@).take(4) == head_lines(path@, InspectInputKind::Control, records@.len()),
        shows_control(text::views(out@).skip(4), records@),
{
    let mut out = head(path, InspectInputKind::Control, records.len());
    let columns = control_tab_columns(records);
    let mut table = make_table(&columns, records);
    let ghost first = text::views(out@);
    let ghost second = text::views(table@);
    out.append(&mut table);
    assert(text::views(out@) =~= first + second);
    assert(text::views(out@).take(4) =~= first);
    assert(text::views(out@).skip(4) =~= second);
    out
}

fn head(path: &str, kind: InspectInputKind, count: usize) -> (out: Vec<String>)
    ensures
        text::views(out@) == head_lines(path@, kind, count as nat),
{
    let out: Vec<String> = vec![
        text::concat("Input        : ", path),
        text::concat("Detected type: ", inspect_kind_name(kind)),
        text::concat("Records      : ", text::decimal_string(count as u64).as_str()),
        text::copy_of(""),
    ];
    assert(text::views(out@) =~= head_lines(path@, kind, count as nat));
    out
}

/// Whether lines are the title and the table of a group, in all its keys in ascending
/// order.
pub open spec fn is_group_table(lines: Seq<Seq<char>>, g: RecordGroup) -> bool {
    &&& lines.len() > 0
    &&& lines[0] == "["@ + g.kind@ + ":"@ + g.record_type@ + "]"@
    &&& exists|columns: Seq<Seq<char>>| #[trigger]
        sorted_columns(columns, all_keys(g.records@)) && shows_table(
            lines.skip(1),
            columns,
            g.records@,
        )
}

fn group_table(group: &RecordGroup) -> (out: Vec<String>)
    requires
        all_wf(group.records@),
    ensures
        is_group_table(text::views(out@), *group),
{
    let mut title = text::concat("[", group.kind.as_str());
    title.append(":");
    title.append(group.record_type.as_str());
    title.append("]");
    let mut out: Vec<String> = vec![title];
    let columns = group_columns(&group.records);
    let mut table = make_table(&columns, &group.records);
    let ghost second = text::views(table@);
    out.append(&mut table);
    assert(text::views(out@).skip(1) =~= second);
    assert(sorted_columns(text::views(columns@), all_keys(group.records@)));
    out
}

/// Tables with an empty line between each two.
pub open spec fn stacked(tables: Seq<Seq<Seq<char>>>) -> Seq<Seq<char>>
    decreases tables.len(),
{
    if tables.len() == 0 {
        Seq::empty()
    } else if tables.len() == 1 {
        tables[0]
    } else {
        stacked(tables.drop_last()) + seq![""@] + tables.last()
    }
}

/// Whether lines are the tables of groups, one for each.
pub open spec fn shows_groups(
    lines: Seq<Seq<char>>,
    groups: Seq<RecordGroup>,
    tables: Seq<Seq<Seq<char>>>,
) -> bool {
    &&& tables.len() == groups.len()
    &&& forall|i: int|
        0 <= i < tables.len() ==> is_group_table(#[trigger] tables[i], groups[i])
    &&& lines == stacked(tables)
}

/// Whether lines are the tables of the records by kind and type.
pub open spec fn shows_all_groups(lines: Seq<Seq<char>>, records: Seq<InspectRecord>) -> bool {
    exists|groups: Seq<RecordGroup>, tables: Seq<Seq<Seq<char>>>|
        groups_records(groups, records) && #[trigger] shows_groups(lines, groups, tables)
}

/// The records of a file as tables, behind the lines in front of them: one table for a
/// control file, and one for each kind and type of records otherwise.
pub fn write_tab(path: &str, kind: InspectInputKind, records: &Vec<InspectRecord>) -> (out: Vec<
    String,
>)
    requires
        all_wf(records@),
    ensures
        text::views(out@).len() >= 4,
        text::views(out@).take(4) == head_lines(path@, kind, records@.len()),
        kind == InspectInputKind::Control ==> shows_control(text::views(out@).skip(4), records@),
        kind != InspectInputKind::Control ==> shows_all_groups(
            text::views(out@).skip(4),
            records@,
        ),
{
    if kind == InspectInputKind::Control {
        write_control_tab(path, records)
    } else {
        write_group_tabs(path, kind, records)
    }
}

fn write_group_tabs(path: &str, kind: InspectInputKind, records: &Vec<InspectRecord>) -> (out: Vec<
    String,
>)
    requires
        all_wf(records@),
    ensures
        text::views(out@).len() >= 4,
        text::views(out@).take(4) == head_lines(path@, kind, records@.len()),
        shows_all_groups(text::views(out@).skip(4), records@),
{
    let mut out = head(path, kind, records.len());
    let groups = group_by_record_type(records);
    let ghost first = text::views(out@);
    let ghost mut tables: Seq<Seq<Seq<char>>> = Seq::empty();
    let mut i: usize = 0;
    assert(text::views(out@) =~= first + stacked(tables));
    while i < groups.len()
        invariant
            i <= groups@.len(),
            groups_records(groups@, records@),
            all_wf(records@),
            tables.len() == i,
            forall|k: int| 0 <= k < i ==> is_group_table(#[trigger] tables[k], groups@[k]),
            text::views(out@) == first + stacked(tables),
        decreases groups@.len() - i,
    {
        let ghost before = text::views(out@);
        let ghost earlier = tables;
        assert(all_wf(groups@[i as int].records@));
        let mut table = group_table(&groups[i]);
        let ghost added = text::views(table@);
        proof {
            tables = tables.push(added);
            assert(tables.drop_last() =~= earlier);
        }
        if i > 0 {
            out.push(text::copy_of(""));
            assert(text::views(out@) =~= before.push(""@));
        }
        let ghost mid = text::views(out@);
        out.append(&mut table);
        proof {
            assert(text::views(out@) =~= mid + added);
            if i == 0 {
                assert(stacked(earlier) =~= Seq::empty());
                assert(text::views(out@) =~= first + stacked(tables));
            } else {
                assert(text::views(out@) =~= first + stacked(tables));
            }
        }
        i += 1;
    }
    proof {
        assert(first.len() == 4);
        assert(text::views(out@).take(4) =~= first);
        assert(text::views(out@).skip(4) =~= stacked(tables));
        assert(shows_groups(text::views(out@).skip(4), groups@, tables));
    }
    out
}

/// A column is as wide as its title and all its values need, and no wider.
pub proof fn law_columns_are_as_wide_as_they_need_to_be(
    column: Seq<char>,
    records: Seq<InspectRecord>,
)
    ensures
        width(column, records) >= column.len(),
        forall|i: int|
            0 <= i < records.len() ==> width(column, records) >= sanitized(
                (#[trigger] records[i]).cell(column),
            ).len(),
        width(column, records) == column.len() || exists|i: int|
            0 <= i < records.len() && width(column, records) == sanitized(
                (#[trigger] records[i]).cell(column),
            ).len(),
    decreases records.len(),
{
    if records.len() > 0 {
        let front = records.drop_last();
        law_columns_are_as_wide_as_they_need_to_be(column, front);
        assert forall|i: int| 0 <= i < records.len() implies width(column, records) >= sanitized(
            (#[trigger] records[i]).cell(column),
        ).len() by {
            if i < front.len() {
                assert(front[i] == records[i]);
            }
        }
        if width(column, records) == width(column, front) {
            if width(column, front) != column.len() {
                let i = choose|i: int|
                    0 <= i < front.len() && width(column, front) == sanitized(
                        (#[trigger] front[i]).cell(column),
                    ).len();
                assert(records[i] == front[i]);
            }
        } else {
            assert(records[records.len() - 1] == records.last());
        }
    }
}

/// A group holds the records of its own kind and type, in order, and no other.
pub proof fn law_groups_hold_their_own_records(
    a: Seq<InspectRecord>,
    b: Seq<InspectRecord>,
    r: InspectRecord,
    of: (Seq<char>, Seq<char>),
)
    ensures
        members(a + b, of) == members(a, of) + members(b, of),
        members(seq![r], (r.kind@, r.record_type@)) == seq![r],
        of != (r.kind@, r.record_type@) ==> members(seq![r], of).len() == 0,
    decreases b.len(),
{
    reveal_with_fuel(members, 2);
    assert(seq![r].drop_last() =~= Seq::empty());
    assert(members(seq![r], (r.kind@, r.record_type@)) =~= seq![r]);
    if b.len() == 0 {
        assert(a + b =~= a);
        assert(members(a + b, of) =~= members(a, of) + members(b, of));
    } else {
        law_groups_hold_their_own_records(a, b.drop_last(), r, of);
        assert((a + b).drop_last() =~= a + b.drop_last());
        assert((a + b).last() == b.last());
        assert(members(a + b, of) =~= members(a, of) + members(b, of));
    }
}

/// The columns of a table of control entries are the keys that are used, each once: the
/// preferred ones in front, the others as they first appear.
pub proof fn law_control_columns_are_the_keys_in_use(used: Seq<Seq<char>>, k: Seq<char>)
    ensures
        ({
            let columns = with_new(only_used(preferred_columns(), used), used);
            &&& columns.contains(k) <==> used.contains(k)
            &&& only_used(preferred_columns(), used).is_prefix_of(columns)
        }),
{
    let front = only_used(preferred_columns(), used);
    lemma_only_used(preferred_columns(), used, k);
    lemma_with_new(front, used, k);
}

proof fn lemma_only_used(columns: Seq<Seq<char>>, used: Seq<Seq<char>>, k: Seq<char>)
    ensures
        only_used(columns, used).contains(k) <==> columns.contains(k) && used.contains(k),
    decreases columns.len(),
{
    if columns.len() > 0 {
        let front = columns.drop_last();
        lemma_only_used(front, used, k);
        let earlier = only_used(front, used);
        let now = only_used(columns, used);
        if columns.contains(k) && k != columns.last() {
            let i = choose|i: int| 0 <= i < columns.len() && columns[i] == k;
            assert(front[i] == k);
        }
        if front.contains(k) {
            let i = choose|i: int| 0 <= i < front.len() && front[i] == k;
            assert(columns[i] == k);
        }
        if earlier.contains(k) {
            let i = choose|i: int| 0 <= i < earlier.len() && earlier[i] == k;
            assert(now[i] == k);
        }
        if now.contains(k) && !earlier.contains(k) {
            let i = choose|i: int| 0 <= i < now.len() && now[i] == k;
            if i < earlier.len() {
                assert(earlier[i] == k);
            }
            assert(k == columns.last());
            assert(columns[columns.len() - 1] == k);
        }
        if k == columns.last() && used.contains(k) {
            assert(now[now.len() - 1] == k);
        }
    }
}

proof fn lemma_with_new(columns: Seq<Seq<char>>, used: Seq<Seq<char>>, k: Seq<char>)
    ensures
        with_new(columns, used).contains(k) <==> columns.contains(k) || used.contains(k),
        columns.is_prefix_of(with_new(columns, used)),
    decreases used.len(),
{
    if used.len() > 0 {
        let front = used.drop_last();
        lemma_with_new(columns, front, k);
        let earlier = with_new(columns, front);
        let now = with_new(columns, used);
        if used.contains(k) && k != used.last() {
            let i = choose|i: int| 0 <= i < used.len() && used[i] == k;
            assert(front[i] == k);
        }
        if front.contains(k) {
            let i = choose|i: int| 0 <= i < front.len() && front[i] == k;
            assert(used[i] == k);
        }
        assert(used[used.len() - 1] == used.last());
        if earlier.contains(k) {
            let i = choose|i: int| 0 <= i < earlier.len() && earlier[i] == k;
            assert(now[i] == k);
        }
        if now.contains(k) && !earlier.contains(k) {
            let i = choose|i: int| 0 <= i < now.len() && now[i] == k;
            if i < earlier.len() {
                assert(earlier[i] == k);
            }
        }
        if !earlier.contains(used.last()) {
            assert(now[now.len() - 1] == used.last());
        }
        assert(columns =~= now.take(columns.len() as int)) by {
            assert(columns =~= earlier.take(columns.len() as int));
        }
    } else {
        assert(columns =~= columns.take(columns.len() as int));
    }
}

/// A name in a directory stands behind it with one slash between, also in the root and
/// whatever slashes the directory ends with.
pub proof fn law_names_stand_behind_their_directory(dir: Seq<char>, name: Seq<char>, slashes: nat)
    requires
        dir.len() > 0,
        dir.last() != '/',
    ensures
        logical_path(dir + Seq::new(slashes, |i: int| '/'), name) == dir + seq!['/'] + name,
        logical_path(seq!['/'], name) == seq!['/'] + name,
{
    reveal_strlit("/");
    assert("/"@ =~= seq!['/']);
    let whole = dir + Seq::new(slashes, |i: int| '/');
    lemma_without_slashes(dir, slashes);
    assert(whole != seq!['/']) by {
        assert(whole[dir.len() - 1] == dir.last());
        if whole.len() == 1 {
            assert(whole[0] == dir.last());
        }
    }
}

proof fn lemma_without_slashes(dir: Seq<char>, slashes: nat)
    requires
        dir.len() > 0,
        dir.last() != '/',
    ensures
        without_slashes(dir + Seq::new(slashes, |i: int| '/')) == dir,
    decreases slashes,
{
    let whole = dir + Seq::new(slashes, |i: int| '/');
    if slashes == 0 {
        assert(whole =~= dir);
    } else {
        let fewer = (slashes - 1) as nat;
        lemma_without_slashes(dir, fewer);
        assert(whole.drop_last() =~= dir + Seq::new(fewer, |i: int| '/'));
        assert(whole.last() == '/');
    }
}

/// The CSV form has a line for its titles and one for each record, in order.
pub proof fn law_csv_lines_follow_the_records(
    columns: Seq<Seq<char>>,
    records: Seq<InspectRecord>,
    r: InspectRecord,
)
    ensures
        csv_rows(columns, records.push(r)) == csv_rows(columns, records) + crate::failure::csv_line(
            columns.map_values(|c: Seq<char>| r.cell(c)),
        ),
        csv_rows(columns, Seq::empty()) == crate::failure::csv_line(columns),
{
    assert(records.push(r).drop_last() =~= records);
}

/// Every record of a cache shows its own fields: an entry can be told from its record.
pub proof fn law_cache_records_tell_their_entry(r: InspectRecord, a: DirCacheEntry, f: FileCacheEntry)
    requires
        shows_dcache(r, a),
    ensures
        r.cell("kind"@) == "dcache"@,
        r.map()["id"@] == FieldView::Number(a.id),
        r.map()["meta_fid"@] == FieldView::Number(a.meta_loc.0 as u64),
        r.map()["meta_offset"@] == FieldView::Number(a.meta_loc.1 as u64),
        r.map()["files_count"@] == FieldView::Number(a.files_count as u64),
        r.map()["fcache_fid"@] == FieldView::Number(a.fcache_fid as u64),
        r.map()["fcache_offset"@] == FieldView::Number(a.fcache_offset as u64),
        !shows_fcache(r, f),
{
    reveal_strlit("id");
    reveal_strlit("hash");
    reveal_strlit("meta_fid");
    reveal_strlit("meta_offset");
    reveal_strlit("files_count");
    reveal_strlit("fcache_fid");
    reveal_strlit("fcache_offset");
    reveal_strlit("dcache");
    reveal_strlit("fcache");
    assert("dcache"@[0] == 'd' && "fcache"@[0] == 'f');
    assert("meta_offset"@[0] == 'm' && "files_count"@[0] == 'f');
    assert("id"@.len() == 2 && "hash"@.len() == 4 && "meta_fid"@.len() == 8);
    assert("meta_offset"@.len() == 11 && "files_count"@.len() == 11 && "fcache_fid"@.len() == 10);
    assert("fcache_offset"@.len() == 13);
}

/// A number that is shown in base 16 or in base 8 is read back from what is shown.
pub proof fn law_shown_numbers_read_back(value: u32)
    ensures
        text::scan_digits(hex_field(value).text(), 16, u32::MAX as nat) == Ok::<
            nat,
            text::NumberError,
        >(value as nat),
        text::scan_digits(oct_field(value).text(), 8, u32::MAX as nat) == Ok::<
            nat,
            text::NumberError,
        >(value as nat),
        hex_field(value).text().len() >= 8,
{
    text::law_digits_read_back(value as nat, 16, u32::MAX as nat);
    text::law_digits_read_back(value as nat, 8, u32::MAX as nat);
    let shown = text::digits(value as nat, 16, true);
    if shown.len() < 8 {
        text::lemma_leading_zeros((8 - shown.len()) as nat, shown, 16, u32::MAX as nat);
    }
}

/// The record of a control entry says what it is, and names the path that was recorded.
pub proof fn law_control_records_say_what_they_are(
    r: InspectRecord,
    del: DeleteEntry,
    dir: DirEntry,
    time: MtimeRecord,
    link: HardlinkFileEntry,
)
    ensures
        shows_delete(r, del) ==> {
            &&& r.kind@ == "control"@
            &&& r.record_type@ == "delete_dir"@ <==> del.entry_type == DeleteEntryType::Dir
            &&& r.record_type@ == "delete_file"@ <==> del.entry_type != DeleteEntryType::Dir
            &&& r.map()["path"@] == FieldView::Text(del.path@)
            &&& r.map()["type"@] == FieldView::Text("DIR"@) <==> del.entry_type
                == DeleteEntryType::Dir
        },
        shows_copy_dir(r, dir) ==> r.kind@ == "control"@ && r.record_type@ == "copy_dir"@
            && r.map()["path"@] == FieldView::Text(dir.path@) && r.map()["files_count"@]
            == FieldView::Number(dir.files_count as u64),
        shows_mtime(r, time) ==> r.kind@ == "control"@ && r.record_type@ == "mtime_dir"@
            && r.map()["path"@] == FieldView::Text(time.path@) && r.map()["mtime"@]
            == FieldView::Number(time.mtime) && r.map()["atime"@] == FieldView::Number(time.atime),
        shows_link(r, link) ==> r.kind@ == "control"@ && r.record_type@ == "hardlink_file"@
            && r.map()["path"@] == FieldView::Text(link.path@),
{
    reveal_strlit("delete_dir");
    reveal_strlit("delete_file");
    reveal_strlit("DIR");
    reveal_strlit("FILE");
    reveal_strlit("type");
    reveal_strlit("path");
    reveal_strlit("diff");
    reveal_strlit("mode");
    reveal_strlit("uid");
    reveal_strlit("gid");
    reveal_strlit("atime");
    reveal_strlit("mtime");
    reveal_strlit("meta_fid");
    reveal_strlit("meta_offset");
    reveal_strlit("files_count");
    assert("delete_dir"@.len() == 10 && "delete_file"@.len() == 11);
    assert("DIR"@.len() == 3 && "FILE"@.len() == 4);
    assert("type"@[0] == 't' && "path"@[0] == 'p' && "diff"@[0] == 'd' && "mode"@[0] == 'm');
    assert("type"@.len() == 4 && "path"@.len() == 4 && "diff"@.len() == 4 && "mode"@.len() == 4);
    assert("uid"@.len() == 3 && "gid"@.len() == 3 && "uid"@[0] == 'u' && "gid"@[0] == 'g');
    assert("atime"@.len() == 5 && "mtime"@.len() == 5 && "atime"@[0] == 'a' && "mtime"@[0] == 'm');
    assert("meta_fid"@.len() == 8 && "meta_offset"@.len() == 11 && "files_count"@.len() == 11);
    assert("meta_offset"@[0] == 'm' && "files_count"@[0] == 'f');
}

/// Every record stands in the group of its kind and type, and no group is empty.
pub proof fn law_every_record_has_a_group(
    groups: Seq<RecordGroup>,
    records: Seq<InspectRecord>,
    i: int,
    g: int,
)
    requires
        groups_records(groups, records),
    ensures
        0 <= i < records.len() ==> exists|n: int|
            0 <= n < groups.len() && (#[trigger] groups[n]).kind@ == records[i].kind@
                && groups[n].record_type@ == records[i].record_type@,
        0 <= g < groups.len() ==> groups[g].records@.len() > 0 && groups[g].records@.len()
            == members(records, (groups[g].kind@, groups[g].record_type@)).len(),
{
    if 0 <= i < records.len() {
        assert(has_group(groups, label(records[i])));
        let n = choose|n: int|
            0 <= n < groups.len() && group_label(#[trigger] groups[n]) == label(records[i]);
        assert(groups[n].kind@ == records[i].kind@);
    }
    if 0 <= g < groups.len() {
        assert(same_records(groups[g].records@, members(records, group_label(groups[g]))));
    }
}

} // verus!

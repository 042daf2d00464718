//! The records of whole cache files and control files.
use vstd::prelude::*;

use crate::delete::DeleteEntry;
use crate::hardlink::HardlinkEntry;
use crate::inspect::{
    dir_entry_at, file_entry_at, read_dcache_entries, read_fcache_entries, DirCacheEntry,
    FileCacheEntry,
};
use crate::inspect_table::{
    record_from_copy_dir, record_from_copy_file, record_from_dcache, record_from_delete,
    record_from_fcache, record_from_inode, record_from_link, record_from_mtime, shows_copy_dir,
    shows_copy_file, shows_dcache, shows_delete, shows_fcache, shows_inode, shows_link,
    shows_mtime, InspectRecord, MtimeRecord,
};
use crate::metadata::ControlEntry;

verus! {

// ---------------------------------------------------------------------------
// Caches
// ---------------------------------------------------------------------------

/// Whether a record shows the entry of a directory cache that is stored at a place.
pub open spec fn shows_dir_entry_at(r: InspectRecord, data: Seq<u8>, at: int) -> bool {
    exists|e: DirCacheEntry| #[trigger] dir_entry_at(e, data, at) && shows_dcache(r, e)
}

/// Whether a record shows the entry of a file cache that is stored at a place.
pub open spec fn shows_file_entry_at(r: InspectRecord, data: Seq<u8>, at: int) -> bool {
    exists|e: FileCacheEntry| #[trigger] file_entry_at(e, data, at) && shows_fcache(r, e)
}

/// The records of a directory cache, one for each whole entry.
pub fn inspect_dcache_file(data: &Vec<u8>) -> (out: Vec<InspectRecord>)
    ensures
        out@.len() == data@.len() / 32,
        forall|i: int|
            0 <= i < out@.len() ==> shows_dir_entry_at(#[trigger] out@[i], data@, 32 * i),
{
    let entries = read_dcache_entries(data);
    let mut out: Vec<InspectRecord> = Vec::new();
    let mut i: usize = 0;
    while i < entries.len()
        invariant
            i <= entries@.len(),
            out@.len() == i,
            forall|k: int|
                0 <= k < entries@.len() ==> dir_entry_at(#[trigger] entries@[k], data@, 32 * k),
            forall|k: int|
                0 <= k < i ==> shows_dir_entry_at(#[trigger] out@[k], data@, 32 * k),
        decreases entries@.len() - i,
    {
        assert(dir_entry_at(entries@[i as int], data@, 32 * i));
        out.push(record_from_dcache(&entries[i]));
        i += 1;
    }
    out
}

/// The records of a file cache, one for each whole entry.
pub fn inspect_fcache_file(data: &Vec<u8>) -> (out: Vec<InspectRecord>)
    ensures
        out@.len() == data@.len() / 20,
        forall|i: int|
            0 <= i < out@.len() ==> shows_file_entry_at(#[trigger] out@[i], data@, 20 * i),
{
    let entries = read_fcache_entries(data);
    let mut out: Vec<InspectRecord> = Vec::new();
    let mut i: usize = 0;
    while i < entries.len()
        invariant
            i <= entries@.len(),
            out@.len() == i,
            forall|k: int|
                0 <= k < entries@.len() ==> file_entry_at(#[trigger] entries@[k], data@, 20 * k),
            forall|k: int|
                0 <= k < i ==> shows_file_entry_at(#[trigger] out@[k], data@, 20 * k),
        decreases entries@.len() - i,
    {
        assert(file_entry_at(entries@[i as int], data@, 20 * i));
        out.push(record_from_fcache(&entries[i]));
        i += 1;
    }
    out
}

// ---------------------------------------------------------------------------
// Control files
// ---------------------------------------------------------------------------

/// The first error among the entries of a control file as they were read.
pub open spec fn first_error<T>(entries: Seq<Result<T, String>>) -> Option<String>
    decreases entries.len(),
{
    if entries.len() == 0 {
        None
    } else {
        match first_error(entries.drop_last()) {
            Some(e) => Some(e),
            None => match entries.last() {
                Ok(_) => None,
                Err(e) => Some(e),
            },
        }
    }
}

proof fn lemma_first_error_stays<T>(entries: Seq<Result<T, String>>, n: int)
    requires
        0 <= n <= entries.len(),
        first_error(entries.take(n)) is Some,
    ensures
        first_error(entries) == first_error(entries.take(n)),
    decreases entries.len(),
{
    if n == entries.len() {
        assert(entries.take(n) =~= entries);
    } else {
        assert(entries.drop_last().take(n) =~= entries.take(n));
        lemma_first_error_stays(entries.drop_last(), n);
    }
}

/// The directory that was named last.
pub open spec fn last_dir(entries: Seq<Result<ControlEntry, String>>) -> Option<Seq<char>>
    decreases entries.len(),
{
    if entries.len() == 0 {
        None
    } else {
        match entries.last() {
            Ok(ControlEntry::Dir(d)) => Some(d.path@),
            _ => last_dir(entries.drop_last()),
        }
    }
}

/// Whether a record shows an entry of a copy control file: a directory, or a file in the
/// directory that was named last in front of it.
pub open spec fn shows_copy_entry(
    r: InspectRecord,
    entries: Seq<Result<ControlEntry, String>>,
    i: int,
) -> bool {
    match entries[i] {
        Ok(ControlEntry::Dir(d)) => shows_copy_dir(r, d),
        Ok(ControlEntry::File(f)) => shows_copy_file(r, last_dir(entries.take(i)), f),
        Err(_) => false,
    }
}

/// The records of a copy control file, or the error of its first entry that could not be
/// read.
pub fn inspect_copy_control(entries: Vec<Result<ControlEntry, String>>) -> (r: Result<
    Vec<InspectRecord>,
    String,
>)
    ensures
        match r {
            Ok(out) => {
                &&& first_error(entries@) is None
                &&& out@.len() == entries@.len()
                &&& forall|i: int|
                    0 <= i < out@.len() ==> shows_copy_entry(#[trigger] out@[i], entries@, i)
            },
            Err(e) => first_error(entries@) == Some(e),
        },
{
    let ghost all = entries@;
    let mut out: Vec<InspectRecord> = Vec::new();
    let mut current: Option<String> = None;
    assert(all.take(0) =~= Seq::empty());
    for entry in it: entries
        invariant
            it.seq() == all,
            out@.len() == it.index(),
            first_error(all.take(it.index() as int)) is None,
            crate::aggregate_index::text_view(current) == last_dir(all.take(it.index() as int)),
            forall|k: int|
                0 <= k < out@.len() ==> shows_copy_entry(#[trigger] out@[k], all, k),
    {
        let ghost n = it.index() as int;
        assert(all.take(n + 1).drop_last() =~= all.take(n));
        assert(all.take(n + 1).last() == entry);
        assert(all[n] == entry);
        match entry {
            Err(e) => {
                proof {
                    lemma_first_error_stays(all, n + 1);
                }
                return Err(e);
            },
            Ok(ControlEntry::Dir(dir)) => {
                out.push(record_from_copy_dir(&dir));
                current = Some(dir.path);
            },
            Ok(ControlEntry::File(file)) => {
                let dir = match &current {
                    Some(d) => Some(d.as_str()),
                    None => None,
                };
                out.push(record_from_copy_file(dir, &file));
            },
        }
    }
    assert(all.take(all.len() as int) =~= all);
    Ok(out)
}

/// Whether a record shows an entry of a delete control file that could be read.
pub open spec fn shows_read_delete(r: InspectRecord, e: Result<DeleteEntry, String>) -> bool {
    match e {
        Ok(entry) => shows_delete(r, entry),
        Err(_) => false,
    }
}

/// The records of a delete control file, or the error of its first entry that could not
/// be read.
pub fn inspect_delete_control(entries: Vec<Result<DeleteEntry, String>>) -> (r: Result<
    Vec<InspectRecord>,
    String,
>)
    ensures
        match r {
            Ok(out) => {
                &&& first_error(entries@) is None
                &&& out@.len() == entries@.len()
                &&& forall|i: int|
                    0 <= i < out@.len() ==> shows_read_delete(#[trigger] out@[i], entries@[i])
            },
            Err(e) => first_error(entries@) == Some(e),
        },
{
    let ghost all = entries@;
    let mut out: Vec<InspectRecord> = Vec::new();
    assert(all.take(0) =~= Seq::empty());
    for entry in it: entries
        invariant
            it.seq() == all,
            out@.len() == it.index(),
            first_error(all.take(it.index() as int)) is None,
            forall|k: int|
                0 <= k < out@.len() ==> shows_read_delete(#[trigger] out@[k], all[k]),
    {
        let ghost n = it.index() as int;
        assert(all.take(n + 1).drop_last() =~= all.take(n));
        assert(all.take(n + 1).last() == entry);
        assert(all[n] == entry);
        match entry {
            Err(e) => {
                proof {
                    lemma_first_error_stays(all, n + 1);
                }
                return Err(e);
            },
            Ok(deletion) => {
                out.push(record_from_delete(&deletion));
            },
        }
    }
    assert(all.take(all.len() as int) =~= all);
    Ok(out)
}

/// Whether a record shows an entry of an mtime control file that could be read.
pub open spec fn shows_read_mtime(r: InspectRecord, e: Result<MtimeRecord, String>) -> bool {
    match e {
        Ok(entry) => shows_mtime(r, entry),
        Err(_) => false,
    }
}

/// The records of an mtime control file, or the error of its first entry that could not
/// be read.
pub fn inspect_mtime_control(entries: Vec<Result<MtimeRecord, String>>) -> (r: Result<
    Vec<InspectRecord>,
    String,
>)
    ensures
        match r {
            Ok(out) => {
                &&& first_error(entries@) is None
                &&& out@.len() == entries@.len()
                &&& forall|i: int|
                    0 <= i < out@.len() ==> shows_read_mtime(#[trigger] out@[i], entries@[i])
            },
            Err(e) => first_error(entries@) == Some(e),
        },
{
    let ghost all = entries@;
    let mut out: Vec<InspectRecord> = Vec::new();
    assert(all.take(0) =~= Seq::empty());
    for entry in it: entries
        invariant
            it.seq() == all,
            out@.len() == it.index(),
            first_error(all.take(it.index() as int)) is None,
            forall|k: int|
                0 <= k < out@.len() ==> shows_read_mtime(#[trigger] out@[k], all[k]),
    {
        let ghost n = it.index() as int;
        assert(all.take(n + 1).drop_last() =~= all.take(n));
        assert(all.take(n + 1).last() == entry);
        assert(all[n] == entry);
        match entry {
            Err(e) => {
                proof {
                    lemma_first_error_stays(all, n + 1);
                }
                return Err(e);
            },
            Ok(times) => {
                out.push(record_from_mtime(&times));
            },
        }
    }
    assert(all.take(all.len() as int) =~= all);
    Ok(out)
}

/// Whether a record shows an entry of a hardlink control file.
pub open spec fn shows_hardlink(r: InspectRecord, e: HardlinkEntry) -> bool {
    match e {
        HardlinkEntry::Inode(inode) => shows_inode(r, inode),
        HardlinkEntry::File(file) => shows_link(r, file),
    }
}

/// Whether a record shows an entry of a hardlink control file that could be read.
pub open spec fn shows_read_hardlink(r: InspectRecord, e: Result<HardlinkEntry, String>) -> bool {
    match e {
        Ok(entry) => shows_hardlink(r, entry),
        Err(_) => false,
    }
}

/// The records of a hardlink control file, or the error of its first entry that could not
/// be read.
pub fn inspect_hardlink_control(entries: Vec<Result<HardlinkEntry, String>>) -> (r: Result<
    Vec<InspectRecord>,
    String,
>)
    ensures
        match r {
            Ok(out) => {
                &&& first_error(entries@) is None
                &&& out@.len() == entries@.len()
                &&& forall|i: int|
                    0 <= i < out@.len() ==> shows_read_hardlink(#[trigger] out@[i], entries@[i])
            },
            Err(e) => first_error(entries@) == Some(e),
        },
{
    let ghost all = entries@;
    let mut out: Vec<InspectRecord> = Vec::new();
    assert(all.take(0) =~= Seq::empty());
    for entry in it: entries
        invariant
            it.seq() == all,
            out@.len() == it.index(),
            first_error(all.take(it.index() as int)) is None,
            forall|k: int|
                0 <= k < out@.len() ==> shows_read_hardlink(#[trigger] out@[k], all[k]),
    {
        let ghost n = it.index() as int;
        assert(all.take(n + 1).drop_last() =~= all.take(n));
        assert(all.take(n + 1).last() == entry);
        assert(all[n] == entry);
        match entry {
            Err(e) => {
                proof {
                    lemma_first_error_stays(all, n + 1);
                }
                return Err(e);
            },
            Ok(HardlinkEntry::Inode(inode)) => {
                out.push(record_from_inode(&inode));
            },
            Ok(HardlinkEntry::File(file)) => {
                out.push(record_from_link(&file));
            },
        }
    }
    assert(all.take(all.len() as int) =~= all);
    Ok(out)
}

/// The first error is told, and only where there is one.
pub proof fn law_the_first_error_is_told<T>(
    good: Seq<Result<T, String>>,
    e: String,
    rest: Seq<Result<T, String>>,
)
    requires
        forall|i: int| 0 <= i < good.len() ==> (#[trigger] good[i]) is Ok,
    ensures
        first_error(good) is None,
        first_error(good.push(Err(e)) + rest) == Some(e),
    decreases good.len() + rest.len(),
{
    if rest.len() > 0 {
        law_the_first_error_is_told(good, e, rest.drop_last());
        assert((good.push(Err(e)) + rest).drop_last() =~= good.push(Err(e)) + rest.drop_last());
    } else {
        assert(good.push(Err(e)) + rest =~= good.push(Err(e)));
        assert(good.push(Err::<T, String>(e)).drop_last() =~= good);
        if good.len() > 0 {
            let front = good.drop_last();
            assert forall|i: int| 0 <= i < front.len() implies (#[trigger] front[i]) is Ok by {
                assert(good[i] is Ok);
            }
            law_the_first_error_is_told(front, e, Seq::empty());
            assert(good[good.len() - 1] is Ok);
        }
    }
}

/// Files lie in the directory that was named last before them.
pub proof fn law_files_follow_their_directory(
    entries: Seq<Result<ControlEntry, String>>,
    entry: Result<ControlEntry, String>,
)
    ensures
        entry matches Ok(ControlEntry::Dir(d)) ==> last_dir(entries.push(entry)) == Some(d.path@),
        !(entry matches Ok(ControlEntry::Dir(_))) ==> last_dir(entries.push(entry)) == last_dir(
            entries,
        ),
        last_dir(Seq::empty()) is None,
{
    assert(entries.push(entry).drop_last() =~= entries);
}

/// A record of a cache shows what the bytes at its place stand for.
pub proof fn law_cache_records_show_their_bytes(r: InspectRecord, data: Seq<u8>, at: int)
    ensures
        shows_dir_entry_at(r, data, at) ==> {
            &&& r.map()["id"@] == crate::inspect_table::FieldView::Number(
                crate::inspect::number_at(data, at, 8) as u64,
            )
            &&& r.map()["meta_fid"@] == crate::inspect_table::FieldView::Number(
                crate::inspect::number_at(data, at + 12, 4) as u64,
            )
            &&& r.map()["files_count"@] == crate::inspect_table::FieldView::Number(
                crate::inspect::number_at(data, at + 20, 4) as u64,
            )
            &&& r.map()["fcache_offset"@] == crate::inspect_table::FieldView::Number(
                crate::inspect::number_at(data, at + 28, 4) as u64,
            )
            &&& r.map()["meta_offset"@] == crate::inspect_table::FieldView::Number(
                crate::inspect::number_at(data, at + 16, 4) as u64,
            )
            &&& r.map()["fcache_fid"@] == crate::inspect_table::FieldView::Number(
                crate::inspect::number_at(data, at + 24, 4) as u64,
            )
            &&& !shows_file_entry_at(r, data, at)
        },
{
    if shows_dir_entry_at(r, data, at) {
        let e = choose|e: DirCacheEntry| #[trigger] dir_entry_at(e, data, at) && shows_dcache(r, e);
        assert forall|f: FileCacheEntry| !shows_fcache(r, f) by {
            crate::inspect_table::law_cache_records_tell_their_entry(r, e, f);
        }
        crate::inspect_table::law_cache_records_tell_their_entry(
            r,
            e,
            choose|f: FileCacheEntry| shows_fcache(r, f),
        );
    }
}

} // verus!

//! From the entries of a control file to control blocks: where each entry is read from
//! and where it is written to.
use vstd::prelude::*;

use crate::fcb::{
    ControlBlockVarient, DirControlBlock, FileControlBlock, SourceHandleState, TargetHandleState,
};
use crate::metadata::{DirEntry, DirMeta, FileEntry, FileMeta};
use crate::paths;

verus! {

/// How a recorded path is mapped.
#[derive(Debug)]
pub enum PathLayout {
    /// Below a directory of this machine, without the logical source root.
    LocalSource { root: String },
    /// Without the logical source root.
    RemoteSource,
    /// As recorded, but relative.
    LogicalTarget,
    /// As recorded, below a prefix.
    PrefixedLogicalTarget { prefix: String },
}

#[derive(Debug)]
pub struct EntryMapping {
    pub dir_source: PathLayout,
    pub dir_target: PathLayout,
    pub file_source: PathLayout,
    pub file_target: PathLayout,
}

impl EntryMapping {
    /// From a local directory to a target below a prefix.
    pub fn local_to_prefixed_target(source_root: String, target_prefix: String) -> (r: Self)
        ensures
            r.dir_source == (PathLayout::LocalSource { root: source_root }),
            r.file_source == (PathLayout::LocalSource { root: source_root }),
            r.dir_target == (PathLayout::PrefixedLogicalTarget { prefix: target_prefix }),
            r.file_target == (PathLayout::PrefixedLogicalTarget { prefix: target_prefix }),
    {
        EntryMapping {
            dir_source: PathLayout::LocalSource { root: source_root.clone() },
            dir_target: PathLayout::PrefixedLogicalTarget { prefix: target_prefix.clone() },
            file_source: PathLayout::LocalSource { root: source_root },
            file_target: PathLayout::PrefixedLogicalTarget { prefix: target_prefix },
        }
    }

    /// From a server to a local directory.
    pub fn remote_to_local() -> (r: Self)
        ensures
            r.dir_source == PathLayout::RemoteSource,
            r.file_source == PathLayout::RemoteSource,
            r.dir_target == PathLayout::LogicalTarget,
            r.file_target == PathLayout::LogicalTarget,
    {
        EntryMapping {
            dir_source: PathLayout::RemoteSource,
            dir_target: PathLayout::LogicalTarget,
            file_source: PathLayout::RemoteSource,
            file_target: PathLayout::LogicalTarget,
        }
    }

    /// From a server to a target below a prefix.
    pub fn remote_to_prefixed_target(target_prefix: String) -> (r: Self)
        ensures
            r.dir_source == PathLayout::RemoteSource,
            r.file_source == PathLayout::RemoteSource,
            r.dir_target == (PathLayout::PrefixedLogicalTarget { prefix: target_prefix }),
            r.file_target == (PathLayout::PrefixedLogicalTarget { prefix: target_prefix }),
    {
        EntryMapping {
            dir_source: PathLayout::RemoteSource,
            dir_target: PathLayout::PrefixedLogicalTarget { prefix: target_prefix.clone() },
            file_source: PathLayout::RemoteSource,
            file_target: PathLayout::PrefixedLogicalTarget { prefix: target_prefix },
        }
    }
}

// ---------------------------------------------------------------------------
// Path mapping
// ---------------------------------------------------------------------------

/// A recorded path without its leading slash.
pub open spec fn logical_relative(control_path: Seq<char>) -> Seq<char> {
    match paths::strip_prefix(control_path, seq!['/']) {
        Some(rest) => rest,
        None => control_path,
    }
}

/// A recorded path seen from the logical source root; as recorded, but relative, where
/// it lies elsewhere.
pub open spec fn below_logical_root(root: Seq<char>, control_path: Seq<char>) -> Seq<char> {
    let path = logical_relative(control_path);
    let base = logical_relative(root);
    if base.len() == 0 {
        path
    } else {
        match paths::strip_prefix(path, base) {
            Some(rest) => rest,
            None => path,
        }
    }
}

/// Where a recorded directory is found under a layout.
pub open spec fn control_path(
    layout: PathLayout,
    path: Seq<char>,
    logical_root: Seq<char>,
) -> Seq<char> {
    match layout {
        PathLayout::LocalSource { root } => paths::join(
            root@,
            below_logical_root(logical_root, path),
        ),
        PathLayout::RemoteSource => below_logical_root(logical_root, path),
        PathLayout::LogicalTarget => logical_relative(path),
        PathLayout::PrefixedLogicalTarget { prefix } => paths::join(
            prefix@,
            logical_relative(path),
        ),
    }
}

/// Where a file of a recorded directory is found under a layout.
pub open spec fn child_path(
    layout: PathLayout,
    dir: Seq<char>,
    name: Seq<char>,
    logical_root: Seq<char>,
) -> Seq<char> {
    paths::join(control_path(layout, dir, logical_root), name)
}

pub fn logical_relative_path(control_path: &str) -> (s: String)
    ensures
        s@ == logical_relative(control_path@),
{
    proof {
        reveal_strlit("/");
        assert("/"@ =~= seq!['/']);
    }
    match paths::strip_base(control_path, "/") {
        Some(rest) => rest,
        None => control_path.to_owned(),
    }
}

pub fn strip_logical_source_root(logical_source_root: &str, control_path: &str) -> (s: String)
    ensures
        s@ == below_logical_root(logical_source_root@, control_path@),
{
    let path = logical_relative_path(control_path);
    let root = logical_relative_path(logical_source_root);
    if root.as_str().is_empty() {
        return path;
    }
    match paths::strip_base(path.as_str(), root.as_str()) {
        Some(rest) => rest,
        None => path,
    }
}

pub fn join_local_source(root: &str, logical_source_root: &str, control_path: &str) -> (s: String)
    ensures
        s@ == paths::join(root@, below_logical_root(logical_source_root@, control_path@)),
{
    let below = strip_logical_source_root(logical_source_root, control_path);
    paths::join_path(root, below.as_str())
}

/// Where a recorded directory is found under a layout.
pub fn map_control_path(layout: &PathLayout, path: &str, logical_source_root: &str) -> (s: String)
    ensures
        s@ == control_path(*layout, path@, logical_source_root@),
{
    match layout {
        PathLayout::LocalSource { root } => join_local_source(
            root.as_str(),
            logical_source_root,
            path,
        ),
        PathLayout::RemoteSource => strip_logical_source_root(logical_source_root, path),
        PathLayout::LogicalTarget => logical_relative_path(path),
        PathLayout::PrefixedLogicalTarget { prefix } => {
            let rel = logical_relative_path(path);
            paths::join_path(prefix.as_str(), rel.as_str())
        },
    }
}

/// Where a file of a recorded directory is found under a layout.
pub fn map_child_path(
    layout: &PathLayout,
    control_dir: &str,
    file_name: &str,
    logical_source_root: &str,
) -> (s: String)
    ensures
        s@ == child_path(*layout, control_dir@, file_name@, logical_source_root@),
{
    let dir = map_control_path(layout, control_dir, logical_source_root);
    paths::join_path(dir.as_str(), file_name)
}

/// A recorded path is found again below the prefix it was mapped to: what stands behind
/// the prefix is the recorded path without its leading slash.
pub proof fn law_prefixed_path_is_found_again(
    prefix: String,
    path: Seq<char>,
    logical_root: Seq<char>,
)
    requires
        prefix@.len() > 0,
        paths::is_clean(logical_relative(path)),
    ensures
        paths::strip_prefix(
            control_path(PathLayout::PrefixedLogicalTarget { prefix }, path, logical_root),
            prefix@,
        ) == Some(logical_relative(path)),
{
    paths::law_strip_undoes_join(prefix@, logical_relative(path));
}

/// The local file behind a recorded path lies below the local root.
pub proof fn law_local_source_lies_below_root(
    root: String,
    path: Seq<char>,
    logical_root: Seq<char>,
)
    requires
        root@.len() > 0,
        paths::is_clean(below_logical_root(logical_root, path)),
    ensures
        paths::starts_with(
            control_path(PathLayout::LocalSource { root }, path, logical_root),
            root@,
        ),
        paths::strip_prefix(
            control_path(PathLayout::LocalSource { root }, path, logical_root),
            root@,
        ) == Some(control_path(PathLayout::RemoteSource, path, logical_root)),
{
    paths::law_strip_undoes_join(root@, below_logical_root(logical_root, path));
}

/// A logical target is the recorded path without its leading slash, whatever the logical
/// source root is, and a prefix only stands in front of it.
pub proof fn law_logical_target_is_the_recorded_path(
    rel: Seq<char>,
    prefix: String,
    logical_root: Seq<char>,
)
    requires
        paths::is_clean(rel),
    ensures
        control_path(PathLayout::LogicalTarget, seq!['/'] + rel, logical_root) == rel,
        control_path(PathLayout::LogicalTarget, rel, logical_root) == rel,
        control_path(
            PathLayout::PrefixedLogicalTarget { prefix },
            seq!['/'] + rel,
            logical_root,
        ) == paths::join(prefix@, rel),
        control_path(PathLayout::PrefixedLogicalTarget { prefix }, rel, logical_root)
            == paths::join(prefix@, rel),
{
    paths::law_leading_slash_is_stripped(rel);
    paths::lemma_first_piece(rel);
    paths::law_relative_path_has_no_root(rel);
}

/// Recorded paths that differ keep targets that differ, under whatever roots they were
/// recorded: no source overwrites what another one has written.
pub proof fn law_targets_stay_distinct(
    a: Seq<char>,
    b: Seq<char>,
    prefix: String,
    root_a: Seq<char>,
    root_b: Seq<char>,
)
    requires
        paths::is_clean(a),
        paths::is_clean(b),
        a != b,
    ensures
        control_path(PathLayout::LogicalTarget, seq!['/'] + a, root_a) != control_path(
            PathLayout::LogicalTarget,
            seq!['/'] + b,
            root_b,
        ),
        control_path(PathLayout::PrefixedLogicalTarget { prefix }, seq!['/'] + a, root_a)
            != control_path(
            PathLayout::PrefixedLogicalTarget { prefix },
            seq!['/'] + b,
            root_b,
        ),
{
    law_logical_target_is_the_recorded_path(a, prefix, root_a);
    law_logical_target_is_the_recorded_path(b, prefix, root_b);
    if prefix@.len() > 0 {
        paths::law_strip_undoes_join(prefix@, a);
        paths::law_strip_undoes_join(prefix@, b);
    } else {
        paths::lemma_first_piece(a);
        paths::lemma_first_piece(b);
    }
}

/// A source is read without its logical root: what lies below the root is found below the
/// directory that the root stands for, and a path that does not lie below it is found there
/// as a whole.
pub proof fn law_source_is_read_below_its_root(rel: Seq<char>, base: Seq<char>, local: String)
    requires
        paths::is_clean(rel),
        paths::is_clean(base),
    ensures
        ({
            let root = seq!['/'] + base;
            let path = seq!['/'] + paths::join(base, rel);
            &&& control_path(PathLayout::RemoteSource, path, root) == rel
            &&& control_path(PathLayout::LocalSource { root: local }, path, root) == paths::join(
                local@,
                rel,
            )
        }),
        !paths::starts_with(rel, base) ==> control_path(
            PathLayout::RemoteSource,
            seq!['/'] + rel,
            seq!['/'] + base,
        ) == rel,
        control_path(PathLayout::RemoteSource, seq!['/'] + rel, seq!['/']) == rel,
{
    let whole = paths::join(base, rel);
    paths::lemma_first_piece(rel);
    paths::lemma_first_piece(base);
    paths::law_leading_slash_is_stripped(base);
    paths::law_leading_slash_is_stripped(rel);
    paths::lemma_clean_join(base, rel);
    paths::law_leading_slash_is_stripped(whole);
    paths::law_strip_undoes_join(base, rel);
    paths::lemma_bare_root();
}

/// A file lies in its directory, under every layout: its path is that of the directory, a
/// slash and its name.
pub proof fn law_files_lie_in_their_directory(
    layout: PathLayout,
    dir: Seq<char>,
    name: Seq<char>,
    logical_root: Seq<char>,
)
    requires
        paths::is_name(name),
        control_path(layout, dir, logical_root).len() > 0,
        control_path(layout, dir, logical_root).last() != '/',
    ensures
        child_path(layout, dir, name, logical_root) == control_path(layout, dir, logical_root)
            + seq!['/'] + name,
{
    assert(name.contains(name[0]));
    let d = control_path(layout, dir, logical_root);
    assert(d.push('/') + name =~= d + seq!['/'] + name);
}

// ---------------------------------------------------------------------------
// Producing control blocks
// ---------------------------------------------------------------------------

/// An entry of a control file with the metadata that belongs to it.
#[derive(Debug)]
pub enum EntryEvent {
    /// The entry could not be read.
    Unreadable,
    Dir { entry: DirEntry, meta: Option<DirMeta> },
    File { child: FileEntry, file_meta: Option<FileMeta> },
}

/// Turns the entries of a control file into control blocks, one at a time.
#[derive(Debug)]
pub struct EntryProducer {
    pub mapping: EntryMapping,
    pub logical_source_root: String,
    /// Directory of the file entries that follow.
    pub current_dir: String,
    pub entry_count: usize,
}

/// The metadata that a control block is made from.
pub enum MetaView {
    Dir(DirMeta),
    File(FileMeta),
}

/// What a control block stands for: its metadata, and where it is read and written.
pub struct BlockView {
    pub meta: MetaView,
    pub src_path: Seq<char>,
    pub dst_path: Seq<char>,
}

pub open spec fn block_view(b: ControlBlockVarient) -> BlockView {
    match b {
        ControlBlockVarient::DirControlBlock(d) => BlockView {
            meta: MetaView::Dir(*d.meta),
            src_path: d.src_path@,
            dst_path: d.dst_path@,
        },
        ControlBlockVarient::FileControlBlock(f) => BlockView {
            meta: MetaView::File(*f.meta),
            src_path: f.src_path@,
            dst_path: f.dst_path@,
        },
    }
}

/// Whether nothing was done with a file yet: neither end is opened, nothing was read or
/// written, and no data is held.
pub open spec fn untouched(f: FileControlBlock) -> bool {
    &&& f.wf()
    &&& f.buffer@.len() == 0
    &&& f.src_state == SourceHandleState::Inited
    &&& f.dst_state == TargetHandleState::Inited
    &&& f.src_offset == 0
    &&& f.dst_offset == 0
}

/// Whether nothing was done with the file of a control block yet.
pub open spec fn untouched_block(b: ControlBlockVarient) -> bool {
    b matches ControlBlockVarient::FileControlBlock(f) ==> untouched(f)
}

/// The directory that file entries belong to after the given events: that of the last
/// directory entry whose metadata was found.
pub open spec fn dir_after(start: Seq<char>, events: Seq<EntryEvent>) -> Seq<char>
    decreases events.len(),
{
    if events.len() == 0 {
        start
    } else {
        match events.last() {
            EntryEvent::Dir { entry, meta: Some(_) } => entry.path@,
            _ => dir_after(start, events.drop_last()),
        }
    }
}

/// The control block that an event gives rise to, if any.
pub open spec fn produced_by(
    mapping: EntryMapping,
    root: Seq<char>,
    dir: Seq<char>,
    event: EntryEvent,
) -> Option<BlockView> {
    match event {
        EntryEvent::Dir { entry, meta: Some(m) } => Some(
            BlockView {
                meta: MetaView::Dir(m),
                src_path: control_path(mapping.dir_source, entry.path@, root),
                dst_path: control_path(mapping.dir_target, entry.path@, root),
            },
        ),
        EntryEvent::File { child, file_meta: Some(m) } => Some(
            BlockView {
                meta: MetaView::File(m),
                src_path: child_path(mapping.file_source, dir, child.name@, root),
                dst_path: child_path(mapping.file_target, dir, child.name@, root),
            },
        ),
        _ => None,
    }
}

/// The control blocks that a list of events gives rise to, in order.
pub open spec fn produced(
    mapping: EntryMapping,
    root: Seq<char>,
    start: Seq<char>,
    events: Seq<EntryEvent>,
) -> Seq<BlockView>
    decreases events.len(),
{
    if events.len() == 0 {
        Seq::empty()
    } else {
        let front = events.drop_last();
        let before = produced(mapping, root, start, front);
        match produced_by(mapping, root, dir_after(start, front), events.last()) {
            Some(b) => before.push(b),
            None => before,
        }
    }
}

impl EntryProducer {
    pub fn new(mapping: EntryMapping, logical_source_root: String) -> (r: Self)
        ensures
            r.mapping == mapping,
            r.logical_source_root == logical_source_root,
            r.current_dir@.len() == 0,
            r.entry_count == 0,
    {
        EntryProducer { mapping, logical_source_root, current_dir: String::new(), entry_count: 0 }
    }

    /// Takes one event. An entry that cannot be read, or whose metadata is missing, is
    /// passed over.
    pub fn step(&mut self, event: EntryEvent) -> (r: Option<ControlBlockVarient>)
        ensures
            final(self).mapping == old(self).mapping,
            final(self).logical_source_root == old(self).logical_source_root,
            final(self).entry_count == old(self).entry_count,
            match r {
                Some(b) => produced_by(
                    old(self).mapping,
                    old(self).logical_source_root@,
                    old(self).current_dir@,
                    event,
                ) == Some(block_view(b)) && untouched_block(b),
                None => produced_by(
                    old(self).mapping,
                    old(self).logical_source_root@,
                    old(self).current_dir@,
                    event,
                ) is None,
            },
            match event {
                EntryEvent::Dir { entry, meta: Some(m) } => {
                    &&& final(self).current_dir@ == entry.path@
                    &&& r matches Some(ControlBlockVarient::DirControlBlock(_))
                },
                EntryEvent::File { child, file_meta: Some(m) } => {
                    &&& final(self).current_dir == old(self).current_dir
                    &&& r matches Some(ControlBlockVarient::FileControlBlock(_))
                },
                _ => r is None && final(self).current_dir == old(self).current_dir,
            },
    {
        match event {
            EntryEvent::Dir { entry, meta: Some(m) } => {
                let root = self.logical_source_root.as_str();
                let mut block = DirControlBlock::from(m);
                block.src_path =
                map_control_path(&self.mapping.dir_source, entry.path.as_str(), root);
                block.dst_path =
                map_control_path(&self.mapping.dir_target, entry.path.as_str(), root);
                self.current_dir = entry.path;
                Some(ControlBlockVarient::DirControlBlock(block))
            },
            EntryEvent::File { child, file_meta: Some(m) } => {
                let root = self.logical_source_root.as_str();
                let dir = self.current_dir.as_str();
                let mut block = FileControlBlock::from(m);
                block.src_path =
                map_child_path(&self.mapping.file_source, dir, child.name.as_str(), root);
                block.dst_path =
                map_child_path(&self.mapping.file_target, dir, child.name.as_str(), root);
                Some(ControlBlockVarient::FileControlBlock(block))
            },
            _ => None,
        }
    }

    /// Takes note of whether a block was accepted; a refusal ends the production.
    pub fn accepted(&mut self, ok: bool) -> (go_on: bool)
        requires
            old(self).entry_count < usize::MAX,
        ensures
            go_on == ok,
            final(self).mapping == old(self).mapping,
            final(self).logical_source_root == old(self).logical_source_root,
            final(self).current_dir == old(self).current_dir,
            final(self).entry_count == old(self).entry_count + (if ok {
                1int
            } else {
                0
            }),
    {
        if ok {
            self.entry_count = self.entry_count + 1;
        }
        ok
    }
}

/// The control blocks of a whole control file, in order, each with the metadata of its
/// entry. Nothing was done with any of them yet.
pub fn produce_entries_for_each(
    events: Vec<EntryEvent>,
    mapping: EntryMapping,
    logical_source_root: String,
) -> (out: Vec<ControlBlockVarient>)
    ensures
        out@.map_values(|b: ControlBlockVarient| block_view(b)) == produced(
            mapping,
            logical_source_root@,
            Seq::empty(),
            events@,
        ),
        forall|i: int| 0 <= i < out@.len() ==> untouched_block(#[trigger] out@[i]),
{
    let mut producer = EntryProducer::new(mapping, logical_source_root);
    let ghost all = events@;
    let ghost view = |b: ControlBlockVarient| block_view(b);
    let mut out: Vec<ControlBlockVarient> = Vec::new();
    assert(producer.current_dir@ =~= Seq::<char>::empty());
    assert(all.take(0) =~= Seq::<EntryEvent>::empty());
    assert(out@.map_values(view) =~= produced(
        mapping,
        logical_source_root@,
        Seq::empty(),
        all.take(0),
    ));
    for event in it: events
        invariant
            it.seq() == all,
            view == (|b: ControlBlockVarient| block_view(b)),
            producer.mapping == mapping,
            producer.logical_source_root == logical_source_root,
            producer.current_dir@ == dir_after(Seq::empty(), all.take(it.index() as int)),
            out@.map_values(view) == produced(
                mapping,
                logical_source_root@,
                Seq::empty(),
                all.take(it.index() as int),
            ),
            forall|k: int| 0 <= k < out@.len() ==> untouched_block(#[trigger] out@[k]),
    {
        let ghost i = it.index() as int;
        let ghost before = out@;
        assert(all.take(i + 1).drop_last() =~= all.take(i));
        assert(all.take(i + 1).last() == event);
        match producer.step(event) {
            Some(block) => {
                out.push(block);
                assert(out@.map_values(view) =~= before.map_values(view).push(block_view(block)));
            },
            None => {},
        }
    }
    assert(all.take(all.len() as int) =~= all);
    out
}

// ---------------------------------------------------------------------------
// Paths relative to the source
// ---------------------------------------------------------------------------

/// Turns the entries of a control file into control blocks whose target paths are
/// relative to the source. Files on an export are found by their path below it.
#[derive(Debug)]
pub struct RelativeProducer {
    pub source_base: String,
    pub nfs_export: Option<String>,
    /// Directory of the file entries that follow.
    pub current_dir: String,
}

impl RelativeProducer {
    pub fn new(source_base: String, nfs_export: Option<String>) -> (r: Self)
        ensures
            r.source_base == source_base,
            r.nfs_export == nfs_export,
            r.current_dir@.len() == 0,
    {
        RelativeProducer { source_base, nfs_export, current_dir: String::new() }
    }

    /// The block of a directory, which the files that follow lie in.
    pub fn directory(&mut self, path: &str, meta: DirMeta) -> (r: DirControlBlock)
        ensures
            *r.meta == meta,
            r.src_path@ == path@,
            r.dst_path@ == crate::path_util::relative_to(old(self).source_base@, path@),
            final(self).current_dir@ == path@,
            *final(self) == (RelativeProducer {
                current_dir: final(self).current_dir,
                ..*old(self)
            }),
    {
        self.current_dir = path.to_owned();
        DirControlBlock {
            meta: Box::new(meta),
            src_path: path.to_owned(),
            dst_path: crate::path_util::make_relative(self.source_base.as_str(), path),
        }
    }

    /// The block of a file in the directory that was named last.
    pub fn file(&self, name: &str, meta: FileMeta) -> (r: FileControlBlock)
        ensures
            *r.meta == meta,
            untouched(r),
            r.src_path@ == paths::join(
                match self.nfs_export {
                    Some(export) => crate::path_util::relative_to(export@, self.current_dir@),
                    None => self.current_dir@,
                },
                name@,
            ),
            r.dst_path@ == paths::join(
                crate::path_util::relative_to(self.source_base@, self.current_dir@),
                name@,
            ),
    {
        let dir = self.current_dir.as_str();
        let src_dir = match &self.nfs_export {
            Some(export) => crate::path_util::make_relative(export.as_str(), dir),
            None => dir.to_owned(),
        };
        let dst_dir = crate::path_util::make_relative(self.source_base.as_str(), dir);
        let mut fcb = FileControlBlock::from(meta);
        fcb.src_path = paths::join_path(src_dir.as_str(), name);
        fcb.dst_path = paths::join_path(dst_dir.as_str(), name);
        fcb
    }
}

/// An event gives rise to a block exactly where its metadata was found. The block keeps the
/// metadata; a directory is read and written at its own path, and a file in the directory
/// that it belongs to.
pub proof fn law_events_become_blocks(
    mapping: EntryMapping,
    root: Seq<char>,
    dir: Seq<char>,
    event: EntryEvent,
)
    ensures
        produced_by(mapping, root, dir, event) is Some <==> match event {
            EntryEvent::Unreadable => false,
            EntryEvent::Dir { meta, .. } => meta is Some,
            EntryEvent::File { file_meta, .. } => file_meta is Some,
        },
        event matches EntryEvent::Dir { entry, meta: Some(m) } ==> (produced_by(
            mapping,
            root,
            dir,
            event,
        ) matches Some(b) && b.meta == MetaView::Dir(m) && b.src_path == control_path(
            mapping.dir_source,
            entry.path@,
            root,
        ) && b.dst_path == control_path(mapping.dir_target, entry.path@, root)),
        event matches EntryEvent::File { child, file_meta: Some(m) } ==> (produced_by(
            mapping,
            root,
            dir,
            event,
        ) matches Some(b) && b.meta == MetaView::File(m) && b.src_path == paths::join(
            control_path(mapping.file_source, dir, root),
            child.name@,
        ) && b.dst_path == paths::join(control_path(mapping.file_target, dir, root), child.name@)),
{
}

/// Events are taken in order, and what follows goes by the directory that was named last:
/// the blocks of two lists of events, one behind the other, are those of the first, and those
/// of the second begun in the directory that the first ended in.
pub proof fn law_blocks_follow_the_events(
    mapping: EntryMapping,
    root: Seq<char>,
    start: Seq<char>,
    a: Seq<EntryEvent>,
    b: Seq<EntryEvent>,
)
    ensures
        produced(mapping, root, start, a + b) == produced(mapping, root, start, a) + produced(
            mapping,
            root,
            dir_after(start, a),
            b,
        ),
        dir_after(start, a + b) == dir_after(dir_after(start, a), b),
    decreases b.len(),
{
    if b.len() == 0 {
        assert(a + b =~= a);
        assert(produced(mapping, root, start, a) + produced(mapping, root, dir_after(start, a), b)
            =~= produced(mapping, root, start, a));
    } else {
        law_blocks_follow_the_events(mapping, root, start, a, b.drop_last());
        assert((a + b).drop_last() =~= a + b.drop_last());
        assert((a + b).last() == b.last());
        assert(produced(mapping, root, start, a + b) =~= produced(mapping, root, start, a)
            + produced(mapping, root, dir_after(start, a), b));
    }
}

/// One event gives one block or none, and only a directory whose metadata was found becomes
/// the directory of the files behind it.
pub proof fn law_one_event(
    mapping: EntryMapping,
    root: Seq<char>,
    start: Seq<char>,
    event: EntryEvent,
)
    ensures
        produced(mapping, root, start, seq![event]) == (match produced_by(
            mapping,
            root,
            start,
            event,
        ) {
            Some(b) => seq![b],
            None => Seq::<BlockView>::empty(),
        }),
        event matches EntryEvent::Dir { entry, meta: Some(_) } ==> dir_after(start, seq![event])
            == entry.path@,
        !(event is Dir) ==> dir_after(start, seq![event]) == start,
        (event matches EntryEvent::Dir { meta, .. } && meta is None) ==> dir_after(
            start,
            seq![event],
        ) == start,
{
    reveal_with_fuel(produced, 2);
    reveal_with_fuel(dir_after, 2);
    assert(seq![event].drop_last() =~= Seq::empty());
    assert(produced(mapping, root, start, seq![event]) =~= (match produced_by(
        mapping,
        root,
        start,
        event,
    ) {
        Some(b) => seq![b],
        None => Seq::<BlockView>::empty(),
    }));
}

/// A block that is handed on is fresh: nothing of its file was read or written.
pub proof fn law_blocks_are_fresh(b: ControlBlockVarient)
    requires
        untouched_block(b),
    ensures
        b matches ControlBlockVarient::FileControlBlock(f) ==> f.src_offset == 0 && f.dst_offset == 0
            && f.buffer@.len() == 0 && f.buffer_len == 0 && f.src_state == SourceHandleState::Inited
            && f.dst_state == TargetHandleState::Inited,
{
}

/// A block is seen with the paths and the metadata that it has.
pub proof fn law_blocks_are_seen_as_they_are(b: ControlBlockVarient)
    ensures
        b matches ControlBlockVarient::DirControlBlock(d) ==> block_view(b).src_path == d.src_path@
            && block_view(b).dst_path == d.dst_path@ && block_view(b).meta == MetaView::Dir(*d.meta),
        b matches ControlBlockVarient::FileControlBlock(f) ==> block_view(b).src_path
            == f.src_path@ && block_view(b).dst_path == f.dst_path@ && block_view(b).meta
            == MetaView::File(*f.meta),
{
}

} // verus!

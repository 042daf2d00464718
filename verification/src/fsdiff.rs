//! Comparing two directory trees.
use vstd::hash_map::StringHashMap;
use vstd::prelude::*;

use crate::metadata::clone_text;
use crate::paths;
use crate::text;

verus! {

// ---------------------------------------------------------------------------
// Checksums
// ---------------------------------------------------------------------------

/// The SHA-256 digest of some bytes, as `sha2` computes it.
pub uninterp spec fn sha256_digest(data: Seq<u8>) -> Seq<u8>;

/// Trusted: `sha2::Digest::digest` of `Sha256`. The digest depends on the bytes alone.
#[verifier::external_body]
fn sha256(data: &[u8]) -> (digest: Vec<u8>)
    ensures
        digest@ == sha256_digest(data@),
{
    <sha2::Sha256 as sha2::Digest>::digest(data).to_vec()
}

/// Bytes in base 16, two digits for each.
pub open spec fn hex(bytes: Seq<u8>) -> Seq<char>
    decreases bytes.len(),
{
    if bytes.len() == 0 {
        Seq::empty()
    } else {
        hex(bytes.drop_last()) + text::pad_left(
            text::digits(bytes.last() as nat, 16, false),
            2,
            '0',
        )
    }
}

pub fn hex_of(bytes: &Vec<u8>) -> (s: String)
    ensures
        s@ == hex(bytes@),
{
    let mut s = String::new();
    let mut i: usize = 0;
    assert(bytes@.take(0) =~= Seq::empty());
    assert(s@ =~= Seq::empty());
    while i < bytes.len()
        invariant
            i <= bytes@.len(),
            s@ == hex(bytes@.take(i as int)),
        decreases bytes@.len() - i,
    {
        assert(bytes@.take(i + 1).drop_last() =~= bytes@.take(i as int));
        s.append(text::hex_padded(bytes[i] as u64, 2, false).as_str());
        i += 1;
    }
    assert(bytes@.take(i as int) =~= bytes@);
    s
}

/// The checksum of the content of a file.
pub fn calculate_checksum(content: &[u8]) -> (s: String)
    ensures
        s@ == hex(sha256_digest(content@)),
{
    let digest = sha256(content);
    hex_of(&digest)
}

// ---------------------------------------------------------------------------
// Files
// ---------------------------------------------------------------------------

/// What is known of an entry of a tree.
#[derive(Debug)]
pub struct FileInfo {
    pub path: String,
    pub size: u64,
    /// Regular files have one, if they can be read.
    pub checksum: Option<String>,
    pub is_symlink: bool,
    pub symlink_target: Option<String>,
}

/// A path inside a tree, without an optional further prefix. The prefix is a text: it
/// may end in the middle of a name.
pub open spec fn entry_path(
    base: Seq<char>,
    path: Seq<char>,
    prefix: Option<Seq<char>>,
) -> Seq<char> {
    let rel = match paths::strip_prefix(path, base) {
        Some(rest) => rest,
        None => path,
    };
    match prefix {
        Some(p) => if p.is_prefix_of(rel) {
            let rest = rel.skip(p.len() as int);
            match paths::strip_prefix(rest, "/"@) {
                Some(below) => below,
                None => rest,
            }
        } else {
            rel
        },
        None => rel,
    }
}

/// The path under which an entry of a tree is compared.
pub fn relative_entry_path(base: &str, path: &str, strip_prefix: Option<&str>) -> (s: String)
    ensures
        s@ == entry_path(
            base@,
            path@,
            match strip_prefix {
                Some(p) => Some(p@),
                None => None,
            },
        ),
{
    let rel = match paths::strip_base(path, base) {
        Some(rest) => rest,
        None => path.to_owned(),
    };
    match strip_prefix {
        Some(p) => match text::strip_prefix(rel.as_str(), p) {
            Some(rest) => match paths::strip_base(rest.as_str(), "/") {
                Some(below) => below,
                None => rest,
            },
            None => rel,
        },
        None => rel,
    }
}

/// The entries of a tree, each under its path.
pub struct FileTable {
    pub files: Vec<(String, FileInfo)>,
    pub slots: StringHashMap<usize>,
}

impl FileTable {
    pub open spec fn wf(&self) -> bool {
        &&& forall|k: Seq<char>| #[trigger]
            self.slots@.contains_key(k) ==> self.slots@[k] < self.files@.len()
                && self.files@[self.slots@[k] as int].0@ == k
        &&& forall|i: int|
            0 <= i < self.files@.len() ==> self.slots@.contains_key((#[trigger] self.files@[i]).0@)
                && self.slots@[self.files@[i].0@] == i
    }

    /// What is known of the entry at a path.
    pub open spec fn entry(&self, path: Seq<char>) -> Option<FileInfo> {
        if self.slots@.contains_key(path) {
            Some(self.files@[self.slots@[path] as int].1)
        } else {
            None
        }
    }

    pub fn new() -> (r: Self)
        ensures
            r.wf(),
            r.files@.len() == 0,
            forall|p: Seq<char>| #[trigger] r.entry(p) is None,
    {
        FileTable { files: Vec::new(), slots: StringHashMap::new() }
    }

    /// Puts an entry into the table, in place of an earlier one at the same path.
    pub fn insert(&mut self, path: String, info: FileInfo)
        requires
            old(self).wf(),
        ensures
            final(self).wf(),
            final(self).entry(path@) == Some(info),
            forall|p: Seq<char>|
                p != path@ ==> #[trigger] final(self).entry(p) == old(self).entry(p),
    {
        let ghost before = *self;
        let found: Option<usize> = match self.slots.get(path.as_str()) {
            Some(i) => Some(*i),
            None => None,
        };
        match found {
            Some(i) => {
                self.files.set(i, (path, info));
                assert(forall|k: Seq<char>| #[trigger]
                    before.slots@.contains_key(k) && k != path@ ==> before.slots@[k] != i);
            },
            None => {
                let i: usize = self.files.len();
                let key = path.clone();
                self.files.push((path, info));
                self.slots.insert(key, i);
            },
        }
    }

    pub fn get(&self, path: &str) -> (r: Option<&FileInfo>)
        requires
            self.wf(),
        ensures
            match r {
                Some(info) => self.entry(path@) == Some(*info),
                None => self.entry(path@) is None,
            },
    {
        match self.slots.get(path) {
            Some(i) => Some(&self.files[*i].1),
            None => None,
        }
    }
}

// ---------------------------------------------------------------------------
// Comparing
// ---------------------------------------------------------------------------

/// How an entry of the source compares with the target.
#[derive(Debug, Clone, Copy, PartialEq, Eq, Structural)]
pub enum Verdict {
    SourceOnly,
    SymlinkMismatch,
    SizeMismatch,
    ChecksumMismatch,
    Identical,
}

/// Whether two links lead to the same path.
pub open spec fn same_link(a: Option<String>, b: Option<String>) -> bool {
    match (a, b) {
        (Some(x), Some(y)) => paths::components(x@) == paths::components(y@),
        (None, None) => true,
        _ => false,
    }
}

pub open spec fn same_text(a: Option<String>, b: Option<String>) -> bool {
    match (a, b) {
        (Some(x), Some(y)) => x@ == y@,
        (None, None) => true,
        _ => false,
    }
}

/// Links are compared by where they lead to, and everything else by its size and then by
/// its checksum.
pub open spec fn verdict(source: FileInfo, target: Option<FileInfo>) -> Verdict {
    match target {
        None => Verdict::SourceOnly,
        Some(t) => if source.is_symlink != t.is_symlink {
            Verdict::SymlinkMismatch
        } else if source.is_symlink {
            if same_link(source.symlink_target, t.symlink_target) {
                Verdict::Identical
            } else {
                Verdict::SymlinkMismatch
            }
        } else if source.size != t.size {
            Verdict::SizeMismatch
        } else if !same_text(source.checksum, t.checksum) {
            Verdict::ChecksumMismatch
        } else {
            Verdict::Identical
        },
    }
}

fn links_match(a: &Option<String>, b: &Option<String>) -> (r: bool)
    ensures
        r == same_link(*a, *b),
{
    match (a, b) {
        (Some(x), Some(y)) => paths::same_path(x.as_str(), y.as_str()),
        (None, None) => true,
        _ => false,
    }
}

fn texts_match(a: &Option<String>, b: &Option<String>) -> (r: bool)
    ensures
        r == same_text(*a, *b),
{
    match (a, b) {
        (Some(x), Some(y)) => text::same(x.as_str(), y.as_str()),
        (None, None) => true,
        _ => false,
    }
}

/// How an entry of the source compares with the entry at the same path of the target.
pub fn compare_entry(source: &FileInfo, target: Option<&FileInfo>) -> (v: Verdict)
    ensures
        v == verdict(
            *source,
            match target {
                Some(t) => Some(*t),
                None => None,
            },
        ),
{
    match target {
        None => Verdict::SourceOnly,
        Some(t) => {
            if source.is_symlink != t.is_symlink {
                Verdict::SymlinkMismatch
            } else if source.is_symlink {
                if links_match(&source.symlink_target, &t.symlink_target) {
                    Verdict::Identical
                } else {
                    Verdict::SymlinkMismatch
                }
            } else if source.size != t.size {
                Verdict::SizeMismatch
            } else if !texts_match(&source.checksum, &t.checksum) {
                Verdict::ChecksumMismatch
            } else {
                Verdict::Identical
            }
        },
    }
}

/// An entry is identical with itself, and two entries compare the same either way round.
pub proof fn law_comparison_is_symmetric(a: FileInfo, b: FileInfo)
    ensures
        verdict(a, Some(a)) == Verdict::Identical,
        verdict(a, Some(b)) == verdict(b, Some(a)),
{
}

/// Two entries that are no links are identical exactly where they have the same size and the
/// same checksum, and what is said of others tells which of the two differs; a difference in
/// size goes first.
pub proof fn law_content_decides(a: FileInfo, b: FileInfo)
    requires
        !a.is_symlink,
        !b.is_symlink,
    ensures
        verdict(a, Some(b)) == Verdict::Identical <==> a.size == b.size && text_of(a.checksum)
            == text_of(b.checksum),
        verdict(a, Some(b)) == Verdict::SizeMismatch <==> a.size != b.size,
        verdict(a, Some(b)) == Verdict::ChecksumMismatch <==> a.size == b.size && text_of(
            a.checksum,
        ) != text_of(b.checksum),
{
}

/// Links are judged by where they lead to alone: neither sizes nor checksums matter. A link
/// is never identical with anything but a link.
pub proof fn law_link_ends_decide(a: FileInfo, b: FileInfo)
    requires
        a.is_symlink || b.is_symlink,
    ensures
        verdict(a, Some(b)) == Verdict::Identical || verdict(a, Some(b))
            == Verdict::SymlinkMismatch,
        a.is_symlink != b.is_symlink ==> verdict(a, Some(b)) == Verdict::SymlinkMismatch,
        a.is_symlink && b.is_symlink && text_of(a.symlink_target) == text_of(b.symlink_target)
            ==> verdict(a, Some(b)) == Verdict::Identical,
        a.is_symlink && b.is_symlink && a.symlink_target is Some != b.symlink_target is Some
            ==> verdict(a, Some(b)) == Verdict::SymlinkMismatch,
        (a.symlink_target matches Some(x) && b.symlink_target matches Some(y)
            && paths::components(x@) != paths::components(y@)) ==> verdict(a, Some(b))
            == Verdict::SymlinkMismatch,
{
}

/// An entry is found only in the source exactly where the target has none.
pub proof fn law_missing_entries_are_source_only(a: FileInfo, target: Option<FileInfo>)
    ensures
        verdict(a, target) == Verdict::SourceOnly <==> target is None,
{
}

/// Being identical carries over: what is identical with an entry is identical with all that
/// the entry is identical with.
pub proof fn law_identity_carries_over(a: FileInfo, b: FileInfo, c: FileInfo)
    requires
        verdict(a, Some(b)) == Verdict::Identical,
        verdict(b, Some(c)) == Verdict::Identical,
    ensures
        verdict(a, Some(c)) == Verdict::Identical,
{
}

/// An optional text as characters.
pub open spec fn text_of(t: Option<String>) -> Option<Seq<char>> {
    match t {
        Some(s) => Some(s@),
        None => None,
    }
}

#[derive(Debug)]
pub struct DiffReport {
    pub source_only: Vec<String>,
    pub target_only: Vec<String>,
    pub size_mismatch: Vec<(String, u64, u64)>,
    pub checksum_mismatch: Vec<String>,
    pub symlink_mismatch: Vec<(String, Option<String>, Option<String>)>,
    pub identical: Vec<String>,
}

impl DiffReport {
    pub fn new() -> (r: Self)
        ensures
            r.source_only@.len() == 0,
            r.target_only@.len() == 0,
            r.size_mismatch@.len() == 0,
            r.checksum_mismatch@.len() == 0,
            r.symlink_mismatch@.len() == 0,
            r.identical@.len() == 0,
    {
        DiffReport {
            source_only: Vec::new(),
            target_only: Vec::new(),
            size_mismatch: Vec::new(),
            checksum_mismatch: Vec::new(),
            symlink_mismatch: Vec::new(),
            identical: Vec::new(),
        }
    }

    pub open spec fn differs(&self) -> bool {
        self.source_only@.len() > 0 || self.target_only@.len() > 0 || self.size_mismatch@.len() > 0
            || self.checksum_mismatch@.len() > 0 || self.symlink_mismatch@.len() > 0
    }

    pub fn has_differences(&self) -> (r: bool)
        ensures
            r == self.differs(),
    {
        self.source_only.len() > 0 || self.target_only.len() > 0 || self.size_mismatch.len() > 0
            || self.checksum_mismatch.len() > 0 || self.symlink_mismatch.len() > 0
    }
}

/// The paths among the first `n` source entries that compare as `v`.
pub open spec fn judged(source: FileTable, target: FileTable, v: Verdict, n: int) -> Seq<Seq<char>>
    decreases n,
{
    if n <= 0 {
        Seq::empty()
    } else {
        let earlier = judged(source, target, v, n - 1);
        let (path, info) = source.files@[n - 1];
        if verdict(info, target.entry(path@)) == v {
            earlier.push(path@)
        } else {
            earlier
        }
    }
}

/// The paths among the first `n` target entries that the source does not have.
pub open spec fn missing(source: FileTable, target: FileTable, n: int) -> Seq<Seq<char>>
    decreases n,
{
    if n <= 0 {
        Seq::empty()
    } else {
        let earlier = missing(source, target, n - 1);
        let path = target.files@[n - 1].0@;
        if source.entry(path) is None {
            earlier.push(path)
        } else {
            earlier
        }
    }
}

/// Whether a size mismatch tells of the two entries at its path.
pub open spec fn tells_sizes(m: (String, u64, u64), source: FileTable, target: FileTable) -> bool {
    &&& source.entry(m.0@) matches Some(s) && s.size == m.1
    &&& target.entry(m.0@) matches Some(t) && t.size == m.2
}

/// Whether a link mismatch tells of the two entries at its path.
pub open spec fn tells_links(
    m: (String, Option<String>, Option<String>),
    source: FileTable,
    target: FileTable,
) -> bool {
    &&& source.entry(m.0@) matches Some(s) && s.symlink_target == m.1
    &&& target.entry(m.0@) matches Some(t) && t.symlink_target == m.2
}

pub open spec fn size_paths(v: Seq<(String, u64, u64)>) -> Seq<Seq<char>> {
    v.map_values(|m: (String, u64, u64)| m.0@)
}

pub open spec fn link_paths(v: Seq<(String, Option<String>, Option<String>)>) -> Seq<Seq<char>> {
    v.map_values(|m: (String, Option<String>, Option<String>)| m.0@)
}

/// Whether a report covers the first `n` source entries and the first `m` target entries.
pub open spec fn reports(
    r: DiffReport,
    source: FileTable,
    target: FileTable,
    n: int,
    m: int,
) -> bool {
    &&& text::views(r.source_only@) == judged(source, target, Verdict::SourceOnly, n)
    &&& text::views(r.checksum_mismatch@) == judged(source, target, Verdict::ChecksumMismatch, n)
    &&& text::views(r.identical@) == judged(source, target, Verdict::Identical, n)
    &&& size_paths(r.size_mismatch@) == judged(source, target, Verdict::SizeMismatch, n)
    &&& link_paths(r.symlink_mismatch@) == judged(source, target, Verdict::SymlinkMismatch, n)
    &&& text::views(r.target_only@) == missing(source, target, m)
    &&& forall|i: int|
        0 <= i < r.size_mismatch@.len() ==> tells_sizes(
            #[trigger] r.size_mismatch@[i],
            source,
            target,
        )
    &&& forall|i: int|
        0 <= i < r.symlink_mismatch@.len() ==> tells_links(
            #[trigger] r.symlink_mismatch@[i],
            source,
            target,
        )
}

/// Compares two trees: each entry of the source appears in the report once, and so does
/// each entry that the target alone has.
pub fn compare_directories(source: &FileTable, target: &FileTable) -> (r: DiffReport)
    requires
        source.wf(),
        target.wf(),
    ensures
        reports(r, *source, *target, source.files@.len() as int, target.files@.len() as int),
{
    let mut r = DiffReport::new();
    let mut i: usize = 0;
    assert(text::views(r.source_only@) =~= Seq::empty());
    assert(text::views(r.checksum_mismatch@) =~= Seq::empty());
    assert(text::views(r.identical@) =~= Seq::empty());
    assert(text::views(r.target_only@) =~= Seq::empty());
    assert(size_paths(r.size_mismatch@) =~= Seq::empty());
    assert(link_paths(r.symlink_mismatch@) =~= Seq::empty());
    while i < source.files.len()
        invariant
            i <= source.files@.len(),
            source.wf(),
            target.wf(),
            reports(r, *source, *target, i as int, 0),
        decreases source.files@.len() - i,
    {
        let path = &source.files[i].0;
        let info = &source.files[i].1;
        assert(source.entry(path@) == Some(*info));
        let other = target.get(path.as_str());
        let ghost before = r;
        match compare_entry(info, other) {
            Verdict::SourceOnly => {
                r.source_only.push(path.clone());
                assert(text::views(r.source_only@) =~= text::views(before.source_only@).push(
                    path@,
                ));
            },
            Verdict::ChecksumMismatch => {
                r.checksum_mismatch.push(path.clone());
                assert(text::views(r.checksum_mismatch@) =~= text::views(
                    before.checksum_mismatch@,
                ).push(path@));
            },
            Verdict::Identical => {
                r.identical.push(path.clone());
                assert(text::views(r.identical@) =~= text::views(before.identical@).push(path@));
            },
            Verdict::SizeMismatch => {
                let size: u64 = match other {
                    Some(t) => t.size,
                    None => 0,
                };
                r.size_mismatch.push((path.clone(), info.size, size));
                assert(size_paths(r.size_mismatch@) =~= size_paths(before.size_mismatch@).push(
                    path@,
                ));
            },
            Verdict::SymlinkMismatch => {
                let link = match other {
                    Some(t) => clone_text(&t.symlink_target),
                    None => None,
                };
                r.symlink_mismatch.push((path.clone(), clone_text(&info.symlink_target), link));
                assert(link_paths(r.symlink_mismatch@) =~= link_paths(
                    before.symlink_mismatch@,
                ).push(path@));
            },
        }
        i += 1;
    }
    let mut k: usize = 0;
    while k < target.files.len()
        invariant
            k <= target.files@.len(),
            source.wf(),
            target.wf(),
            reports(r, *source, *target, source.files@.len() as int, k as int),
        decreases target.files@.len() - k,
    {
        let path = &target.files[k].0;
        let ghost before = r;
        if source.get(path.as_str()).is_none() {
            r.target_only.push(path.clone());
            assert(text::views(r.target_only@) =~= text::views(before.target_only@).push(path@));
        }
        k += 1;
    }
    r
}

proof fn lemma_all_identical(tree: FileTable, v: Verdict, n: int)
    requires
        tree.wf(),
        0 <= n <= tree.files@.len(),
    ensures
        v != Verdict::Identical ==> judged(tree, tree, v, n).len() == 0,
        judged(tree, tree, Verdict::Identical, n).len() == n,
        missing(tree, tree, n).len() == 0,
    decreases n,
{
    if n > 0 {
        lemma_all_identical(tree, v, n - 1);
        let (path, info) = tree.files@[n - 1];
        assert(tree.entry(path@) == Some(info));
    }
}

/// A tree does not differ from itself.
pub proof fn law_tree_equals_itself(tree: FileTable, r: DiffReport)
    requires
        tree.wf(),
        reports(r, tree, tree, tree.files@.len() as int, tree.files@.len() as int),
    ensures
        !r.differs(),
        r.identical@.len() == tree.files@.len(),
{
    let n = tree.files@.len() as int;
    lemma_all_identical(tree, Verdict::SourceOnly, n);
    lemma_all_identical(tree, Verdict::ChecksumMismatch, n);
    lemma_all_identical(tree, Verdict::SizeMismatch, n);
    lemma_all_identical(tree, Verdict::SymlinkMismatch, n);
    assert(text::views(r.source_only@).len() == r.source_only@.len());
    assert(text::views(r.checksum_mismatch@).len() == r.checksum_mismatch@.len());
    assert(text::views(r.identical@).len() == r.identical@.len());
    assert(text::views(r.target_only@).len() == r.target_only@.len());
    assert(size_paths(r.size_mismatch@).len() == r.size_mismatch@.len());
    assert(link_paths(r.symlink_mismatch@).len() == r.symlink_mismatch@.len());
}

proof fn lemma_judged_count(source: FileTable, target: FileTable, n: int)
    requires
        0 <= n <= source.files@.len(),
    ensures
        judged(source, target, Verdict::SourceOnly, n).len() + judged(
            source,
            target,
            Verdict::ChecksumMismatch,
            n,
        ).len() + judged(source, target, Verdict::Identical, n).len() + judged(
            source,
            target,
            Verdict::SizeMismatch,
            n,
        ).len() + judged(source, target, Verdict::SymlinkMismatch, n).len() == n,
    decreases n,
{
    if n > 0 {
        lemma_judged_count(source, target, n - 1);
    }
}

/// Every entry of the source is counted in exactly one list of the report.
pub proof fn law_every_entry_is_reported(
    source: FileTable,
    target: FileTable,
    r: DiffReport,
)
    requires
        reports(r, source, target, source.files@.len() as int, target.files@.len() as int),
    ensures
        r.source_only@.len() + r.checksum_mismatch@.len() + r.identical@.len()
            + r.size_mismatch@.len() + r.symlink_mismatch@.len() == source.files@.len(),
{
    lemma_judged_count(source, target, source.files@.len() as int);
    assert(text::views(r.source_only@).len() == r.source_only@.len());
    assert(text::views(r.checksum_mismatch@).len() == r.checksum_mismatch@.len());
    assert(text::views(r.identical@).len() == r.identical@.len());
    assert(size_paths(r.size_mismatch@).len() == r.size_mismatch@.len());
    assert(link_paths(r.symlink_mismatch@).len() == r.symlink_mismatch@.len());
}

// ---------------------------------------------------------------------------
// Printing
// ---------------------------------------------------------------------------

fn count_line(label: &str, n: usize) -> (s: String)
    ensures
        s@ == label@ + text::decimal(n as nat),
{
    text::concat(label, text::decimal_string(n as u64).as_str())
}

/// The lines of the summary of a report.
pub open spec fn summary_lines(r: DiffReport) -> Seq<Seq<char>> {
    seq![
        ""@,
        "=== Diff Report Summary ==="@,
        "Files only in source:      "@ + text::decimal(r.source_only@.len()),
        "Files only in target:      "@ + text::decimal(r.target_only@.len()),
        "Files with size mismatch:  "@ + text::decimal(r.size_mismatch@.len()),
        "Files with checksum diff:  "@ + text::decimal(r.checksum_mismatch@.len()),
        "Files with symlink diff:   "@ + text::decimal(r.symlink_mismatch@.len()),
        "Identical files:           "@ + text::decimal(r.identical@.len()),
        ""@,
        (if r.differs() {
            "Result: DIFFERENCES FOUND"@
        } else {
            "Result: DIRECTORIES ARE IDENTICAL"@
        }),
    ]
}

/// The lines of one section: none where it is empty.
pub open spec fn section(title: Seq<char>, mark: Seq<char>, items: Seq<Seq<char>>) -> Seq<Seq<char>> {
    if items.len() == 0 {
        Seq::empty()
    } else {
        seq![""@, title] + items.map_values(|p: Seq<char>| mark + p)
    }
}

fn add_section(out: &mut Vec<String>, title: &str, mark: &str, items: &Vec<String>)
    ensures
        text::views(final(out)@) == text::views(old(out)@) + section(
            title@,
            mark@,
            text::views(items@),
        ),
{
    let ghost before = text::views(out@);
    let ghost all = text::views(items@);
    if items.len() == 0 {
        assert(text::views(out@) =~= before + section(title@, mark@, all));
        return;
    }
    out.push(text::copy_of(""));
    out.push(text::copy_of(title));
    let ghost marked = all.map_values(|p: Seq<char>| mark@ + p);
    let mut i: usize = 0;
    assert(text::views(out@) =~= before + seq![""@, title@] + marked.take(0));
    while i < items.len()
        invariant
            i <= items@.len(),
            all == text::views(items@),
            marked == all.map_values(|p: Seq<char>| mark@ + p),
            text::views(out@) == before + seq![""@, title@] + marked.take(i as int),
        decreases items@.len() - i,
    {
        let ghost here = text::views(out@);
        let line = text::concat(mark, items[i].as_str());
        assert(marked[i as int] == line@);
        out.push(line);
        assert(text::views(out@) =~= here.push(marked[i as int]));
        assert(marked.take(i + 1) =~= marked.take(i as int).push(marked[i as int]));
        assert(text::views(out@) =~= before + seq![""@, title@] + marked.take(i + 1));
        i += 1;
    }
    assert(marked.take(i as int) =~= marked);
    assert(text::views(out@) =~= before + section(title@, mark@, all));
}

/// What is printed about a size mismatch, behind its mark.
pub open spec fn size_text(m: (String, u64, u64)) -> Seq<char> {
    m.0@ + " (source: "@ + text::decimal(m.1 as nat) + " bytes, target: "@ + text::decimal(
        m.2 as nat,
    ) + " bytes)"@
}

fn size_texts(v: &Vec<(String, u64, u64)>) -> (out: Vec<String>)
    ensures
        text::views(out@) == v@.map_values(|m: (String, u64, u64)| size_text(m)),
{
    let mut out: Vec<String> = Vec::new();
    let mut i: usize = 0;
    while i < v.len()
        invariant
            i <= v@.len(),
            out@.len() == i,
            forall|k: int| 0 <= k < i ==> (#[trigger] out@[k])@ == size_text(v@[k]),
        decreases v@.len() - i,
    {
        let mut s = text::concat(v[i].0.as_str(), " (source: ");
        s.append(text::decimal_string(v[i].1).as_str());
        s.append(" bytes, target: ");
        s.append(text::decimal_string(v[i].2).as_str());
        s.append(" bytes)");
        out.push(s);
        i += 1;
    }
    assert(text::views(out@) =~= v@.map_values(|m: (String, u64, u64)| size_text(m)));
    out
}

/// How `{:?}` shows a path.
pub uninterp spec fn path_debug(path: Seq<char>) -> Seq<char>;

/// Trusted: the `Debug` form of `std::path::Path`. The text depends on the path alone.
#[verifier::external_body]
fn debug_of_path(path: &str) -> (s: String)
    ensures
        s@ == path_debug(path@),
{
    format!("{:?}", std::path::Path::new(path))
}

/// How the end of a link is shown: its path, where there is one.
pub open spec fn shown_link(link: Option<String>) -> Seq<char> {
    match link {
        Some(path) => "Some("@ + path_debug(path@) + ")"@,
        None => "None"@,
    }
}

fn show_link(link: &Option<String>) -> (s: String)
    ensures
        s@ == shown_link(*link),
{
    match link {
        Some(path) => {
            let mut s = text::concat("Some(", debug_of_path(path.as_str()).as_str());
            s.append(")");
            s
        },
        None => text::copy_of("None"),
    }
}

/// What is printed about a link mismatch, behind its mark: its path, and in two lines
/// where the links lead to.
pub open spec fn link_text(path: Seq<char>, source: Seq<char>, target: Seq<char>) -> Seq<char> {
    path + "\n      source -> "@ + source + "\n      target -> "@ + target
}

impl DiffReport {
    pub fn print_summary(&self) -> (out: Vec<String>)
        ensures
            text::views(out@) == summary_lines(*self),
    {
        let result = if self.has_differences() {
            "Result: DIFFERENCES FOUND"
        } else {
            "Result: DIRECTORIES ARE IDENTICAL"
        };
        let out: Vec<String> = vec![
            text::copy_of(""),
            text::copy_of("=== Diff Report Summary ==="),
            count_line("Files only in source:      ", self.source_only.len()),
            count_line("Files only in target:      ", self.target_only.len()),
            count_line("Files with size mismatch:  ", self.size_mismatch.len()),
            count_line("Files with checksum diff:  ", self.checksum_mismatch.len()),
            count_line("Files with symlink diff:   ", self.symlink_mismatch.len()),
            count_line("Identical files:           ", self.identical.len()),
            text::copy_of(""),
            text::copy_of(result),
        ];
        assert(text::views(out@) =~= summary_lines(*self));
        out
    }

    /// The lines of the sections of a report.
    pub fn print_details(&self) -> (out: Vec<String>)
        ensures
            text::views(out@) == section(
                "--- Files only in source ---"@,
                "  + "@,
                text::views(self.source_only@),
            ) + section(
                "--- Files only in target ---"@,
                "  - "@,
                text::views(self.target_only@),
            ) + section(
                "--- Files with size mismatch ---"@,
                "  ! "@,
                self.size_mismatch@.map_values(|m: (String, u64, u64)| size_text(m)),
            ) + section(
                "--- Files with checksum mismatch ---"@,
                "  ! "@,
                text::views(self.checksum_mismatch@),
            ) + section(
                "--- Files with symlink mismatch ---"@,
                "  ! "@,
                link_texts(self.symlink_mismatch@),
            ) + section(
                "--- Identical files ("@ + text::decimal(self.identical@.len()) + ") ---"@,
                "  = "@,
                text::views(self.identical@),
            ),
    {
        let sizes = size_texts(&self.size_mismatch);
        let mut shown: Vec<String> = Vec::new();
        let mut i: usize = 0;
        while i < self.symlink_mismatch.len()
            invariant
                i <= self.symlink_mismatch@.len(),
                shown@.len() == i,
                forall|k: int|
                    0 <= k < i ==> (#[trigger] shown@[k])@ == link_text(
                        self.symlink_mismatch@[k].0@,
                        shown_link(self.symlink_mismatch@[k].1),
                        shown_link(self.symlink_mismatch@[k].2),
                    ),
            decreases self.symlink_mismatch@.len() - i,
        {
            let mut s = text::concat(
                self.symlink_mismatch[i].0.as_str(),
                "\n      source -> ",
            );
            s.append(show_link(&self.symlink_mismatch[i].1).as_str());
            s.append("\n      target -> ");
            s.append(show_link(&self.symlink_mismatch[i].2).as_str());
            shown.push(s);
            i += 1;
        }
        assert(text::views(shown@) =~= link_texts(self.symlink_mismatch@));
        let mut out: Vec<String> = Vec::new();
        assert(text::views(out@) =~= Seq::empty());
        add_section(&mut out, "--- Files only in source ---", "  + ", &self.source_only);
        add_section(&mut out, "--- Files only in target ---", "  - ", &self.target_only);
        add_section(&mut out, "--- Files with size mismatch ---", "  ! ", &sizes);
        add_section(
            &mut out,
            "--- Files with checksum mismatch ---",
            "  ! ",
            &self.checksum_mismatch,
        );
        add_section(&mut out, "--- Files with symlink mismatch ---", "  ! ", &shown);
        let mut title = count_line("--- Identical files (", self.identical.len());
        title.append(") ---");
        add_section(&mut out, title.as_str(), "  = ", &self.identical);
        assert(Seq::<Seq<char>>::empty() + section(
            "--- Files only in source ---"@,
            "  + "@,
            text::views(self.source_only@),
        ) =~= section(
            "--- Files only in source ---"@,
            "  + "@,
            text::views(self.source_only@),
        ));
        out
    }
}

/// What is printed about the link mismatches.
pub open spec fn link_texts(
    mismatches: Seq<(String, Option<String>, Option<String>)>,
) -> Seq<Seq<char>> {
    Seq::new(
        mismatches.len(),
        |i: int|
            link_text(
                mismatches[i].0@,
                shown_link(mismatches[i].1),
                shown_link(mismatches[i].2),
            ),
    )
}

/// Inside a tree an entry is known without the tree in front of it. A prefix that it begins
/// with is left out, and a slash behind the prefix with it.
pub proof fn law_entries_are_known_inside_their_tree(
    base: Seq<char>,
    front: Seq<char>,
    rel: Seq<char>,
)
    requires
        base.len() > 0,
        paths::is_clean(rel),
        paths::is_clean(front),
    ensures
        entry_path(base, paths::join(base, rel), None) == rel,
        !front.is_prefix_of(rel) ==> entry_path(base, paths::join(base, rel), Some(front)) == rel,
        entry_path(base, paths::join(base, front + (seq!['/'] + rel)), Some(front)) == rel,
{
    reveal_strlit("/");
    assert("/"@ =~= seq!['/']);
    paths::law_strip_undoes_join(base, rel);
    let whole = front + (seq!['/'] + rel);
    paths::lemma_split_append(front, rel);
    paths::lemma_first_piece(front);
    paths::lemma_first_piece(rel);
    assert(front.push('/') + rel =~= whole);
    assert(paths::is_clean(whole));
    paths::law_strip_undoes_join(base, whole);
    assert(front.is_prefix_of(whole)) by {
        assert(whole.take(front.len() as int) =~= front);
    }
    assert(whole.skip(front.len() as int) =~= seq!['/'] + rel);
    paths::law_leading_slash_is_stripped(rel);
}

/// Bytes are written with two digits each, so that each is read back from its own digits.
pub proof fn law_bytes_are_written_in_two_digits(a: Seq<u8>, b: Seq<u8>, x: u8)
    ensures
        hex(a + b) == hex(a) + hex(b),
        hex(a).len() == 2 * a.len(),
        text::parse_unsigned(hex(seq![x]), 16, 255) == Ok::<nat, text::NumberError>(x as nat),
    decreases b.len(), a.len(),
{
    reveal_with_fuel(hex, 2);
    assert(seq![x].drop_last() =~= Seq::empty());
    text::law_padded_number_reads_back(x as nat, 16, 2, 255);
    assert(hex(seq![x]) =~= text::pad_left(text::digits(x as nat, 16, false), 2, '0'));
    lemma_two_digits(a);
    if b.len() == 0 {
        assert(a + b =~= a);
        assert(hex(a + b) =~= hex(a) + hex(b));
    } else {
        law_bytes_are_written_in_two_digits(a, b.drop_last(), x);
        assert((a + b).drop_last() =~= a + b.drop_last());
        assert((a + b).last() == b.last());
        assert(hex(a + b) =~= hex(a) + hex(b));
    }
}

proof fn lemma_two_digits(a: Seq<u8>)
    ensures
        hex(a).len() == 2 * a.len(),
    decreases a.len(),
{
    if a.len() > 0 {
        lemma_two_digits(a.drop_last());
        let n = a.last() as nat;
        reveal_with_fuel(text::digits, 3);
        assert(n / 16 < 16);
        assert(text::digits(n, 16, false).len() <= 2);
        text::lemma_digits_nonempty(n, 16, false);
    }
}

/// Trees differ exactly where a report lists an entry as anything but identical.
pub proof fn law_reports_differ_by_what_they_list(r: DiffReport)
    ensures
        !r.differs() <==> r.source_only@.len() == 0 && r.target_only@.len() == 0
            && r.size_mismatch@.len() == 0 && r.checksum_mismatch@.len() == 0
            && r.symlink_mismatch@.len() == 0,
        r.differs() <==> summary_lines(r).last() == "Result: DIFFERENCES FOUND"@,
        summary_lines(r).len() == 10,
{
    reveal_strlit("Result: DIFFERENCES FOUND");
    reveal_strlit("Result: DIRECTORIES ARE IDENTICAL");
    assert("Result: DIFFERENCES FOUND"@.len() != "Result: DIRECTORIES ARE IDENTICAL"@.len());
}

/// A section has a line for each of its items, with its mark in front, and is left out where
/// there is none.
pub proof fn law_sections_list_their_items(
    title: Seq<char>,
    mark: Seq<char>,
    items: Seq<Seq<char>>,
    i: int,
)
    requires
        0 <= i < items.len(),
    ensures
        section(title, mark, items).len() == items.len() + 2,
        section(title, mark, items)[1] == title,
        section(title, mark, items)[i + 2] == mark + items[i],
        section(title, mark, Seq::empty()).len() == 0,
{
}

/// A mismatch that is reported tells of both entries as they are.
pub proof fn law_mismatches_tell_of_both_sides(
    r: DiffReport,
    source: FileTable,
    target: FileTable,
    n: int,
    m: int,
    i: int,
)
    requires
        reports(r, source, target, n, m),
    ensures
        0 <= i < r.size_mismatch@.len() ==> {
            let x = r.size_mismatch@[i];
            &&& source.entry(x.0@) matches Some(s) && s.size == x.1
            &&& target.entry(x.0@) matches Some(t) && t.size == x.2
        },
        0 <= i < r.symlink_mismatch@.len() ==> {
            let x = r.symlink_mismatch@[i];
            &&& source.entry(x.0@) matches Some(s) && s.symlink_target == x.1
            &&& target.entry(x.0@) matches Some(t) && t.symlink_target == x.2
        },
{
}

} // verus!

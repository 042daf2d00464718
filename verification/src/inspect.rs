//! Looking into the files that a scan leaves behind: what kind of file it is, what is in
//! it, and how that is shown.
use vstd::prelude::*;

use crate::paths;
use crate::text;

verus! {

// ---------------------------------------------------------------------------
// Input and output
// ---------------------------------------------------------------------------

#[derive(Debug, Clone, Copy, PartialEq, Eq, Structural)]
pub enum OutputFormat {
    Json,
    Csv,
    Tab,
}

/// The output format: a shortcut where one is given, otherwise the option.
pub fn resolve_format(json: bool, csv: bool, tab: bool, format: OutputFormat) -> (r: OutputFormat)
    ensures
        r == (if json {
            OutputFormat::Json
        } else if csv {
            OutputFormat::Csv
        } else if tab {
            OutputFormat::Tab
        } else {
            format
        }),
{
    if json {
        OutputFormat::Json
    } else if csv {
        OutputFormat::Csv
    } else if tab {
        OutputFormat::Tab
    } else {
        format
    }
}

#[derive(Debug, Clone, Copy, PartialEq, Eq, Structural)]
pub enum InspectInputKind {
    Meta,
    Dcache,
    Fcache,
    Control,
}

pub open spec fn kind_word(kind: InspectInputKind) -> Seq<char> {
    match kind {
        InspectInputKind::Meta => "meta"@,
        InspectInputKind::Dcache => "dcache"@,
        InspectInputKind::Fcache => "fcache"@,
        InspectInputKind::Control => "control"@,
    }
}

pub fn inspect_kind_name(kind: InspectInputKind) -> (s: &'static str)
    ensures
        s@ == kind_word(kind),
{
    match kind {
        InspectInputKind::Meta => "meta",
        InspectInputKind::Dcache => "dcache",
        InspectInputKind::Fcache => "fcache",
        InspectInputKind::Control => "control",
    }
}

/// The file that is to be looked into, with its kind where that is given.
#[derive(Debug)]
pub struct InspectInput {
    pub path: String,
    pub kind: Option<InspectInputKind>,
}

/// The file that is named on the command line: first by one of the options that give its
/// kind, then without.
pub fn resolve_input(
    meta: Option<String>,
    dcache: Option<String>,
    fcache: Option<String>,
    control: Option<String>,
    input: Option<String>,
) -> (r: Result<InspectInput, String>)
    ensures
        names_input(meta, dcache, fcache, control, input, r),
{
    match meta {
        Some(path) => {
            return Ok(InspectInput { path, kind: Some(InspectInputKind::Meta) });
        },
        None => {},
    }
    match dcache {
        Some(path) => {
            return Ok(InspectInput { path, kind: Some(InspectInputKind::Dcache) });
        },
        None => {},
    }
    match fcache {
        Some(path) => {
            return Ok(InspectInput { path, kind: Some(InspectInputKind::Fcache) });
        },
        None => {},
    }
    match control {
        Some(path) => {
            return Ok(InspectInput { path, kind: Some(InspectInputKind::Control) });
        },
        None => {},
    }
    match input {
        Some(path) => Ok(InspectInput { path, kind: None }),
        None => Err(
            text::copy_of(
                "missing input file; pass FILE or one of --meta/--dcache/--fcache/--control",
            ),
        ),
    }
}

// ---------------------------------------------------------------------------
// Detection
// ---------------------------------------------------------------------------

pub const TAG_DIR: u8 = 1;

pub const TAG_FILE: u8 = 2;

/// Bytes of an entry of a directory cache.
pub const DIR_CACHE_ENTRY_SIZE: usize = 32;

/// Bytes of an entry of a file cache.
pub const FILE_CACHE_ENTRY_SIZE: usize = 20;

/// The name of a file, or nothing.
pub open spec fn name_or_empty(path: Seq<char>) -> Seq<char> {
    match paths::file_name(path) {
        Some(n) => n,
        None => Seq::empty(),
    }
}

fn name_of(path: &str) -> (s: String)
    ensures
        s@ == name_or_empty(path@),
{
    match paths::file_name_of(path) {
        Some(n) => n,
        None => {
            let s = String::new();
            assert(s@ =~= Seq::empty());
            s
        },
    }
}

/// The kind of a file by its name alone.
pub open spec fn kind_by_name(path: Seq<char>) -> Option<InspectInputKind> {
    let name = name_or_empty(path);
    if "meta_"@.is_prefix_of(name) {
        Some(InspectInputKind::Meta)
    } else if "dcache_"@.is_prefix_of(name) {
        Some(InspectInputKind::Dcache)
    } else if "fcache_"@.is_prefix_of(name) {
        Some(InspectInputKind::Fcache)
    } else if ".control.bin"@.is_suffix_of(name) {
        Some(InspectInputKind::Control)
    } else {
        None
    }
}

/// The kind of a file by its name alone.
pub fn detect_by_name(path: &str) -> (r: Option<InspectInputKind>)
    ensures
        r == kind_by_name(path@),
{
    let name = name_of(path);
    if text::starts_with(name.as_str(), "meta_") {
        Some(InspectInputKind::Meta)
    } else if text::starts_with(name.as_str(), "dcache_") {
        Some(InspectInputKind::Dcache)
    } else if text::starts_with(name.as_str(), "fcache_") {
        Some(InspectInputKind::Fcache)
    } else if text::ends_with(name.as_str(), ".control.bin") {
        Some(InspectInputKind::Control)
    } else {
        None
    }
}

/// What all control files begin with: `#FPT_`.
pub open spec fn control_mark() -> Seq<u8> {
    seq![35u8, 70u8, 80u8, 84u8, 95u8]
}

/// The kind of a file by its first bytes, its length and its name.
pub open spec fn kind_by_content(path: Seq<char>, prefix: Seq<u8>, len: u64) -> Option<
    InspectInputKind,
> {
    let name = name_or_empty(path);
    if prefix.len() == 0 {
        None
    } else if control_mark().is_prefix_of(prefix) {
        Some(InspectInputKind::Control)
    } else if len % 32 == 0 && len != 0 && text::contains(name, "dcache"@) {
        Some(InspectInputKind::Dcache)
    } else if len % 20 == 0 && len != 0 && text::contains(name, "fcache"@) {
        Some(InspectInputKind::Fcache)
    } else if prefix[0] == TAG_DIR || prefix[0] == TAG_FILE {
        Some(InspectInputKind::Meta)
    } else {
        None
    }
}

/// The kind of a file by its name or, where the name does not tell, by what it holds.
pub open spec fn input_kind(path: Seq<char>, prefix: Seq<u8>, len: u64) -> Option<
    InspectInputKind,
> {
    match kind_by_name(path) {
        Some(kind) => Some(kind),
        None => kind_by_content(path, prefix, len),
    }
}

/// The kind of a file: by its name or, where the name does not tell, by the bytes that it
/// begins with and by its length.
pub fn detect_input_kind(path: &str, prefix: &Vec<u8>, len: u64) -> (r: Result<
    InspectInputKind,
    String,
>)
    ensures
        tells_kind(path@, prefix@, len, r),
{
    match detect_by_name(path) {
        Some(kind) => {
            return Ok(kind);
        },
        None => {},
    }
    if prefix.len() == 0 {
        return Err(text::concat("cannot detect empty file type for ", path));
    }
    let marked = prefix.len() >= 5 && prefix[0] == 35 && prefix[1] == 70 && prefix[2] == 80
        && prefix[3] == 84 && prefix[4] == 95;
    proof {
        if marked {
            assert(control_mark() =~= prefix@.take(5));
        } else if control_mark().is_prefix_of(prefix@) {
            assert(prefix@.take(5)[0] == control_mark()[0]);
            assert(prefix@.take(5)[1] == control_mark()[1]);
            assert(prefix@.take(5)[2] == control_mark()[2]);
            assert(prefix@.take(5)[3] == control_mark()[3]);
            assert(prefix@.take(5)[4] == control_mark()[4]);
        }
    }
    if marked {
        return Ok(InspectInputKind::Control);
    }
    let name = name_of(path);
    if len % 32 == 0 && len != 0 && text::contains_text(name.as_str(), "dcache") {
        return Ok(InspectInputKind::Dcache);
    }
    if len % 20 == 0 && len != 0 && text::contains_text(name.as_str(), "fcache") {
        return Ok(InspectInputKind::Fcache);
    }
    if prefix[0] == TAG_DIR || prefix[0] == TAG_FILE {
        return Ok(InspectInputKind::Meta);
    }
    let mut s = text::concat("cannot detect file type for ", path);
    s.append("; use --meta/--dcache/--fcache/--control");
    Err(s)
}

#[derive(Debug, Clone, Copy, PartialEq, Eq, Structural)]
pub enum ControlFileKind {
    Copy,
    Delete,
    Mtime,
    Hardlink,
}

/// The kind of a control file by the first word in it.
pub open spec fn control_by_magic(magic: Seq<char>) -> Option<ControlFileKind> {
    if magic == "#FPT_BACKUP_CTRL_FILE"@ {
        Some(ControlFileKind::Copy)
    } else if magic == "#FPT_DELETE_CTRL_FILE"@ {
        Some(ControlFileKind::Delete)
    } else if magic == "#FPT_MTIME_CTRL_FILE"@ {
        Some(ControlFileKind::Mtime)
    } else if magic == "#FPT_HARDLINK_CTRL_FILE"@ {
        Some(ControlFileKind::Hardlink)
    } else {
        None
    }
}

/// The kind of a control file by the first word of its first line, or the message about
/// an unknown one.
pub fn inspect_control_file(first_line: &str, path: &str) -> (r: Result<ControlFileKind, String>)
    ensures
        ({
            let magic = text::first_word(first_line@);
            match r {
                Ok(k) => control_by_magic(magic) == Some(k),
                Err(e) => control_by_magic(magic) is None && e@
                    == "unsupported control file magic "@ + magic + " in "@ + path@,
            }
        }),
{
    let word = text::first_word_of(first_line);
    let magic = word.as_str();
    if text::same(magic, "#FPT_BACKUP_CTRL_FILE") {
        Ok(ControlFileKind::Copy)
    } else if text::same(magic, "#FPT_DELETE_CTRL_FILE") {
        Ok(ControlFileKind::Delete)
    } else if text::same(magic, "#FPT_MTIME_CTRL_FILE") {
        Ok(ControlFileKind::Mtime)
    } else if text::same(magic, "#FPT_HARDLINK_CTRL_FILE") {
        Ok(ControlFileKind::Hardlink)
    } else {
        let mut s = text::concat("unsupported control file magic ", magic);
        s.append(" in ");
        s.append(path);
        Err(s)
    }
}

// ---------------------------------------------------------------------------
// Numbers in files
// ---------------------------------------------------------------------------

/// The number that bytes stand for, the lowest byte first.
pub open spec fn number_at(data: Seq<u8>, from: int, len: int) -> nat
    decreases len,
{
    if len <= 0 {
        0
    } else {
        data[from] as nat + 256 * number_at(data, from + 1, len - 1)
    }
}

fn u32_at(data: &Vec<u8>, at: usize) -> (n: u32)
    requires
        at + 4 <= data@.len(),
    ensures
        n == number_at(data@, at as int, 4),
{
    proof {
        assert(data@.len() == data.len());
        reveal_with_fuel(number_at, 5);
    }
    let n: u64 = data[at] as u64 + 256 * (data[at + 1] as u64) + 65536 * (data[at + 2] as u64)
        + 16_777_216 * (data[at + 3] as u64);
    n as u32
}

proof fn lemma_number_splits(data: Seq<u8>, from: int)
    ensures
        number_at(data, from, 8) == number_at(data, from, 4) + 4_294_967_296 * number_at(
            data,
            from + 4,
            4,
        ),
        number_at(data, from, 4) < 4_294_967_296,
{
    reveal_with_fuel(number_at, 9);
}

fn u64_at(data: &Vec<u8>, at: usize) -> (n: u64)
    requires
        at + 8 <= data@.len(),
    ensures
        n == number_at(data@, at as int, 8),
{
    proof {
        assert(data@.len() == data.len());
        lemma_number_splits(data@, at as int);
        lemma_number_splits(data@, at + 4);
    }
    let low: u64 = u32_at(data, at) as u64;
    let high: u64 = u32_at(data, at + 4) as u64;
    low + 4_294_967_296 * high
}

// ---------------------------------------------------------------------------
// Caches
// ---------------------------------------------------------------------------

/// An entry of a directory cache.
#[derive(Debug, Clone, Copy, PartialEq, Eq)]
pub struct DirCacheEntry {
    pub id: u64,
    pub hash: u32,
    pub meta_loc: (u32, u32),
    pub files_count: u32,
    pub fcache_fid: u32,
    pub fcache_offset: u32,
}

/// An entry of a file cache.
#[derive(Debug, Clone, Copy, PartialEq, Eq)]
pub struct FileCacheEntry {
    pub id: u64,
    pub hash: u32,
    pub meta_loc: (u32, u32),
}

/// Whether an entry is the one that is stored at a place.
pub open spec fn dir_entry_at(e: DirCacheEntry, data: Seq<u8>, at: int) -> bool {
    &&& e.id == number_at(data, at, 8)
    &&& e.hash == number_at(data, at + 8, 4)
    &&& e.meta_loc.0 == number_at(data, at + 12, 4)
    &&& e.meta_loc.1 == number_at(data, at + 16, 4)
    &&& e.files_count == number_at(data, at + 20, 4)
    &&& e.fcache_fid == number_at(data, at + 24, 4)
    &&& e.fcache_offset == number_at(data, at + 28, 4)
}

pub open spec fn file_entry_at(e: FileCacheEntry, data: Seq<u8>, at: int) -> bool {
    &&& e.id == number_at(data, at, 8)
    &&& e.hash == number_at(data, at + 8, 4)
    &&& e.meta_loc.0 == number_at(data, at + 12, 4)
    &&& e.meta_loc.1 == number_at(data, at + 16, 4)
}

/// The entries of a directory cache. Bytes behind the last whole entry are passed over.
pub fn read_dcache_entries(data: &Vec<u8>) -> (out: Vec<DirCacheEntry>)
    ensures
        out@.len() == data@.len() / 32,
        forall|i: int|
            0 <= i < out@.len() ==> dir_entry_at(#[trigger] out@[i], data@, 32 * i),
{
    let mut out: Vec<DirCacheEntry> = Vec::new();
    let mut at: usize = 0;
    while data.len() - at >= 32
        invariant
            at <= data@.len(),
            at == 32 * out@.len(),
            forall|i: int|
                0 <= i < out@.len() ==> dir_entry_at(#[trigger] out@[i], data@, 32 * i),
        decreases data@.len() - at,
    {
        out.push(
            DirCacheEntry {
                id: u64_at(data, at),
                hash: u32_at(data, at + 8),
                meta_loc: (u32_at(data, at + 12), u32_at(data, at + 16)),
                files_count: u32_at(data, at + 20),
                fcache_fid: u32_at(data, at + 24),
                fcache_offset: u32_at(data, at + 28),
            },
        );
        at += 32;
    }
    out
}

/// The entries of a file cache. Bytes behind the last whole entry are passed over.
pub fn read_fcache_entries(data: &Vec<u8>) -> (out: Vec<FileCacheEntry>)
    ensures
        out@.len() == data@.len() / 20,
        forall|i: int|
            0 <= i < out@.len() ==> file_entry_at(#[trigger] out@[i], data@, 20 * i),
{
    let mut out: Vec<FileCacheEntry> = Vec::new();
    let mut at: usize = 0;
    while data.len() - at >= 20
        invariant
            at <= data@.len(),
            at == 20 * out@.len(),
            forall|i: int|
                0 <= i < out@.len() ==> file_entry_at(#[trigger] out@[i], data@, 20 * i),
        decreases data@.len() - at,
    {
        out.push(
            FileCacheEntry {
                id: u64_at(data, at),
                hash: u32_at(data, at + 8),
                meta_loc: (u32_at(data, at + 12), u32_at(data, at + 16)),
            },
        );
        at += 20;
    }
    out
}

// ---------------------------------------------------------------------------
// Metadata files
// ---------------------------------------------------------------------------

/// A framed record of a metadata file.
#[derive(Debug)]
pub struct MetaFrame {
    pub is_dir: bool,
    pub payload: Vec<u8>,
}

/// What is left to be said about a metadata file behind its whole records.
#[derive(Debug)]
pub enum MetaEnd {
    Clean,
    /// The last record is cut off.
    Truncated,
    UnknownTag(u8),
}

/// The length of the record at a place, behind its tag and its length field.
pub open spec fn frame_len(data: Seq<u8>, at: int) -> int {
    number_at(data, at + 1, 4) as int
}

/// Whether a whole record stands at a place: a tag, four bytes for its length, and as
/// many bytes.
pub open spec fn whole_frame(data: Seq<u8>, at: int) -> bool {
    at + 5 <= data.len() && at + 5 + frame_len(data, at) <= data.len()
}

/// The records from a place on, and what stands behind them.
pub open spec fn frames_from(data: Seq<u8>, at: int) -> (Seq<(bool, Seq<u8>)>, MetaEnd)
    decreases data.len() - at,
{
    if at < 0 || at >= data.len() {
        (Seq::empty(), MetaEnd::Clean)
    } else if !whole_frame(data, at) {
        (Seq::empty(), MetaEnd::Truncated)
    } else if data[at] != TAG_DIR && data[at] != TAG_FILE {
        (Seq::empty(), MetaEnd::UnknownTag(data[at]))
    } else {
        let next = at + 5 + frame_len(data, at);
        let (rest, end) = frames_from(data, next);
        (seq![(data[at] == TAG_DIR, data.subrange(at + 5, next))] + rest, end)
    }
}

pub open spec fn frame_views(v: Seq<MetaFrame>) -> Seq<(bool, Seq<u8>)> {
    v.map_values(|f: MetaFrame| (f.is_dir, f.payload@))
}

/// The records of a metadata file up to its end or up to the first place where it cannot
/// be read on.
pub fn inspect_meta_file(data: &Vec<u8>) -> (r: (Vec<MetaFrame>, MetaEnd))
    ensures
        frame_views(r.0@) == frames_from(data@, 0).0,
        r.1 == frames_from(data@, 0).1,
{
    let mut out: Vec<MetaFrame> = Vec::new();
    let mut at: usize = 0;
    let ghost whole = frames_from(data@, 0);
    assert(frame_views(out@) + frames_from(data@, 0).0 =~= whole.0);
    while at < data.len()
        invariant
            at <= data@.len(),
            whole == frames_from(data@, 0),
            frame_views(out@) + frames_from(data@, at as int).0 == whole.0,
            frames_from(data@, at as int).1 == whole.1,
        decreases data@.len() - at,
    {
        if data.len() - at < 5 {
            assert(frame_views(out@) =~= whole.0);
            return (out, MetaEnd::Truncated);
        }
        let len: usize = u32_at(data, at + 1) as usize;
        if data.len() - at - 5 < len {
            assert(frame_views(out@) =~= whole.0);
            return (out, MetaEnd::Truncated);
        }
        let tag: u8 = data[at];
        if tag != TAG_DIR && tag != TAG_FILE {
            assert(frame_views(out@) =~= whole.0);
            return (out, MetaEnd::UnknownTag(tag));
        }
        let next: usize = at + 5 + len;
        let part = vstd::slice::slice_subrange(data.as_slice(), at + 5, next);
        let payload = vstd::slice::slice_to_vec(part);
        let ghost before = frame_views(out@);
        let ghost rest = frames_from(data@, next as int).0;
        let ghost frame = (tag == TAG_DIR, data@.subrange(at + 5, next as int));
        assert(payload@ =~= frame.1);
        out.push(MetaFrame { is_dir: tag == TAG_DIR, payload });
        proof {
            assert(frame_views(out@) =~= before.push(frame));
            assert(before + (seq![frame] + rest) =~= before.push(frame) + rest);
        }
        at = next;
    }
    assert(frame_views(out@) =~= whole.0);
    (out, MetaEnd::Clean)
}

/// One record as it is stored.
pub open spec fn stored_frame(is_dir: bool, payload: Seq<u8>, len_bytes: Seq<u8>) -> Seq<u8> {
    seq![if is_dir {
        TAG_DIR
    } else {
        TAG_FILE
    }] + len_bytes + payload
}

/// A stored record in front of other bytes is read back, and reading goes on behind it.
pub proof fn law_stored_record_is_read(
    is_dir: bool,
    payload: Seq<u8>,
    len_bytes: Seq<u8>,
    rest: Seq<u8>,
)
    requires
        len_bytes.len() == 4,
        number_at(len_bytes, 0, 4) == payload.len(),
    ensures
        ({
            let data = stored_frame(is_dir, payload, len_bytes) + rest;
            let next = 5 + payload.len() as int;
            &&& frames_from(data, 0).0 == seq![(is_dir, payload)] + frames_from(data, next).0
            &&& frames_from(data, 0).1 == frames_from(data, next).1
        }),
{
    let data = stored_frame(is_dir, payload, len_bytes) + rest;
    reveal_with_fuel(number_at, 5);
    assert(data[1] == len_bytes[0]);
    assert(data[2] == len_bytes[1]);
    assert(data[3] == len_bytes[2]);
    assert(data[4] == len_bytes[3]);
    assert(frame_len(data, 0) == payload.len());
    assert(data.subrange(5, 5 + payload.len() as int) =~= payload);
}

/// Numbers are stored with their lowest byte first: a number is its first bytes, and what its
/// other bytes stand for times the value of that place.
pub proof fn law_lowest_byte_comes_first(data: Seq<u8>, at: int, a: nat, b: nat)
    ensures
        number_at(data, at, 1) == data[at],
        number_at(data, at, (a + b) as int) == number_at(data, at, a as int)
            + vstd::arithmetic::power::pow(256, a) * number_at(data, at + a, b as int),
        number_at(data, at, 0) == 0,
    decreases a,
{
    reveal_with_fuel(number_at, 2);
    reveal(vstd::arithmetic::power::pow);
    if a > 0 {
        let c = (a - 1) as nat;
        law_lowest_byte_comes_first(data, at + 1, c, b);
        let p = vstd::arithmetic::power::pow(256, c);
        let rest = number_at(data, at + a, b as int) as int;
        assert(vstd::arithmetic::power::pow(256, a) == 256 * p);
        assert(256 * (p * rest) == (256 * p) * rest) by (nonlinear_arith);
        assert(number_at(data, at, (a + b) as int) == data[at] + 256 * number_at(
            data,
            at + 1,
            (c + b) as int,
        ));
    } else {
        assert(vstd::arithmetic::power::pow(256, 0) == 1);
        let rest = number_at(data, at, b as int) as int;
        assert(1 * rest == rest);
    }
}

/// Names tell the kind of a file before anything that it holds.
pub proof fn law_names_go_before_contents(
    dir: Seq<char>,
    rest: Seq<char>,
    data: Seq<u8>,
    len: u64,
)
    ensures
        paths::is_name("meta_"@ + rest) ==> input_kind(paths::join(dir, "meta_"@ + rest), data, len)
            == Some(InspectInputKind::Meta),
        paths::is_name("dcache_"@ + rest) ==> input_kind(
            paths::join(dir, "dcache_"@ + rest),
            data,
            len,
        ) == Some(InspectInputKind::Dcache),
        paths::is_name("fcache_"@ + rest) ==> input_kind(
            paths::join(dir, "fcache_"@ + rest),
            data,
            len,
        ) == Some(InspectInputKind::Fcache),
{
    reveal_strlit("meta_");
    reveal_strlit("dcache_");
    reveal_strlit("fcache_");
    let (m, d, f) = ("meta_"@ + rest, "dcache_"@ + rest, "fcache_"@ + rest);
    assert(m.take(5) =~= "meta_"@);
    assert(d.take(7) =~= "dcache_"@);
    assert(f.take(7) =~= "fcache_"@);
    assert(m[0] == 'm' && d[0] == 'd' && f[0] == 'f');
    assert("meta_"@[0] == 'm' && "dcache_"@[0] == 'd' && "fcache_"@[0] == 'f');
    if paths::is_name(m) {
        paths::law_joined_name_is_last(dir, m);
    }
    if paths::is_name(d) {
        paths::law_joined_name_is_last(dir, d);
        assert(!"meta_"@.is_prefix_of(d));
    }
    if paths::is_name(f) {
        paths::law_joined_name_is_last(dir, f);
        assert(!"meta_"@.is_prefix_of(f));
        assert(!"dcache_"@.is_prefix_of(f));
    }
}

/// Where the name does not tell, the mark of control files does; a cache holds whole entries
/// and has a name that says so; a file of metadata begins with the tag of a record.
pub proof fn law_contents_tell_the_kind(path: Seq<char>, data: Seq<u8>, len: u64)
    requires
        kind_by_name(path) is None,
    ensures
        data.len() == 0 ==> input_kind(path, data, len) is None,
        control_mark().is_prefix_of(data) ==> input_kind(path, data, len) == Some(
            InspectInputKind::Control,
        ),
        input_kind(path, data, len) == Some(InspectInputKind::Dcache) ==> len > 0 && exists|n: int|
            len == #[trigger] (32 * n),
        input_kind(path, data, len) == Some(InspectInputKind::Fcache) ==> len > 0 && exists|n: int|
            len == #[trigger] (20 * n),
        input_kind(path, data, len) == Some(InspectInputKind::Meta) ==> data[0] == TAG_DIR
            || data[0] == TAG_FILE,
{
    if len % 32 == 0 {
        assert(len == 32 * (len as int / 32));
    }
    if len % 20 == 0 {
        assert(len == 20 * (len as int / 20));
    }
}

/// Whether `r` is the file that is named on a command line.
pub open spec fn names_input(
    meta: Option<String>,
    dcache: Option<String>,
    fcache: Option<String>,
    control: Option<String>,
    input: Option<String>,
    r: Result<InspectInput, String>,
) -> bool {
    match (meta, dcache, fcache, control, input) {
        (Some(p), _, _, _, _) => r == Ok::<InspectInput, String>(
            InspectInput { path: p, kind: Some(InspectInputKind::Meta) },
        ),
        (None, Some(p), _, _, _) => r == Ok::<InspectInput, String>(
            InspectInput { path: p, kind: Some(InspectInputKind::Dcache) },
        ),
        (None, None, Some(p), _, _) => r == Ok::<InspectInput, String>(
            InspectInput { path: p, kind: Some(InspectInputKind::Fcache) },
        ),
        (None, None, None, Some(p), _) => r == Ok::<InspectInput, String>(
            InspectInput { path: p, kind: Some(InspectInputKind::Control) },
        ),
        (None, None, None, None, Some(p)) => r == Ok::<InspectInput, String>(
            InspectInput { path: p, kind: None },
        ),
        (None, None, None, None, None) => r matches Err(e) && e@
            == "missing input file; pass FILE or one of --meta/--dcache/--fcache/--control"@,
    }
}

/// Whether `r` is the kind of a file, or the message that it cannot be told.
pub open spec fn tells_kind(
    path: Seq<char>,
    prefix: Seq<u8>,
    len: u64,
    r: Result<InspectInputKind, String>,
) -> bool {
    match r {
        Ok(k) => input_kind(path, prefix, len) == Some(k),
        Err(e) => input_kind(path, prefix, len) is None && e@ == (if prefix.len() == 0 {
            "cannot detect empty file type for "@ + path
        } else {
            "cannot detect file type for "@ + path
                + "; use --meta/--dcache/--fcache/--control"@
        }),
    }
}

/// A file that is named by an option for its kind is of that kind, and one that is named
/// without is looked at; there is an error only where no file is named at all.
pub proof fn law_options_give_the_kind(
    meta: Option<String>,
    dcache: Option<String>,
    fcache: Option<String>,
    control: Option<String>,
    input: Option<String>,
    r: Result<InspectInput, String>,
)
    requires
        names_input(meta, dcache, fcache, control, input, r),
    ensures
        r is Err <==> meta is None && dcache is None && fcache is None && control is None && input
            is None,
        r matches Ok(i) ==> match i.kind {
            Some(InspectInputKind::Meta) => meta == Some(i.path),
            Some(InspectInputKind::Dcache) => dcache == Some(i.path) && meta is None,
            Some(InspectInputKind::Fcache) => fcache == Some(i.path) && meta is None && dcache
                is None,
            Some(InspectInputKind::Control) => control == Some(i.path) && meta is None && dcache
                is None && fcache is None,
            None => input == Some(i.path) && meta is None && dcache is None && fcache is None
                && control is None,
        },
{
}

/// A file whose kind can be told by its name or by what it holds is never refused.
pub proof fn law_kinds_are_told_where_they_can_be(
    path: Seq<char>,
    data: Seq<u8>,
    len: u64,
    r: Result<InspectInputKind, String>,
)
    requires
        tells_kind(path, data, len, r),
    ensures
        kind_by_name(path) is Some ==> r is Ok && kind_by_name(path) == Some(r->Ok_0),
        control_mark().is_prefix_of(data) ==> r is Ok,
        data.len() == 0 && kind_by_name(path) is None ==> r is Err,
        r is Err ==> kind_by_name(path) is None,
{
}

/// Control files are told apart by their first word, each kind by its own.
pub proof fn law_control_files_have_their_own_word(magic: Seq<char>)
    ensures
        control_by_magic(magic) == Some(ControlFileKind::Copy) <==> magic
            == "#FPT_BACKUP_CTRL_FILE"@,
        control_by_magic(magic) == Some(ControlFileKind::Delete) <==> magic
            == "#FPT_DELETE_CTRL_FILE"@,
        control_by_magic(magic) == Some(ControlFileKind::Mtime) <==> magic
            == "#FPT_MTIME_CTRL_FILE"@,
        control_by_magic(magic) == Some(ControlFileKind::Hardlink) <==> magic
            == "#FPT_HARDLINK_CTRL_FILE"@,
{
    reveal_strlit("#FPT_BACKUP_CTRL_FILE");
    reveal_strlit("#FPT_DELETE_CTRL_FILE");
    reveal_strlit("#FPT_MTIME_CTRL_FILE");
    reveal_strlit("#FPT_HARDLINK_CTRL_FILE");
    assert("#FPT_BACKUP_CTRL_FILE"@[5] == 'B' && "#FPT_DELETE_CTRL_FILE"@[5] == 'D');
    assert("#FPT_MTIME_CTRL_FILE"@[5] == 'M' && "#FPT_HARDLINK_CTRL_FILE"@[5] == 'H');
}

} // verus!

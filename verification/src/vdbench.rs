//! Generating trees of files with reproducible content.
use vstd::arithmetic::power::pow;
use vstd::prelude::*;

use crate::paths;
use crate::text;

verus! {

// ---------------------------------------------------------------------------
// Sizes
// ---------------------------------------------------------------------------

/// How many digits and dots stand at the front of a text, from a place on.
pub open spec fn number_end(s: Seq<char>, from: int) -> int
    decreases s.len() - from,
{
    if from < 0 || from >= s.len() {
        s.len() as int
    } else if ('0' <= s[from] <= '9') || s[from] == '.' {
        number_end(s, from + 1)
    } else {
        from
    }
}

/// The number and the unit of a size. The number ends in front of the first character
/// that is neither a digit nor a dot.
pub fn split_size(s: &str) -> (r: (String, String))
    ensures
        r.0@ == s@.take(number_end(s@, 0)),
        r.1@ == s@.skip(number_end(s@, 0)),
{
    let chars = text::chars_of(s);
    let mut i: usize = 0;
    while i < chars.len() && (('0' <= chars[i] && chars[i] <= '9') || chars[i] == '.')
        invariant
            i <= chars@.len(),
            chars@ == s@,
            number_end(s@, i as int) == number_end(s@, 0),
        decreases chars@.len() - i,
    {
        i += 1;
    }
    let number = text::slice_of(&chars, 0, i);
    let unit = text::slice_of(&chars, i, chars.len());
    assert(number@ =~= s@.take(i as int));
    assert(unit@ =~= s@.skip(i as int));
    (text::string_of(&number), text::string_of(&unit))
}

/// How many bytes a unit stands for.
pub open spec fn unit_bytes(unit: Seq<char>) -> Option<u64> {
    if unit == ""@ || unit == "B"@ {
        Some(1u64)
    } else if unit == "K"@ || unit == "KB"@ {
        Some(1024u64)
    } else if unit == "M"@ || unit == "MB"@ {
        Some(1_048_576u64)
    } else if unit == "G"@ || unit == "GB"@ {
        Some(1_073_741_824u64)
    } else if unit == "T"@ || unit == "TB"@ {
        Some(1_099_511_627_776u64)
    } else {
        None
    }
}

/// How many bytes the unit of a size stands for, whatever the blanks around it; the
/// message about an unknown unit shows it as it was written.
pub fn unit_multiplier(unit: &str) -> (r: Result<u64, String>)
    ensures
        match r {
            Ok(n) => unit_bytes(text::trimmed(unit@)) == Some(n),
            Err(e) => unit_bytes(text::trimmed(unit@)) is None && e@ == "Unknown unit: "@ + unit@,
        },
{
    let name = text::trim(unit);
    let unit_name = name.as_str();
    if text::same(unit_name, "") || text::same(unit_name, "B") {
        Ok(1)
    } else if text::same(unit_name, "K") || text::same(unit_name, "KB") {
        Ok(1024)
    } else if text::same(unit_name, "M") || text::same(unit_name, "MB") {
        Ok(1_048_576)
    } else if text::same(unit_name, "G") || text::same(unit_name, "GB") {
        Ok(1_073_741_824)
    } else if text::same(unit_name, "T") || text::same(unit_name, "TB") {
        Ok(1_099_511_627_776)
    } else {
        Err(text::concat("Unknown unit: ", unit))
    }
}

/// A size as it was written: its number, and how many bytes its unit stands for or the
/// message about it.
#[derive(Debug)]
pub struct SizeParts {
    pub number: String,
    pub multiplier: Result<u64, String>,
}

/// A size as it is read: in upper case, and without the blanks around it.
pub open spec fn plain_size(s: Seq<char>) -> Seq<char> {
    text::upper_text(text::trimmed(s))
}

/// Takes a size apart, such as `10M`: a number, which may have a fraction, and a unit.
pub fn parse_size(s: &str) -> (r: SizeParts)
    ensures
        ({
            let plain = plain_size(s@);
            let unit = plain.skip(number_end(plain, 0));
            &&& r.number@ == plain.take(number_end(plain, 0))
            &&& match r.multiplier {
                Ok(n) => unit_bytes(text::trimmed(unit)) == Some(n),
                Err(e) => unit_bytes(text::trimmed(unit)) is None && e@ == "Unknown unit: "@ + unit,
            }
        }),
{
    let plain = text::to_upper_text(text::trim(s).as_str());
    let (number, unit) = split_size(plain.as_str());
    SizeParts { number, multiplier: unit_multiplier(unit.as_str()) }
}

/// The size in bytes, given what multiplying the number and the unit comes to, which is
/// not known where the number is none. The message about the number comes first.
pub fn size_in_bytes(parts: SizeParts, product: Option<u64>) -> (r: Result<u64, String>)
    ensures
        match product {
            None => r matches Err(e) && e@ == "Invalid number: "@ + parts.number@,
            Some(n) => match parts.multiplier {
                Ok(_) => r == Ok::<u64, String>(n),
                Err(e) => r == Err::<u64, String>(e),
            },
        },
{
    match product {
        None => Err(text::concat("Invalid number: ", parts.number.as_str())),
        Some(n) => match parts.multiplier {
            Ok(_) => Ok(n),
            Err(e) => Err(e),
        },
    }
}

// ---------------------------------------------------------------------------
// Options
// ---------------------------------------------------------------------------

#[derive(Debug)]
pub struct Opts {
    /// Levels of directories.
    pub depth: u32,
    /// Files in each directory.
    pub files: u32,
    /// Directories in each directory.
    pub dirs: u32,
    /// Bytes of each file.
    pub size: u64,
    pub dir_prefix: String,
    pub file_prefix: String,
    /// Whether the name of a directory holds its place on every level.
    pub level_names: bool,
    /// The first index in a name.
    pub index_base: u32,
    pub seed: u64,
}

// ---------------------------------------------------------------------------
// The estimate
// ---------------------------------------------------------------------------

/// Directories that are created on the first `levels` levels.
pub open spec fn dirs_to(dirs: nat, levels: nat) -> nat
    decreases levels,
{
    if levels == 0 {
        0
    } else {
        dirs_to(dirs, (levels - 1) as nat) + pow(dirs as int, levels) as nat
    }
}

/// Files that are created on the first `levels` levels.
pub open spec fn files_to(dirs: nat, files: nat, levels: nat) -> nat
    decreases levels,
{
    if levels == 0 {
        0
    } else {
        files_to(dirs, files, (levels - 1) as nat) + (pow(
            dirs as int,
            (levels - 1) as nat,
        ) as nat) * files
    }
}

/// Whether the totals fit into machine numbers.
pub open spec fn totals_fit(opts: Opts) -> bool {
    &&& dirs_to(opts.dirs as nat, opts.depth as nat) <= u64::MAX
    &&& files_to(opts.dirs as nat, opts.files as nat, opts.depth as nat) <= u64::MAX
    &&& files_to(opts.dirs as nat, opts.files as nat, opts.depth as nat) * opts.size <= u64::MAX
}

proof fn lemma_pow_positive(base: nat, n: nat)
    ensures
        pow(base as int, n) >= 0,
    decreases n,
{
    reveal(pow);
    if n > 0 {
        lemma_pow_positive(base, (n - 1) as nat);
        assert(base * pow(base as int, (n - 1) as nat) >= 0) by (nonlinear_arith)
            requires
                pow(base as int, (n - 1) as nat) >= 0,
                base >= 0,
        ;
    }
}

proof fn lemma_totals_grow(dirs: nat, files: nat, a: nat, b: nat)
    requires
        a <= b,
    ensures
        dirs_to(dirs, a) <= dirs_to(dirs, b),
        files_to(dirs, files, a) <= files_to(dirs, files, b),
    decreases b,
{
    if a < b {
        lemma_totals_grow(dirs, files, a, (b - 1) as nat);
        lemma_pow_positive(dirs, b);
        lemma_pow_positive(dirs, (b - 1) as nat);
    }
}

/// Directories, files and bytes that will be created below the root.
pub fn estimate_total(opts: &Opts) -> (r: (u64, u64, u64))
    requires
        totals_fit(*opts),
    ensures
        r.0 == dirs_to(opts.dirs as nat, opts.depth as nat),
        r.1 == files_to(opts.dirs as nat, opts.files as nat, opts.depth as nat),
        r.2 == r.1 * opts.size,
{
    let ghost dirs = opts.dirs as nat;
    let ghost files = opts.files as nat;
    let mut total_dirs: u64 = 0;
    let mut total_files: u64 = 0;
    let mut at_level: u64 = 1;
    let mut level: u32 = 0;
    proof {
        reveal(pow);
    }
    while level < opts.depth
        invariant
            level <= opts.depth,
            dirs == opts.dirs,
            files == opts.files,
            totals_fit(*opts),
            at_level == pow(dirs as int, level as nat),
            total_dirs == dirs_to(dirs, level as nat),
            total_files == files_to(dirs, files, level as nat),
        decreases opts.depth - level,
    {
        proof {
            reveal(pow);
            lemma_totals_grow(dirs, files, (level + 1) as nat, opts.depth as nat);
            lemma_pow_positive(dirs, (level + 1) as nat);
            let n = (level + 1) as nat;
            assert((n - 1) as nat == level as nat);
            assert(pow(dirs as int, n) == dirs * pow(dirs as int, level as nat));
            assert(dirs_to(dirs, n) == dirs_to(dirs, level as nat) + pow(dirs as int, n) as nat);
            assert(files_to(dirs, files, n) == files_to(dirs, files, level as nat) + (pow(
                dirs as int,
                level as nat,
            ) as nat) * files);
            assert(at_level * opts.dirs == dirs * pow(dirs as int, level as nat))
                by (nonlinear_arith)
                requires
                    at_level == pow(dirs as int, level as nat),
                    dirs == opts.dirs,
            ;
        }
        total_files = total_files + at_level * (opts.files as u64);
        at_level = at_level * (opts.dirs as u64);
        total_dirs = total_dirs + at_level;
        level = level + 1;
    }
    (total_dirs, total_files, total_files * opts.size)
}

/// Directories that the generator creates below a directory with the given number of
/// levels under it: its own, and those below each of them.
pub open spec fn created_dirs(dirs: nat, levels: nat) -> nat
    decreases levels,
{
    if levels == 0 {
        0
    } else {
        dirs + dirs * created_dirs(dirs, (levels - 1) as nat)
    }
}

/// Files that the generator creates in such a directory and below it.
pub open spec fn created_files(dirs: nat, files: nat, levels: nat) -> nat
    decreases levels,
{
    if levels == 0 {
        0
    } else {
        files + dirs * created_files(dirs, files, (levels - 1) as nat)
    }
}

proof fn lemma_shift(dirs: nat, files: nat, levels: nat)
    ensures
        dirs_to(dirs, levels + 1) == dirs + dirs * dirs_to(dirs, levels),
        files_to(dirs, files, levels + 1) == files + dirs * files_to(dirs, files, levels),
    decreases levels,
{
    reveal(pow);
    let p = pow(dirs as int, levels);
    lemma_pow_positive(dirs, levels);
    lemma_pow_positive(dirs, levels + 1);
    assert(pow(dirs as int, levels + 1) == dirs * p) by {
        assert((levels + 1 - 1) as nat == levels);
    }
    if levels > 0 {
        let q = pow(dirs as int, (levels - 1) as nat);
        lemma_pow_positive(dirs, (levels - 1) as nat);
        lemma_shift(dirs, files, (levels - 1) as nat);
        assert((levels - 1 + 1) as nat == levels);
        assert(p == dirs * q);
        let d = dirs_to(dirs, (levels - 1) as nat);
        let f = files_to(dirs, files, (levels - 1) as nat);
        assert(dirs_to(dirs, levels) == d + p as nat);
        assert(files_to(dirs, files, levels) == f + (q as nat) * files);
        assert(dirs + dirs * d + dirs * p == dirs + dirs * (d + p)) by (nonlinear_arith);
        assert(files + dirs * f + (dirs * q) * files == files + dirs * (f + q * files))
            by (nonlinear_arith);
    } else {
        assert(dirs_to(dirs, 1) == dirs_to(dirs, 0) + pow(dirs as int, 1) as nat);
        assert(pow(dirs as int, 1) == dirs * 1) by {
            assert(pow(dirs as int, 0) == 1);
        }
        assert(dirs * dirs_to(dirs, 0) == 0) by (nonlinear_arith)
            requires
                dirs_to(dirs, 0) == 0,
        ;
        assert(files_to(dirs, files, 1) == files_to(dirs, files, 0) + (pow(
            dirs as int,
            0,
        ) as nat) * files);
        assert(dirs * files_to(dirs, files, 0) == 0) by (nonlinear_arith)
            requires
                files_to(dirs, files, 0) == 0,
        ;
    }
}

/// The estimate is what the generator creates.
pub proof fn law_estimate_is_what_is_created(dirs: nat, files: nat, levels: nat)
    ensures
        dirs_to(dirs, levels) == created_dirs(dirs, levels),
        files_to(dirs, files, levels) == created_files(dirs, files, levels),
    decreases levels,
{
    if levels > 0 {
        law_estimate_is_what_is_created(dirs, files, (levels - 1) as nat);
        lemma_shift(dirs, files, (levels - 1) as nat);
        assert((levels - 1 + 1) as nat == levels);
    }
}

// ---------------------------------------------------------------------------
// Names
// ---------------------------------------------------------------------------

/// The decimal forms of some numbers.
pub open spec fn decimals(indexes: Seq<u32>) -> Seq<Seq<char>> {
    indexes.map_values(|i: u32| text::decimal(i as nat))
}

/// The name of a directory, given the indexes from the root down to it.
pub open spec fn dir_label(opts: Opts, indexes: Seq<u32>, current: u32) -> Seq<char> {
    if opts.level_names {
        opts.dir_prefix@ + text::join(decimals(indexes), "."@)
    } else {
        opts.dir_prefix@ + text::decimal(current as nat)
    }
}

pub fn dir_name(opts: &Opts, indexes: &Vec<u32>, current_index: u32) -> (s: String)
    ensures
        s@ == dir_label(*opts, indexes@, current_index),
{
    if opts.level_names {
        let mut parts: Vec<String> = Vec::new();
        let mut i: usize = 0;
        while i < indexes.len()
            invariant
                i <= indexes@.len(),
                parts@.len() == i,
                forall|k: int|
                    0 <= k < i ==> (#[trigger] parts@[k])@ == text::decimal(indexes@[k] as nat),
            decreases indexes@.len() - i,
        {
            parts.push(text::decimal_string(indexes[i] as u64));
            i += 1;
        }
        assert(text::views(parts@) =~= decimals(indexes@));
        text::concat(opts.dir_prefix.as_str(), text::join_strings(&parts, ".").as_str())
    } else {
        text::concat(
            opts.dir_prefix.as_str(),
            text::decimal_string(current_index as u64).as_str(),
        )
    }
}

pub open spec fn file_label(opts: Opts, index: u32) -> Seq<char> {
    opts.file_prefix@ + text::decimal(index as nat)
}

pub fn file_name(opts: &Opts, file_index: u32) -> (s: String)
    ensures
        s@ == file_label(*opts, file_index),
{
    text::concat(opts.file_prefix.as_str(), text::decimal_string(file_index as u64).as_str())
}

// ---------------------------------------------------------------------------
// Content
// ---------------------------------------------------------------------------

/// One step of the generator SplitMix64.
pub open spec fn mixed(x: u64) -> u64 {
    let a = x.wrapping_add(0x9E37_79B9_7F4A_7C15u64);
    let b = (a ^ (a >> 30)).wrapping_mul(0xBF58_476D_1CE4_E5B9u64);
    let c = (b ^ (b >> 27)).wrapping_mul(0x94D0_49BB_1331_11EBu64);
    c ^ (c >> 31)
}

pub fn splitmix64(x: u64) -> (r: u64)
    ensures
        r == mixed(x),
{
    let a: u64 = x.wrapping_add(0x9E37_79B9_7F4A_7C15u64);
    let b: u64 = (a ^ (a >> 30)).wrapping_mul(0xBF58_476D_1CE4_E5B9u64);
    let c: u64 = (b ^ (b >> 27)).wrapping_mul(0x94D0_49BB_1331_11EBu64);
    c ^ (c >> 31)
}

/// The seed of a file: it depends on the seed of the tree, on the index of the file and
/// on the indexes of the directories down to it.
pub open spec fn seed_of(seed: u64, dir_indexes: Seq<u32>, file_index: u32) -> u64
    decreases dir_indexes.len(),
{
    if dir_indexes.len() == 0 {
        seed ^ (file_index as u64)
    } else {
        let level = (dir_indexes.len() - 1) as u64;
        let before = seed_of(seed, dir_indexes.drop_last(), file_index);
        mixed(
            before ^ (((dir_indexes.last() as u64) << (level % 24)) ^ (((level + 1)
                * 0x9E37_79B9) as u64)),
        )
    }
}

pub fn file_seed(opts: &Opts, dir_indexes: &Vec<u32>, file_index: u32) -> (r: u64)
    requires
        dir_indexes@.len() <= u32::MAX,
    ensures
        r == seed_of(opts.seed, dir_indexes@, file_index),
{
    let mut seed: u64 = opts.seed ^ (file_index as u64);
    let mut i: usize = 0;
    assert(dir_indexes@.take(0) =~= Seq::empty());
    while i < dir_indexes.len()
        invariant
            i <= dir_indexes@.len(),
            dir_indexes@.len() <= u32::MAX,
            seed == seed_of(opts.seed, dir_indexes@.take(i as int), file_index),
        decreases dir_indexes@.len() - i,
    {
        assert(dir_indexes@.take(i + 1).drop_last() =~= dir_indexes@.take(i as int));
        let level: u64 = i as u64;
        let spread: u64 = (level + 1) * 0x9E37_79B9;
        seed = splitmix64(seed ^ (((dir_indexes[i] as u64) << (level % 24)) ^ spread));
        i += 1;
    }
    assert(dir_indexes@.take(i as int) =~= dir_indexes@);
    seed
}

/// The state of the generator after some steps.
pub open spec fn state_after(seed: u64, steps: nat) -> u64
    decreases steps,
{
    if steps == 0 {
        seed
    } else {
        mixed(state_after(seed, (steps - 1) as nat))
    }
}

/// A byte of a number, the lowest first.
pub open spec fn byte_of(x: u64, place: nat) -> u8 {
    ((x >> ((8 * place) as u64)) % 256) as u8
}

/// The content of a file: eight bytes from each state of the generator.
pub open spec fn random_byte(seed: u64, at: nat) -> u8 {
    byte_of(state_after(seed, at / 8 + 1), at % 8)
}

/// The content of a file of the given length.
pub fn fill_random_data(len: usize, seed: u64) -> (out: Vec<u8>)
    ensures
        out@.len() == len,
        forall|i: int| 0 <= i < len ==> #[trigger] out@[i] == random_byte(seed, i as nat),
{
    let mut out: Vec<u8> = Vec::new();
    let mut state: u64 = seed;
    let mut i: usize = 0;
    while i < len
        invariant
            i <= len,
            out@.len() == i,
            i % 8 == 0 ==> state == state_after(seed, (i / 8) as nat),
            i % 8 != 0 ==> state == state_after(seed, (i / 8) as nat + 1),
            forall|k: int| 0 <= k < i ==> #[trigger] out@[k] == random_byte(seed, k as nat),
        decreases len - i,
    {
        if i % 8 == 0 {
            state = splitmix64(state);
        }
        let place: u64 = (i % 8) as u64;
        let byte: u64 = (state >> (8 * place)) % 256;
        out.push(byte as u8);
        i += 1;
    }
    out
}

/// The content does not depend on the length: a shorter file holds the beginning of a
/// longer one with the same seed.
pub proof fn law_content_extends(seed: u64, short: Seq<u8>, long: Seq<u8>)
    requires
        short.len() <= long.len(),
        forall|i: int| 0 <= i < short.len() ==> #[trigger] short[i] == random_byte(seed, i as nat),
        forall|i: int| 0 <= i < long.len() ==> #[trigger] long[i] == random_byte(seed, i as nat),
    ensures
        short.is_prefix_of(long),
{
    assert(short =~= long.take(short.len() as int));
}

// ---------------------------------------------------------------------------
// Work
// ---------------------------------------------------------------------------

/// A directory that is to be filled.
#[derive(Debug)]
pub struct WorkItem {
    pub path: String,
    pub current_depth: u32,
    pub indexes: Vec<u32>,
}

/// A file that is to be written, with the seed of its content.
#[derive(Debug)]
pub struct NewFile {
    pub path: String,
    pub seed: u64,
}

/// What is created in a directory.
#[derive(Debug)]
pub struct Expansion {
    pub dirs: Vec<WorkItem>,
    pub files: Vec<NewFile>,
}

/// The index in the name of the entry number `i`.
pub open spec fn name_index(opts: Opts, i: int) -> u32 {
    if opts.index_base + i > u32::MAX {
        u32::MAX
    } else {
        (opts.index_base + i) as u32
    }
}

pub open spec fn is_subdir(d: WorkItem, opts: Opts, work: WorkItem, i: int) -> bool {
    let index = name_index(opts, i);
    &&& d.indexes@ == work.indexes@.push(index)
    &&& d.current_depth == work.current_depth + 1
    &&& d.path@ == paths::join(work.path@, dir_label(opts, d.indexes@, index))
}

pub open spec fn is_new_file(f: NewFile, opts: Opts, work: WorkItem, i: int) -> bool {
    let index = name_index(opts, i);
    &&& f.path@ == paths::join(work.path@, file_label(opts, index))
    &&& f.seed == seed_of(opts.seed, work.indexes@, index)
}

fn with_index(indexes: &Vec<u32>, index: u32) -> (out: Vec<u32>)
    ensures
        out@ == indexes@.push(index),
{
    let mut out: Vec<u32> = Vec::new();
    let mut i: usize = 0;
    while i < indexes.len()
        invariant
            i <= indexes@.len(),
            out@ == indexes@.take(i as int),
        decreases indexes@.len() - i,
    {
        out.push(indexes[i]);
        assert(out@ =~= indexes@.take(i + 1));
        i += 1;
    }
    assert(out@ =~= indexes@);
    out.push(index);
    out
}

/// What is created in a directory: subdirectories and files, but nothing at the full
/// depth.
pub fn expand(opts: &Opts, work: &WorkItem) -> (r: Expansion)
    requires
        work.indexes@.len() <= u32::MAX,
    ensures
        work.current_depth >= opts.depth ==> r.dirs@.len() == 0 && r.files@.len() == 0,
        work.current_depth < opts.depth ==> {
            &&& r.dirs@.len() == opts.dirs
            &&& r.files@.len() == opts.files
            &&& forall|i: int|
                0 <= i < r.dirs@.len() ==> is_subdir(#[trigger] r.dirs@[i], *opts, *work, i)
            &&& forall|i: int|
                0 <= i < r.files@.len() ==> is_new_file(#[trigger] r.files@[i], *opts, *work, i)
        },
{
    let mut dirs: Vec<WorkItem> = Vec::new();
    let mut files: Vec<NewFile> = Vec::new();
    if work.current_depth >= opts.depth {
        return Expansion { dirs, files };
    }
    let mut i: u32 = 0;
    while i < opts.dirs
        invariant
            i <= opts.dirs,
            work.current_depth < opts.depth,
            dirs@.len() == i,
            forall|k: int| 0 <= k < i ==> is_subdir(#[trigger] dirs@[k], *opts, *work, k),
        decreases opts.dirs - i,
    {
        let index: u32 = opts.index_base.saturating_add(i);
        let indexes = with_index(&work.indexes, index);
        let name = dir_name(opts, &indexes, index);
        dirs.push(
            WorkItem {
                path: paths::join_path(work.path.as_str(), name.as_str()),
                current_depth: work.current_depth + 1,
                indexes,
            },
        );
        i += 1;
    }
    let mut k: u32 = 0;
    while k < opts.files
        invariant
            k <= opts.files,
            work.indexes@.len() <= u32::MAX,
            files@.len() == k,
            forall|j: int| 0 <= j < k ==> is_new_file(#[trigger] files@[j], *opts, *work, j),
        decreases opts.files - k,
    {
        let index: u32 = opts.index_base.saturating_add(k);
        let name = file_name(opts, index);
        files.push(
            NewFile {
                path: paths::join_path(work.path.as_str(), name.as_str()),
                seed: file_seed(opts, &work.indexes, index),
            },
        );
        k += 1;
    }
    Expansion { dirs, files }
}

// ---------------------------------------------------------------------------
// Progress
// ---------------------------------------------------------------------------

#[derive(Debug, Clone, Copy, PartialEq, Eq, Structural)]
pub enum ReportStep {
    /// All files are there: report and stop.
    Finish,
    Report,
    Wait,
}

/// Whether progress is reported: when new files have appeared, and every five seconds.
pub fn report_step(files: u64, total_files: u64, last_files: u64, secs_since_report: u64) -> (r:
    ReportStep)
    ensures
        r == (if files >= total_files && files > 0 {
            ReportStep::Finish
        } else if secs_since_report >= 5 || (files != last_files && files > 0) {
            ReportStep::Report
        } else {
            ReportStep::Wait
        }),
{
    if files >= total_files && files > 0 {
        ReportStep::Finish
    } else if secs_since_report >= 5 || (files != last_files && files > 0) {
        ReportStep::Report
    } else {
        ReportStep::Wait
    }
}

fn column(n: u64, width: usize) -> (s: String)
    ensures
        s@ == text::pad_left(text::decimal(n as nat), width as nat, ' '),
{
    let digits = text::digit_chars(n, 10, false);
    let padded = text::pad_chars_left(digits, width, ' ');
    text::string_of(&padded)
}

/// The line about the progress. The size comes as text.
pub fn progress_line(elapsed_secs: u64, dirs: u64, files: u64, size: &str) -> (s: String)
    ensures
        s@ == "[Progress] Elapsed: "@ + text::pad_left(text::decimal(elapsed_secs as nat), 3, ' ')
            + "s | Dirs: "@ + text::pad_left(text::decimal(dirs as nat), 6, ' ') + " | Files: "@
            + text::pad_left(text::decimal(files as nat), 7, ' ') + " | Size: "@ + size@,
{
    let mut s = text::concat("[Progress] Elapsed: ", column(elapsed_secs, 3).as_str());
    s.append("s | Dirs: ");
    s.append(column(dirs, 6).as_str());
    s.append(" | Files: ");
    s.append(column(files, 7).as_str());
    s.append(" | Size: ");
    s.append(size);
    s
}

/// Whether an answer agrees, whatever the blanks around it and the case of its letters.
pub fn confirm_generation(input: &str) -> (r: bool)
    ensures
        ({
            let answer = text::lower_text(text::trimmed(input@));
            r == (answer == "y"@ || answer == "yes"@)
        }),
{
    let answer = text::to_lower_text(text::trim(input).as_str());
    text::same(answer.as_str(), "y") || text::same(answer.as_str(), "yes")
}

/// Each unit is a thousand and twenty-four of the one before it, with or without a trailing
/// B, and nothing else is a unit.
pub proof fn law_units_grow_by_1024(unit: Seq<char>)
    ensures
        unit_bytes(""@) == Some(1u64) && unit_bytes("B"@) == Some(1u64),
        unit_bytes("K"@) == unit_bytes("KB"@) && unit_bytes("M"@) == unit_bytes("MB"@),
        unit_bytes("G"@) == unit_bytes("GB"@) && unit_bytes("T"@) == unit_bytes("TB"@),
        unit_bytes("K"@)->0 == 1024,
        unit_bytes("M"@)->0 == 1024 * unit_bytes("K"@)->0,
        unit_bytes("G"@)->0 == 1024 * unit_bytes("M"@)->0,
        unit_bytes("T"@)->0 == 1024 * unit_bytes("G"@)->0,
        unit_bytes(unit) is Some <==> seq![
            ""@, "B"@, "K"@, "KB"@, "M"@, "MB"@, "G"@, "GB"@, "T"@, "TB"@,
        ].contains(unit),
{
    reveal_strlit("");
    reveal_strlit("B");
    reveal_strlit("K");
    reveal_strlit("KB");
    reveal_strlit("M");
    reveal_strlit("MB");
    reveal_strlit("G");
    reveal_strlit("GB");
    reveal_strlit("T");
    reveal_strlit("TB");
    assert(""@.len() == 0 && "B"@.len() == 1 && "K"@.len() == 1 && "M"@.len() == 1);
    assert("G"@.len() == 1 && "T"@.len() == 1 && "KB"@.len() == 2 && "MB"@.len() == 2);
    assert("GB"@.len() == 2 && "TB"@.len() == 2);
    assert("B"@[0] == 'B' && "K"@[0] == 'K' && "M"@[0] == 'M' && "G"@[0] == 'G' && "T"@[0] == 'T');
    assert("KB"@[0] == 'K' && "MB"@[0] == 'M' && "GB"@[0] == 'G' && "TB"@[0] == 'T');
    let all = seq![""@, "B"@, "K"@, "KB"@, "M"@, "MB"@, "G"@, "GB"@, "T"@, "TB"@];
    assert(all[0] == ""@ && all[1] == "B"@ && all[2] == "K"@ && all[3] == "KB"@);
    assert(all[4] == "M"@ && all[5] == "MB"@ && all[6] == "G"@ && all[7] == "GB"@);
    assert(all[8] == "T"@ && all[9] == "TB"@);
}

/// Entries are numbered from the base on, one by one, as far as the numbers reach.
pub proof fn law_names_are_numbered_from_the_base(opts: Opts, i: int)
    requires
        0 <= i,
    ensures
        name_index(opts, 0) == opts.index_base,
        opts.index_base + i < u32::MAX ==> name_index(opts, i + 1) == name_index(opts, i) + 1,
        opts.index_base + i >= u32::MAX ==> name_index(opts, i) == u32::MAX,
{
}

/// Files of one directory have names that differ as long as their numbers do, and so have
/// directories.
pub proof fn law_labels_differ(opts: Opts, indexes: Seq<u32>, a: u32, b: u32)
    requires
        a != b,
    ensures
        file_label(opts, a) != file_label(opts, b),
        !opts.level_names ==> dir_label(opts, indexes, a) != dir_label(opts, indexes, b),
{
    text::law_digits_read_back(a as nat, 10, u32::MAX as nat);
    text::law_digits_read_back(b as nat, 10, u32::MAX as nat);
    let (x, y) = (text::decimal(a as nat), text::decimal(b as nat));
    assert((opts.file_prefix@ + x).skip(opts.file_prefix@.len() as int) =~= x);
    assert((opts.file_prefix@ + y).skip(opts.file_prefix@.len() as int) =~= y);
    assert((opts.dir_prefix@ + x).skip(opts.dir_prefix@.len() as int) =~= x);
    assert((opts.dir_prefix@ + y).skip(opts.dir_prefix@.len() as int) =~= y);
}

/// The name of a directory may tell the way down to it: the numbers of all levels with dots
/// between them, behind the prefix.
pub proof fn law_level_names_tell_the_way(opts: Opts, indexes: Seq<u32>, last: u32)
    requires
        opts.level_names,
    ensures
        indexes.len() > 0 ==> dir_label(opts, indexes.push(last), last) == dir_label(
            opts,
            indexes,
            indexes.last(),
        ) + "."@ + text::decimal(last as nat),
        indexes.len() == 0 ==> dir_label(opts, indexes.push(last), last) == opts.dir_prefix@
            + text::decimal(last as nat),
{
    let all = decimals(indexes.push(last));
    assert(all.drop_last() =~= decimals(indexes));
    assert(all.last() == text::decimal(last as nat));
    if indexes.len() > 0 {
        assert(dir_label(opts, indexes.push(last), last) =~= opts.dir_prefix@ + text::join(
            decimals(indexes),
            "."@,
        ) + "."@ + text::decimal(last as nat));
    }
}

/// An entry below a directory lies in it: its path is that of the directory with its own
/// name behind it, a subdirectory one level deeper.
pub proof fn law_entries_lie_in_their_directory(
    d: WorkItem,
    f: NewFile,
    opts: Opts,
    work: WorkItem,
    i: int,
)
    requires
        is_subdir(d, opts, work, i),
        is_new_file(f, opts, work, i),
        0 <= i,
        opts.index_base + i <= u32::MAX,
    ensures
        d.current_depth == work.current_depth + 1,
        d.indexes@.len() == work.indexes@.len() + 1,
        d.indexes@.last() == opts.index_base + i,
        d.indexes@.drop_last() == work.indexes@,
        paths::is_name(file_label(opts, (opts.index_base + i) as u32)) ==> paths::file_name(f.path@)
            == Some(opts.file_prefix@ + text::decimal((opts.index_base + i) as nat)),
{
    assert(d.indexes@.drop_last() =~= work.indexes@);
    if paths::is_name(file_label(opts, (opts.index_base + i) as u32)) {
        paths::law_joined_name_is_last(
            work.path@,
            file_label(opts, (opts.index_base + i) as u32),
        );
    }
}

/// The number of a size is what stands in front of the first character that is neither a digit
/// nor a dot.
pub proof fn law_numbers_end_where_the_unit_begins(s: Seq<char>, from: int)
    requires
        0 <= from <= s.len(),
    ensures
        from <= number_end(s, from) <= s.len(),
        forall|i: int|
            from <= i < number_end(s, from) ==> '0' <= #[trigger] s[i] <= '9' || s[i] == '.',
        number_end(s, from) < s.len() ==> s[number_end(s, from)] != '.' && !('0' <= s[number_end(
            s,
            from,
        )] <= '9'),
    decreases s.len() - from,
{
    if from < s.len() && (('0' <= s[from] <= '9') || s[from] == '.') {
        law_numbers_end_where_the_unit_begins(s, from + 1);
    }
}

/// A file begins with the eight bytes of the first state behind its seed, the lowest first, and
/// goes on as a file with that state for its seed would begin.
pub proof fn law_content_follows_the_states(seed: u64, at: nat)
    ensures
        at < 8 ==> random_byte(seed, at) == byte_of(mixed(seed), at),
        random_byte(seed, at + 8) == random_byte(mixed(seed), at),
{
    reveal_with_fuel(state_after, 2);
    lemma_states_go_on(seed, at / 8 + 1);
    assert((at + 8) / 8 == at / 8 + 1);
    assert((at + 8) % 8 == at % 8);
    if at < 8 {
        assert(at / 8 == 0 && at % 8 == at);
    }
}

proof fn lemma_states_go_on(seed: u64, steps: nat)
    ensures
        state_after(seed, steps + 1) == state_after(mixed(seed), steps),
    decreases steps,
{
    reveal_with_fuel(state_after, 2);
    if steps > 0 {
        lemma_states_go_on(seed, (steps - 1) as nat);
    }
}

} // verus!

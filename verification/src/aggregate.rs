//! Aggregation of small files into blobs: configuration, pending buffers and the
//! identifiers that name the blobs.
use vstd::prelude::*;

use crate::order;
use crate::text;

verus! {

/// Directory below the target that holds shard blobs and their index.
pub const AGGREGATE_ROOT_DIR: &'static str = ".AGGR";

/// Directory inside each source directory that holds its blobs and their index.
pub const AGGREGATE_DIR_NAME: &'static str = ".AGGR";

// ---------------------------------------------------------------------------
// Records
// ---------------------------------------------------------------------------

/// One file inside a blob.
#[derive(Debug)]
pub struct AggregateFileEntry {
    /// Path of the file relative to the backup root.
    pub relative_path: String,
    /// Where the data of the file starts inside the blob.
    pub offset: u64,
    pub size: u64,
    /// Seconds since the Unix epoch.
    pub ctime: u64,
    /// Seconds since the Unix epoch.
    pub mtime: u64,
    pub mode: u32,
    /// Serialized extended attributes.
    pub xattrs: Option<String>,
    /// Serialized access control list.
    pub acl: Option<String>,
}

/// A blob and the files inside it.
#[derive(Debug)]
pub struct AggregateBlobMeta {
    pub blob_path: String,
    pub blob_size: u64,
    pub file_count: u32,
    pub shard_id: u16,
    pub files: Vec<AggregateFileEntry>,
}

/// A file that waits to be put into a blob.
#[derive(Debug)]
pub struct PendingFile {
    pub file_name: String,
    pub data: Vec<u8>,
    pub ctime: u64,
    pub mtime: u64,
    pub mode: u32,
    pub xattrs: Option<String>,
    pub acl: Option<String>,
}

/// Where a file is found inside a blob, and what is restored with it.
#[derive(Debug)]
pub struct AggregateRestoreInfo {
    pub blob_path: String,
    pub offset: u64,
    pub size: u64,
    pub mtime: u64,
    pub mode: u32,
    pub xattrs: Option<String>,
    pub acl: Option<String>,
}

impl Clone for AggregateRestoreInfo {
    fn clone(&self) -> (r: Self)
        ensures
            r == *self,
    {
        AggregateRestoreInfo {
            blob_path: self.blob_path.clone(),
            offset: self.offset,
            size: self.size,
            mtime: self.mtime,
            mode: self.mode,
            xattrs: crate::metadata::clone_text(&self.xattrs),
            acl: crate::metadata::clone_text(&self.acl),
        }
    }
}

/// Counters of aggregate operations.
#[derive(Debug, Clone, Copy, PartialEq, Eq, Structural)]
pub struct AggregateStats {
    pub blobs_created: u64,
    pub files_aggregated: u64,
    pub files_normal: u64,
    pub blob_bytes: u64,
    pub original_bytes: u64,
    pub active_shards: u64,
}

impl Default for AggregateStats {
    fn default() -> (r: Self)
        ensures
            r == (AggregateStats {
                blobs_created: 0,
                files_aggregated: 0,
                files_normal: 0,
                blob_bytes: 0,
                original_bytes: 0,
                active_shards: 0,
            }),
    {
        AggregateStats {
            blobs_created: 0,
            files_aggregated: 0,
            files_normal: 0,
            blob_bytes: 0,
            original_bytes: 0,
            active_shards: 0,
        }
    }
}

// ---------------------------------------------------------------------------
// Configuration
// ---------------------------------------------------------------------------

/// 64 MiB.
pub const DEFAULT_MAX_BLOB_SIZE: u64 = 67_108_864;

/// 1 MiB.
pub const DEFAULT_FILE_THRESHOLD: u64 = 1_048_576;

/// How blobs are laid out on the target.
#[derive(Debug, Clone, Copy, PartialEq, Eq, Structural)]
pub enum AggregateLayout {
    /// Each source directory has blobs of its own.
    DirLevel,
    /// Files are spread over numbered shards.
    Shard,
}

impl AggregateLayout {
    pub fn as_str(&self) -> (s: &'static str)
        ensures
            s@ == (match *self {
                AggregateLayout::DirLevel => "dir-level"@,
                AggregateLayout::Shard => "shard"@,
            }),
    {
        match self {
            AggregateLayout::DirLevel => "dir-level",
            AggregateLayout::Shard => "shard",
        }
    }
}

/// Settings of aggregation.
#[derive(Debug, Clone, Copy, PartialEq, Eq, Structural)]
pub struct AggregateConfig {
    pub enabled: bool,
    pub layout: AggregateLayout,
    /// A buffer of at least this many bytes is written out as a blob.
    pub max_blob_size: u64,
    /// Only files smaller than this are aggregated.
    pub file_threshold: u64,
    /// Most shards that are in use at once.
    pub shard_count: u16,
}

/// The settings where nothing is configured: no aggregation.
pub open spec fn no_aggregation() -> AggregateConfig {
    AggregateConfig {
        enabled: false,
        layout: AggregateLayout::Shard,
        max_blob_size: DEFAULT_MAX_BLOB_SIZE,
        file_threshold: DEFAULT_FILE_THRESHOLD,
        shard_count: 16,
    }
}

impl Default for AggregateConfig {
    fn default() -> (r: Self)
        ensures
            r == no_aggregation(),
    {
        AggregateConfig {
            enabled: false,
            layout: AggregateLayout::Shard,
            max_blob_size: DEFAULT_MAX_BLOB_SIZE,
            file_threshold: DEFAULT_FILE_THRESHOLD,
            shard_count: 16,
        }
    }
}

impl AggregateConfig {
    /// The default settings with aggregation switched on.
    pub fn enabled() -> (r: Self)
        ensures
            r == (AggregateConfig { enabled: true, ..no_aggregation() }),
    {
        let mut config = AggregateConfig::default();
        config.enabled = true;
        config
    }

    pub fn layout(self, layout: AggregateLayout) -> (r: Self)
        ensures
            r == (AggregateConfig { layout, ..self }),
    {
        let mut config = self;
        config.layout = layout;
        config
    }

    pub fn max_blob_size(self, size: u64) -> (r: Self)
        ensures
            r == (AggregateConfig { max_blob_size: size, ..self }),
    {
        let mut config = self;
        config.max_blob_size = size;
        config
    }

    pub fn file_threshold(self, threshold: u64) -> (r: Self)
        ensures
            r == (AggregateConfig { file_threshold: threshold, ..self }),
    {
        let mut config = self;
        config.file_threshold = threshold;
        config
    }

    pub fn shard_count(self, count: u16) -> (r: Self)
        ensures
            r == (AggregateConfig { shard_count: count, ..self }),
    {
        let mut config = self;
        config.shard_count = count;
        config
    }
}

/// Whether a file of the given size goes into a blob.
pub open spec fn aggregates(file_size: u64, config: AggregateConfig) -> bool {
    config.enabled && 0 < file_size < config.file_threshold
}

/// Whether a file of the given size goes into a blob.
pub fn should_aggregate(file_size: u64, config: &AggregateConfig) -> (r: bool)
    ensures
        r == aggregates(file_size, *config),
{
    config.enabled && file_size > 0 && file_size < config.file_threshold
}

// ---------------------------------------------------------------------------
// Pending buffers
// ---------------------------------------------------------------------------

/// Something that fills a pending buffer by a number of bytes.
pub trait Payload: Sized {
    spec fn bytes(&self) -> nat;

    fn byte_len(&self) -> (n: u64)
        ensures
            n == self.bytes(),
    ;
}

impl Payload for PendingFile {
    open spec fn bytes(&self) -> nat {
        self.data@.len()
    }

    fn byte_len(&self) -> (n: u64) {
        self.data.len() as u64
    }
}

/// The bytes of all the given payloads.
pub open spec fn total_bytes<F: Payload>(files: Seq<F>) -> nat
    decreases files.len(),
{
    if files.len() == 0 {
        0
    } else {
        total_bytes(files.drop_last()) + files.last().bytes()
    }
}

/// Adding one payload adds its bytes.
pub proof fn lemma_total_push<F: Payload>(files: Seq<F>, f: F)
    ensures
        total_bytes(files.push(f)) == total_bytes(files) + f.bytes(),
{
    assert(files.push(f).drop_last() =~= files);
}

/// Files of one directory that wait to be put into a blob.
#[derive(Debug)]
pub struct DirAggregateBuffer {
    pub dir_path: String,
    pub pending_files: Vec<PendingFile>,
    /// Bytes of all pending files.
    pub current_size: u64,
    /// Size from which on the buffer is to be written out.
    pub max_size: u64,
}

impl DirAggregateBuffer {
    /// The size counter is the size of what is pending.
    pub open spec fn wf(&self) -> bool {
        self.current_size == total_bytes(self.pending_files@)
    }

    pub fn new(dir_path: String, max_size: u64) -> (r: Self)
        ensures
            r.wf(),
            r.dir_path == dir_path,
            r.max_size == max_size,
            r.pending_files@ == Seq::<PendingFile>::empty(),
            r.current_size == 0,
    {
        DirAggregateBuffer { dir_path, pending_files: Vec::new(), current_size: 0, max_size }
    }

    /// Adds a file and tells whether the buffer is now to be written out.
    pub fn add_file(&mut self, file: PendingFile) -> (full: bool)
        requires
            old(self).wf(),
            total_bytes(old(self).pending_files@) + file.bytes() <= u64::MAX,
        ensures
            final(self).wf(),
            final(self).pending_files@ == old(self).pending_files@.push(file),
            final(self).current_size == old(self).current_size + file.bytes(),
            final(self).dir_path == old(self).dir_path,
            final(self).max_size == old(self).max_size,
            full == (total_bytes(final(self).pending_files@) >= old(self).max_size),
    {
        proof {
            lemma_total_push(self.pending_files@, file);
        }
        self.current_size = self.current_size + file.data.len() as u64;
        self.pending_files.push(file);
        self.current_size >= self.max_size
    }

    pub fn is_empty(&self) -> (r: bool)
        ensures
            r == (self.pending_files@.len() == 0),
    {
        self.pending_files.len() == 0
    }

    /// Hands out the pending files and leaves the buffer empty.
    pub fn flush(&mut self) -> (files: Vec<PendingFile>)
        ensures
            final(self).wf(),
            files@ == old(self).pending_files@,
            final(self).pending_files@ == Seq::<PendingFile>::empty(),
            final(self).current_size == 0,
            final(self).dir_path == old(self).dir_path,
            final(self).max_size == old(self).max_size,
    {
        let mut files: Vec<PendingFile> = Vec::new();
        std::mem::swap(&mut files, &mut self.pending_files);
        self.current_size = 0;
        files
    }
}

/// Pending buffers by directory, in the order in which the directories came.
#[derive(Debug)]
pub struct AggregateBuffer {
    pub dir_buffers: Vec<DirAggregateBuffer>,
}

// ---------------------------------------------------------------------------
// Blob names
// ---------------------------------------------------------------------------

/// The file name of the blob with the given number.
pub open spec fn blob_name(id: u64) -> Seq<char> {
    text::pad_left(text::digits(id as nat, 16, false), 16, '0') + ".bifrost.blob"@
}

proof fn lemma_digits_are_plain(n: nat)
    ensures
        text::digits(n, 16, false).len() >= 1,
        forall|i: int|
            0 <= i < text::digits(n, 16, false).len() ==> {
                let c = #[trigger] text::digits(n, 16, false)[i];
                ('0' <= c <= '9') || ('a' <= c <= 'f')
            },
    decreases n,
{
    if n >= 16 {
        lemma_digits_are_plain(n / 16);
    }
}

/// The name of a blob is a name, whatever its number, and no two numbers have the same.
pub proof fn law_blob_names_differ(a: u64, b: u64)
    ensures
        crate::paths::is_name(blob_name(a)),
        !blob_name(a).contains('\\'),
        a != b ==> blob_name(a) != blob_name(b),
{
    let front = |id: u64| text::pad_left(text::digits(id as nat, 16, false), 16, '0');
    let tail = ".bifrost.blob"@;
    reveal_strlit(".bifrost.blob");
    lemma_digits_are_plain(a as nat);
    let name = blob_name(a);
    assert forall|i: int| 0 <= i < name.len() implies name[i] != '/' && name[i] != '\\' by {
        if i >= front(a).len() {
            assert(name[i] == tail[i - front(a).len()]);
        } else {
            assert(name[i] == front(a)[i]);
            let digits = text::digits(a as nat, 16, false);
            if digits.len() < 16 && i >= 16 - digits.len() {
                assert(name[i] == digits[i - (16 - digits.len())]);
            } else if digits.len() >= 16 {
                assert(name[i] == digits[i]);
            }
        }
    }
    assert(name.len() > 13);
    if a != b && blob_name(a) == blob_name(b) {
        assert(front(a) =~= blob_name(a).take(blob_name(a).len() - tail.len()));
        assert(front(b) =~= blob_name(b).take(blob_name(b).len() - tail.len()));
        text::law_padded_number_reads_back(a as nat, 16, 16, u64::MAX as nat);
        text::law_padded_number_reads_back(b as nat, 16, 16, u64::MAX as nat);
    }
}

/// The hexadecimal digits of a number in `width` places.
spec fn places(n: nat, width: nat) -> Seq<char>
    decreases width,
{
    if width == 0 {
        Seq::empty()
    } else {
        places(n / 16, (width - 1) as nat).push(text::digit_char(n % 16, false))
    }
}

spec fn power_of_16(width: nat) -> nat
    decreases width,
{
    if width == 0 {
        1
    } else {
        16 * power_of_16((width - 1) as nat)
    }
}

proof fn lemma_places_len(n: nat, width: nat)
    ensures
        places(n, width).len() == width,
    decreases width,
{
    if width > 0 {
        lemma_places_len(n / 16, (width - 1) as nat);
    }
}

proof fn lemma_zero_places(width: nat)
    ensures
        places(0, width) == Seq::new(width, |i: int| '0'),
    decreases width,
{
    if width > 0 {
        lemma_zero_places((width - 1) as nat);
        assert(text::digit_char(0, false) == '0');
    }
    assert(places(0, width) =~= Seq::new(width, |i: int| '0'));
}

/// Digits that are padded with zeros fill their places.
proof fn lemma_padded_digits(n: nat, width: nat)
    requires
        width > 0,
        n < power_of_16(width),
    ensures
        text::digits(n, 16, false).len() <= width,
        text::pad_left(text::digits(n, 16, false), width, '0') == places(n, width),
    decreases width,
{
    let short = (width - 1) as nat;
    lemma_places_len(n, width);
    if n < 16 {
        lemma_zero_places(short);
        assert(n / 16 == 0);
    } else {
        if width == 1 {
            reveal_with_fuel(power_of_16, 2);
        }
        lemma_padded_digits(n / 16, short);
        lemma_places_len(n / 16, short);
    }
    assert(text::pad_left(text::digits(n, 16, false), width, '0') =~= places(n, width));
}

/// What follows two texts of one length does not change their order.
proof fn lemma_order_with_tails(a: Seq<char>, b: Seq<char>, s: Seq<char>, t: Seq<char>)
    requires
        a.len() == b.len(),
        order::before(a, b),
    ensures
        order::before(a + s, b + t),
    decreases a.len(),
{
    assert((a + s)[0] == a[0] && (b + t)[0] == b[0]);
    if a[0] == b[0] {
        lemma_order_with_tails(a.drop_first(), b.drop_first(), s, t);
        assert((a + s).drop_first() =~= a.drop_first() + s);
        assert((b + t).drop_first() =~= b.drop_first() + t);
    }
}

/// Behind equal texts the order is that of what follows.
proof fn lemma_order_behind(a: Seq<char>, s: Seq<char>, t: Seq<char>)
    requires
        order::before(s, t),
    ensures
        order::before(a + s, a + t),
    decreases a.len(),
{
    if a.len() == 0 {
        assert(a + s =~= s);
        assert(a + t =~= t);
    } else {
        assert((a + s).drop_first() =~= a.drop_first() + s);
        assert((a + t).drop_first() =~= a.drop_first() + t);
        assert((a + s)[0] == (a + t)[0]);
        lemma_order_behind(a.drop_first(), s, t);
    }
}

proof fn lemma_places_grow(a: nat, b: nat, width: nat)
    requires
        a < b < power_of_16(width),
    ensures
        order::before(places(a, width), places(b, width)),
    decreases width,
{
    if width > 0 {
        let short = (width - 1) as nat;
        let (x, y) = (places(a / 16, short), places(b / 16, short));
        let (c, d) = (text::digit_char(a % 16, false), text::digit_char(b % 16, false));
        lemma_places_len(a / 16, short);
        lemma_places_len(b / 16, short);
        assert(places(a, width) =~= x + seq![c]);
        assert(places(b, width) =~= y + seq![d]);
        if a / 16 == b / 16 {
            assert(c < d);
            assert(order::before(seq![c], seq![d]));
            lemma_order_behind(x, seq![c], seq![d]);
        } else {
            lemma_places_grow(a / 16, b / 16, short);
            lemma_order_with_tails(x, y, seq![c], seq![d]);
        }
    }
}

/// The names of blobs grow with their numbers: a listing in the order of the names is one in
/// the order of the numbers.
pub proof fn law_blob_names_grow(a: u64, b: u64)
    requires
        a < b,
    ensures
        order::before(blob_name(a), blob_name(b)),
{
    reveal_with_fuel(power_of_16, 17);
    assert(power_of_16(16) == 0x1_0000_0000_0000_0000);
    lemma_padded_digits(a as nat, 16);
    lemma_padded_digits(b as nat, 16);
    lemma_places_grow(a as nat, b as nat, 16);
    lemma_places_len(a as nat, 16);
    lemma_places_len(b as nat, 16);
    lemma_order_with_tails(
        places(a as nat, 16),
        places(b as nat, 16),
        ".bifrost.blob"@,
        ".bifrost.blob"@,
    );
}

/// The file name of the blob with the given number.
pub fn generate_blob_name(counter: u64) -> (s: String)
    ensures
        s@ == blob_name(counter),
{
    let digits = text::hex_padded(counter, 16, false);
    text::concat(digits.as_str(), ".bifrost.blob")
}

/// 2024-01-01 00:00:00 UTC in milliseconds since the Unix epoch.
pub const BIFROST_EPOCH: u64 = 1704067200000;

/// Largest sequence number within one millisecond (12 bits).
pub const MAX_SEQUENCE: u16 = 4095;

/// An identifier made of a time, a process and a sequence number: the time from
/// bit 23 on, the process in bits 12 to 21, the sequence number in bits 0 to 11.
pub open spec fn compose_id(timestamp: u64, process_id: u16, sequence: u16) -> u64 {
    (timestamp << 23u64) | ((process_id as u64) << 12u64) | (sequence as u64)
}

/// Generates identifiers that are unique per process and increase in time.
#[derive(Debug)]
pub struct SnowflakeIdGenerator {
    last_timestamp: u64,
    sequence: u16,
    process_id: u16,
    epoch: u64,
}

impl SnowflakeIdGenerator {
    /// The sequence number has 12 bits and the process number 10.
    pub closed spec fn wf(&self) -> bool {
        self.sequence <= MAX_SEQUENCE && self.process_id < 1024 && self.epoch == BIFROST_EPOCH
    }

    /// Time of the last identifier, in milliseconds since the epoch of this project.
    pub closed spec fn last(&self) -> u64 {
        self.last_timestamp
    }

    /// Sequence number of the last identifier.
    pub closed spec fn seq(&self) -> u16 {
        self.sequence
    }

    pub closed spec fn process(&self) -> u16 {
        self.process_id
    }

    /// Whether no identifier can be given at `timestamp`: the clock stands behind the
    /// last identifier, or its millisecond is used up.
    pub open spec fn blocked(&self, timestamp: u64) -> bool {
        timestamp < self.last() || (timestamp == self.last() && self.seq() >= MAX_SEQUENCE)
    }

    /// Sequence number of an identifier given at `timestamp`.
    pub open spec fn next_sequence(&self, timestamp: u64) -> u16 {
        if timestamp == self.last() {
            (self.seq() + 1) as u16
        } else {
            0
        }
    }

    /// A generator for the given process; only the low ten bits of its number count.
    pub fn new(process_id: u16) -> (r: Self)
        ensures
            r.wf(),
            r.last() == 0,
            r.seq() == 0,
            r.process() == process_id % 1024,
    {
        assert(process_id & 0x3FF == process_id % 1024) by (bit_vector);
        SnowflakeIdGenerator {
            last_timestamp: 0,
            sequence: 0,
            process_id: process_id & 0x3FF,
            epoch: BIFROST_EPOCH,
        }
    }

    /// A generator for the process that the operating system numbers `os_pid`.
    pub fn default(os_pid: u32) -> (r: Self)
        ensures
            r.wf(),
            r.last() == 0,
            r.seq() == 0,
            r.process() == os_pid % 1024,
    {
        let low: u16 = (os_pid % 1024) as u16;
        SnowflakeIdGenerator::new(low)
    }

    /// Milliseconds since the epoch of this project, for a time in milliseconds since
    /// the Unix epoch; earlier times count as zero.
    pub fn current_timestamp(&self, unix_millis: u64) -> (r: u64)
        requires
            self.wf(),
        ensures
            r == (if unix_millis >= BIFROST_EPOCH {
                (unix_millis - BIFROST_EPOCH) as u64
            } else {
                0
            }),
    {
        unix_millis.saturating_sub(self.epoch)
    }

    /// Time of the last identifier: after a refusal a caller waits for a later one.
    pub fn last_timestamp(&self) -> (r: u64)
        ensures
            r == self.last(),
    {
        self.last_timestamp
    }

    /// The next identifier at the given time. There is none, and nothing changes, when
    /// the time lies before that of the last identifier or its millisecond is used up:
    /// the caller then waits until the clock shows a time after `last_timestamp`.
    pub fn next_id(&mut self, timestamp: u64) -> (r: Option<u64>)
        requires
            old(self).wf(),
        ensures
            final(self).wf(),
            final(self).process() == old(self).process(),
            old(self).blocked(timestamp) ==> r is None && *final(self) == *old(self),
            !old(self).blocked(timestamp) ==> {
                &&& r == Some(
                    compose_id(timestamp, old(self).process(), old(self).next_sequence(timestamp)),
                )
                &&& final(self).last() == timestamp
                &&& final(self).seq() == old(self).next_sequence(timestamp)
            },
    {
        if timestamp < self.last_timestamp {
            return None;
        }
        if timestamp == self.last_timestamp {
            if self.sequence >= MAX_SEQUENCE {
                return None;
            }
            self.sequence = self.sequence + 1;
        } else {
            self.sequence = 0;
        }
        self.last_timestamp = timestamp;
        Some((timestamp << 23u64) | ((self.process_id as u64) << 12u64) | (self.sequence as u64))
    }

    /// The file name of the next blob, under the same conditions as `next_id`.
    pub fn generate_blob_name(&mut self, timestamp: u64) -> (r: Option<String>)
        requires
            old(self).wf(),
        ensures
            final(self).wf(),
            final(self).process() == old(self).process(),
            old(self).blocked(timestamp) ==> r is None && *final(self) == *old(self),
            !old(self).blocked(timestamp) ==> {
                &&& r is Some
                &&& r->0@ == blob_name(
                    compose_id(timestamp, old(self).process(), old(self).next_sequence(timestamp)),
                )
                &&& final(self).last() == timestamp
                &&& final(self).seq() == old(self).next_sequence(timestamp)
            },
    {
        match self.next_id(timestamp) {
            Some(id) => Some(generate_blob_name(id)),
            None => None,
        }
    }
}

/// The fields of an identifier can be read back, for times that fit in 41 bits.
pub proof fn law_id_fields(timestamp: u64, process_id: u16, sequence: u16)
    requires
        timestamp < 0x200_0000_0000,
        process_id < 1024,
        sequence <= MAX_SEQUENCE,
    ensures
        compose_id(timestamp, process_id, sequence) >> 23u64 == timestamp,
        (compose_id(timestamp, process_id, sequence) >> 12u64) & 0x3FF == process_id as u64,
        compose_id(timestamp, process_id, sequence) & 0xFFF == sequence as u64,
{
    assert(compose_id(timestamp, process_id, sequence) >> 23u64 == timestamp && (compose_id(
        timestamp,
        process_id,
        sequence,
    ) >> 12u64) & 0x3FF == process_id as u64 && compose_id(timestamp, process_id, sequence) & 0xFFF
        == sequence as u64) by (bit_vector)
        requires
            timestamp < 0x200_0000_0000u64,
            process_id < 1024u16,
            sequence <= 4095u16,
    ;
}

/// Identifiers of two processes never meet, and those of one process grow with the
/// time, as long as it fits in 41 bits, and, within a millisecond, with the sequence number.
pub proof fn law_ids_are_ordered(t1: u64, t2: u64, p1: u16, p2: u16, s1: u16, s2: u16)
    requires
        p1 < 1024,
        p2 < 1024,
        s1 <= MAX_SEQUENCE,
        s2 <= MAX_SEQUENCE,
    ensures
        p1 != p2 ==> compose_id(t1, p1, s1) != compose_id(t2, p2, s2),
        p1 == p2 && t1 == t2 && s1 < s2 ==> compose_id(t1, p1, s1) < compose_id(t2, p2, s2),
        p1 == p2 && t1 < t2 < 0x200_0000_0000 ==> compose_id(t1, p1, s1) < compose_id(
            t2,
            p2,
            s2,
        ),
{
    assert((p1 != p2 ==> compose_id(t1, p1, s1) != compose_id(t2, p2, s2)) && (p1 == p2 && t1 == t2
        && s1 < s2 ==> compose_id(t1, p1, s1) < compose_id(t2, p2, s2)) && (p1 == p2 && t1 < t2
        && t2 < 0x200_0000_0000u64 ==> compose_id(t1, p1, s1) < compose_id(t2, p2, s2)))
        by (bit_vector)
        requires
            p1 < 1024u16,
            p2 < 1024u16,
            s1 <= 4095u16,
            s2 <= 4095u16,
    ;
}

/// Each identifier that a generator gives is larger than the one it gave before.
pub proof fn law_next_id_grows(
    before: SnowflakeIdGenerator,
    timestamp: u64,
)
    requires
        before.wf(),
        timestamp < 0x200_0000_0000,
        !before.blocked(timestamp),
    ensures
        compose_id(timestamp, before.process(), before.next_sequence(timestamp)) > compose_id(
            before.last(),
            before.process(),
            before.seq(),
        ),
{
    law_ids_are_ordered(
        before.last(),
        timestamp,
        before.process(),
        before.process(),
        before.seq(),
        before.next_sequence(timestamp),
    );
}

/// A generator that is shared: callers lock it around each use.
#[derive(Debug)]
pub struct ThreadSafeSnowflake {
    pub inner: SnowflakeIdGenerator,
}

impl ThreadSafeSnowflake {
    pub fn new(process_id: u16) -> (r: Self)
        ensures
            r.inner.wf(),
            r.inner.last() == 0,
            r.inner.seq() == 0,
            r.inner.process() == process_id % 1024,
    {
        ThreadSafeSnowflake { inner: SnowflakeIdGenerator::new(process_id) }
    }

    pub fn default(os_pid: u32) -> (r: Self)
        ensures
            r.inner.wf(),
            r.inner.last() == 0,
            r.inner.seq() == 0,
            r.inner.process() == os_pid % 1024,
    {
        ThreadSafeSnowflake { inner: SnowflakeIdGenerator::default(os_pid) }
    }

    /// The file name of the next blob, under the same conditions as for the generator.
    pub fn generate_blob_name(&mut self, timestamp: u64) -> (r: Option<String>)
        requires
            old(self).inner.wf(),
        ensures
            named_at(*old(self), timestamp, r, *final(self)),
    {
        self.inner.generate_blob_name(timestamp)
    }
}

/// Whether `after` and `out` are what a shared generator becomes and gives at a time.
pub open spec fn named_at(
    before: ThreadSafeSnowflake,
    timestamp: u64,
    out: Option<String>,
    after: ThreadSafeSnowflake,
) -> bool {
    &&& after.inner.wf()
    &&& after.inner.process() == before.inner.process()
    &&& before.inner.blocked(timestamp) ==> out is None && after == before
    &&& !before.inner.blocked(timestamp) ==> {
        &&& out is Some
        &&& out->0@ == blob_name(
            compose_id(
                timestamp,
                before.inner.process(),
                before.inner.next_sequence(timestamp),
            ),
        )
        &&& after.inner.last() == timestamp
        &&& after.inner.seq() == before.inner.next_sequence(timestamp)
    }
}

/// Whether a name is sixteen lower case hexadecimal digits and the ending of blobs.
pub open spec fn is_blob_name(name: Seq<char>) -> bool {
    &&& name.len() == 29
    &&& forall|i: int|
        0 <= i < 16 ==> '0' <= #[trigger] name[i] <= '9' || 'a' <= name[i] <= 'f'
    &&& name.skip(16) == ".bifrost.blob"@
}

proof fn lemma_places_are_digits(n: nat, width: nat)
    ensures
        forall|i: int|
            0 <= i < places(n, width).len() ==> {
                let c = #[trigger] places(n, width)[i];
                ('0' <= c <= '9') || ('a' <= c <= 'f')
            },
    decreases width,
{
    if width > 0 {
        let front = places(n / 16, (width - 1) as nat);
        lemma_places_are_digits(n / 16, (width - 1) as nat);
        assert forall|i: int| 0 <= i < places(n, width).len() implies {
            let c = #[trigger] places(n, width)[i];
            ('0' <= c <= '9') || ('a' <= c <= 'f')
        } by {
            if i < front.len() {
                assert(places(n, width)[i] == front[i]);
            } else {
                assert(places(n, width)[i] == text::digit_char(n % 16, false));
            }
        }
    }
}

/// Every number gives a name of the same form.
pub proof fn law_blob_name_form(id: u64)
    ensures
        is_blob_name(blob_name(id)),
{
    reveal_with_fuel(power_of_16, 17);
    assert(power_of_16(16) == 0x1_0000_0000_0000_0000);
    lemma_padded_digits(id as nat, 16);
    lemma_places_len(id as nat, 16);
    lemma_places_are_digits(id as nat, 16);
    reveal_strlit(".bifrost.blob");
    let name = blob_name(id);
    let digits = places(id as nat, 16);
    assert(name =~= digits + ".bifrost.blob"@);
    assert forall|i: int| 0 <= i < 16 implies '0' <= #[trigger] name[i] <= '9' || 'a' <= name[i]
        <= 'f' by {
        assert(name[i] == digits[i]);
    }
    assert(name.skip(16) =~= ".bifrost.blob"@);
}

/// The number of the last name that a generator gave.
spec fn last_id(g: ThreadSafeSnowflake) -> u64 {
    compose_id(g.inner.last(), g.inner.process(), g.inner.seq())
}

/// The last number never falls, and it grows with every name.
proof fn lemma_last_id_grows(
    states: Seq<ThreadSafeSnowflake>,
    times: Seq<u64>,
    outs: Seq<Option<String>>,
    i: int,
    j: int,
)
    requires
        0 <= i <= j <= times.len(),
        outs.len() == times.len(),
        states.len() == times.len() + 1,
        states[0].inner.wf(),
        states[0].inner.last() < 0x200_0000_0000,
        forall|k: int| 0 <= k < times.len() ==> #[trigger] times[k] < 0x200_0000_0000,
        forall|k: int|
            0 <= k < times.len() ==> named_at(
                states[k],
                times[k],
                #[trigger] outs[k],
                states[k + 1],
            ),
    ensures
        states[j].inner.wf(),
        states[j].inner.last() < 0x200_0000_0000,
        states[i].inner.wf(),
        last_id(states[i]) <= last_id(states[j]),
        j > i && outs[j - 1] is Some ==> last_id(states[i]) < last_id(states[j]),
        j > 0 && outs[j - 1] is Some ==> outs[j - 1]->0@ == blob_name(last_id(states[j])),
    decreases j,
{
    if j > 0 {
        let k = j - 1;
        if i < j {
            lemma_last_id_grows(states, times, outs, i, k);
        } else {
            lemma_last_id_grows(states, times, outs, k, k);
        }
        assert(named_at(states[k], times[k], outs[k], states[k + 1]));
        assert(times[k] < 0x200_0000_0000);
        if !states[k].inner.blocked(times[k]) {
            law_next_id_grows(states[k].inner, times[k]);
        }
    }
}

/// One generator never gives a name twice: of any two calls that gave one, the later one gave
/// the greater, and all names have the same form. Callers lock the generator around each use,
/// so the calls of several threads come one after the other, in whatever order: `states` are
/// its states before the first, between and after the last of them.
pub proof fn law_names_of_one_generator_differ(
    states: Seq<ThreadSafeSnowflake>,
    times: Seq<u64>,
    outs: Seq<Option<String>>,
    i: int,
    j: int,
)
    requires
        outs.len() == times.len(),
        states.len() == times.len() + 1,
        states[0].inner.wf(),
        states[0].inner.last() < 0x200_0000_0000,
        forall|k: int| 0 <= k < times.len() ==> #[trigger] times[k] < 0x200_0000_0000,
        forall|k: int|
            0 <= k < times.len() ==> named_at(
                states[k],
                times[k],
                #[trigger] outs[k],
                states[k + 1],
            ),
        0 <= i < j < times.len(),
        outs[i] is Some,
        outs[j] is Some,
    ensures
        outs[i]->0@ != outs[j]->0@,
        order::before(outs[i]->0@, outs[j]->0@),
        is_blob_name(outs[i]->0@),
        is_blob_name(outs[j]->0@),
{
    lemma_last_id_grows(states, times, outs, i + 1, j + 1);
    lemma_last_id_grows(states, times, outs, i + 1, i + 1);
    let (a, b) = (last_id(states[i + 1]), last_id(states[j + 1]));
    law_blob_names_grow(a, b);
    law_blob_names_differ(a, b);
    law_blob_name_form(a);
    law_blob_name_form(b);
}

/// Small files are collected and no others: with aggregation on, every size from one byte up
/// to the last one below the threshold; an empty file and one of the threshold itself never.
pub proof fn law_files_below_the_threshold_are_collected(
    size: u64,
    smaller: u64,
    config: AggregateConfig,
)
    ensures
        aggregates(size, config) ==> config.enabled,
        !aggregates(0, config),
        !aggregates(config.file_threshold, config),
        size >= config.file_threshold ==> !aggregates(size, config),
        config.enabled && config.file_threshold > 1 ==> aggregates(
            (config.file_threshold - 1) as u64,
            config,
        ),
        aggregates(size, config) && 0 < smaller <= size ==> aggregates(smaller, config),
        !aggregates(size, no_aggregation()),
{
}

/// The bytes of two groups of files are those of both together.
pub proof fn law_bytes_add_up<F: Payload>(a: Seq<F>, b: Seq<F>, f: F)
    ensures
        total_bytes(a + b) == total_bytes(a) + total_bytes(b),
        total_bytes(seq![f]) == f.bytes(),
        total_bytes(Seq::<F>::empty()) == 0,
    decreases b.len(),
{
    reveal_with_fuel(total_bytes, 2);
    assert(seq![f].drop_last() =~= Seq::empty());
    if b.len() == 0 {
        assert(a + b =~= a);
    } else {
        law_bytes_add_up(a, b.drop_last(), f);
        assert((a + b).drop_last() =~= a + b.drop_last());
        assert((a + b).last() == b.last());
    }
}

} // verus!

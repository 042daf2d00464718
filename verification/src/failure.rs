//! Failures: how they are classified and written down, and when an operation is tried again.
use std::collections::VecDeque;

use vstd::prelude::*;

use crate::paths;
use crate::text;

verus! {

// ---------------------------------------------------------------------------
// Log files
// ---------------------------------------------------------------------------

#[derive(Debug, Clone, Copy, PartialEq, Eq, Structural)]
pub enum FailureLogFormat {
    Csv,
    Json,
    Xml,
}

impl FailureLogFormat {
    pub open spec fn suffix(self) -> Seq<char> {
        match self {
            FailureLogFormat::Csv => "csv"@,
            FailureLogFormat::Json => "json"@,
            FailureLogFormat::Xml => "xml"@,
        }
    }

    /// The extension of log files in this format.
    pub fn extension(self) -> (s: &'static str)
        ensures
            s@ == self.suffix(),
    {
        match self {
            FailureLogFormat::Csv => "csv",
            FailureLogFormat::Json => "json",
            FailureLogFormat::Xml => "xml",
        }
    }
}

#[derive(Debug)]
pub struct FailureLogConfig {
    pub path: String,
    pub format: FailureLogFormat,
}

impl FailureLogConfig {
    pub fn new(path: String, format: FailureLogFormat) -> (r: Self)
        ensures
            r.path == path,
            r.format == format,
    {
        FailureLogConfig { path, format }
    }
}

/// The log file with the given base name in a directory.
pub fn failure_file_path(dir: &str, base_name: &str, format: FailureLogFormat) -> (s: String)
    ensures
        s@ == paths::join(dir@, base_name@ + "."@ + format.suffix()),
{
    let mut name = base_name.to_owned();
    name.append(".");
    name.append(format.extension());
    paths::join_path(dir, name.as_str())
}

// ---------------------------------------------------------------------------
// Retrying
// ---------------------------------------------------------------------------

/// How often an operation is tried again, and how long to wait in between. How the
/// delay grows and varies is up to the caller.
#[derive(Debug, Clone, Copy, PartialEq, Eq, Structural)]
pub struct RetryPolicy {
    pub max_retries: u32,
    pub retry_delay_ms: u64,
    pub max_retry_delay_ms: u64,
}

impl Default for RetryPolicy {
    fn default() -> (r: Self)
        ensures
            r == (RetryPolicy { max_retries: 3, retry_delay_ms: 1000, max_retry_delay_ms: 1000 }),
    {
        RetryPolicy { max_retries: 3, retry_delay_ms: 1000, max_retry_delay_ms: 1000 }
    }
}

impl RetryPolicy {
    pub fn new(max_retries: u32, retry_delay_ms: u64) -> (r: Self)
        ensures
            r == (RetryPolicy { max_retries, retry_delay_ms, max_retry_delay_ms: retry_delay_ms }),
    {
        RetryPolicy { max_retries, retry_delay_ms, max_retry_delay_ms: retry_delay_ms }
    }

    /// Sets the longest delay, which is never less than the first one.
    pub fn with_max_delay(self, max_retry_delay_ms: u64) -> (r: Self)
        ensures
            caps_delay(self, max_retry_delay_ms, r),
    {
        let mut policy = self;
        policy.max_retry_delay_ms =
        if max_retry_delay_ms > self.retry_delay_ms {
            max_retry_delay_ms
        } else {
            self.retry_delay_ms
        };
        policy
    }

    /// The first attempt and all retries.
    pub open spec fn attempts(self) -> u32 {
        if self.max_retries == u32::MAX {
            u32::MAX
        } else {
            (self.max_retries + 1) as u32
        }
    }

    pub fn max_attempts(self) -> (n: u32)
        ensures
            n == self.attempts(),
    {
        self.max_retries.saturating_add(1)
    }

    /// Whether another attempt follows the given one.
    pub fn should_retry(self, attempt: u32) -> (r: bool)
        ensures
            r == (attempt < self.attempts()),
    {
        attempt < self.max_attempts()
    }
}

/// A number from 0 to 9999 that spreads the delays of successive attempts.
pub open spec fn jitter_slot(attempt: u32) -> u32 {
    attempt.wrapping_mul(1_103_515_245u32).wrapping_add(12_345u32) % 10_000
}

pub fn jitter_slot_of(attempt: u32) -> (n: u32)
    ensures
        n == jitter_slot(attempt),
        n < 10_000,
{
    attempt.wrapping_mul(1_103_515_245u32).wrapping_add(12_345u32) % 10_000
}

/// Items with the attempt that each is about to make, in the order in which they wait.
pub struct RetryQueue<I> {
    queue: VecDeque<(I, u32)>,
}

impl<I> View for RetryQueue<I> {
    type V = Seq<(I, u32)>;

    closed spec fn view(&self) -> Seq<(I, u32)> {
        self.queue@
    }
}

impl<I> RetryQueue<I> {
    /// A queue with one item that is about to make its first attempt.
    pub fn new(item: I) -> (r: Self)
        ensures
            r@ == seq![(item, 1u32)],
    {
        let mut queue = VecDeque::new();
        queue.push_back((item, 1u32));
        assert(queue@ =~= seq![(item, 1u32)]);
        RetryQueue { queue }
    }

    /// The item that has waited longest, with the attempt it makes.
    pub fn pop(&mut self) -> (r: Option<(I, u32)>)
        ensures
            match r {
                Some(next) => old(self)@.len() > 0 && next == old(self)@[0] && final(self)@
                    == old(self)@.skip(1),
                None => old(self)@.len() == 0 && final(self)@ == old(self)@,
            },
    {
        let r = self.queue.pop_front();
        assert(old(self)@.len() > 0 ==> self@ =~= old(self)@.skip(1));
        r
    }

    /// Takes an item back whose attempt failed: it waits for the next attempt, or is
    /// handed back where there is none left.
    pub fn retry_or_fail(&mut self, policy: RetryPolicy, item: I, failed_attempt: u32) -> (r:
        Result<(), (I, u32)>)
        ensures
            match after_failure(policy, item, failed_attempt) {
                Ok(next) => r is Ok && final(self)@ == old(self)@.push(next),
                Err(given_up) => r matches Err(e) && e == given_up && final(self)@ == old(self)@,
            },
    {
        if policy.should_retry(failed_attempt) {
            self.queue.push_back((item, failed_attempt + 1));
            Ok(())
        } else {
            Err((item, failed_attempt))
        }
    }
}

/// An item whose attempt failed is about to make the next one, or is given up with the
/// number of attempts it made.
pub open spec fn after_failure<I>(policy: RetryPolicy, item: I, failed_attempt: u32) -> Result<
    (I, u32),
    (I, u32),
> {
    if failed_attempt < policy.attempts() {
        Ok((item, (failed_attempt + 1) as u32))
    } else {
        Err((item, failed_attempt))
    }
}

/// An item after it failed the given number of times, starting with its first attempt.
pub open spec fn after_failures<I>(policy: RetryPolicy, item: I, failures: nat) -> Result<
    (I, u32),
    (I, u32),
>
    decreases failures,
{
    if failures == 0 {
        Ok((item, 1u32))
    } else {
        match after_failures(policy, item, (failures - 1) as nat) {
            Ok((i, attempt)) => after_failure(policy, i, attempt),
            Err(given_up) => Err(given_up),
        }
    }
}

/// An item that keeps failing is tried exactly as often as the policy allows. It is then
/// given up: the same item, with that number of attempts.
pub proof fn law_attempts_are_bounded<I>(policy: RetryPolicy, item: I, failures: nat)
    ensures
        failures < policy.attempts() ==> after_failures(policy, item, failures) == Ok::<
            (I, u32),
            (I, u32),
        >((item, (failures + 1) as u32)),
        failures >= policy.attempts() ==> after_failures(policy, item, failures) == Err::<
            (I, u32),
            (I, u32),
        >((item, policy.attempts())),
    decreases failures,
{
    if failures > 0 {
        law_attempts_are_bounded(policy, item, (failures - 1) as nat);
    }
}

// ---------------------------------------------------------------------------
// Records
// ---------------------------------------------------------------------------

#[derive(Debug, Clone, Copy, PartialEq, Eq, Structural)]
pub enum FailureItemType {
    File,
    Directory,
    Symlink,
    Special,
    Block,
    Unknown,
}

impl FailureItemType {
    pub open spec fn name(self) -> Seq<char> {
        match self {
            FailureItemType::File => "file"@,
            FailureItemType::Directory => "directory"@,
            FailureItemType::Symlink => "symlink"@,
            FailureItemType::Special => "special"@,
            FailureItemType::Block => "block"@,
            FailureItemType::Unknown => "unknown"@,
        }
    }

    pub fn as_str(self) -> (s: &'static str)
        ensures
            s@ == self.name(),
    {
        match self {
            FailureItemType::File => "file",
            FailureItemType::Directory => "directory",
            FailureItemType::Symlink => "symlink",
            FailureItemType::Special => "special",
            FailureItemType::Block => "block",
            FailureItemType::Unknown => "unknown",
        }
    }
}

/// One failure, as it is written down.
#[derive(Debug)]
pub struct FailureRecord {
    /// UTC, to the second.
    pub time: String,
    pub phase: String,
    pub operation: String,
    pub item_type: FailureItemType,
    pub path: String,
    pub code: String,
    pub detail: String,
    pub attempts: u32,
}

/// Trusted: `chrono::Utc::now` and `DateTime::to_rfc3339_opts`. The text depends on the
/// clock, so nothing is said of it.
#[verifier::external_body]
fn utc_now() -> (s: String) {
    chrono::Utc::now().to_rfc3339_opts(chrono::SecondsFormat::Secs, true)
}

impl FailureRecord {
    /// A failure at the present time.
    pub fn new(
        phase: &str,
        operation: &str,
        item_type: FailureItemType,
        path: &str,
        code: &str,
        detail: &str,
        attempts: u32,
    ) -> (r: Self)
        ensures
            r.phase@ == phase@,
            r.operation@ == operation@,
            r.item_type == item_type,
            r.path@ == path@,
            r.code@ == code@,
            r.detail@ == detail@,
            r.attempts == attempts,
    {
        FailureRecord {
            time: utc_now(),
            phase: phase.to_owned(),
            operation: operation.to_owned(),
            item_type,
            path: path.to_owned(),
            code: code.to_owned(),
            detail: detail.to_owned(),
            attempts,
        }
    }

    /// A failure that an input or output operation reported, by the number that the
    /// operating system gave it, if any, and by its text.
    pub fn from_io_error(
        phase: &str,
        operation: &str,
        item_type: FailureItemType,
        path: &str,
        raw_os_error: Option<i32>,
        message: &str,
        attempts: u32,
    ) -> (r: Self)
        ensures
            r.phase@ == phase@,
            r.operation@ == operation@,
            r.item_type == item_type,
            r.path@ == path@,
            r.code@ == io_error_code(raw_os_error, message@),
            r.detail@ == message@,
            r.attempts == attempts,
    {
        let code = classify_io_error(raw_os_error, message);
        FailureRecord::new(phase, operation, item_type, path, code.as_str(), message, attempts)
    }

    /// A failure that is known by its text.
    pub fn from_detail(
        phase: &str,
        operation: &str,
        item_type: FailureItemType,
        path: &str,
        detail: &str,
        attempts: u32,
    ) -> (r: Self)
        ensures
            r.phase@ == phase@,
            r.operation@ == operation@,
            r.item_type == item_type,
            r.path@ == path@,
            r.code@ == detail_code(detail@),
            r.detail@ == detail@,
            r.attempts == attempts,
    {
        let code = classify_error_detail(detail);
        FailureRecord::new(phase, operation, item_type, path, code.as_str(), detail, attempts)
    }
}

/// An operation that failed for good: what the operating system said, and how often it
/// was tried.
#[derive(Debug)]
pub struct IoFailure {
    pub raw_os_error: Option<i32>,
    pub message: String,
    pub attempts: u32,
}

/// Whether a record tells of a failure in the backup phase.
pub open spec fn tells(
    r: FailureRecord,
    operation: Seq<char>,
    item_type: FailureItemType,
    path: Seq<char>,
    failure: IoFailure,
) -> bool {
    &&& r.phase@ == "backup"@
    &&& r.operation@ == operation
    &&& r.item_type == item_type
    &&& r.path@ == path
    &&& r.code@ == io_error_code(failure.raw_os_error, failure.message@)
    &&& r.detail@ == failure.message@
    &&& r.attempts == failure.attempts
}

/// Whether a record was made of a result: none of a success, and one that tells of the
/// failure otherwise.
pub open spec fn tells_result(
    record: Option<FailureRecord>,
    operation: Seq<char>,
    item_type: FailureItemType,
    path: Seq<char>,
    result: Result<(), IoFailure>,
) -> bool {
    match result {
        Ok(_) => record is None,
        Err(f) => record matches Some(r) && tells(r, operation, item_type, path, f),
    }
}

/// The record of a failure in the backup phase.
pub fn record_failure(
    operation: &str,
    item_type: FailureItemType,
    path: &str,
    failure: &IoFailure,
) -> (r: FailureRecord)
    ensures
        tells(r, operation@, item_type, path@, *failure),
{
    FailureRecord::from_io_error(
        "backup",
        operation,
        item_type,
        path,
        failure.raw_os_error,
        failure.message.as_str(),
        failure.attempts,
    )
}

// ---------------------------------------------------------------------------
// Classification
// ---------------------------------------------------------------------------

/// The names of the error numbers that are told apart.
pub open spec fn errno_tokens() -> Seq<Seq<char>> {
    seq![
        "EPERM"@,
        "EACCES"@,
        "ENOENT"@,
        "ENOSPC"@,
        "EEXIST"@,
        "EIO"@,
        "ENOTDIR"@,
        "EISDIR"@,
        "EBUSY"@,
        "EROFS"@,
        "ETIMEDOUT"@,
        "ECONNRESET"@,
        "ECONNREFUSED"@,
    ]
}

/// Phrases of servers and of the operating system that are told apart.
pub open spec fn phrase_tokens() -> Seq<Seq<char>> {
    seq![
        "NFS3ERR_JUKEBOX"@,
        "NFS3ERR_ACCES"@,
        "NFS3ERR_NOENT"@,
        "NFS3ERR_NOSPC"@,
        "NFS3ERR_IO"@,
        "OBJECT PATH NOT FOUND"@,
        "NETWORK NAME DELETED"@,
        "ACCESS DENIED"@,
        "PERMISSION DENIED"@,
        "NO SUCH FILE"@,
        "NO SPACE LEFT"@,
    ]
}

/// The first of the tokens that the text holds.
pub open spec fn first_token(s: Seq<char>, tokens: Seq<Seq<char>>) -> Option<Seq<char>>
    decreases tokens.len(),
{
    if tokens.len() == 0 {
        None
    } else if text::contains(s, tokens[0]) {
        Some(tokens[0])
    } else {
        first_token(s, tokens.drop_first())
    }
}

/// The code of an error that is known by its text, whatever the case of its letters.
pub open spec fn detail_code(detail: Seq<char>) -> Seq<char> {
    let upper = text::ascii_upper(detail);
    match first_token(upper, errno_tokens()) {
        Some(t) => t,
        None => match first_token(upper, phrase_tokens()) {
            Some(t) => text::replace(t, ' ', "_"@),
            None => "UNKNOWN"@,
        },
    }
}

/// The code of an error number of the operating system (Linux).
pub open spec fn errno_code(code: i32) -> Seq<char> {
    if code == 1 {
        "EPERM"@
    } else if code == 13 {
        "EACCES"@
    } else if code == 2 {
        "ENOENT"@
    } else if code == 28 {
        "ENOSPC"@
    } else if code == 17 {
        "EEXIST"@
    } else if code == 5 {
        "EIO"@
    } else if code == 20 {
        "ENOTDIR"@
    } else if code == 21 {
        "EISDIR"@
    } else if code == 16 {
        "EBUSY"@
    } else if code == 30 {
        "EROFS"@
    } else if code == 110 {
        "ETIMEDOUT"@
    } else if code == 104 {
        "ECONNRESET"@
    } else if code == 111 {
        "ECONNREFUSED"@
    } else {
        "ERRNO_"@ + text::signed_decimal(code as int)
    }
}

/// The code of an error of an input or output operation: by its number where it has one,
/// otherwise by its text.
pub open spec fn io_error_code(raw_os_error: Option<i32>, message: Seq<char>) -> Seq<char> {
    match raw_os_error {
        Some(code) => errno_code(code),
        None => detail_code(message),
    }
}

pub fn classify_io_error(raw_os_error: Option<i32>, message: &str) -> (s: String)
    ensures
        s@ == io_error_code(raw_os_error, message@),
{
    match raw_os_error {
        Some(code) => classify_errno(code),
        None => classify_error_detail(message),
    }
}

pub fn classify_errno(code: i32) -> (s: String)
    ensures
        s@ == errno_code(code),
{
    let name = match code {
        1 => "EPERM",
        13 => "EACCES",
        2 => "ENOENT",
        28 => "ENOSPC",
        17 => "EEXIST",
        5 => "EIO",
        20 => "ENOTDIR",
        21 => "EISDIR",
        16 => "EBUSY",
        30 => "EROFS",
        110 => "ETIMEDOUT",
        104 => "ECONNRESET",
        111 => "ECONNREFUSED",
        _ => {
            return text::concat("ERRNO_", text::signed_decimal_string(code).as_str());
        },
    };
    name.to_owned()
}

pub open spec fn token_views(tokens: Seq<&'static str>) -> Seq<Seq<char>> {
    tokens.map_values(|t: &'static str| t@)
}

fn find_token(s: &str, tokens: &Vec<&'static str>) -> (r: Option<&'static str>)
    ensures
        match r {
            Some(t) => first_token(s@, token_views(tokens@)) == Some(t@),
            None => first_token(s@, token_views(tokens@)) is None,
        },
{
    let mut i: usize = 0;
    assert(token_views(tokens@).skip(0) =~= token_views(tokens@));
    while i < tokens.len()
        invariant
            i <= tokens@.len(),
            first_token(s@, token_views(tokens@).skip(i as int)) == first_token(
                s@,
                token_views(tokens@),
            ),
        decreases tokens@.len() - i,
    {
        assert(token_views(tokens@).skip(i as int)[0] == tokens@[i as int]@);
        assert(token_views(tokens@).skip(i as int).drop_first() =~= token_views(tokens@).skip(
            i + 1,
        ));
        if text::contains_text(s, tokens[i]) {
            return Some(tokens[i]);
        }
        i += 1;
    }
    None
}

pub fn classify_error_detail(detail: &str) -> (s: String)
    ensures
        s@ == detail_code(detail@),
{
    let upper = text::to_ascii_upper(detail);
    let numbers: Vec<&'static str> = vec![
        "EPERM",
        "EACCES",
        "ENOENT",
        "ENOSPC",
        "EEXIST",
        "EIO",
        "ENOTDIR",
        "EISDIR",
        "EBUSY",
        "EROFS",
        "ETIMEDOUT",
        "ECONNRESET",
        "ECONNREFUSED",
    ];
    assert(token_views(numbers@) =~= errno_tokens());
    match find_token(upper.as_str(), &numbers) {
        Some(t) => {
            return t.to_owned();
        },
        None => {},
    }
    let phrases: Vec<&'static str> = vec![
        "NFS3ERR_JUKEBOX",
        "NFS3ERR_ACCES",
        "NFS3ERR_NOENT",
        "NFS3ERR_NOSPC",
        "NFS3ERR_IO",
        "OBJECT PATH NOT FOUND",
        "NETWORK NAME DELETED",
        "ACCESS DENIED",
        "PERMISSION DENIED",
        "NO SUCH FILE",
        "NO SPACE LEFT",
    ];
    assert(token_views(phrases@) =~= phrase_tokens());
    match find_token(upper.as_str(), &phrases) {
        Some(t) => text::replace_char(t, ' ', "_"),
        None => text::copy_of("UNKNOWN"),
    }
}

// ---------------------------------------------------------------------------
// Writing records down
// ---------------------------------------------------------------------------

/// `value` as text inside an XML element.
pub open spec fn xml_escaped(value: Seq<char>) -> Seq<char> {
    text::replace(
        text::replace(
            text::replace(
                text::replace(text::replace(value, '&', "&amp;"@), '<', "&lt;"@),
                '>',
                "&gt;"@,
            ),
            '"',
            "&quot;"@,
        ),
        '\'',
        "&apos;"@,
    )
}

pub fn xml_escape(value: &str) -> (s: String)
    ensures
        s@ == xml_escaped(value@),
{
    let a = text::replace_char(value, '&', "&amp;");
    let b = text::replace_char(a.as_str(), '<', "&lt;");
    let c = text::replace_char(b.as_str(), '>', "&gt;");
    let d = text::replace_char(c.as_str(), '"', "&quot;");
    text::replace_char(d.as_str(), '\'', "&apos;")
}

/// Escaped text holds no character that would end an element or an attribute.
pub proof fn law_escaped_text_is_plain(value: Seq<char>)
    ensures
        !xml_escaped(value).contains('<'),
        !xml_escaped(value).contains('>'),
        !xml_escaped(value).contains('"'),
        !xml_escaped(value).contains('\''),
{
    reveal_strlit("&lt;");
    reveal_strlit("&gt;");
    reveal_strlit("&quot;");
    reveal_strlit("&apos;");
    let a = text::replace(value, '&', "&amp;"@);
    let b = text::replace(a, '<', "&lt;"@);
    let c = text::replace(b, '>', "&gt;"@);
    let d = text::replace(c, '"', "&quot;"@);
    text::lemma_replace_keeps_out(a, '<', "&lt;"@, '<');
    text::lemma_replace_keeps_out(b, '>', "&gt;"@, '<');
    text::lemma_replace_keeps_out(c, '"', "&quot;"@, '<');
    text::lemma_replace_keeps_out(d, '\'', "&apos;"@, '<');
    text::lemma_replace_keeps_out(b, '>', "&gt;"@, '>');
    text::lemma_replace_keeps_out(c, '"', "&quot;"@, '>');
    text::lemma_replace_keeps_out(d, '\'', "&apos;"@, '>');
    text::lemma_replace_keeps_out(c, '"', "&quot;"@, '"');
    text::lemma_replace_keeps_out(d, '\'', "&apos;"@, '"');
    text::lemma_replace_keeps_out(d, '\'', "&apos;"@, '\'');
}

/// One line of comma-separated values, as `csv::Writer::write_record` writes it.
pub uninterp spec fn csv_line(fields: Seq<Seq<char>>) -> Seq<u8>;

/// Trusted: `csv::Writer::write_record` into memory, followed by
/// `csv::Writer::into_inner`. Writing to a vector does not fail, and a writer accepts
/// any number of fields in its first record. The bytes depend on the fields alone.
#[verifier::external_body]
pub(crate) fn csv_record(fields: &Vec<String>) -> (r: Result<Vec<u8>, String>)
    ensures
        r is Ok,
        r->Ok_0@ == csv_line(text::views(fields@)),
{
    let mut writer = csv::WriterBuilder::new().has_headers(false).from_writer(Vec::new());
    writer.write_record(fields).map_err(|e| e.to_string())?;
    writer.into_inner().map_err(|e| e.to_string())
}

/// The fields of a record in the order of the columns.
pub open spec fn record_fields(r: FailureRecord) -> Seq<Seq<char>> {
    seq![
        r.time@,
        r.phase@,
        r.operation@,
        r.item_type.name(),
        r.path@,
        r.code@,
        r.detail@,
        text::decimal(r.attempts as nat),
    ]
}

/// A record as one line of XML.
pub open spec fn xml_line(r: FailureRecord) -> Seq<char> {
    "  <failure><time>"@ + xml_escaped(r.time@) + "</time><phase>"@ + xml_escaped(r.phase@)
        + "</phase><operation>"@ + xml_escaped(r.operation@) + "</operation><item_type>"@
        + r.item_type.name() + "</item_type><path>"@ + xml_escaped(r.path@) + "</path><code>"@
        + xml_escaped(r.code@) + "</code><detail>"@ + xml_escaped(r.detail@)
        + "</detail><attempts>"@ + text::decimal(r.attempts as nat) + "</attempts></failure>\n"@
}

fn xml_record(r: &FailureRecord) -> (s: String)
    ensures
        s@ == xml_line(*r),
{
    let mut s = text::copy_of("  <failure><time>");
    s.append(xml_escape(r.time.as_str()).as_str());
    s.append("</time><phase>");
    s.append(xml_escape(r.phase.as_str()).as_str());
    s.append("</phase><operation>");
    s.append(xml_escape(r.operation.as_str()).as_str());
    s.append("</operation><item_type>");
    s.append(r.item_type.as_str());
    s.append("</item_type><path>");
    s.append(xml_escape(r.path.as_str()).as_str());
    s.append("</path><code>");
    s.append(xml_escape(r.code.as_str()).as_str());
    s.append("</code><detail>");
    s.append(xml_escape(r.detail.as_str()).as_str());
    s.append("</detail><attempts>");
    s.append(text::decimal_string(r.attempts as u64).as_str());
    s.append("</attempts></failure>\n");
    s
}

/// Frames the records of a log file: what stands in front of them, between them and
/// behind them.
#[derive(Debug, Clone, Copy, PartialEq, Eq, Structural)]
pub struct FailureRecorder {
    pub format: FailureLogFormat,
    pub wrote_any: bool,
}

/// The bytes of a text.
pub open spec fn bytes_of(s: Seq<char>) -> Seq<u8> {
    vstd::utf8::encode_utf8(s)
}

fn to_bytes(s: &str) -> (v: Vec<u8>)
    ensures
        v@ == bytes_of(s@),
{
    vstd::slice::slice_to_vec(s.as_bytes())
}

impl FailureRecorder {
    pub open spec fn header(format: FailureLogFormat) -> Seq<char> {
        match format {
            FailureLogFormat::Csv => "time,phase,operation,item_type,path,code,detail,attempts\n"@,
            FailureLogFormat::Json => "[\n"@,
            FailureLogFormat::Xml => "<failures>\n"@,
        }
    }

    /// A recorder for a new log file, and what the file begins with.
    pub fn create(config: &FailureLogConfig) -> (r: (Self, Vec<u8>))
        ensures
            r.0 == (FailureRecorder { format: config.format, wrote_any: false }),
            r.1@ == bytes_of(FailureRecorder::header(config.format)),
    {
        let header = match config.format {
            FailureLogFormat::Csv => "time,phase,operation,item_type,path,code,detail,attempts\n",
            FailureLogFormat::Json => "[\n",
            FailureLogFormat::Xml => "<failures>\n",
        };
        (FailureRecorder { format: config.format, wrote_any: false }, to_bytes(header))
    }

    /// What is written for one record. In the JSON format the record itself comes as
    /// `json`, and a comma stands between two records.
    pub open spec fn entry(&self, record: FailureRecord, json: Seq<char>) -> Seq<u8> {
        match self.format {
            FailureLogFormat::Csv => csv_line(record_fields(record)),
            FailureLogFormat::Json => if self.wrote_any {
                bytes_of(",\n"@ + json)
            } else {
                bytes_of(json)
            },
            FailureLogFormat::Xml => bytes_of(xml_line(record)),
        }
    }

    /// The bytes to be appended for one record.
    pub fn record(&mut self, record: &FailureRecord, json: &str) -> (r: Result<Vec<u8>, String>)
        ensures
            r is Ok,
            r->Ok_0@ == old(self).entry(*record, json@),
            *final(self) == (FailureRecorder { wrote_any: true, ..*old(self) }),
    {
        let out = match self.format {
            FailureLogFormat::Csv => {
                let fields: Vec<String> = vec![
                    record.time.clone(),
                    record.phase.clone(),
                    record.operation.clone(),
                    record.item_type.as_str().to_owned(),
                    record.path.clone(),
                    record.code.clone(),
                    record.detail.clone(),
                    text::decimal_string(record.attempts as u64),
                ];
                assert(text::views(fields@) =~= record_fields(*record));
                match csv_record(&fields) {
                    Ok(data) => data,
                    Err(e) => {
                        return Err(e);
                    },
                }
            },
            FailureLogFormat::Json => {
                if self.wrote_any {
                    let whole = text::concat(",\n", json);
                    to_bytes(whole.as_str())
                } else {
                    to_bytes(json)
                }
            },
            FailureLogFormat::Xml => {
                let line = xml_record(record);
                to_bytes(line.as_str())
            },
        };
        self.wrote_any = true;
        Ok(out)
    }

    /// What the log file ends with.
    pub fn footer(&self) -> (v: Vec<u8>)
        ensures
            v@ == bytes_of(
                match self.format {
                    FailureLogFormat::Csv => Seq::empty(),
                    FailureLogFormat::Json => "\n]\n"@,
                    FailureLogFormat::Xml => "</failures>\n"@,
                },
            ),
    {
        match self.format {
            FailureLogFormat::Csv => to_bytes(String::new().as_str()),
            FailureLogFormat::Json => to_bytes("\n]\n"),
            FailureLogFormat::Xml => to_bytes("</failures>\n"),
        }
    }
}

/// An operation is tried once and then as often as the policy allows retries.
pub proof fn law_retries_come_on_top(policy: RetryPolicy)
    ensures
        policy.attempts() >= 1,
        policy.max_retries < u32::MAX ==> policy.attempts() == policy.max_retries + 1,
        policy.max_retries == u32::MAX ==> policy.attempts() == u32::MAX,
{
}

/// The delays of attempts spread over ten thousand slots.
pub proof fn law_jitter_slots(attempt: u32)
    ensures
        jitter_slot(attempt) < 10_000,
{
}

/// The first token that a text holds is one of the tokens, and none in front of it is held;
/// where there is none, the text holds no token.
pub proof fn law_first_token_is_the_first(s: Seq<char>, tokens: Seq<Seq<char>>)
    ensures
        match first_token(s, tokens) {
            Some(t) => exists|i: int|
                0 <= i < tokens.len() && #[trigger] tokens[i] == t && text::contains(s, t)
                    && forall|k: int| 0 <= k < i ==> !text::contains(s, #[trigger] tokens[k]),
            None => forall|k: int|
                0 <= k < tokens.len() ==> !text::contains(s, #[trigger] tokens[k]),
        },
    decreases tokens.len(),
{
    if tokens.len() > 0 {
        let rest = tokens.drop_first();
        if text::contains(s, tokens[0]) {
            assert(tokens[0] == tokens[0]);
        } else {
            law_first_token_is_the_first(s, rest);
            match first_token(s, rest) {
                Some(t) => {
                    let i = choose|i: int|
                        0 <= i < rest.len() && #[trigger] rest[i] == t && text::contains(s, t)
                            && forall|k: int|
                            0 <= k < i ==> !text::contains(s, #[trigger] rest[k]);
                    assert(tokens[i + 1] == t);
                    assert forall|k: int| 0 <= k < i + 1 implies !text::contains(
                        s,
                        #[trigger] tokens[k],
                    ) by {
                        if k > 0 {
                            assert(rest[k - 1] == tokens[k]);
                        }
                    }
                },
                None => {
                    assert forall|k: int| 0 <= k < tokens.len() implies !text::contains(
                        s,
                        #[trigger] tokens[k],
                    ) by {
                        if k > 0 {
                            assert(rest[k - 1] == tokens[k]);
                        }
                    }
                },
            }
        }
    }
}

/// An error known by its text has the name of an error number that the text holds, before
/// any phrase; then a phrase, with its blanks joined; and is unknown where it holds neither.
/// The case of the letters makes no difference.
pub proof fn law_texts_are_classified(a: Seq<char>, b: Seq<char>)
    ensures
        text::ascii_upper(a) == text::ascii_upper(b) ==> detail_code(a) == detail_code(b),
        (exists|i: int|
            0 <= i < errno_tokens().len() && text::contains(
                text::ascii_upper(a),
                #[trigger] errno_tokens()[i],
            )) ==> exists|i: int|
            0 <= i < errno_tokens().len() && #[trigger] errno_tokens()[i] == detail_code(a)
                && text::contains(text::ascii_upper(a), errno_tokens()[i]),
        (forall|i: int|
            0 <= i < errno_tokens().len() ==> !text::contains(
                text::ascii_upper(a),
                #[trigger] errno_tokens()[i],
            )) && (forall|i: int|
            0 <= i < phrase_tokens().len() ==> !text::contains(
                text::ascii_upper(a),
                #[trigger] phrase_tokens()[i],
            )) ==> detail_code(a) == "UNKNOWN"@,
{
    law_first_token_is_the_first(text::ascii_upper(a), errno_tokens());
    law_first_token_is_the_first(text::ascii_upper(a), phrase_tokens());
}

/// An error known by its number has the name that is looked for in texts, in the same order:
/// an error is called the same however it is known. Other numbers are named by themselves.
pub proof fn law_numbers_and_texts_share_names(code: i32, i: int)
    ensures
        ({
            let numbers = seq![1i32, 13, 2, 28, 17, 5, 20, 21, 16, 30, 110, 104, 111];
            &&& numbers.len() == errno_tokens().len()
            &&& 0 <= i < numbers.len() ==> errno_code(numbers[i]) == errno_tokens()[i]
            &&& !numbers.contains(code) ==> errno_code(code) == "ERRNO_"@ + text::signed_decimal(
                code as int,
            )
        }),
{
    let numbers = seq![1i32, 13, 2, 28, 17, 5, 20, 21, 16, 30, 110, 104, 111];
    if !numbers.contains(code) {
        assert(numbers[0] == 1 && numbers[1] == 13 && numbers[2] == 2 && numbers[3] == 28);
        assert(numbers[4] == 17 && numbers[5] == 5 && numbers[6] == 20 && numbers[7] == 21);
        assert(numbers[8] == 16 && numbers[9] == 30 && numbers[10] == 110 && numbers[11] == 104);
        assert(numbers[12] == 111);
    }
}

/// The number of an error goes before its text.
pub proof fn law_numbers_go_before_texts(code: i32, message: Seq<char>, other: Seq<char>)
    ensures
        io_error_code(Some(code), message) == io_error_code(Some(code), other),
        io_error_code(Some(code), message) == errno_code(code),
        io_error_code(None, message) == detail_code(message),
{
}

/// A record tells of the failure that it was made of, and a success leaves none.
pub proof fn law_records_tell_of_their_failure(
    record: Option<FailureRecord>,
    operation: Seq<char>,
    item_type: FailureItemType,
    path: Seq<char>,
    result: Result<(), IoFailure>,
)
    requires
        tells_result(record, operation, item_type, path, result),
    ensures
        record is Some <==> result is Err,
        record matches Some(r) ==> (result matches Err(f) && {
            &&& (r.operation@, r.path@, r.detail@) == (operation, path, f.message@)
            &&& (r.item_type, r.attempts) == (item_type, f.attempts)
            &&& f.raw_os_error matches Some(code) ==> r.code@ == errno_code(code)
            &&& f.raw_os_error is None ==> r.code@ == detail_code(f.message@)
            &&& r.phase@ == "backup"@
        }),
{
}

/// Text is escaped character by character: only the five special ones are replaced, each by
/// its own entity.
pub proof fn law_text_is_escaped_by_character(a: Seq<char>, b: Seq<char>, c: char)
    ensures
        xml_escaped(a + b) == xml_escaped(a) + xml_escaped(b),
        c != '&' && c != '<' && c != '>' && c != '"' && c != '\'' ==> xml_escaped(seq![c])
            == seq![c],
{
    let (a1, b1) = (text::replace(a, '&', "&amp;"@), text::replace(b, '&', "&amp;"@));
    let (a2, b2) = (text::replace(a1, '<', "&lt;"@), text::replace(b1, '<', "&lt;"@));
    let (a3, b3) = (text::replace(a2, '>', "&gt;"@), text::replace(b2, '>', "&gt;"@));
    let (a4, b4) = (text::replace(a3, '"', "&quot;"@), text::replace(b3, '"', "&quot;"@));
    text::law_replace_by_character(a, b, '&', "&amp;"@, c);
    text::law_replace_by_character(a1, b1, '<', "&lt;"@, c);
    text::law_replace_by_character(a2, b2, '>', "&gt;"@, c);
    text::law_replace_by_character(a3, b3, '"', "&quot;"@, c);
    text::law_replace_by_character(a4, b4, '\'', "&apos;"@, c);
}

/// Records of a JSON log stand in one list: every record but the first has a comma in front
/// of it, and no record changes with those before it otherwise.
pub proof fn law_json_records_are_separated(
    log: FailureRecorder,
    record: FailureRecord,
    json: Seq<char>,
)
    ensures
        log.format == FailureLogFormat::Json && !log.wrote_any ==> log.entry(record, json)
            == bytes_of(json),
        log.format == FailureLogFormat::Json && log.wrote_any ==> log.entry(record, json)
            == bytes_of(",\n"@ + json),
        log.format == FailureLogFormat::Csv ==> log.entry(record, json) == csv_line(
            record_fields(record),
        ),
{
}

/// The columns of a record are its fields, each in its place.
pub proof fn law_columns_hold_the_fields(r: FailureRecord)
    ensures
        record_fields(r).len() == 8,
        (record_fields(r)[0], record_fields(r)[1], record_fields(r)[2]) == (
            r.time@,
            r.phase@,
            r.operation@,
        ),
        (record_fields(r)[3], record_fields(r)[4], record_fields(r)[5]) == (
            r.item_type.name(),
            r.path@,
            r.code@,
        ),
        (record_fields(r)[6], record_fields(r)[7]) == (
            r.detail@,
            text::decimal(r.attempts as nat),
        ),
{
}

/// Whether `r` is a policy with its longest delay set.
pub open spec fn caps_delay(
    policy: RetryPolicy,
    most: u64,
    r: RetryPolicy,
) -> bool {
    r == (RetryPolicy {
        max_retry_delay_ms: if most > policy.retry_delay_ms {
            most
        } else {
            policy.retry_delay_ms
        },
        ..policy
    })
}

/// The longest delay is never shorter than the first one nor than what was asked for, and is one
/// of the two; nothing else of a policy changes with it.
pub proof fn law_longest_delay_is_never_shorter(policy: RetryPolicy, most: u64, r: RetryPolicy)
    requires
        caps_delay(policy, most, r),
    ensures
        r.max_retry_delay_ms >= most && r.max_retry_delay_ms >= r.retry_delay_ms,
        r.max_retry_delay_ms == most || r.max_retry_delay_ms == policy.retry_delay_ms,
        r.retry_delay_ms == policy.retry_delay_ms && r.max_retries == policy.max_retries,
{
}

/// An item is tried as often as the policy allows and no more: until then a failure leads to
/// the next attempt, and the last one gives it up with the number of its attempts.
pub proof fn law_items_are_tried_as_often_as_allowed<I>(
    policy: RetryPolicy,
    item: I,
    failed: u32,
)
    requires
        policy.max_retries < u32::MAX,
    ensures
        failed <= policy.max_retries ==> after_failure(policy, item, failed) == Ok::<
            (I, u32),
            (I, u32),
        >((item, (failed + 1) as u32)),
        failed > policy.max_retries ==> after_failure(policy, item, failed) == Err::<
            (I, u32),
            (I, u32),
        >((item, failed)),
        policy.max_retries == 0 ==> after_failure(policy, item, 1) is Err,
{
}

/// Kinds of items and formats of logs have names that differ.
pub proof fn law_names_differ(a: FailureItemType, b: FailureItemType)
    requires
        a != b,
    ensures
        a.name() != b.name(),
{
    reveal_strlit("file");
    reveal_strlit("directory");
    reveal_strlit("symlink");
    reveal_strlit("special");
    reveal_strlit("block");
    reveal_strlit("unknown");
    assert("file"@.len() == 4 && "directory"@.len() == 9 && "block"@.len() == 5);
    assert("symlink"@.len() == 7 && "special"@.len() == 7 && "unknown"@.len() == 7);
    assert("symlink"@[1] == 'y' && "special"@[1] == 'p' && "unknown"@[1] == 'n');
}

} // verus!

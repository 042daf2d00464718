//! Counters of a backup.
use vstd::prelude::*;

verus! {

/// Counters of a running backup. Like the machine's own counters they start again at
/// zero beyond the largest number.
#[derive(Debug, Clone, Copy, PartialEq, Eq, Structural)]
pub struct BackupStats {
    /// Bytes copied to the target.
    pub bytes_copied: u64,
    /// Source files opened.
    pub src_opened: u64,
    /// Source files closed.
    pub src_closed: u64,
    /// Target files opened.
    pub dst_opened: u64,
    /// Target files closed.
    pub dst_closed: u64,
    /// Files copied as a whole.
    pub files_copied: u64,
    /// Files deleted.
    pub files_deleted: u64,
    /// Directories created.
    pub dirs_created: u64,
    /// Directories deleted.
    pub dirs_deleted: u64,
    /// Files that failed.
    pub files_failed: u64,
    /// Directories that failed.
    pub dirs_failed: u64,
}

/// The counters at one moment.
#[derive(Debug, Clone, Copy, PartialEq, Eq, Structural)]
pub struct BackupStatsSnapshot {
    pub bytes_copied: u64,
    pub src_opened: u64,
    pub src_closed: u64,
    pub dst_opened: u64,
    pub dst_closed: u64,
    pub files_copied: u64,
    pub files_deleted: u64,
    pub dirs_created: u64,
    pub dirs_deleted: u64,
    pub files_failed: u64,
    pub dirs_failed: u64,
}

/// The counters before anything was done.
pub open spec fn no_counts() -> BackupStats {
    BackupStats {
        bytes_copied: 0,
        src_opened: 0,
        src_closed: 0,
        dst_opened: 0,
        dst_closed: 0,
        files_copied: 0,
        files_deleted: 0,
        dirs_created: 0,
        dirs_deleted: 0,
        files_failed: 0,
        dirs_failed: 0,
    }
}

/// One of the counters.
pub enum Counter {
    BytesCopied,
    SrcOpened,
    SrcClosed,
    DstOpened,
    DstClosed,
    FilesCopied,
    FilesDeleted,
    DirsCreated,
    DirsDeleted,
    FilesFailed,
    DirsFailed,
}

/// The counters once one of them was moved on by `amount`.
pub open spec fn moved(s: BackupStats, counter: Counter, amount: u64) -> BackupStats {
    match counter {
        Counter::BytesCopied => BackupStats { bytes_copied: s.bytes_copied.wrapping_add(amount), ..s },
        Counter::SrcOpened => BackupStats { src_opened: s.src_opened.wrapping_add(amount), ..s },
        Counter::SrcClosed => BackupStats { src_closed: s.src_closed.wrapping_add(amount), ..s },
        Counter::DstOpened => BackupStats { dst_opened: s.dst_opened.wrapping_add(amount), ..s },
        Counter::DstClosed => BackupStats { dst_closed: s.dst_closed.wrapping_add(amount), ..s },
        Counter::FilesCopied => BackupStats { files_copied: s.files_copied.wrapping_add(amount), ..s },
        Counter::FilesDeleted => BackupStats { files_deleted: s.files_deleted.wrapping_add(amount), ..s },
        Counter::DirsCreated => BackupStats { dirs_created: s.dirs_created.wrapping_add(amount), ..s },
        Counter::DirsDeleted => BackupStats { dirs_deleted: s.dirs_deleted.wrapping_add(amount), ..s },
        Counter::FilesFailed => BackupStats { files_failed: s.files_failed.wrapping_add(amount), ..s },
        Counter::DirsFailed => BackupStats { dirs_failed: s.dirs_failed.wrapping_add(amount), ..s },
    }
}

/// The value of one counter.
pub open spec fn value_of(s: BackupStatsSnapshot, counter: Counter) -> u64 {
    match counter {
        Counter::BytesCopied => s.bytes_copied,
        Counter::SrcOpened => s.src_opened,
        Counter::SrcClosed => s.src_closed,
        Counter::DstOpened => s.dst_opened,
        Counter::DstClosed => s.dst_closed,
        Counter::FilesCopied => s.files_copied,
        Counter::FilesDeleted => s.files_deleted,
        Counter::DirsCreated => s.dirs_created,
        Counter::DirsDeleted => s.dirs_deleted,
        Counter::FilesFailed => s.files_failed,
        Counter::DirsFailed => s.dirs_failed,
    }
}

/// The counters after a number of calls, each of which moves one of them on: by one, or by
/// the amount that it is given.
pub open spec fn after_calls(start: BackupStats, calls: Seq<(Counter, u64)>) -> BackupStats
    decreases calls.len(),
{
    if calls.len() == 0 {
        start
    } else {
        moved(after_calls(start, calls.drop_last()), calls.last().0, calls.last().1)
    }
}

/// The sum of what the calls add to one counter.
pub open spec fn sum_for(calls: Seq<(Counter, u64)>, counter: Counter) -> nat
    decreases calls.len(),
{
    if calls.len() == 0 {
        0
    } else {
        sum_for(calls.drop_last(), counter) + (if calls.last().0 == counter {
            calls.last().1 as nat
        } else {
            0
        })
    }
}

/// How many of the calls move one counter on.
pub open spec fn calls_for(calls: Seq<(Counter, u64)>, counter: Counter) -> nat
    decreases calls.len(),
{
    if calls.len() == 0 {
        0
    } else {
        calls_for(calls.drop_last(), counter) + (if calls.last().0 == counter {
            1nat
        } else {
            0nat
        })
    }
}

/// No call is lost: whatever calls were made, each counter of the snapshot is the sum of what
/// the calls added to it, modulo the range of the counter, and the number of its calls where
/// each added one. What calls on other counters came in between makes no difference.
pub proof fn law_snapshot_sums_up_the_calls(calls: Seq<(Counter, u64)>, counter: Counter)
    ensures
        value_of(after_calls(no_counts(), calls).at_present(), counter) == sum_for(calls, counter)
            % 0x1_0000_0000_0000_0000,
        (forall|i: int|
            0 <= i < calls.len() && (#[trigger] calls[i]).0 == counter ==> calls[i].1 == 1)
            ==> sum_for(calls, counter) == calls_for(calls, counter),
    decreases calls.len(),
{
    if calls.len() > 0 {
        let front = calls.drop_last();
        let (moved_one, amount) = calls.last();
        law_snapshot_sums_up_the_calls(front, counter);
        lemma_moved_value(after_calls(no_counts(), front), moved_one, amount, counter);
        lemma_wrapped_sum(
            value_of(after_calls(no_counts(), front).at_present(), counter),
            sum_for(front, counter),
            amount,
        );
        if forall|i: int|
            0 <= i < calls.len() && (#[trigger] calls[i]).0 == counter ==> calls[i].1 == 1 {
            assert forall|i: int|
                0 <= i < front.len() && (#[trigger] front[i]).0 == counter implies front[i].1
                == 1 by {
                assert(calls[i].0 == counter);
            }
            assert(calls[calls.len() - 1] == calls.last());
        }
    }
}

/// A call moves its own counter and no other.
proof fn lemma_moved_value(s: BackupStats, moved_one: Counter, amount: u64, counter: Counter)
    ensures
        value_of(moved(s, moved_one, amount).at_present(), counter) == (if moved_one == counter {
            value_of(s.at_present(), counter).wrapping_add(amount)
        } else {
            value_of(s.at_present(), counter)
        }),
{
}

proof fn lemma_wrapped_sum(value: u64, sum: nat, amount: u64)
    requires
        value == sum % 0x1_0000_0000_0000_0000,
    ensures
        value.wrapping_add(amount) == (sum + amount) % 0x1_0000_0000_0000_0000,
{
}

impl Default for BackupStats {
    fn default() -> (r: Self)
        ensures
            r == no_counts(),
    {
        BackupStats {
            bytes_copied: 0,
            src_opened: 0,
            src_closed: 0,
            dst_opened: 0,
            dst_closed: 0,
            files_copied: 0,
            files_deleted: 0,
            dirs_created: 0,
            dirs_deleted: 0,
            files_failed: 0,
            dirs_failed: 0,
        }
    }
}

impl BackupStats {
    /// The snapshot of these counters.
    pub open spec fn at_present(self) -> BackupStatsSnapshot {
        BackupStatsSnapshot {
            bytes_copied: self.bytes_copied,
            src_opened: self.src_opened,
            src_closed: self.src_closed,
            dst_opened: self.dst_opened,
            dst_closed: self.dst_closed,
            files_copied: self.files_copied,
            files_deleted: self.files_deleted,
            dirs_created: self.dirs_created,
            dirs_deleted: self.dirs_deleted,
            files_failed: self.files_failed,
            dirs_failed: self.dirs_failed,
        }
    }

    /// The counters as they stand.
    pub fn snapshot(&self) -> (r: BackupStatsSnapshot)
        ensures
            r == self.at_present(),
    {
        BackupStatsSnapshot {
            bytes_copied: self.bytes_copied,
            src_opened: self.src_opened,
            src_closed: self.src_closed,
            dst_opened: self.dst_opened,
            dst_closed: self.dst_closed,
            files_copied: self.files_copied,
            files_deleted: self.files_deleted,
            dirs_created: self.dirs_created,
            dirs_deleted: self.dirs_deleted,
            files_failed: self.files_failed,
            dirs_failed: self.dirs_failed,
        }
    }

    pub fn add_bytes_copied(&mut self, bytes: u64)
        ensures
            *final(self) == moved(*old(self), Counter::BytesCopied, bytes),
    {
        self.bytes_copied = self.bytes_copied.wrapping_add(bytes);
    }

    /// Counts several files that were copied.
    pub fn add_files_copied(&mut self, count: u64)
        ensures
            *final(self) == moved(*old(self), Counter::FilesCopied, count),
    {
        self.files_copied = self.files_copied.wrapping_add(count);
    }

    /// Counts several files that failed.
    pub fn add_files_failed(&mut self, count: u64)
        ensures
            *final(self) == moved(*old(self), Counter::FilesFailed, count),
    {
        self.files_failed = self.files_failed.wrapping_add(count);
    }

    pub fn inc_src_opened(&mut self)
        ensures
            *final(self) == moved(*old(self), Counter::SrcOpened, 1),
    {
        self.src_opened = self.src_opened.wrapping_add(1);
    }

    pub fn inc_src_closed(&mut self)
        ensures
            *final(self) == moved(*old(self), Counter::SrcClosed, 1),
    {
        self.src_closed = self.src_closed.wrapping_add(1);
    }

    pub fn inc_dst_opened(&mut self)
        ensures
            *final(self) == moved(*old(self), Counter::DstOpened, 1),
    {
        self.dst_opened = self.dst_opened.wrapping_add(1);
    }

    pub fn inc_dst_closed(&mut self)
        ensures
            *final(self) == moved(*old(self), Counter::DstClosed, 1),
    {
        self.dst_closed = self.dst_closed.wrapping_add(1);
    }

    pub fn inc_files_copied(&mut self)
        ensures
            *final(self) == moved(*old(self), Counter::FilesCopied, 1),
    {
        self.files_copied = self.files_copied.wrapping_add(1);
    }

    pub fn inc_files_deleted(&mut self)
        ensures
            *final(self) == moved(*old(self), Counter::FilesDeleted, 1),
    {
        self.files_deleted = self.files_deleted.wrapping_add(1);
    }

    pub fn inc_dirs_created(&mut self)
        ensures
            *final(self) == moved(*old(self), Counter::DirsCreated, 1),
    {
        self.dirs_created = self.dirs_created.wrapping_add(1);
    }

    pub fn inc_dirs_deleted(&mut self)
        ensures
            *final(self) == moved(*old(self), Counter::DirsDeleted, 1),
    {
        self.dirs_deleted = self.dirs_deleted.wrapping_add(1);
    }

    pub fn inc_files_failed(&mut self)
        ensures
            *final(self) == moved(*old(self), Counter::FilesFailed, 1),
    {
        self.files_failed = self.files_failed.wrapping_add(1);
    }

    pub fn inc_dirs_failed(&mut self)
        ensures
            *final(self) == moved(*old(self), Counter::DirsFailed, 1),
    {
        self.dirs_failed = self.dirs_failed.wrapping_add(1);
    }
}

/// What two runs of calls add to a counter is what both add to it together, and a call adds
/// to its own counter alone.
pub proof fn law_calls_add_to_their_counter(
    a: Seq<(Counter, u64)>,
    b: Seq<(Counter, u64)>,
    counter: Counter,
    other: Counter,
    amount: u64,
)
    ensures
        sum_for(a + b, counter) == sum_for(a, counter) + sum_for(b, counter),
        calls_for(a + b, counter) == calls_for(a, counter) + calls_for(b, counter),
        sum_for(seq![(counter, amount)], counter) == amount,
        calls_for(seq![(counter, amount)], counter) == 1,
        other != counter ==> sum_for(seq![(counter, amount)], other) == 0 && calls_for(
            seq![(counter, amount)],
            other,
        ) == 0,
    decreases b.len(),
{
    reveal_with_fuel(sum_for, 2);
    reveal_with_fuel(calls_for, 2);
    assert(seq![(counter, amount)].drop_last() =~= Seq::empty());
    if b.len() == 0 {
        assert(a + b =~= a);
    } else {
        law_calls_add_to_their_counter(a, b.drop_last(), counter, other, amount);
        assert((a + b).drop_last() =~= a + b.drop_last());
        assert((a + b).last() == b.last());
    }
}

} // verus!

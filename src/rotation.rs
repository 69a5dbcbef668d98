//! Size-based rotation of the live log file and retention of its archives.
use vstd::prelude::*;
use crate::text::{decimal, push_decimal};

verus! {

/// Byte accounting of the live log file against the rotation threshold.
pub struct RotationState {
    current_byte_count: u64,
    threshold: u64,
}

/// The counter after appending `len` bytes to a file holding `count`, and
/// whether that append triggers a rotation.
pub open spec fn after_append(count: int, threshold: int, len: int) -> (int, bool) {
    if count + len >= threshold {
        (0, true)
    } else {
        (count + len, false)
    }
}

impl RotationState {
    pub closed spec fn count(&self) -> int {
        self.current_byte_count as int
    }

    pub closed spec fn limit(&self) -> int {
        self.threshold as int
    }

    /// The counter stays below the threshold between appends.
    pub open spec fn wf(&self) -> bool {
        self.count() < self.limit() || self.count() == 0
    }

    /// A fresh file: nothing written yet.
    pub fn new(threshold: u64) -> (r: Self)
        ensures
            r.wf(),
            r.count() == 0,
            r.limit() == threshold,
    {
        RotationState { current_byte_count: 0, threshold }
    }

    pub fn current_byte_count(&self) -> (r: u64)
        ensures
            r == self.count(),
    {
        self.current_byte_count
    }

    pub fn threshold(&self) -> (r: u64)
        ensures
            r == self.limit(),
    {
        self.threshold
    }

    /// Counts a line of `len` bytes written to the live file. Returns whether
    /// the file has reached the threshold and must be rotated; the counter is
    /// then reset to zero.
    pub fn record_append(&mut self, len: u64) -> (r: bool)
        requires
            old(self).wf(),
        ensures
            final(self).wf(),
            final(self).limit() == old(self).limit(),
            (final(self).count(), r) == after_append(old(self).count(), old(self).limit(), len as int),
    {
        if len >= self.threshold - self.current_byte_count {
            self.current_byte_count = 0;
            true
        } else {
            self.current_byte_count = self.current_byte_count + len;
            false
        }
    }
}

/// Once an append has reached the threshold and rotated the file, the next
/// append is counted against the fresh file alone: the counter then holds
/// that line's length (or zero, if that line rotates again).
pub proof fn lemma_rotation_resets(count: int, threshold: int, len1: int, len2: int)
    requires
        0 <= count,
        0 <= len1,
        0 <= len2,
        count + len1 >= threshold,
    ensures
        after_append(count, threshold, len1) == (0int, true),
        after_append(0, threshold, len2) == (if len2 >= threshold { (0int, true) } else { (len2, false) }),
{
}

/// Numbering and pruning of archived log files. Archives are numbered by a
/// growing sequence; the retained ones are the most recent, oldest first.
pub struct RetentionPolicy {
    keep: u64,
    next_seq: u64,
    archives: Vec<u64>,
}

/// What one rotation does on disk: the live file moves to the archive
/// numbered `archive_seq`, and the archives in `pruned` are deleted.
pub struct RotationPlan {
    pub archive_seq: u64,
    pub pruned: Vec<u64>,
}

/// The sequence numbers `[lo, hi)` in increasing order.
pub open spec fn seq_range(lo: int, hi: int) -> Seq<u64>
    recommends
        0 <= lo <= hi,
{
    Seq::new((hi - lo) as nat, |i: int| (lo + i) as u64)
}

impl RetentionPolicy {
    pub closed spec fn keep_count(&self) -> int {
        self.keep as int
    }

    /// Number of rotations so far.
    pub closed spec fn rotations(&self) -> int {
        self.next_seq as int
    }

    /// Sequence numbers of the retained archives, oldest first.
    pub closed spec fn retained(&self) -> Seq<u64> {
        self.archives@
    }

    /// The retained archives are the most recent ones, at most `keep` of them.
    pub open spec fn wf(&self) -> bool {
        let n = if self.rotations() < self.keep_count() { self.rotations() } else { self.keep_count() };
        self.retained() == seq_range(self.rotations() - n, self.rotations())
    }

    /// A policy with no archives yet that retains at most `keep` of them.
    pub fn new(keep: u64) -> (r: Self)
        ensures
            r.wf(),
            r.keep_count() == keep,
            r.rotations() == 0,
    {
        let r = RetentionPolicy { keep, next_seq: 0, archives: Vec::new() };
        assert(r.retained() =~= seq_range(0, 0));
        r
    }

    /// Whether another rotation can still be numbered.
    pub fn can_rotate(&self) -> (r: bool)
        ensures
            r == (self.rotations() < u64::MAX),
    {
        self.next_seq < u64::MAX
    }

    /// Every retained archive is among the `keep` most recent rotations, and
    /// the `keep` most recent ones are all retained.
    pub proof fn lemma_retention_bound(&self)
        requires
            self.wf(),
        ensures
            self.retained().len() <= self.keep_count(),
            self.retained().len() <= self.rotations(),
            forall|i: int| 0 <= i < self.retained().len() ==> self.rotations() - self.keep_count()
                <= #[trigger] self.retained()[i] < self.rotations(),
            forall|s: u64| self.rotations() - self.keep_count() <= s < self.rotations()
                ==> #[trigger] self.retained().contains(s),
    {
        let n = self.retained().len() as int;
        assert forall|s: u64| self.rotations() - self.keep_count() <= s < self.rotations()
            implies #[trigger] self.retained().contains(s) by {
            assert(self.retained()[s - (self.rotations() - n)] == s);
        }
    }

    /// Numbers the file that is being rotated out and selects the oldest
    /// archives beyond the retention count for deletion.
    pub fn rotate(&mut self) -> (r: RotationPlan)
        requires
            old(self).wf(),
            old(self).rotations() < u64::MAX,
        ensures
            final(self).wf(),
            final(self).keep_count() == old(self).keep_count(),
            final(self).rotations() == old(self).rotations() + 1,
            r.archive_seq == old(self).rotations(),
            old(self).retained().push(r.archive_seq) == r.pruned@ + final(self).retained(),
            r.pruned@ == seq_range(
                old(self).rotations() - old(self).retained().len(),
                final(self).rotations() - final(self).retained().len(),
            ),
    {
        let seq = self.next_seq;
        let ghost all = self.archives@.push(seq);
        self.archives.push(seq);
        self.next_seq = seq + 1;
        let mut pruned: Vec<u64> = Vec::new();
        let ghost n0 = if old(self).rotations() < old(self).keep_count() {
            old(self).rotations()
        } else {
            old(self).keep_count()
        };
        assert(self.archives@ =~= seq_range(seq - n0, seq + 1));
        while self.archives.len() as u64 > self.keep
            invariant
                self.keep == old(self).keep,
                self.next_seq == seq + 1,
                all == pruned@ + self.archives@,
                self.archives@ == seq_range(seq + 1 - self.archives@.len(), seq + 1),
                self.archives@.len() <= n0 + 1,
                self.archives@.len() >= (if seq + 1 < self.keep { seq + 1 } else { self.keep as int }),
            decreases self.archives@.len(),
        {
            let oldest = self.archives.remove(0);
            pruned.push(oldest);
            assert(all =~= pruned@ + self.archives@);
            assert(self.archives@ =~= seq_range(seq + 1 - self.archives@.len(), seq + 1));
        }
        proof {
            let n1 = if self.rotations() < self.keep_count() { self.rotations() } else { self.keep_count() };
            assert(self.archives@.len() == n1);
            assert(all =~= seq_range(seq - n0, seq + 1));
            assert(pruned@ =~= all.take(pruned@.len() as int));
            assert(pruned@ =~= seq_range(seq - n0, seq + 1 - n1));
        }
        RotationPlan { archive_seq: seq, pruned }
    }
}

/// Path of the archive numbered `seq` next to the log file at `base`.
pub open spec fn archive_path_spec(base: Seq<char>, seq: u64) -> Seq<char> {
    base + seq!['.'] + decimal(seq as nat)
}

/// The path that the archive numbered `seq` of the log at `base` is stored at.
pub fn archive_path(base: &String, seq: u64) -> (r: String)
    ensures
        r@ == archive_path_spec(base@, seq),
{
    let mut r = base.clone();
    r.append(".");
    proof {
        reveal_strlit(".");
    }
    push_decimal(&mut r, seq);
    assert(r@ =~= archive_path_spec(base@, seq));
    r
}

} // verus!

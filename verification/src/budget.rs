use vstd::prelude::*;

verus! {

/// Minimum free physical memory, in bytes, that must remain after all pinning
/// in a run: 4 GiB.
pub const RESERVE_FLOOR: u64 = 4294967296;

/// Admission-control counter for one run: a free-memory snapshot read once at
/// run start, and the cumulative number of bytes admitted for pinning so far.
/// The cumulative total only grows; releasing a region never returns budget.
pub struct MemBudget {
    free_snapshot: u64,
    pinned: u64,
}

/// Whether one admission request succeeds: the running free-memory estimate
/// (`free - pinned`) must stay strictly above the reserve floor even after
/// the candidate's size is subtracted.
pub open spec fn admits(free: int, pinned: int, size: int) -> bool {
    free - pinned - size > RESERVE_FLOOR
}

/// Cumulative pinned bytes after a fresh budget with snapshot `free` has been
/// asked, in order, to admit each size in `sizes`.
pub open spec fn pinned_after(free: int, sizes: Seq<u64>) -> int
    decreases sizes.len(),
{
    if sizes.len() == 0 {
        0
    } else {
        let p = pinned_after(free, sizes.drop_last());
        if admits(free, p, sizes.last() as int) {
            p + sizes.last() as int
        } else {
            p
        }
    }
}

impl MemBudget {
    /// The free-memory snapshot this budget was created with.
    pub closed spec fn free_snapshot(&self) -> int {
        self.free_snapshot as int
    }

    /// Cumulative bytes admitted so far.
    pub closed spec fn pinned(&self) -> int {
        self.pinned as int
    }

    /// Every reachable budget keeps the reserve floor intact: either nothing
    /// has been admitted yet, or the running estimate still exceeds the floor.
    pub open spec fn wf(&self) -> bool {
        self.pinned() == 0 || self.free_snapshot() - self.pinned() > RESERVE_FLOOR
    }

    pub fn new(free_snapshot: u64) -> (b: MemBudget)
        ensures
            b.wf(),
            b.free_snapshot() == free_snapshot,
            b.pinned() == 0,
    {
        MemBudget { free_snapshot, pinned: 0 }
    }

    /// Cumulative bytes admitted so far.
    pub fn cumulative_pinned(&self) -> (n: u64)
        ensures
            n == self.pinned(),
    {
        self.pinned
    }

    /// Decide one admission request: admit `size` iff the running estimate
    /// stays strictly above the reserve floor, folding the candidate into the
    /// cumulative total on success. Rejection has no side effect and is a
    /// normal, silent outcome, not an error.
    pub fn try_admit(&mut self, size: u64) -> (admitted: bool)
        requires
            old(self).wf(),
        ensures
            final(self).wf(),
            final(self).free_snapshot() == old(self).free_snapshot(),
            admitted == admits(old(self).free_snapshot(), old(self).pinned(), size as int),
            admitted ==> final(self).pinned() == old(self).pinned() + size,
            !admitted ==> final(self).pinned() == old(self).pinned(),
            final(self).pinned() >= old(self).pinned(),
    {
        if self.pinned <= self.free_snapshot {
            let estimate = self.free_snapshot - self.pinned;
            if size <= estimate && estimate - size > RESERVE_FLOOR {
                self.pinned = self.pinned + size;
                return true;
            }
        }
        false
    }
}

/// The cumulative total of an admission sequence never goes negative, and
/// never pushes the free-memory estimate down to (or below) the reserve
/// floor: after any run, either nothing was admitted or
/// `free - pinned > RESERVE_FLOOR` still holds.
pub proof fn lemma_budget_bounded(free: int, sizes: Seq<u64>)
    ensures
        pinned_after(free, sizes) >= 0,
        pinned_after(free, sizes) == 0 || free - pinned_after(free, sizes) > RESERVE_FLOOR,
    decreases sizes.len(),
{
    if sizes.len() > 0 {
        lemma_budget_bounded(free, sizes.drop_last());
    }
}

/// The cumulative total of an admission sequence is non-decreasing: what any
/// prefix of the requests had already admitted is never taken back by the
/// requests that follow.
pub proof fn lemma_budget_monotonic(free: int, sizes: Seq<u64>, i: int)
    requires
        0 <= i <= sizes.len(),
    ensures
        pinned_after(free, sizes.take(i)) <= pinned_after(free, sizes),
    decreases sizes.len() - i,
{
    if i == sizes.len() {
        assert(sizes.take(i) =~= sizes);
    } else {
        assert(sizes.take(i + 1).drop_last() =~= sizes.take(i));
        assert(sizes.take(i + 1).last() == sizes[i]);
        lemma_budget_monotonic(free, sizes, i + 1);
    }
}

} // verus!

use vstd::prelude::*;

use crate::budget::MemBudget;
use crate::budget::admits;
use crate::region::PinnedRegion;

verus! {

/// What a candidate path turned out to be at the moment it was visited. The
/// runtime classifies each pending path and reports the result here.
pub enum PathKind {
    /// The path no longer exists: an expected race with external deletion,
    /// never an error.
    Missing,
    /// A regular file of the given length in bytes.
    RegularFile { size: u64 },
    /// A directory, together with the full paths of its direct children.
    Directory { children: Vec<String> },
    /// Anything else (special file, unresolvable entry): fatal for the whole
    /// preload branch.
    Other,
}

/// The decision handed back for one visited path.
#[derive(PartialEq, Eq, Structural, Debug)]
pub enum VisitStep {
    /// Nothing to do for this path.
    Skip,
    /// The file was seen but the budget refused it; it is silently not
    /// preloaded.
    Rejected,
    /// The file was admitted: the caller should map and pin its `size` bytes
    /// and, on success, report the mapping with [`Preloader::record_pin`].
    AttemptPin { size: u64 },
    /// The path was a directory; its children were added to the pending
    /// queue.
    Recurse,
    /// The path was of an unknown kind: the whole preload branch fails.
    Fail,
}

/// The preload walk over all candidate paths of one run, driven as an
/// explicit work queue: the runtime repeatedly takes a pending path,
/// classifies it, and feeds the classification back through [`Preloader::visit`].
/// The queue replaces unbounded recursive fan-out while keeping the walk's
/// one guarantee, that results are merged without any particular order.
pub struct Preloader {
    budget: MemBudget,
    pending: Vec<String>,
    regions: Vec<PinnedRegion>,
}

impl Preloader {
    /// The free-memory snapshot the run's budget was created with.
    pub closed spec fn free_snapshot(&self) -> int {
        self.budget.free_snapshot()
    }

    /// Cumulative bytes admitted for pinning so far.
    pub closed spec fn pinned(&self) -> int {
        self.budget.pinned()
    }

    /// Paths still waiting to be visited.
    pub closed spec fn pending(&self) -> Seq<String> {
        self.pending@
    }

    /// Regions pinned so far, in the order they were recorded.
    pub closed spec fn regions(&self) -> Seq<PinnedRegion> {
        self.regions@
    }

    pub closed spec fn wf(&self) -> bool {
        self.budget.wf()
    }

    /// Start a walk over the given root paths with a fresh budget built from
    /// the free-memory snapshot.
    pub fn new(roots: Vec<String>, free_snapshot: u64) -> (p: Preloader)
        ensures
            p.wf(),
            p.free_snapshot() == free_snapshot,
            p.pinned() == 0,
            p.pending() == roots@,
            p.regions() == Seq::<PinnedRegion>::empty(),
    {
        let p = Preloader { budget: MemBudget::new(free_snapshot), pending: roots, regions: Vec::new() };
        proof {
            assert(p.regions() =~= Seq::<PinnedRegion>::empty());
        }
        p
    }

    /// Take one pending path off the queue, if any is left.
    pub fn next_pending(&mut self) -> (r: Option<String>)
        requires
            old(self).wf(),
        ensures
            final(self).wf(),
            final(self).free_snapshot() == old(self).free_snapshot(),
            final(self).pinned() == old(self).pinned(),
            final(self).regions() == old(self).regions(),
            old(self).pending().len() == 0 ==> r is None && final(self).pending()
                == old(self).pending(),
            old(self).pending().len() > 0 ==> r == Some(old(self).pending().last())
                && final(self).pending() == old(self).pending().drop_last(),
    {
        self.pending.pop()
    }

    /// Act on the classification of one visited path:
    /// a missing path is skipped silently; a regular file is put before the
    /// budget and, when admitted, handed back for mapping; a directory's
    /// children join the pending queue; any other kind fails the walk.
    /// No step ever removes a region or returns budget.
    pub fn visit(&mut self, kind: PathKind) -> (step: VisitStep)
        requires
            old(self).wf(),
        ensures
            final(self).wf(),
            final(self).free_snapshot() == old(self).free_snapshot(),
            final(self).pinned() >= old(self).pinned(),
            final(self).regions() == old(self).regions(),
            kind matches PathKind::Missing ==> *final(self) == *old(self) && step
                == VisitStep::Skip,
            kind matches PathKind::Other ==> *final(self) == *old(self) && step == VisitStep::Fail,
            kind matches PathKind::RegularFile { size } ==> final(self).pending()
                == old(self).pending() && if admits(
                old(self).free_snapshot(),
                old(self).pinned(),
                size as int,
            ) {
                step == (VisitStep::AttemptPin { size }) && final(self).pinned() == old(
                    self,
                ).pinned() + size
            } else {
                step == VisitStep::Rejected && final(self).pinned() == old(self).pinned()
            },
            kind matches PathKind::Directory { children } ==> step == VisitStep::Recurse
                && final(self).pinned() == old(self).pinned() && final(self).pending() == old(
                self,
            ).pending() + children@,
    {
        match kind {
            PathKind::Missing => VisitStep::Skip,
            PathKind::RegularFile { size } => {
                if self.budget.try_admit(size) {
                    VisitStep::AttemptPin { size }
                } else {
                    VisitStep::Rejected
                }
            },
            PathKind::Directory { children } => {
                let mut cs = children;
                self.pending.append(&mut cs);
                VisitStep::Recurse
            },
            PathKind::Other => VisitStep::Fail,
        }
    }

    /// Record a mapping that the operating system created for an admitted
    /// file. A failed mapping attempt is simply never recorded; the budget
    /// deliberately keeps the admitted bytes in that case (a conservative
    /// over-count, preserved by design).
    pub fn record_pin(&mut self, base_addr: usize, length: usize)
        requires
            old(self).wf(),
        ensures
            final(self).wf(),
            final(self).free_snapshot() == old(self).free_snapshot(),
            final(self).pinned() == old(self).pinned(),
            final(self).pending() == old(self).pending(),
            final(self).regions().len() == old(self).regions().len() + 1,
            final(self).regions().last().base_addr() == base_addr,
            final(self).regions().last().length() == length,
            final(self).regions().drop_last() == old(self).regions(),
    {
        self.regions.push(PinnedRegion::new(base_addr, length));
        proof {
            assert(self.regions().drop_last() =~= old(self).regions());
        }
    }

    /// How many regions have been pinned so far.
    pub fn region_count(&self) -> (n: usize)
        ensures
            n == self.regions().len(),
    {
        self.regions.len()
    }

    /// Cumulative bytes admitted so far, as the budget counts them.
    pub fn pinned_bytes(&self) -> (n: u64)
        ensures
            n == self.pinned(),
    {
        self.budget.cumulative_pinned()
    }

    /// Finish the walk, handing every pinned region (and nothing else) to the
    /// caller, which takes sole ownership of them.
    pub fn into_regions(self) -> (r: Vec<PinnedRegion>)
        ensures
            r@ == self.regions(),
    {
        self.regions
    }
}

/// Total length, in bytes, of a batch of candidate files.
pub open spec fn total_size(sizes: Seq<u64>) -> int
    decreases sizes.len(),
{
    if sizes.len() == 0 {
        0
    } else {
        sizes.first() + total_size(sizes.drop_first())
    }
}

/// Whether a budget that currently stands at `pinned` admitted bytes against
/// snapshot `free` would admit every file of `sizes` when the files are put
/// before it one after the other, in this order.
pub open spec fn all_admitted(free: int, pinned: int, sizes: Seq<u64>) -> bool
    decreases sizes.len(),
{
    if sizes.len() == 0 {
        true
    } else {
        admits(free, pinned, sizes.first() as int) && all_admitted(
            free,
            pinned + sizes.first(),
            sizes.drop_first(),
        )
    }
}

pub proof fn lemma_total_size_nonneg(sizes: Seq<u64>)
    ensures
        total_size(sizes) >= 0,
    decreases sizes.len(),
{
    if sizes.len() > 0 {
        lemma_total_size_nonneg(sizes.drop_first());
    }
}

proof fn lemma_total_size_remove(sizes: Seq<u64>, j: int)
    requires
        0 <= j < sizes.len(),
    ensures
        total_size(sizes.remove(j)) == total_size(sizes) - sizes[j],
    decreases sizes.len(),
{
    if j == 0 {
        assert(sizes.remove(0) =~= sizes.drop_first());
    } else {
        assert(sizes.remove(j).first() == sizes.first());
        assert(sizes.remove(j).drop_first() =~= sizes.drop_first().remove(j - 1));
        lemma_total_size_remove(sizes.drop_first(), j - 1);
    }
}

/// Reordering a batch of candidate files never changes its total size, so
/// the aggregation guarantee below holds regardless of the order in which a
/// directory's enumeration presents its entries.
pub proof fn lemma_total_size_permutation(sizes1: Seq<u64>, sizes2: Seq<u64>)
    requires
        sizes1.to_multiset() == sizes2.to_multiset(),
    ensures
        total_size(sizes1) == total_size(sizes2),
    decreases sizes1.len(),
{
    broadcast use vstd::seq_lib::group_to_multiset_ensures;
    broadcast use vstd::multiset::group_multiset_axioms;

    if sizes1.len() == 0 {
        assert(sizes1.to_multiset().len() == 0);
        assert(sizes2.to_multiset().len() == 0);
        assert(sizes2.len() == 0);
    } else {
        let x = sizes1.first();
        assert(sizes1.contains(x));
        assert(sizes1.to_multiset().count(x) > 0);
        assert(sizes2.to_multiset().count(x) > 0);
        assert(sizes2.contains(x));
        let j = choose|j: int| 0 <= j < sizes2.len() && sizes2[j] == x;
        assert(sizes1.remove(0) =~= sizes1.drop_first());
        assert(sizes1.remove(0).to_multiset() == sizes1.to_multiset().remove(x));
        assert(sizes2.remove(j).to_multiset() == sizes2.to_multiset().remove(x));
        lemma_total_size_remove(sizes2, j);
        lemma_total_size_permutation(sizes1.drop_first(), sizes2.remove(j));
    }
}

/// Directory aggregation: when a directory holds files whose combined size
/// still fits under the budget's reserve floor, every one of them is
/// admitted, in whatever order the enumeration presents them (the
/// precondition depends only on the batch's total size, which no reordering
/// changes). Each admitted file whose mapping succeeds adds exactly one
/// region ([`Preloader::visit`] and [`Preloader::record_pin`]), so such a
/// directory of N files yields exactly N pinned regions.
pub proof fn lemma_directory_aggregation(free: int, pinned: int, sizes: Seq<u64>)
    requires
        admits(free, pinned, total_size(sizes)),
    ensures
        all_admitted(free, pinned, sizes),
    decreases sizes.len(),
{
    if sizes.len() > 0 {
        lemma_total_size_nonneg(sizes.drop_first());
        assert(admits(free, pinned, sizes.first() as int));
        lemma_directory_aggregation(free, pinned + sizes.first(), sizes.drop_first());
    }
}

} // verus!

use vstd::prelude::*;

verus! {

/// A successfully pinned, file-backed memory mapping: its base address (as a
/// plain integer) and its length in bytes. The type deliberately has no
/// `Clone` and no `Copy`, and the only way to dispose of a value is the
/// consuming [`PinnedRegion::release`]: the type system therefore guarantees
/// that each region is released at most once and never referenced afterward.
pub struct PinnedRegion {
    base_addr: usize,
    length: usize,
}

impl PinnedRegion {
    pub closed spec fn base_addr(&self) -> usize {
        self.base_addr
    }

    pub closed spec fn length(&self) -> usize {
        self.length
    }

    /// Record a mapping that the operating system reported as created.
    pub fn new(base_addr: usize, length: usize) -> (r: PinnedRegion)
        ensures
            r.base_addr() == base_addr,
            r.length() == length,
    {
        PinnedRegion { base_addr, length }
    }

    pub fn len(&self) -> (l: usize)
        ensures
            l == self.length(),
    {
        self.length
    }

    /// Consume the region, handing back the address and length that the
    /// caller must unmap. After this call the region no longer exists, so a
    /// second release of the same region cannot be written.
    pub fn release(self) -> (r: (usize, usize))
        ensures
            r.0 == self.base_addr(),
            r.1 == self.length(),
    {
        (self.base_addr, self.length)
    }
}

/// Release every region in the collection exactly once, in order, handing
/// back one (address, length) pair per region for the caller to unmap. The
/// input collection is consumed whole, so no region in it can be released a
/// second time.
pub fn release_all(regions: Vec<PinnedRegion>) -> (r: Vec<(usize, usize)>)
    ensures
        r@.len() == regions@.len(),
        forall|i: int|
            0 <= i < regions@.len() ==> r@[i].0 == regions@[i].base_addr() && r@[i].1
                == regions@[i].length(),
{
    let ghost all = regions@;
    let mut r: Vec<(usize, usize)> = Vec::new();
    let mut rest = regions;
    while rest.len() > 0
        invariant
            r@.len() + rest@.len() == all.len(),
            forall|i: int| 0 <= i < rest@.len() ==> rest@[i] == all[r@.len() + i],
            forall|i: int|
                0 <= i < r@.len() ==> r@[i].0 == all[i].base_addr() && r@[i].1
                    == all[i].length(),
        decreases rest.len(),
    {
        let region = rest.remove(0);
        r.push(region.release());
    }
    r
}

} // verus!

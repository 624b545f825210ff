//! The memory accountant: a byte budget for compressed batches that are
//! kept in memory until the archive is written.

use vstd::prelude::*;
use crate::units::MIB;

verus! {

/// What the accountant has granted after answering `requests` in order,
/// against `limit`: each request is granted when it still fits.
pub open spec fn granted_total(limit: nat, requests: Seq<u64>) -> nat
    decreases requests.len(),
{
    if requests.len() == 0 {
        0
    } else {
        let before = granted_total(limit, requests.drop_last());
        if before + requests.last() <= limit {
            before + requests.last() as nat
        } else {
            before
        }
    }
}

/// Whether the last of `requests` is granted.
pub open spec fn last_granted(limit: nat, requests: Seq<u64>) -> bool {
    requests.len() > 0 && granted_total(limit, requests.drop_last()) + requests.last() <= limit
}

/// Counts the bytes of the compressed batches it allowed to stay in memory.
/// It never releases: the count only grows, bounded by the limit.
pub struct MemoryAccountant {
    limit: u64,
    used: u64,
    requests: Ghost<Seq<u64>>,
}

impl MemoryAccountant {
    pub closed spec fn limit(&self) -> nat {
        self.limit as nat
    }

    pub closed spec fn used(&self) -> nat {
        self.used as nat
    }

    /// Every request answered so far, in order.
    pub closed spec fn requests(&self) -> Seq<u64> {
        self.requests@
    }

    pub closed spec fn wf(&self) -> bool {
        &&& self.used <= self.limit
        &&& self.used == granted_total(self.limit as nat, self.requests@)
    }

    pub fn new(limit_bytes: u64) -> (r: MemoryAccountant)
        ensures
            r.wf(),
            r.limit() == limit_bytes,
            r.used() == 0,
            r.requests() == Seq::<u64>::empty(),
    {
        MemoryAccountant { limit: limit_bytes, used: 0, requests: Ghost(Seq::empty()) }
    }

    /// An accountant whose limit is `mib` MiB.
    pub fn with_limit_mib(mib: u64) -> (r: MemoryAccountant)
        requires
            mib * MIB <= u64::MAX,
        ensures
            r.wf(),
            r.limit() == mib * MIB,
            r.used() == 0,
            r.requests() == Seq::<u64>::empty(),
    {
        MemoryAccountant::new(mib * MIB)
    }

    pub fn limit_bytes(&self) -> (r: u64)
        ensures
            r == self.limit(),
    {
        self.limit
    }

    /// Grants `size` bytes when they still fit under the limit, and counts
    /// them; refuses otherwise and counts nothing.
    pub fn request_allocation(&mut self, size: u64) -> (r: bool)
        requires
            old(self).wf(),
        ensures
            final(self).wf(),
            final(self).limit() == old(self).limit(),
            final(self).requests() == old(self).requests().push(size),
            final(self).used() <= final(self).limit(),
            r == (old(self).used() + size <= old(self).limit()),
            r == last_granted(old(self).limit(), final(self).requests()),
            r ==> final(self).used() == old(self).used() + size,
            !r ==> final(self).used() == old(self).used(),
    {
        let ghost reqs = self.requests@.push(size);
        assert(reqs.drop_last() =~= self.requests@);
        let fits = size <= self.limit - self.used;
        if fits {
            self.used = self.used + size;
        }
        self.requests = Ghost(reqs);
        fits
    }

    /// Places one compressed batch: one whose uncompressed size is over the
    /// limit goes to disk without a request; any other stays in memory only
    /// if its compressed size is granted. This is one step of `held_after`.
    pub fn place_batch(&mut self, uncompressed_size: u64, compressed_size: u64) -> (r: Placement)
        requires
            old(self).wf(),
        ensures
            final(self).wf(),
            final(self).limit() == old(self).limit(),
            final(self).used() <= final(self).limit(),
            uncompressed_size > old(self).limit() ==> final(self).requests() == old(self).requests(),
            uncompressed_size <= old(self).limit() ==> final(self).requests() == old(
                self,
            ).requests().push(compressed_size),
            (r == Placement::Memory) == stays_in_memory(
                old(self).limit(),
                old(self).used(),
                (uncompressed_size, compressed_size),
            ),
            final(self).used() == held_step(
                old(self).limit(),
                old(self).used(),
                (uncompressed_size, compressed_size),
            ),
    {
        if writes_direct_to_disk(uncompressed_size, self.limit) {
            Placement::Disk
        } else if self.request_allocation(compressed_size) {
            Placement::Memory
        } else {
            Placement::Disk
        }
    }
}

/// However the requests come, what is granted stays within the limit.
pub proof fn lemma_granted_within_limit(limit: nat, requests: Seq<u64>)
    ensures
        granted_total(limit, requests) <= limit,
    decreases requests.len(),
{
    if requests.len() > 0 {
        lemma_granted_within_limit(limit, requests.drop_last());
    }
}

/// Where a finished batch goes.
#[derive(Clone, Copy, Debug, PartialEq, Eq, Structural)]
pub enum Placement {
    /// Kept in memory until it is written.
    Memory,
    /// Written to a scratch file.
    Disk,
}

/// Whether a batch is compressed straight into a scratch file: when its
/// uncompressed size alone is over the limit.
pub fn writes_direct_to_disk(uncompressed_size: u64, limit_bytes: u64) -> (r: bool)
    ensures
        r == (uncompressed_size > limit_bytes),
{
    uncompressed_size > limit_bytes
}

/// Whether a batch of `unit` = (uncompressed size, compressed size) stays in
/// memory when `held` bytes are already held there.
pub open spec fn stays_in_memory(limit: nat, held: nat, unit: (u64, u64)) -> bool {
    unit.0 <= limit && held + unit.1 <= limit
}

/// The bytes held in memory after one more batch is placed.
pub open spec fn held_step(limit: nat, held: nat, unit: (u64, u64)) -> nat {
    if stays_in_memory(limit, held, unit) {
        held + unit.1 as nat
    } else {
        held
    }
}

/// The compressed bytes held in memory once the batches `units`, each given
/// as (uncompressed size, compressed size), were placed in order: a batch
/// over the limit goes straight to disk without asking; any other stays in
/// memory only if the accountant grants its compressed size.
pub open spec fn held_after(limit: nat, units: Seq<(u64, u64)>) -> nat
    decreases units.len(),
{
    if units.len() == 0 {
        0
    } else {
        held_step(limit, held_after(limit, units.drop_last()), units.last())
    }
}

/// Whether batch `i` of `units` is kept in memory.
pub open spec fn kept_in_memory(limit: nat, units: Seq<(u64, u64)>, i: int) -> bool {
    stays_in_memory(limit, held_after(limit, units.take(i)), units[i])
}

/// Whatever the batches, the compressed bytes kept in memory never exceed
/// the limit, and a batch whose uncompressed size is over the limit is
/// never kept in memory.
pub proof fn lemma_memory_bound(limit: nat, units: Seq<(u64, u64)>)
    ensures
        held_after(limit, units) <= limit,
        forall|i: int|
            0 <= i < units.len() && units[i].0 > limit ==> !kept_in_memory(limit, units, i),
    decreases units.len(),
{
    if units.len() > 0 {
        lemma_memory_bound(limit, units.drop_last());
    }
}

} // verus!

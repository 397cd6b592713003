//! Proximity allocation of executable memory.
//!
//! A [`ThreadAllocator`] keeps a list of reference-counted executable
//! pools and carves aligned slices out of them.  Every slice it hands out
//! lies within the allocator's maximum distance of the requested origin,
//! so short-range branches reach it.  When no pool fits, the allocator
//! probes the operating system: one reservation at an address of the
//! system's choosing, then a bounded walk over page-aligned candidates
//! outward from the origin, both directions, reserving the first free
//! candidate inside the window; a reservation that lands outside the
//! window is released and never returned.  Releasing a slice decrements
//! its pool's reference count, and a pool whose count reaches zero is
//! unmapped.
use crate::error::Error;
use vstd::prelude::*;

verus! {

/// An executable memory reservation of the `region` crate.
#[verifier::external_type_specification]
#[verifier::external_body]
pub struct ExAllocation(region::Allocation);

/// How many fresh reservations at system-chosen addresses one allocation
/// request may try.
pub const PROBE_ATTEMPTS: usize = 4;

/// How many strides the candidate walk takes outward from the origin, in
/// each direction.
pub const WALK_ATTEMPTS: usize = 64;

/// The smallest pool reserved from the operating system.
pub const POOL_CHUNK: usize = 0x1_0000;

/// Relies on region::alloc: reserves at least `size` bytes of
/// read-write-execute pages at an address the operating system chooses.
/// The reservation is page-aligned, covers the rounded-up size, and spans
/// valid address space.
#[verifier::external_body]
fn os_reserve(size: usize) -> (r: Option<(region::Allocation, u64, u64)>)
    requires
        1 <= size,
    ensures
        r matches Some(t) ==> t.1 % 4096 == 0 && t.2 >= size && t.1 + t.2 <= u64::MAX,
{
    match region::alloc(size, region::Protection::READ_WRITE_EXECUTE) {
        Ok(a) => {
            let range = a.as_range();
            Some((a, range.start as u64, (range.end - range.start) as u64))
        },
        Err(_) => None,
    }
}

/// Relies on region::alloc_at: reserves at least `size` bytes of
/// read-write-execute pages at the given page-aligned address.  On POSIX
/// this maps with MAP_FIXED, which replaces whatever was mapped in the
/// range, so callers must first check the candidate range is free; on
/// Windows the reservation may be moved to the allocation granularity.
/// The reservation is page-aligned, covers the rounded-up size, and spans
/// valid address space; its actual base is returned and checked by the
/// caller.
#[verifier::external_body]
fn os_reserve_at(addr: u64, size: usize) -> (r: Option<(region::Allocation, u64, u64)>)
    requires
        1 <= size,
        addr % 4096 == 0,
    ensures
        r matches Some(t) ==> t.1 % 4096 == 0 && t.2 >= size && t.1 + t.2 <= u64::MAX,
{
    let hint = std::ptr::without_provenance::<u8>(addr as usize);
    match region::alloc_at(hint, size, region::Protection::READ_WRITE_EXECUTE) {
        Ok(a) => {
            let range = a.as_range();
            Some((a, range.start as u64, (range.end - range.start) as u64))
        },
        Err(_) => None,
    }
}

/// Relies on region::query_range: reports whether any mapping overlaps
/// `[addr, addr + size)`.  The answer depends on the process's momentary
/// address space, so nothing is promised of it; the caller treats it as a
/// filter only, and a query failure counts as mapped.
#[verifier::external_body]
fn os_range_is_mapped(addr: u64, size: usize) -> bool {
    let p = std::ptr::without_provenance::<u8>(addr as usize);
    match region::query_range(p, size) {
        Ok(mut regions) => regions.next().is_some(),
        Err(_) => true,
    }
}

/// Masking an address to its page keeps it page-aligned.
pub proof fn lemma_page_mask_aligned(x: u64)
    by (bit_vector)
    ensures
        (x & 0xFFFF_FFFF_FFFF_F000) % 4096 == 0,
{
}

/// A byte count rounded up to the emitter alignment.
pub open spec fn round8(n: int) -> int {
    ((n + 7) / 8) * 8
}

/// Rounding an already rounded count changes nothing.
pub proof fn lemma_round8_idempotent(n: int)
    by (nonlinear_arith)
    requires
        n >= 0,
    ensures
        round8(round8(n)) == round8(n),
        round8(n) >= n,
        round8(n) <= n + 7,
        round8(n) % 8 == 0,
{
}

/// The absolute distance between two addresses.
pub open spec fn dist(a: u64, b: u64) -> u64 {
    if a >= b {
        (a - b) as u64
    } else {
        (b - a) as u64
    }
}

/// One executable pool: its reservation, its span, a bump cursor, and a
/// count of the live slices carved from it.
pub struct Pool {
    /// The reservation keeping the pages mapped.
    pub mem: region::Allocation,
    /// The first address of the pool.
    pub base: u64,
    /// The pool's size in bytes.
    pub size: u64,
    /// How many bytes have been handed out.
    pub used: u64,
    /// How many slices carved from the pool are still live.
    pub refs: u64,
}

/// A pool's cursor stays aligned and inside its span, and every live
/// slice accounts for at least the alignment's worth of used bytes.
pub open spec fn pool_wf(p: Pool) -> bool {
    &&& p.base % 8 == 0
    &&& p.used % 8 == 0
    &&& p.used <= p.size
    &&& p.base + p.size <= u64::MAX
    &&& 8 * p.refs <= p.used
}

/// Does the address lie inside the pool's span?
pub open spec fn pool_owns(p: Pool, addr: u64) -> bool {
    p.base <= addr < p.base + p.size
}

/// The pool with one live slice fewer.
pub open spec fn dec_pool(p: Pool) -> Pool {
    Pool { mem: p.mem, base: p.base, size: p.size, used: p.used, refs: (p.refs - 1) as u64 }
}

/// A handle to one proximity allocation: its address, and the byte image
/// that the embedding program mirrors into the live pages.  Handing the
/// handle back through [`ThreadAllocator::release`] lets its pool be
/// unmapped once no slice of it is live.
pub struct ExecutableMemory {
    /// The first address of the allocation.
    pub base: u64,
    /// The intended content of the allocation's bytes.
    pub bytes: Vec<u8>,
}

impl ExecutableMemory {
    /// The first address of the allocation.
    pub fn base(&self) -> (r: u64)
        ensures
            r == self.base,
    {
        self.base
    }

    /// The allocation's size in bytes.
    pub fn len(&self) -> (r: usize)
        ensures
            r == self.bytes@.len(),
    {
        self.bytes.len()
    }

    /// The intended content of the allocation.
    pub fn bytes(&self) -> (r: &Vec<u8>)
        ensures
            r@ == self.bytes@,
    {
        &self.bytes
    }

    /// Replaces the leading bytes of the allocation's content with `data`.
    /// The embedding program writes the content back to the live pages
    /// under a scoped protection change.
    pub fn modify(&mut self, data: &[u8]) -> (r: Result<(), Error>)
        requires
            data@.len() <= old(self).bytes@.len(),
        ensures
            r is Ok,
            final(self).base == old(self).base,
            final(self).bytes@.len() == old(self).bytes@.len(),
            final(self).bytes@ == data@ + old(self).bytes@.skip(data@.len() as int),
    {
        let mut i: usize = 0;
        while i < data.len()
            invariant
                i <= data@.len(),
                data@.len() <= self.bytes@.len(),
                self.base == old(self).base,
                self.bytes@.len() == old(self).bytes@.len(),
                self.bytes@ == data@.take(i as int) + old(self).bytes@.skip(i as int),
            decreases data@.len() - i,
        {
            self.bytes.set(i, data[i]);
            assert(self.bytes@ =~= data@.take(i as int + 1) + old(self).bytes@.skip(i as int + 1));
            i = i + 1;
        }
        assert(self.bytes@ =~= data@ + old(self).bytes@.skip(data@.len() as int));
        Ok(())
    }
}

/// A memory pool allocating chunks close to requested origins.
pub struct ThreadAllocator {
    /// The furthest distance allowed between an origin and an allocation.
    pub max_distance: usize,
    /// The executable pools reserved so far.
    pub pools: Vec<Pool>,
}

/// Every pool of the allocator is well-formed.
pub open spec fn allocator_wf(a: ThreadAllocator) -> bool {
    forall|i: int| 0 <= i < a.pools@.len() ==> pool_wf(#[trigger] a.pools@[i])
}

/// Can a carve of `take` bytes from pool `p` satisfy a request near
/// `origin`?  It can when the pool has the room and both ends of the
/// slice lie within the window.
pub open spec fn pool_fits(p: Pool, origin: u64, take: int, max_distance: int) -> bool {
    &&& p.size - p.used >= take
    &&& dist((p.base + p.used) as u64, origin) <= max_distance
    &&& dist((p.base + p.used + take - 1) as u64, origin) <= max_distance
}

impl ThreadAllocator {
    /// Creates a proximity allocator with the given maximum distance.
    pub fn new(max_distance: usize) -> (r: ThreadAllocator)
        ensures
            r.max_distance == max_distance,
            r.pools@.len() == 0,
            allocator_wf(r),
    {
        ThreadAllocator { max_distance, pools: Vec::new() }
    }

    /// Allocates read-, write- and executable memory close to `origin`:
    /// the returned base is at most `max_distance` away from it.  Existing
    /// pools are tried first; then a bounded number of reservations at
    /// system-chosen addresses, and finally a bounded walk over
    /// page-aligned candidates outward from the origin's page in 1 MiB
    /// strides, both directions, reserving the first free candidate in the
    /// window.  A reservation that lands out of reach is released.  Fails
    /// with `OutOfMemory` when no reservation within the window can be
    /// found.
    #[verifier::rlimit(50)]
    pub fn allocate(&mut self, origin: u64, size: usize) -> (r: Result<ExecutableMemory, Error>)
        requires
            allocator_wf(*old(self)),
            1 <= size,
        ensures
            allocator_wf(*final(self)),
            final(self).max_distance == old(self).max_distance,
            r matches Ok(m) ==> {
                &&& dist(m.base, origin) <= old(self).max_distance
                &&& m.bytes@.len() == size
                &&& m.base % 8 == 0
                &&& m.base + size <= u64::MAX
            },
            r matches Err(e) ==> e == Error::OutOfMemory,
            r is Err ==> final(self).pools@ == old(self).pools@,
            size + 7 <= usize::MAX && (exists|k: int|
                0 <= k < old(self).pools@.len() && pool_fits(
                    #[trigger] old(self).pools@[k],
                    origin,
                    round8(size as int),
                    old(self).max_distance as int,
                )) ==> r is Ok,
    {
        let ghost max_distance = self.max_distance as u64;
        let take: usize = match size.checked_add(7) {
            Some(s) => s / 8 * 8,
            None => {
                return Err(Error::OutOfMemory);
            },
        };
        assert(8 <= take);
        let mut i: usize = 0;
        while i < self.pools.len()
            invariant
                allocator_wf(*self),
                self == old(self),
                1 <= size,
                size <= take,
                8 <= take,
                take % 8 == 0,
                take == round8(size as int),
                forall|k: int|
                    0 <= k < i ==> !pool_fits(
                        #[trigger] self.pools@[k],
                        origin,
                        take as int,
                        self.max_distance as int,
                    ),
            decreases self.pools@.len() - i,
        {
            proof {
                assert(pool_wf(self.pools@[i as int]));
            }
            let free: u64 = self.pools[i].size - self.pools[i].used;
            if free >= take as u64 {
                let cand: u64 = self.pools[i].base + self.pools[i].used;
                if distance(cand, origin) <= self.max_distance as u64 && distance(
                    cand + (take as u64) - 1,
                    origin,
                ) <= self.max_distance as u64 {
                    let mut pool = self.pools.remove(i);
                    pool.used = pool.used + take as u64;
                    pool.refs = pool.refs + 1;
                    self.pools.insert(i, pool);
                    let bytes = alloc_image(size);
                    return Ok(ExecutableMemory { base: cand, bytes });
                }
            }
            proof {
                assert(!pool_fits(
                    self.pools@[i as int],
                    origin,
                    take as int,
                    self.max_distance as int,
                ));
            }
            i = i + 1;
        }
        let chunk: usize = if take > POOL_CHUNK {
            take
        } else {
            POOL_CHUNK
        };
        let mut probe: usize = 0;
        while probe < PROBE_ATTEMPTS
            invariant
                allocator_wf(*self),
                self.max_distance == old(self).max_distance,
                self.pools@ == old(self).pools@,
                1 <= size,
                size <= take,
                8 <= take,
                take % 8 == 0,
                take <= chunk,
                take == round8(size as int),
                forall|k: int|
                    0 <= k < old(self).pools@.len() ==> !pool_fits(
                        #[trigger] old(self).pools@[k],
                        origin,
                        take as int,
                        old(self).max_distance as int,
                    ),
            decreases PROBE_ATTEMPTS - probe,
        {
            match os_reserve(chunk) {
                Some((mem, base, len)) => {
                    match self.adopt(mem, base, len, origin, take as u64, size) {
                        Some(m) => {
                            return Ok(m);
                        },
                        None => {},
                    }
                },
                None => {},
            }
            probe = probe + 1;
        }
        let base_page: u64 = origin & 0xFFFF_FFFF_FFFF_F000;
        let mut walk: usize = 1;
        while walk <= WALK_ATTEMPTS
            invariant
                allocator_wf(*self),
                self.max_distance == old(self).max_distance,
                self.pools@ == old(self).pools@,
                1 <= size,
                size <= take,
                8 <= take,
                take % 8 == 0,
                take <= chunk,
                take == round8(size as int),
                forall|k: int|
                    0 <= k < old(self).pools@.len() ==> !pool_fits(
                        #[trigger] old(self).pools@[k],
                        origin,
                        take as int,
                        old(self).max_distance as int,
                    ),
            decreases WALK_ATTEMPTS + 1 - walk,
        {
            let off: u64 = (walk as u64) << 20;
            if base_page >= off {
                let cand: u64 = (base_page - off) & 0xFFFF_FFFF_FFFF_F000;
                proof {
                    lemma_page_mask_aligned((base_page - off) as u64);
                }
                match self.walk_candidate(cand, origin, take as u64, size, chunk) {
                    Some(m) => {
                        return Ok(m);
                    },
                    None => {},
                }
            }
            if off <= u64::MAX - base_page {
                let cand: u64 = (base_page + off) & 0xFFFF_FFFF_FFFF_F000;
                proof {
                    lemma_page_mask_aligned((base_page + off) as u64);
                }
                match self.walk_candidate(cand, origin, take as u64, size, chunk) {
                    Some(m) => {
                        return Ok(m);
                    },
                    None => {},
                }
            }
            walk = walk + 1;
        }
        Err(Error::OutOfMemory)
    }

    /// Tries one page-aligned candidate of the outward walk: the candidate
    /// is skipped unless it starts inside the window and the range is
    /// currently free; a reservation that still lands out of reach is
    /// released.
    fn walk_candidate(
        &mut self,
        cand: u64,
        origin: u64,
        take: u64,
        size: usize,
        chunk: usize,
    ) -> (r: Option<ExecutableMemory>)
        requires
            allocator_wf(*old(self)),
            cand % 4096 == 0,
            1 <= size,
            size <= take,
            8 <= take,
            take % 8 == 0,
            take <= chunk,
        ensures
            allocator_wf(*final(self)),
            final(self).max_distance == old(self).max_distance,
            r is None ==> final(self).pools@ == old(self).pools@,
            r matches Some(m) ==> {
                &&& dist(m.base, origin) <= old(self).max_distance
                &&& m.bytes@.len() == size
                &&& m.base % 8 == 0
                &&& m.base + size <= u64::MAX
            },
    {
        if distance(cand, origin) > self.max_distance as u64 {
            return None;
        }
        if os_range_is_mapped(cand, chunk) {
            return None;
        }
        match os_reserve_at(cand, chunk) {
            Some((mem, base, len)) => self.adopt(mem, base, len, origin, take, size),
            None => None,
        }
    }

    /// Adopts a fresh reservation as a pool with one live slice, provided
    /// it is large enough and both ends of the slice lie in the window;
    /// otherwise the reservation is dropped, unmapping it.
    fn adopt(
        &mut self,
        mem: region::Allocation,
        base: u64,
        len: u64,
        origin: u64,
        take: u64,
        size: usize,
    ) -> (r: Option<ExecutableMemory>)
        requires
            allocator_wf(*old(self)),
            base % 4096 == 0,
            base + len <= u64::MAX,
            1 <= size,
            size <= take,
            8 <= take,
            take % 8 == 0,
        ensures
            allocator_wf(*final(self)),
            final(self).max_distance == old(self).max_distance,
            r is None ==> final(self).pools@ == old(self).pools@,
            r matches Some(m) ==> {
                &&& dist(m.base, origin) <= old(self).max_distance
                &&& m.bytes@.len() == size
                &&& m.base % 8 == 0
                &&& m.base + size <= u64::MAX
            },
    {
        if len >= take && distance(base, origin) <= self.max_distance as u64 && distance(
            base + take - 1,
            origin,
        ) <= self.max_distance as u64 {
            let ghost before = self.pools@;
            self.pools.push(Pool { mem, base, size: len, used: take, refs: 1 });
            proof {
                assert forall|k: int| 0 <= k < self.pools@.len() implies pool_wf(
                    #[trigger] self.pools@[k],
                ) by {
                    if k < before.len() {
                        assert(self.pools@[k] == before[k]);
                    }
                }
            }
            let bytes = alloc_image(size);
            Some(ExecutableMemory { base, bytes })
        } else {
            None
        }
    }

    /// Releases one allocation: the owning pool loses one live slice, and
    /// a pool whose count reaches zero is removed, unmapping its pages.
    /// An address no pool owns leaves the allocator unchanged.
    pub fn release(&mut self, memory: ExecutableMemory)
        requires
            allocator_wf(*old(self)),
        ensures
            allocator_wf(*final(self)),
            final(self).max_distance == old(self).max_distance,
            (forall|i: int|
                0 <= i < old(self).pools@.len() ==> !pool_owns(
                    #[trigger] old(self).pools@[i],
                    memory.base,
                )) ==> final(self).pools@ == old(self).pools@,
            (exists|i: int|
                0 <= i < old(self).pools@.len() && pool_owns(
                    #[trigger] old(self).pools@[i],
                    memory.base,
                )) ==> exists|i: int|
                {
                    &&& 0 <= i < old(self).pools@.len()
                    &&& pool_owns(#[trigger] old(self).pools@[i], memory.base)
                    &&& if old(self).pools@[i].refs <= 1 {
                        final(self).pools@ == old(self).pools@.remove(i)
                    } else {
                        final(self).pools@ == old(self).pools@.update(
                            i,
                            dec_pool(old(self).pools@[i]),
                        )
                    }
                },
    {
        let addr: u64 = memory.base;
        let mut i: usize = 0;
        while i < self.pools.len()
            invariant
                allocator_wf(*self),
                self == old(self),
                addr == memory.base,
                forall|k: int|
                    0 <= k < i ==> !pool_owns(#[trigger] old(self).pools@[k], addr),
            decreases self.pools@.len() - i,
        {
            proof {
                assert(pool_wf(self.pools@[i as int]));
            }
            let p_base: u64 = self.pools[i].base;
            let p_size: u64 = self.pools[i].size;
            if p_base <= addr && addr - p_base < p_size {
                proof {
                    assert(pool_owns(old(self).pools@[i as int], addr));
                }
                if self.pools[i].refs <= 1 {
                    let pool = self.pools.remove(i);
                    proof {
                        assert forall|k: int| 0 <= k < self.pools@.len() implies pool_wf(
                            #[trigger] self.pools@[k],
                        ) by {
                            if k < i {
                                assert(self.pools@[k] == old(self).pools@[k]);
                            } else {
                                assert(self.pools@[k] == old(self).pools@[k + 1]);
                            }
                        }
                    }
                    return ;
                } else {
                    let mut pool = self.pools.remove(i);
                    pool.refs = pool.refs - 1;
                    self.pools.insert(i, pool);
                    proof {
                        assert(self.pools@ =~= old(self).pools@.update(
                            i as int,
                            dec_pool(old(self).pools@[i as int]),
                        ));
                        assert forall|k: int| 0 <= k < self.pools@.len() implies pool_wf(
                            #[trigger] self.pools@[k],
                        ) by {
                            if k != i {
                                assert(self.pools@[k] == old(self).pools@[k]);
                            }
                        }
                    }
                    return ;
                }
            }
            i = i + 1;
        }
    }
}

/// The absolute distance between two addresses.
fn distance(a: u64, b: u64) -> (r: u64)
    ensures
        r == dist(a, b),
{
    if a >= b {
        a - b
    } else {
        b - a
    }
}

/// A zeroed byte image of the given size, matching freshly reserved pages.
fn alloc_image(size: usize) -> (r: Vec<u8>)
    ensures
        r@.len() == size,
{
    let mut v: Vec<u8> = Vec::new();
    let mut i: usize = 0;
    while i < size
        invariant
            i <= size,
            v@.len() == i,
        decreases size - i,
    {
        v.push(0);
        i = i + 1;
    }
    v
}

} // verus!

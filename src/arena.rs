use vstd::arithmetic::div_mod::{lemma_fundamental_div_mod, lemma_mod_multiples_basic};
use vstd::prelude::*;

verus! {

/// Size of the arena that the heap is carved from: 100 KiB.
pub const HEAP_SIZE: usize = 100 * 1024;

/// Why an allocation was refused.
#[derive(Clone, Copy, Debug, PartialEq, Eq, Structural)]
pub enum AllocError {
    /// The arena has no room left for the request.
    OutOfMemory,
}

/// The smallest multiple of `align` that is at least `addr`.
pub open spec fn align_up(addr: int, align: int) -> int {
    if addr % align == 0 {
        addr
    } else {
        (addr / align + 1) * align
    }
}

/// A bump allocator over the addresses `base .. base + size`. It hands out
/// memory by moving `offset` forward and never takes any back; each release
/// is only counted.
pub struct BumpAllocator {
    pub base: usize,
    pub size: usize,
    /// First address not yet handed out.
    pub offset: usize,
    /// How many releases were requested (saturating).
    pub released: usize,
}

impl BumpAllocator {
    pub open spec fn wf(&self) -> bool {
        &&& self.base + self.size <= usize::MAX
        &&& self.base <= self.offset <= self.base + self.size
    }

    /// A block of `size` bytes, placed at the first address at or after
    /// `offset` that is a multiple of `align`, ends inside the arena.
    pub open spec fn has_room(&self, size: int, align: int) -> bool {
        align_up(self.offset as int, align) + size <= self.base + self.size
    }

    /// Hands out `size` bytes at the first address at or after the current
    /// offset that is a multiple of `align`, and moves the offset to the end
    /// of that block; fails with `OutOfMemory` when the block would not end
    /// inside the arena.
    pub fn allocate(&mut self, size: usize, align: usize) -> (r: Result<usize, AllocError>)
        requires
            old(self).wf(),
            align > 0,
        ensures
            final(self).wf(),
            r is Ok <==> old(self).has_room(size as int, align as int),
            r is Ok ==> {
                &&& r->Ok_0 == align_up(old(self).offset as int, align as int)
                &&& r->Ok_0 % align == 0
                &&& old(self).offset <= r->Ok_0
                &&& final(self).offset == r->Ok_0 + size
                &&& final(self).base == old(self).base
                &&& final(self).size == old(self).size
                &&& final(self).released == old(self).released
            },
            r is Err ==> r->Err_0 == AllocError::OutOfMemory && *final(self) == *old(self),
    {
        let q = self.offset / align;
        let rem = self.offset % align;
        let limit = self.base + self.size;
        proof {
            lemma_fundamental_div_mod(self.offset as int, align as int);
            lemma_fundamental_div_mod(usize::MAX as int, align as int);
        }
        let start = if rem == 0 {
            self.offset
        } else {
            if q >= usize::MAX / align {
                proof {
                    let m = usize::MAX as int / align as int;
                    let k = usize::MAX as int % align as int;
                    assert((q + 1) * align > usize::MAX) by (nonlinear_arith)
                        requires
                            q >= m,
                            align > 0,
                            usize::MAX == align * m + k,
                            k < align,
                    ;
                }
                return Err(AllocError::OutOfMemory);
            }
            proof {
                let m = usize::MAX as int / align as int;
                assert((q + 1) * align <= m * align) by (nonlinear_arith)
                    requires
                        q + 1 <= m,
                        align > 0,
                ;
                lemma_mod_multiples_basic(q + 1, align as int);
            }
            (q + 1) * align
        };
        if start > limit || size > limit - start {
            return Err(AllocError::OutOfMemory);
        }
        proof {
            assert(self.offset <= start) by (nonlinear_arith)
                requires
                    self.offset == align * q + rem,
                    rem < align,
                    start == self.offset || start == (q + 1) * align,
            ;
        }
        self.offset = start + size;
        Ok(start)
    }

    /// Takes note of a release. The arena never reuses memory, so the
    /// pointer is not given back; only the count of releases moves.
    pub fn deallocate(&mut self, ptr: usize)
        ensures
            final(self).base == old(self).base,
            final(self).size == old(self).size,
            final(self).offset == old(self).offset,
            final(self).released == if old(self).released == usize::MAX {
                usize::MAX
            } else {
                (old(self).released + 1) as usize
            },
    {
        if self.released < usize::MAX {
            self.released = self.released + 1;
        }
    }
}

/// What a physical memory region may be used for.
#[derive(Clone, Copy, Debug, PartialEq, Eq, Structural)]
pub enum RegionKind {
    /// Free for the kernel to use.
    Usable,
    /// Taken by firmware, the boot loader, or anything else.
    Reserved,
}

/// A physical memory region `start .. end` from the boot memory map.
#[derive(Clone, Copy, Debug, PartialEq, Eq, Structural)]
pub struct MemoryRegion {
    pub start: u64,
    pub end: u64,
    pub kind: RegionKind,
}

/// Index of the last usable region of the list, if any.
pub open spec fn last_usable(regions: Seq<MemoryRegion>) -> Option<int>
    decreases regions.len(),
{
    if regions.len() == 0 {
        None
    } else if regions.last().kind == RegionKind::Usable {
        Some(regions.len() - 1)
    } else {
        last_usable(regions.drop_last())
    }
}

/// Where the heap starts: the start of the last usable region, moved by the
/// offset at which physical memory is mapped. `None` when no region is
/// usable, or when the sum does not fit in 64 bits.
pub fn heap_base(regions: &Vec<MemoryRegion>, physical_offset: u64) -> (r: Option<u64>)
    ensures
        r == match last_usable(regions@) {
            Some(i) => if physical_offset + regions@[i].start <= u64::MAX {
                Some((physical_offset + regions@[i].start) as u64)
            } else {
                None
            },
            None => None,
        },
{
    let mut found: Option<usize> = None;
    let mut i: usize = 0;
    while i < regions.len()
        invariant
            i <= regions@.len(),
            match last_usable(regions@.take(i as int)) {
                Some(j) => found == Some(j as usize) && 0 <= j < i,
                None => found is None,
            },
        decreases regions@.len() - i,
    {
        assert(regions@.take(i + 1).drop_last() =~= regions@.take(i as int));
        if regions[i].kind == RegionKind::Usable {
            found = Some(i);
        }
        i = i + 1;
    }
    assert(regions@.take(regions@.len() as int) =~= regions@);
    match found {
        Some(j) => {
            let start = regions[j].start;
            if start > u64::MAX - physical_offset {
                None
            } else {
                Some(physical_offset + start)
            }
        },
        None => None,
    }
}

/// The heap's arena, starting at address `offset`.
pub fn init_heap(offset: usize) -> (r: BumpAllocator)
    requires
        offset + HEAP_SIZE <= usize::MAX,
    ensures
        r.wf(),
        r.base == offset,
        r.size == HEAP_SIZE,
        r.offset == offset,
        r.released == 0,
{
    BumpAllocator { base: offset, size: HEAP_SIZE, offset, released: 0 }
}

} // verus!

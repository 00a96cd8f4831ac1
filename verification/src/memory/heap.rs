//! The kernel heap: a bump allocator over one fixed region.

use vstd::prelude::*;

use crate::memory::round_up;

verus! {

/// Size of the kernel heap: 64 KiB.
pub const HEAP_SIZE: usize = 65536;

/// What a bump allocator holds: where its region starts, where the next
/// allocation starts, and whether it has been set up.
pub struct BumpView {
    pub heap_start: usize,
    pub next: usize,
    pub initialized: bool,
}

impl BumpView {
    /// One past the last byte of the region.
    pub open spec fn heap_end(self) -> int {
        self.heap_start + HEAP_SIZE
    }

    /// Where an allocation with the given alignment would start.
    pub open spec fn aligned(self, align: usize) -> int {
        round_up(self.next as int, align as int)
    }

    /// True where an allocation of `size` bytes aligned to `align` fits: the
    /// allocator is set up, its region does not start at the null address,
    /// its cursor lies within the region, and the aligned block ends within
    /// the region.
    pub open spec fn fits(self, size: usize, align: usize) -> bool {
        &&& self.initialized
        &&& self.heap_start != 0
        &&& self.heap_start <= self.next <= self.heap_end()
        &&& self.aligned(align) + size <= self.heap_end()
    }

    /// The number of bytes between the start of the region and the cursor.
    pub open spec fn used(self) -> int {
        if self.next >= self.heap_start {
            self.next - self.heap_start
        } else {
            0
        }
    }
}

/// An allocator that hands out consecutive blocks of one region and never
/// takes any back.
pub struct BumpAllocator {
    heap_start: usize,
    next: usize,
    initialized: bool,
}

impl View for BumpAllocator {
    type V = BumpView;

    closed spec fn view(&self) -> BumpView {
        BumpView { heap_start: self.heap_start, next: self.next, initialized: self.initialized }
    }
}

/// The allocator right after it has been set up over the region at
/// `heap_start`.
pub open spec fn spec_init(heap_start: usize) -> BumpView {
    BumpView { heap_start, next: heap_start, initialized: true }
}

impl BumpAllocator {
    #[verifier::type_invariant]
    spec fn region_fits(self) -> bool {
        self.heap_start + HEAP_SIZE <= usize::MAX
    }

    /// An allocator that has not been set up: every allocation fails.
    pub fn new() -> (allocator: Self)
        ensures
            allocator@ == (BumpView { heap_start: 0, next: 0, initialized: false }),
    {
        BumpAllocator { heap_start: 0, next: 0, initialized: false }
    }

    /// Sets the allocator up over the region of [`HEAP_SIZE`] bytes at
    /// `heap_start`.
    pub fn init(&mut self, heap_start: usize)
        requires
            heap_start + HEAP_SIZE <= usize::MAX,
        ensures
            final(self)@ == spec_init(heap_start),
    {
        *self = BumpAllocator { heap_start, next: heap_start, initialized: true };
    }

    /// Allocates `size` bytes aligned to `align` and returns the block's
    /// address, or `None` where the block does not fit.
    pub fn allocate(&mut self, size: usize, align: usize) -> (block: Option<usize>)
        requires
            align > 0,
        ensures
            old(self)@.fits(size, align) ==> block == Some(old(self)@.aligned(align) as usize)
                && final(self)@ == (BumpView {
                next: (old(self)@.aligned(align) + size) as usize,
                ..old(self)@
            }),
            !old(self)@.fits(size, align) ==> block.is_none() && final(self)@ == old(self)@,
    {
        proof {
            use_type_invariant(&*self);
        }
        if !self.initialized {
            return None;
        }
        let heap_start = self.heap_start;
        let heap_end = heap_start + HEAP_SIZE;
        if heap_start == 0 {
            return None;
        }
        let current = self.next;
        if current < heap_start || current > heap_end {
            return None;
        }
        let past = current % align;
        let aligned = if past == 0 {
            current
        } else {
            match current.checked_add(align - past) {
                Some(aligned) => aligned,
                None => {
                    return None;
                },
            }
        };
        let new_next = match aligned.checked_add(size) {
            Some(new_next) => new_next,
            None => {
                return None;
            },
        };
        if new_next > heap_end {
            return None;
        }
        self.next = new_next;
        Some(aligned)
    }

    /// Takes a block back. A bump allocator has no use for it: nothing
    /// changes.
    pub fn dealloc(&self, _block: usize, _size: usize, _align: usize) {
    }

    /// The number of bytes handed out so far, padding included.
    pub fn used(&self) -> (bytes: usize)
        ensures
            bytes == self@.used(),
    {
        self.next.saturating_sub(self.heap_start)
    }
}

/// Blocks never overlap and never leave the region: a block starts at or
/// after the cursor, which is where the block before it ended, starts at a
/// multiple of its alignment, and ends where the cursor then stands, within
/// the region.
pub proof fn lemma_blocks_are_disjoint(heap: BumpView, size: usize, align: usize)
    requires
        align > 0,
        heap.fits(size, align),
    ensures
        heap.heap_start <= heap.next <= heap.aligned(align),
        heap.aligned(align) < heap.next + align,
        heap.aligned(align) % (align as int) == 0,
        heap.aligned(align) + size <= heap.heap_end(),
{
    let next = heap.next as int;
    let a = align as int;
    assert(0 <= next % a < a) by (nonlinear_arith)
        requires
            a > 0,
            next >= 0,
    ;
    if next % a != 0 {
        assert((next + a - next % a) % a == 0) by (nonlinear_arith)
            requires
                a > 0,
                next >= 0,
        ;
    }
}

/// Sets up the kernel heap over the region at `heap_start`.
pub fn init(heap_start: usize) -> (allocator: BumpAllocator)
    requires
        heap_start + HEAP_SIZE <= usize::MAX,
    ensures
        allocator@ == spec_init(heap_start),
{
    let mut allocator = BumpAllocator::new();
    allocator.init(heap_start);
    allocator
}

/// The number of bytes of the heap that are in use.
pub fn heap_used(allocator: &BumpAllocator) -> (bytes: usize)
    ensures
        bytes == allocator@.used(),
{
    allocator.used()
}

} // verus!

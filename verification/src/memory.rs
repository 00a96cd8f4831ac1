//! Physical memory: page arithmetic, the frame allocator and the kernel heap.

use vstd::prelude::*;

pub mod frame;
pub mod heap;

use crate::memory::frame::FrameAllocator;
use crate::memory::heap::BumpAllocator;

verus! {

/// Page size: 4 KiB.
pub const PAGE_SIZE: usize = 4096;

/// The smallest multiple of `align` that is not below `addr`.
pub open spec fn round_up(addr: int, align: int) -> int
    recommends
        align > 0,
{
    if addr % align == 0 {
        addr
    } else {
        addr + align - addr % align
    }
}

/// Rounds `addr` up to a page boundary.
pub fn align_up(addr: usize) -> (aligned: usize)
    requires
        addr + PAGE_SIZE <= usize::MAX,
    ensures
        aligned == round_up(addr as int, PAGE_SIZE as int),
        aligned % PAGE_SIZE == 0,
        addr <= aligned < addr + PAGE_SIZE,
{
    let bumped: usize = addr + PAGE_SIZE - 1;
    let aligned: usize = bumped & !(PAGE_SIZE - 1);
    assert(aligned == bumped - bumped % 4096) by (bit_vector)
        requires
            aligned == bumped & !((4096usize - 1) as usize),
    ;
    aligned
}

/// Sets up the memory subsystem: the frame allocator for the memory between
/// the end of the kernel and `memory_end`, and the heap at `heap_start`.
pub fn init(kernel_end: usize, memory_end: usize, heap_start: usize) -> (memory: (
    FrameAllocator,
    BumpAllocator,
))
    requires
        kernel_end + PAGE_SIZE <= usize::MAX,
        round_up(kernel_end as int, PAGE_SIZE as int) <= memory_end,
        heap_start + crate::memory::heap::HEAP_SIZE <= usize::MAX,
    ensures
        memory.0@ == crate::memory::frame::spec_init(kernel_end, memory_end),
        memory.1@ == crate::memory::heap::spec_init(heap_start),
{
    let frames = crate::memory::frame::init(kernel_end, memory_end);
    let heap = crate::memory::heap::init(heap_start);
    (frames, heap)
}

} // verus!

//! The physical frame allocator: one bit per 4 KiB frame.

use vstd::arithmetic::div_mod::{lemma_mod_add_multiples_vanish, lemma_small_mod};
use vstd::prelude::*;

use crate::memory::{align_up, round_up, PAGE_SIZE};

verus! {

/// The largest number of frames the allocator keeps track of: 128 MiB.
pub const MAX_FRAMES: usize = 32768;

/// Frames per word of the bitmap.
pub const WORD_BITS: usize = 64;

/// Words in the bitmap.
pub const BITMAP_WORDS: usize = 512;

/// True where bit `bit` of `word` is set.
pub open spec fn bit_is_set(word: u64, bit: u64) -> bool {
    (word >> bit) & 1 == 1
}

/// True where the bitmap marks `frame` as in use.
pub open spec fn frame_bit(bitmap: Seq<u64>, frame: int) -> bool {
    bit_is_set(bitmap[frame / 64], (frame % 64) as u64)
}

/// The number of the lowest `below` bits of `word` that are set.
pub open spec fn bits_set_below(word: u64, below: int) -> int
    decreases below,
{
    if below <= 0 {
        0
    } else {
        bits_set_below(word, below - 1) + if bit_is_set(word, (below - 1) as u64) {
            1int
        } else {
            0int
        }
    }
}

/// The number of frames below `below` that the bitmap marks as in use.
pub open spec fn bits_in_use(bitmap: Seq<u64>, below: int) -> int
    decreases below,
{
    if below <= 0 {
        0
    } else {
        bits_in_use(bitmap, below - 1) + if frame_bit(bitmap, below - 1) {
            1int
        } else {
            0int
        }
    }
}

/// The number of frames below `below` that are in `used`.
pub open spec fn frames_in_use(used: Set<int>, below: int) -> int
    decreases below,
{
    if below <= 0 {
        0
    } else {
        frames_in_use(used, below - 1) + if used.contains(below - 1) {
            1int
        } else {
            0int
        }
    }
}

/// What a frame allocator holds: the address of frame zero, the number of
/// frames, where the next search starts, and the frames that are in use.
pub struct FrameView {
    pub start_addr: usize,
    pub total_frames: usize,
    pub next_free: usize,
    pub used: Set<int>,
}

impl FrameView {
    /// The frame that a search looks at in its step `i`: the search starts
    /// at `next_free` and wraps round at the last frame.
    pub open spec fn probe(self, i: int) -> int {
        (self.next_free + i) % (self.total_frames as int)
    }

    /// True where step `i` of a search is the first to find a free frame.
    pub open spec fn is_first_free(self, i: int) -> bool {
        &&& 0 <= i < self.total_frames
        &&& !self.used.contains(self.probe(i))
        &&& forall|j: int| 0 <= j < i ==> self.used.contains(#[trigger] self.probe(j))
    }

    /// The step at which a search finds its free frame, where there is one.
    pub open spec fn first_free(self) -> int {
        choose|i: int| self.is_first_free(i)
    }

    /// True where every frame is in use.
    pub open spec fn is_full(self) -> bool {
        forall|frame: int| 0 <= frame < self.total_frames ==> self.used.contains(frame)
    }

    /// The allocator after the search has taken the frame of step `i`.
    pub open spec fn take(self, i: int) -> FrameView {
        FrameView {
            used: self.used.insert(self.probe(i)),
            next_free: ((self.probe(i) + 1) % (self.total_frames as int)) as usize,
            ..self
        }
    }

    /// The physical address of `frame`.
    pub open spec fn address(self, frame: int) -> int {
        self.start_addr + frame * PAGE_SIZE
    }
}

/// The allocator for the memory between the end of the kernel and
/// `memory_end`: frame zero is the first whole page after the kernel, the
/// frames are the whole pages up to `memory_end`, at most [`MAX_FRAMES`] of
/// them, and all are free.
pub open spec fn spec_init(kernel_end: usize, memory_end: usize) -> FrameView {
    let start = round_up(kernel_end as int, PAGE_SIZE as int);
    let frames = (memory_end - start) / (PAGE_SIZE as int);
    FrameView {
        start_addr: start as usize,
        total_frames: if frames < MAX_FRAMES {
            frames as usize
        } else {
            MAX_FRAMES
        },
        next_free: 0,
        used: Set::empty(),
    }
}

/// A bitmap allocator for physical frames: a set bit marks a frame in use.
pub struct FrameAllocator {
    bitmap: [u64; 512],
    start_addr: usize,
    total_frames: usize,
    next_free: usize,
}

impl View for FrameAllocator {
    type V = FrameView;

    closed spec fn view(&self) -> FrameView {
        FrameView {
            start_addr: self.start_addr,
            total_frames: self.total_frames,
            next_free: self.next_free,
            used: Set::new(|frame: int| 0 <= frame < self.total_frames && frame_bit(self.bitmap@, frame)),
        }
    }
}

/// Setting bit `bit` of a word sets that bit and leaves the others alone;
/// the bit was clear exactly where masking it out gave zero.
proof fn lemma_set_bit(word: u64, bit: u64)
    requires
        bit < 64,
    ensures
        (word & (1u64 << bit) == 0) == !bit_is_set(word, bit),
        bit_is_set(word | (1u64 << bit), bit),
        forall|other: u64|
            other < 64 && other != bit ==> bit_is_set(word | (1u64 << bit), other) == bit_is_set(
                word,
                other,
            ),
{
    assert((word & (1u64 << bit) == 0) == !((word >> bit) & 1 == 1)) by (bit_vector)
        requires
            bit < 64,
    ;
    assert(((word | (1u64 << bit)) >> bit) & 1 == 1) by (bit_vector)
        requires
            bit < 64,
    ;
    assert forall|other: u64| other < 64 && other != bit implies bit_is_set(
        word | (1u64 << bit),
        other,
    ) == bit_is_set(word, other) by {
        assert(((word | (1u64 << bit)) >> other) & 1 == (word >> other) & 1) by (bit_vector)
            requires
                bit < 64,
                other < 64,
                other != bit,
        ;
    }
}

/// No bit of the zero word is set.
proof fn lemma_zero_word(bit: u64)
    requires
        bit < 64,
    ensures
        !bit_is_set(0, bit),
{
    assert((0u64 >> bit) & 1 == 0) by (bit_vector)
        requires
            bit < 64,
    ;
}

/// A word adds its set bits to the count of the frames before it.
proof fn lemma_word_count(bitmap: Seq<u64>, word: int, bits: int)
    requires
        0 <= word < bitmap.len(),
        0 <= bits <= 64,
    ensures
        bits_in_use(bitmap, word * 64 + bits) == bits_in_use(bitmap, word * 64) + bits_set_below(
            bitmap[word],
            bits,
        ),
    decreases bits,
{
    if bits > 0 {
        lemma_word_count(bitmap, word, bits - 1);
        let frame = word * 64 + bits - 1;
        assert(frame / 64 == word);
        assert(frame % 64 == bits - 1);
    }
}

/// Counting by the bitmap and counting by the set of used frames agree
/// where the bitmap marks nothing from `total` on.
proof fn lemma_count_agrees(bitmap: Seq<u64>, used: Set<int>, total: int, below: int)
    requires
        0 <= total,
        0 <= below,
        forall|frame: int| 0 <= frame < total ==> used.contains(frame) == frame_bit(bitmap, frame),
        forall|frame: int| total <= frame < below ==> !frame_bit(bitmap, frame),
    ensures
        bits_in_use(bitmap, below) == frames_in_use(used, if below < total {
            below
        } else {
            total
        }),
    decreases below,
{
    if below > 0 {
        lemma_count_agrees(bitmap, used, total, below - 1);
    }
}

/// A search finds one frame: no two steps are both the first to find a free
/// frame.
pub proof fn lemma_first_free_is_unique(view: FrameView, i: int, j: int)
    requires
        view.is_first_free(i),
        view.is_first_free(j),
    ensures
        i == j,
{
    if i < j {
        assert(view.used.contains(view.probe(i)));
    } else if j < i {
        assert(view.used.contains(view.probe(j)));
    }
}

/// The frame that a search takes was free before and is in use after, every
/// frame that was in use stays in use, and the frame's page lies within the
/// allocator's memory. So no frame is handed out twice.
pub proof fn lemma_taken_frame_is_fresh(view: FrameView, i: int)
    requires
        view.is_first_free(i),
    ensures
        0 <= view.probe(i) < view.total_frames,
        !view.used.contains(view.probe(i)),
        view.take(i).used.contains(view.probe(i)),
        forall|frame: int| view.used.contains(frame) ==> view.take(i).used.contains(frame),
        view.start_addr <= view.address(view.probe(i)),
        view.address(view.probe(i)) + PAGE_SIZE <= view.start_addr + view.total_frames * PAGE_SIZE,
{
    let total = view.total_frames as int;
    let at = view.next_free + i;
    assert(0 <= at % total < total) by (nonlinear_arith)
        requires
            total > 0,
            at >= 0,
    ;
}

/// A search that has looked at every step has looked at every frame.
proof fn lemma_search_covers(view: FrameView, frame: int)
    requires
        0 <= frame < view.total_frames,
        view.next_free < view.total_frames,
    ensures
        ({
            let i = if frame >= view.next_free {
                frame - view.next_free
            } else {
                frame + view.total_frames - view.next_free
            };
            0 <= i < view.total_frames && view.probe(i) == frame
        }),
{
    let total = view.total_frames as int;
    if frame >= view.next_free {
        lemma_small_mod(frame as nat, total as nat);
    } else {
        lemma_small_mod(frame as nat, total as nat);
        lemma_mod_add_multiples_vanish(frame, total);
    }
}

impl FrameAllocator {
    #[verifier::type_invariant]
    spec fn well_formed(self) -> bool {
        &&& self.total_frames <= MAX_FRAMES
        &&& if self.total_frames == 0 {
            self.next_free == 0
        } else {
            self.next_free < self.total_frames
        }
        &&& self.start_addr + self.total_frames * PAGE_SIZE <= usize::MAX
        &&& forall|frame: int|
            self.total_frames <= frame < MAX_FRAMES ==> !frame_bit(self.bitmap@, frame)
    }

    /// An allocator without a single frame.
    pub fn new() -> (allocator: Self)
        ensures
            allocator@ == (FrameView {
                start_addr: 0,
                total_frames: 0,
                next_free: 0,
                used: Set::empty(),
            }),
    {
        let bitmap = [0u64;512];
        proof {
            assert forall|frame: int| 0 <= frame < MAX_FRAMES implies !frame_bit(bitmap@, frame) by {
                lemma_zero_word((frame % 64) as u64);
            }
        }
        let allocator = FrameAllocator { bitmap, start_addr: 0, total_frames: 0, next_free: 0 };
        assert(allocator@.used =~= Set::<int>::empty());
        allocator
    }

    /// Allocates one frame and returns its physical address, or `None`
    /// where every frame is in use.
    ///
    /// The search starts at the frame after the one allocated last and wraps
    /// round; it takes the first free frame it meets.
    pub fn allocate(&mut self) -> (frame: Option<usize>)
        ensures
            old(self)@.is_full() ==> frame.is_none() && final(self)@ == old(self)@,
            !old(self)@.is_full() ==> {
                let i = old(self)@.first_free();
                &&& old(self)@.is_first_free(i)
                &&& frame == Some(old(self)@.address(old(self)@.probe(i)) as usize)
                &&& final(self)@ == old(self)@.take(i)
            },
    {
        proof {
            use_type_invariant(&*self);
        }
        let start = self.next_free;
        let total = self.total_frames;
        let mut i: usize = 0;
        while i < total
            invariant
                *self == *old(self),
                start == self.next_free,
                total == self.total_frames,
                total <= MAX_FRAMES,
                total > 0 ==> start < total,
                self.start_addr + total * PAGE_SIZE <= usize::MAX,
                forall|frame: int| total <= frame < MAX_FRAMES ==> !frame_bit(self.bitmap@, frame),
                i <= total,
                forall|j: int| 0 <= j < i ==> self@.used.contains(#[trigger] self@.probe(j)),
            decreases total - i,
        {
            let frame = (start + i) % total;
            let word_idx = frame / WORD_BITS;
            let bit_idx = frame % WORD_BITS;
            let word = self.bitmap[word_idx];
            proof {
                lemma_set_bit(word, bit_idx as u64);
                assert(frame == self@.probe(i as int));
                assert(self@.used.contains(frame as int) == frame_bit(self.bitmap@, frame as int));
            }
            if (word & (1u64 << bit_idx)) == 0 {
                let new_word = word | (1u64 << bit_idx);
                let next = (frame + 1) % total;
                let ghost before = self@;
                let ghost old_bitmap = self.bitmap@;
                proof {
                    let new_bitmap = old_bitmap.update(word_idx as int, new_word);
                    assert forall|other: int| 0 <= other < MAX_FRAMES implies frame_bit(
                        new_bitmap,
                        other,
                    ) == (other == frame || frame_bit(old_bitmap, other)) by {
                        if other / 64 == word_idx as int {
                            assert(((other % 64) as u64) < 64);
                            if other % 64 == bit_idx as int {
                                assert(other == frame);
                            }
                        }
                    }
                }
                self.bitmap[word_idx] = new_word;
                assert(self.bitmap@ == old_bitmap.update(word_idx as int, new_word));
                self.next_free = next;
                proof {
                    assert(before.is_first_free(i as int));
                    lemma_first_free_is_unique(before, i as int, before.first_free());
                    assert(self@.used =~= before.used.insert(frame as int));
                    assert(self@ == before.take(i as int));
                    assert(frame * PAGE_SIZE <= total * PAGE_SIZE);
                }
                let phys_addr = self.start_addr + frame * PAGE_SIZE;
                return Some(phys_addr);
            }
            i += 1;
        }
        proof {
            assert forall|frame: int| 0 <= frame < self@.total_frames implies self@.used.contains(
                frame,
            ) by {
                lemma_search_covers(self@, frame);
            }
        }
        None
    }

    /// The number of frames in use and the number of frames in all.
    pub fn stats(&self) -> (counts: (usize, usize))
        ensures
            counts.0 == frames_in_use(self@.used, self@.total_frames as int),
            counts.1 == self@.total_frames,
    {
        proof {
            use_type_invariant(self);
        }
        let mut used: usize = 0;
        let mut w: usize = 0;
        while w < BITMAP_WORDS
            invariant
                w <= BITMAP_WORDS,
                used == bits_in_use(self.bitmap@, w * 64),
                used <= w * 64,
            decreases BITMAP_WORDS - w,
        {
            let ones = count_set_bits(self.bitmap[w]);
            proof {
                lemma_word_count(self.bitmap@, w as int, 64);
            }
            used += ones;
            w += 1;
        }
        proof {
            lemma_count_agrees(
                self.bitmap@,
                self@.used,
                self.total_frames as int,
                MAX_FRAMES as int,
            );
        }
        (used, self.total_frames)
    }
}

/// Counts the bits that are set in `word`.
fn count_set_bits(word: u64) -> (ones: usize)
    ensures
        ones == bits_set_below(word, 64),
        ones <= 64,
{
    let mut ones: usize = 0;
    let mut bit: u64 = 0;
    while bit < 64
        invariant
            bit <= 64,
            ones == bits_set_below(word, bit as int),
            ones <= bit,
        decreases 64 - bit,
    {
        if (word >> bit) & 1 == 1 {
            ones += 1;
        }
        bit += 1;
    }
    ones
}

/// Sets up the frame allocator for the memory between the end of the kernel
/// and `memory_end`.
pub fn init(kernel_end: usize, memory_end: usize) -> (allocator: FrameAllocator)
    requires
        kernel_end + PAGE_SIZE <= usize::MAX,
        round_up(kernel_end as int, PAGE_SIZE as int) <= memory_end,
    ensures
        allocator@ == spec_init(kernel_end, memory_end),
{
    let start = align_up(kernel_end);
    let total_bytes = memory_end - start;
    let total_frames = total_bytes / PAGE_SIZE;
    let frames = if total_frames < MAX_FRAMES {
        total_frames
    } else {
        MAX_FRAMES
    };
    let bitmap = [0u64;512];
    proof {
        assert forall|frame: int| 0 <= frame < MAX_FRAMES implies !frame_bit(bitmap@, frame) by {
            lemma_zero_word((frame % 64) as u64);
        }
    }
    let allocator = FrameAllocator { bitmap, start_addr: start, total_frames: frames, next_free: 0 };
    assert(allocator@.used =~= Set::<int>::empty());
    allocator
}

/// Allocates one physical frame.
pub fn alloc_frame(allocator: &mut FrameAllocator) -> (frame: Option<usize>)
    ensures
        old(allocator)@.is_full() ==> frame.is_none() && final(allocator)@ == old(allocator)@,
        !old(allocator)@.is_full() ==> {
            let i = old(allocator)@.first_free();
            &&& old(allocator)@.is_first_free(i)
            &&& frame == Some(old(allocator)@.address(old(allocator)@.probe(i)) as usize)
            &&& final(allocator)@ == old(allocator)@.take(i)
        },
{
    allocator.allocate()
}

/// The number of frames in use and the number of frames in all.
pub fn get_stats(allocator: &FrameAllocator) -> (counts: (usize, usize))
    ensures
        counts.0 == frames_in_use(allocator@.used, allocator@.total_frames as int),
        counts.1 == allocator@.total_frames,
{
    allocator.stats()
}

} // verus!

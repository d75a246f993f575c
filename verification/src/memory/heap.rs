//! Kernel heap: a bump allocator.
//!
//! An allocation only moves a pointer; individual allocations are not freed.
//! Where the heap lives, and whether it can grow, is the architecture's
//! business.

use vstd::prelude::*;
use crate::bits::ceil_to;

verus! {

/// A bump-pointer allocator over a region that the architecture provides.
#[derive(Debug, Clone, Copy, PartialEq, Eq, Structural)]
pub struct BumpAllocator {
    pub initialized: bool,
    pub heap_end: usize,
    pub next_free: usize,
}

/// What an attempt to allocate gives.
#[derive(Debug, Clone, Copy, PartialEq, Eq, Structural)]
pub enum AllocStep {
    /// The address of the allocation.
    Done(usize),
    /// The heap is to grow by at least this many bytes, then asked again.
    Extend { needed: u64 },
}

impl BumpAllocator {
    /// The address that an allocation gets: the next one that is aligned.
    pub open spec fn place(self, align: usize) -> int {
        ceil_to(self.next_free as int, align as int)
    }

    /// The allocation fits the heap.
    pub open spec fn fits(self, size: usize, align: usize) -> bool {
        self.place(align) + size <= self.heap_end
    }

    /// The allocator after an allocation that fits.
    pub open spec fn bumped(self, size: usize, align: usize) -> BumpAllocator {
        BumpAllocator { next_free: (self.place(align) + size) as usize, ..self }
    }

    /// An allocator without a heap.
    pub fn new() -> (r: Self)
        ensures
            r == (BumpAllocator { initialized: false, heap_end: 0, next_free: 0 }),
    {
        BumpAllocator { initialized: false, heap_end: 0, next_free: 0 }
    }

    /// Sets up the heap over the architecture's initial region. A second call
    /// changes nothing.
    pub fn init(&mut self, start: usize, end: usize)
        ensures
            *final(self) == if old(self).initialized {
                *old(self)
            } else {
                BumpAllocator { initialized: true, heap_end: end, next_free: start }
            },
    {
        if self.initialized {
            return;
        }
        self.initialized = true;
        self.heap_end = end;
        self.next_free = start;
    }

    /// Allocates `size` bytes aligned to `align`, or says by how much the
    /// heap is to grow first.
    pub fn alloc_impl(&mut self, size: usize, align: usize) -> (r: AllocStep)
        requires
            align > 0,
            old(self).next_free + align - 1 + size <= usize::MAX,
        ensures
            if old(self).fits(size, align) {
                &&& r == AllocStep::Done(old(self).place(align) as usize)
                &&& *final(self) == old(self).bumped(size, align)
            } else {
                &&& r == (AllocStep::Extend {
                    needed: (old(self).place(align) + size - old(self).next_free) as u64,
                })
                &&& *final(self) == *old(self)
            },
            old(self).next_free <= old(self).place(align),
            old(self).place(align) as int % align as int == 0,
    {
        let current: usize = self.next_free;
        let bumped: usize = current + (align - 1);
        let aligned: usize = bumped - bumped % align;
        proof {
            lemma_ceil(current as int, align as int);
        }
        let new_free: usize = aligned + size;
        if new_free <= self.heap_end {
            self.next_free = new_free;
            AllocStep::Done(aligned)
        } else {
            AllocStep::Extend { needed: (new_free - current) as u64 }
        }
    }

    /// The heap has grown by `grown` bytes.
    pub fn extended(&mut self, grown: usize)
        requires
            old(self).heap_end + grown <= usize::MAX,
        ensures
            *final(self) == (BumpAllocator {
                heap_end: (old(self).heap_end + grown) as usize,
                ..*old(self)
            }),
    {
        self.heap_end = self.heap_end + grown;
    }
}

/// Rounding up gives the next multiple.
proof fn lemma_ceil(x: int, a: int)
    requires
        0 <= x,
        0 < a,
    ensures
        x <= ceil_to(x, a) < x + a,
        ceil_to(x, a) % a == 0,
{
    let y = x + a - 1;
    vstd::arithmetic::div_mod::lemma_mod_bound(y, a);
    vstd::arithmetic::div_mod::lemma_fundamental_div_mod(y, a);
    vstd::arithmetic::div_mod::lemma_mod_multiples_basic(y / a, a);
    assert(y - y % a == (y / a) * a) by (nonlinear_arith)
        requires
            y == a * (y / a) + y % a,
    ;
}

/// An operation on a heap that is set up.
pub enum HeapStep {
    /// An allocation is tried.
    Alloc { size: usize, align: usize },
    /// The heap grows.
    Extend { grown: usize },
}

impl BumpAllocator {
    /// `step` takes this state to `post`. An allocation that does not fit
    /// changes nothing.
    pub open spec fn stepped(self, step: HeapStep, post: BumpAllocator) -> bool {
        match step {
            HeapStep::Alloc { size, align } => align > 0 && post == if self.fits(size, align) {
                self.bumped(size, align)
            } else {
                self
            },
            HeapStep::Extend { grown } => self.heap_end + grown <= usize::MAX && post == (
            BumpAllocator { heap_end: (self.heap_end + grown) as usize, ..self }),
        }
    }

    /// `step` allocates the bytes from `start` up to `end`.
    pub open spec fn allocates(self, step: HeapStep, start: int, end: int) -> bool {
        match step {
            HeapStep::Alloc { size, align } => {
                &&& self.fits(size, align)
                &&& start == self.place(align)
                &&& end == start + size
            },
            HeapStep::Extend { .. } => false,
        }
    }
}

/// Step `k` leads from state `k` to the next.
pub open spec fn leads_on(states: Seq<BumpAllocator>, steps: Seq<HeapStep>, k: int) -> bool {
    states[k].stepped(steps[k], states[k + 1])
}

/// A run of the allocator: `steps` lead through `states`.
pub open spec fn history(states: Seq<BumpAllocator>, steps: Seq<HeapStep>) -> bool {
    &&& states.len() == steps.len() + 1
    &&& forall|k: int| 0 <= k < steps.len() ==> #[trigger] leads_on(states, steps, k)
}

/// Over a run nothing is taken back, and the heap does not shrink.
proof fn lemma_only_onward(states: Seq<BumpAllocator>, steps: Seq<HeapStep>, i: int, j: int)
    requires
        history(states, steps),
        0 <= i <= j < states.len(),
    ensures
        states[i].next_free <= states[j].next_free,
        states[i].heap_end <= states[j].heap_end,
    decreases j - i,
{
    if i < j {
        lemma_only_onward(states, steps, i, j - 1);
        assert(leads_on(states, steps, j - 1));
        if let HeapStep::Alloc { align, .. } = steps[j - 1] {
            lemma_ceil(states[j - 1].next_free as int, align as int);
        }
    }
}

/// No allocation overlaps an earlier one, whatever was allocated and however
/// the heap grew between them: of any two in a run the later lies behind the
/// earlier. Both lie in the heap, from where its free part began to its end.
pub proof fn law_allocations_are_disjoint(
    states: Seq<BumpAllocator>,
    steps: Seq<HeapStep>,
    i: int,
    start: int,
    end: int,
    j: int,
    start2: int,
    end2: int,
)
    requires
        history(states, steps),
        0 <= i < j < steps.len(),
        states[i].allocates(steps[i], start, end),
        states[j].allocates(steps[j], start2, end2),
    ensures
        states[0].next_free <= start <= end <= start2 <= end2 <= states[steps.len() as int].heap_end,
{
    assert(leads_on(states, steps, i));
    assert(leads_on(states, steps, j));
    lemma_only_onward(states, steps, 0, i);
    lemma_only_onward(states, steps, i + 1, j);
    lemma_only_onward(states, steps, j, steps.len() as int);
    lemma_ceil(states[i].next_free as int, steps[i]->align as int);
    lemma_ceil(states[j].next_free as int, steps[j]->align as int);
}

/// An allocation lies at the first multiple of its alignment that is free, and what is free begins
/// right after it.
pub proof fn law_allocation_follows_the_last(a: BumpAllocator, size: usize, align: usize)
    requires
        align > 0,
        a.place(align) + size <= usize::MAX,
    ensures
        a.next_free <= a.place(align) < a.next_free + align,
        a.place(align) % align as int == 0,
        a.bumped(size, align).next_free == a.place(align) + size,
        a.bumped(size, align).heap_end == a.heap_end,
        a.bumped(size, align).initialized == a.initialized,
{
    crate::bits::law_rounding(a.next_free as int, align as int);
}

} // verus!

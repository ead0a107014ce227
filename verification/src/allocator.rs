//! The kernel's early bump allocator: memory is handed out upwards from
//! the start of the heap and never given back.

use vstd::prelude::*;

verus! {

/// `addr` rounded up to a multiple of `align`, a power of two.
pub open spec fn align_up(addr: usize, align: usize) -> usize {
    ((addr + align - 1) as usize) & !((align - 1) as usize)
}

/// A bump allocator over `[heap_start, heap_end)`.
pub struct BumpAllocator {
    heap_start: usize,
    heap_end: usize,
    next: usize,
}

impl BumpAllocator {
    /// Where the next allocation is searched from.
    pub closed spec fn next(&self) -> usize {
        self.next
    }

    /// The end of the heap.
    pub closed spec fn end(&self) -> usize {
        self.heap_end
    }

    /// The start of the heap.
    pub closed spec fn start(&self) -> usize {
        self.heap_start
    }

    pub fn new(heap_start: usize, heap_end: usize) -> (a: Self)
        ensures
            a.start() == heap_start,
            a.end() == heap_end,
            a.next() == heap_start,
    {
        BumpAllocator { heap_start, heap_end, next: heap_start }
    }

    /// Allocates `size` bytes aligned to `align`: the address, or 0 when
    /// the heap has no room left.
    pub fn allocate(&mut self, size: usize, align: usize) -> (addr: usize)
        requires
            align > 0,
            align & ((align - 1) as usize) == 0,
            old(self).next() + align - 1 + size <= usize::MAX,
        ensures
            final(self).start() == old(self).start(),
            final(self).end() == old(self).end(),
            ({
                let a = align_up(old(self).next(), align);
                if a + size > old(self).end() {
                    addr == 0 && final(self).next() == old(self).next()
                } else {
                    addr == a && final(self).next() == a + size
                }
            }),
    {
        let bumped: usize = self.next + (align - 1);
        let addr = bumped & !(align - 1);
        assert(addr <= bumped) by (bit_vector)
            requires
                addr == bumped & !((align - 1) as usize),
        ;
        if addr + size > self.heap_end {
            return 0;
        }
        self.next = addr + size;
        addr
    }

    /// Giving memory back does nothing.
    pub fn deallocate(&mut self, addr: usize, size: usize)
        ensures
            *final(self) == *old(self),
    {
    }
}

} // verus!

//! The kernel heap: one buddy allocator over the heap region. The global
//! allocator wraps it in an IRQ-safe lock; this type holds what the lock
//! protects.

use crate::address::{MemoryRegion, Virtual};
use crate::buddy::{level_for, request_bytes, AllocError, BuddyAllocator, InitError};
use crate::buddy_model::{
    any_free_upto, block_bytes, free_bytes, live_bytes, merged, split_index, split_lists,
    ARENA_SIZE, NUM_LEVELS,
};
use vstd::prelude::*;

verus! {

/// The kernel's heap allocator.
pub struct HeapAllocator {
    inner: BuddyAllocator,
}

impl HeapAllocator {
    /// The buddy allocator behind the heap.
    pub closed spec fn buddy(&self) -> BuddyAllocator {
        self.inner
    }

    /// The heap's invariant.
    pub open spec fn wf(&self) -> bool {
        self.buddy().wf()
    }

    /// A heap without a region yet.
    pub fn new() -> (r: Self)
        ensures
            r.wf(),
            !r.buddy().is_initialized(),
            r.buddy().live_blocks().len() == 0,
    {
        HeapAllocator { inner: BuddyAllocator::new() }
    }

    /// Give the heap its region `[start, start + size)`; only the first
    /// call takes effect.
    pub fn init(&mut self, start: u64, size: usize) -> (r: Result<(), InitError>)
        requires
            old(self).wf(),
        ensures
            final(self).wf(),
            old(self).is_initialized() ==> r == Err::<(), InitError>(InitError::AlreadyInitialized),
            r is Ok <==> !old(self).is_initialized() && start % 4096 == 0 && size == ARENA_SIZE
                && start + ARENA_SIZE <= u64::MAX,
            r is Ok ==> final(self).is_initialized() && final(self).buddy().start() == start,
            r is Err ==> *final(self) == *old(self),
            final(self).buddy().free_lists() == old(self).buddy().free_lists(),
            final(self).buddy().live_blocks() == old(self).buddy().live_blocks(),
    {
        self.inner.init(start, size)
    }

    /// Whether the heap has its region.
    pub open spec fn is_initialized(&self) -> bool {
        self.buddy().is_initialized()
    }

    /// Allocate for a request of `size` bytes aligned to `align`: the
    /// smallest block of at least `max(size, align)` bytes.
    pub fn allocate(&mut self, size: usize, align: usize) -> (r: Result<u64, AllocError>)
        requires
            old(self).wf(),
        ensures
            final(self).wf(),
            final(self).buddy().same_region(&old(self).buddy()),
            !old(self).is_initialized() ==> r == Err::<u64, AllocError>(AllocError::Uninitialized),
            old(self).is_initialized() ==> (r is Ok <==> request_bytes(size, align) <= ARENA_SIZE
                && any_free_upto(
                old(self).buddy().free_lists(),
                level_for(request_bytes(size, align)),
            )),
            old(self).is_initialized() && !(r is Ok) ==> r == Err::<u64, AllocError>(
                AllocError::OutOfMemory,
            ),
            !(r is Ok) ==> *final(self) == *old(self),
            r is Ok ==> ({
                let lvl = level_for(request_bytes(size, align));
                let b = (lvl, split_index(old(self).buddy().free_lists(), lvl));
                &&& final(self).buddy().live_blocks() == old(self).buddy().live_blocks().push(b)
                &&& final(self).buddy().free_lists() == split_lists(old(self).buddy().free_lists(), lvl)
                &&& r->Ok_0 == old(self).buddy().block_address(b)
                &&& request_bytes(size, align) <= block_bytes(lvl)
            }),
    {
        self.inner.allocate(size, align)
    }

    /// Release the allocation at `ptr` made for `size` bytes aligned to
    /// `align`, merging it with its free buddies.
    pub fn deallocate(&mut self, ptr: u64, size: usize, align: usize)
        requires
            old(self).wf(),
            old(self).is_initialized(),
            old(self).buddy().is_allocation(ptr, request_bytes(size, align)),
        ensures
            final(self).wf(),
            final(self).buddy().same_region(&old(self).buddy()),
            ({
                let live = old(self).buddy().live_blocks();
                let fl = old(self).buddy().free_lists();
                exists|k: int|
                    0 <= k < live.len() && live[k].0 == level_for(request_bytes(size, align))
                        && old(self).buddy().block_address(live[k]) == ptr
                        && final(self).buddy().live_blocks() == live.remove(k)
                        && final(self).buddy().free_lists() == merged(
                        fl.update(live[k].0, fl[live[k].0].push(live[k].1 as u32)),
                        live[k].0,
                        live[k].1,
                    )
            }),
    {
        self.inner.dealloc(ptr, size, align);
    }

    /// Heap usage: `(used_bytes, free_bytes)`, the free bytes read off the
    /// free lists.
    pub fn print_usage(&self) -> (r: (usize, usize))
        requires
            self.wf(),
        ensures
            r.1 == free_bytes(self.buddy().free_lists(), NUM_LEVELS + 1),
            r.0 == live_bytes(self.buddy().live_blocks()),
            r.0 + r.1 == ARENA_SIZE,
    {
        self.inner.usage()
    }

    /// The number of free blocks on each level, root level first.
    pub fn free_list_lengths(&self) -> (r: Vec<usize>)
        requires
            self.wf(),
        ensures
            r@.len() == NUM_LEVELS + 1,
            forall|l: int| 0 <= l <= NUM_LEVELS ==> r@[l] == self.buddy().free_lists()[l].len(),
    {
        self.inner.free_list_lengths()
    }
}

/// Give the kernel heap the virtual region the board reserves for it. A
/// second call is refused with `AlreadyInitialized` and changes nothing.
pub fn kernel_init_heap_allocator(heap: &mut HeapAllocator, region: &MemoryRegion<Virtual>) -> (r:
    Result<(), InitError>)
    requires
        old(heap).wf(),
    ensures
        final(heap).wf(),
        old(heap).is_initialized() ==> r == Err::<(), InitError>(InitError::AlreadyInitialized),
        r is Ok <==> !old(heap).is_initialized() && region.start() % 4096 == 0 && region.end()
            - region.start() == ARENA_SIZE && region.start() + ARENA_SIZE <= u64::MAX,
        r is Ok ==> final(heap).is_initialized() && final(heap).buddy().start() == region.start(),
        r is Err ==> *final(heap) == *old(heap),
        final(heap).buddy().free_lists() == old(heap).buddy().free_lists(),
        final(heap).buddy().live_blocks() == old(heap).buddy().live_blocks(),
{
    let start = region.start_addr().as_usize() as u64;
    let size = region.size();
    heap.init(start, size)
}

} // verus!

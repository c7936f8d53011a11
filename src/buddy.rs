//! The kernel heap's buddy allocator.
//!
//! The arena `[start, start + ARENA_SIZE)` is split on demand into blocks
//! whose sizes are powers of two, from the whole arena (level 0) down to
//! `BLOCK_SIZE` (level `NUM_LEVELS`). Each level keeps a free list of block
//! indices; a released block is merged with its buddy whenever both are
//! free.

use crate::buddy_model::{
    any_free_upto, block_bytes, block_lo, buddies_apart_except, buddy_of, free_bytes, heap_state,
    lemma_block_bytes, lemma_bytes_bounded, lemma_free_entry, lemma_index_of_unique,
    lemma_live_blocks_disjoint, lemma_merge, lemma_merge_done, lemma_pristine_state, lemma_release,
    lemma_released_heap_is_pristine, lemma_split, lemma_split_index_here, lemma_split_index_up,
    lemma_take, lemma_valid_block_span, level_well_formed, live_bytes, merged, pristine_lists,
    split_index, split_lists, tiling, valid_block, Block, ARENA_SHIFT, ARENA_SIZE, BLOCK_SIZE,
    NUM_LEVELS,
};
use vstd::arithmetic::power2::{lemma_pow2_subtracts, pow2};
use vstd::prelude::*;

verus! {

/// Why an allocation was refused.
#[derive(Debug, Clone, Copy, PartialEq, Eq, Structural)]
pub enum AllocError {
    /// The allocator has not been given its arena yet.
    Uninitialized,
    /// No free block is large enough.
    OutOfMemory,
}

/// Why `init` was refused.
#[derive(Debug, Clone, Copy, PartialEq, Eq, Structural)]
pub enum InitError {
    /// The allocator already has its arena.
    AlreadyInitialized,
    /// The region is not block-aligned, is not exactly one arena long, or
    /// runs past the end of the address space.
    InvalidRegion,
}

/// The level of the smallest block that holds `size` bytes, searching from
/// `level` downwards; level `NUM_LEVELS` if even a leaf is large enough.
pub open spec fn level_from(size: int, level: int) -> int
    decreases NUM_LEVELS - level,
{
    if level >= NUM_LEVELS || block_bytes(level + 1) < size {
        level
    } else {
        level_from(size, level + 1)
    }
}

/// The level that serves a request of `size` bytes.
pub open spec fn level_for(size: int) -> int {
    level_from(size, 0)
}

/// The bytes a request occupies: its size, or its alignment if larger.
pub open spec fn request_bytes(size: usize, align: usize) -> int {
    if size > align {
        size as int
    } else {
        align as int
    }
}

/// A power-of-two block allocator over one arena of `ARENA_SIZE` bytes.
pub struct BuddyAllocator {
    start_address: u64,
    end_address: u64,
    initialized: bool,
    free_list: Vec<Vec<u32>>,
    live: Ghost<Seq<Block>>,
}

/// Size in bytes of a block at `level`.
pub fn level_block_size(level: usize) -> (r: usize)
    requires
        level <= NUM_LEVELS,
    ensures
        r == block_bytes(level as int),
{
    proof {
        vstd::bits::lemma_usize_shr_is_div(ARENA_SIZE, level);
        lemma_pow2_subtracts(level as nat, ARENA_SHIFT as nat);
        vstd::arithmetic::power2::lemma2_to64();
    }
    ARENA_SIZE >> level
}

/// Position of the first occurrence of `x` in `v`.
fn position_of(v: &Vec<u32>, x: u32) -> (r: Option<usize>)
    ensures
        match r {
            Some(k) => k < v@.len() && v@[k as int] == x,
            None => !v@.contains(x),
        },
{
    let mut k: usize = 0;
    while k < v.len()
        invariant
            k <= v@.len(),
            forall|j: int| 0 <= j < k ==> v@[j] != x,
        decreases v@.len() - k,
    {
        if v[k] == x {
            return Some(k);
        }
        k += 1;
    }
    None
}

impl BuddyAllocator {
    /// The free list of every level.
    pub closed spec fn free_lists(&self) -> Seq<Seq<u32>> {
        Seq::new(self.free_list@.len(), |l: int| self.free_list@[l]@)
    }

    /// The blocks handed out and not yet released, oldest first.
    pub closed spec fn live_blocks(&self) -> Seq<Block> {
        self.live@
    }

    /// Whether the allocator has its arena.
    pub closed spec fn is_initialized(&self) -> bool {
        self.initialized
    }

    /// First address of the arena (0 before `init`).
    pub closed spec fn start(&self) -> int {
        self.start_address as int
    }

    /// The region bookkeeping is consistent.
    pub closed spec fn region_ok(&self) -> bool {
        if self.initialized {
            &&& self.start_address % (BLOCK_SIZE as u64) == 0
            &&& self.start_address + ARENA_SIZE <= u64::MAX
            &&& self.end_address == self.start_address + ARENA_SIZE
        } else {
            self.start_address == 0 && self.end_address == 0
        }
    }

    /// The allocator's invariant.
    pub open spec fn wf(&self) -> bool {
        heap_state(self.free_lists(), self.live_blocks()) && self.region_ok()
    }

    /// The address of block `b` of the arena.
    pub open spec fn block_address(&self, b: Block) -> int {
        self.start() + block_lo(b)
    }

    /// `ptr` is the address of a live block that served a request of
    /// `bytes` bytes.
    pub open spec fn is_allocation(&self, ptr: u64, bytes: int) -> bool {
        exists|k: int|
            0 <= k < self.live_blocks().len() && #[trigger] self.live_blocks()[k].0 == level_for(
                bytes,
            ) && self.block_address(self.live_blocks()[k]) == ptr
    }

    /// The same allocator state, apart from the free lists and live blocks.
    pub open spec fn same_region(&self, other: &Self) -> bool {
        &&& self.start() == other.start()
        &&& self.is_initialized() == other.is_initialized()
    }

    /// An allocator without an arena: the whole arena is one free block.
    pub fn new() -> (r: Self)
        ensures
            r.wf(),
            !r.is_initialized(),
            r.start() == 0,
            r.free_lists() == pristine_lists(),
            r.live_blocks().len() == 0,
    {
        let mut free_lists: Vec<Vec<u32>> = Vec::new();
        let mut l: usize = 0;
        while l < NUM_LEVELS + 1
            invariant
                l <= NUM_LEVELS + 1,
                free_lists@.len() == l,
                forall|k: int| 0 <= k < l ==> (#[trigger] free_lists@[k])@.len() == 0,
            decreases NUM_LEVELS + 1 - l,
        {
            free_lists.push(Vec::new());
            l += 1;
        }
        free_lists[0].push(0);
        let r = BuddyAllocator {
            start_address: 0,
            end_address: 0,
            initialized: false,
            free_list: free_lists,
            live: Ghost(Seq::empty()),
        };
        proof {
            assert(r.free_lists() =~= pristine_lists()) by {
                assert forall|k: int| 0 <= k <= NUM_LEVELS implies #[trigger] r.free_lists()[k]
                    =~= pristine_lists()[k] by {
                    if k == 0 {
                        assert(r.free_lists()[0] =~= seq![0u32]);
                    }
                }
            }
            lemma_pristine_state();
        }
        r
    }

    /// Give the allocator its arena, `[start, start + size)`. Only the first
    /// call takes effect.
    pub fn init(&mut self, start: u64, size: usize) -> (r: Result<(), InitError>)
        requires
            old(self).wf(),
        ensures
            final(self).wf(),
            final(self).free_lists() == old(self).free_lists(),
            final(self).live_blocks() == old(self).live_blocks(),
            old(self).is_initialized() ==> r == Err::<(), InitError>(InitError::AlreadyInitialized)
                && *final(self) == *old(self),
            !old(self).is_initialized() && (start % (BLOCK_SIZE as u64) != 0 || size != ARENA_SIZE
                || start + ARENA_SIZE > u64::MAX) ==> r == Err::<(), InitError>(
                InitError::InvalidRegion,
            ) && *final(self) == *old(self),
            r is Ok <==> !old(self).is_initialized() && start % (BLOCK_SIZE as u64) == 0 && size
                == ARENA_SIZE && start + ARENA_SIZE <= u64::MAX,
            r is Ok ==> final(self).is_initialized() && final(self).start() == start,
    {
        if self.initialized {
            return Err(InitError::AlreadyInitialized);
        }
        if start % (BLOCK_SIZE as u64) != 0 || size != ARENA_SIZE || start > u64::MAX - (
        ARENA_SIZE as u64) {
            return Err(InitError::InvalidRegion);
        }
        self.start_address = start;
        self.end_address = start + ARENA_SIZE as u64;
        self.initialized = true;
        Ok(())
    }

    /// Largest request the allocator can serve: the arena size.
    pub fn max_size(&self) -> (r: usize)
        ensures
            r == ARENA_SIZE,
    {
        ARENA_SIZE
    }

    /// The level whose blocks are the smallest that hold `size` bytes.
    pub fn size_to_level(&self, size: usize) -> (r: usize)
        ensures
            r == level_for(size as int),
            r <= NUM_LEVELS,
            size <= ARENA_SIZE ==> size <= block_bytes(r as int),
    {
        let mut level: usize = 0;
        proof {
            lemma_block_bytes(0);
            vstd::arithmetic::power2::lemma2_to64();
        }
        while level < NUM_LEVELS && level_block_size(level + 1) >= size
            invariant
                level <= NUM_LEVELS,
                level_from(size as int, level as int) == level_for(size as int),
                size <= ARENA_SIZE ==> size <= block_bytes(level as int),
            decreases NUM_LEVELS - level,
        {
            level += 1;
        }
        level
    }

    /// Take a free block of `level`, splitting a larger block if that level
    /// has none. The block becomes live.
    fn get_free_block(&mut self, level: usize) -> (r: Option<u32>)
        requires
            old(self).wf(),
            level <= NUM_LEVELS,
        ensures
            r is Some <==> any_free_upto(old(self).free_lists(), level as int),
            r is None ==> *final(self) == *old(self),
            r is Some ==> {
                &&& final(self).wf()
                &&& final(self).same_region(old(self))
                &&& r->0 as int == split_index(old(self).free_lists(), level as int)
                &&& final(self).live_blocks() == old(self).live_blocks().push(
                    (level as int, r->0 as int),
                )
                &&& final(self).free_lists() == split_lists(old(self).free_lists(), level as int)
            },
        decreases level, 1int,
    {
        if self.free_list[level].len() > 0 {
            let ghost fl = self.free_lists();
            let ghost live = self.live_blocks();
            let b = self.free_list[level].pop().unwrap();
            self.live = Ghost(self.live@.push((level as int, b as int)));
            proof {
                assert(self.free_lists() =~= fl.update(level as int, fl[level as int].drop_last()));
                lemma_take(fl, live, level as int);
                lemma_split_index_here(fl, level as int);
            }
            Some(b)
        } else {
            self.split_level(level)
        }
    }

    /// With `level` empty, split a block of the level above and keep the
    /// left half; the right half joins the free list of `level`.
    fn split_level(&mut self, level: usize) -> (r: Option<u32>)
        requires
            old(self).wf(),
            level <= NUM_LEVELS,
            old(self).free_lists()[level as int].len() == 0,
        ensures
            r is Some <==> any_free_upto(old(self).free_lists(), level as int),
            r is None ==> *final(self) == *old(self),
            r is Some ==> {
                &&& final(self).wf()
                &&& final(self).same_region(old(self))
                &&& r->0 as int == split_index(old(self).free_lists(), level as int)
                &&& final(self).live_blocks() == old(self).live_blocks().push(
                    (level as int, r->0 as int),
                )
                &&& final(self).free_lists() == split_lists(old(self).free_lists(), level as int)
            },
        decreases level, 0int,
    {
        if level == 0 {
            proof {
                assert(!any_free_upto(self.free_lists(), -1));
            }
            None
        } else {
            let ghost fl0 = self.free_lists();
            match self.get_free_block(level - 1) {
                None => {
                    proof {
                        assert(!any_free_upto(fl0, level - 1));
                    }
                    None
                },
                Some(block) => {
                    let ghost fl = self.free_lists();
                    let ghost live = self.live_blocks();
                    proof {
                        assert(live[live.len() - 1] == (level - 1, block as int));
                        assert(valid_block(live[live.len() - 1]));
                        lemma_block_bytes(level as int);
                    }
                    self.free_list[level].push(block * 2 + 1);
                    self.live = Ghost(self.live@.drop_last().push((level as int, 2 * block as int)));
                    proof {
                        assert(self.free_lists() =~= fl.update(
                            level as int,
                            fl[level as int].push((2 * block + 1) as u32),
                        ));
                        lemma_split(fl, live, level as int);
                        lemma_split_index_up(fl0, level as int);
                    }
                    Some(block * 2)
                },
            }
        }
    }

    /// Merge the last free block of `level`, `block_num`, with its buddy as
    /// long as the buddy is free too, moving up one level each time.
    fn merge_buddies(&mut self, level: usize, block_num: u32)
        requires
            tiling(old(self).free_lists(), old(self).live_blocks()),
            old(self).region_ok(),
            level <= NUM_LEVELS,
            old(self).free_lists()[level as int].len() > 0,
            old(self).free_lists()[level as int].last() == block_num,
            buddies_apart_except(old(self).free_lists(), level as int, block_num as int),
        ensures
            final(self).wf(),
            final(self).same_region(old(self)),
            final(self).live_blocks() == old(self).live_blocks(),
            final(self).free_lists() == merged(
                old(self).free_lists(),
                level as int,
                block_num as int,
            ),
        decreases level,
    {
        let ghost fl = self.free_lists();
        let ghost live = self.live_blocks();
        proof {
            lemma_free_entry(fl, level as int, fl[level as int].len() - 1);
            lemma_block_bytes(level as int);
        }
        let buddy = block_num ^ 1;
        proof {
            assert(block_num < 0x4_0000);
            assert(block_num & 1 == 0 ==> buddy == block_num + 1) by (bit_vector)
                requires
                    buddy == block_num ^ 1,
                    block_num < 0x4_0000,
            ;
            assert(block_num & 1 == 1 ==> buddy == block_num - 1) by (bit_vector)
                requires
                    buddy == block_num ^ 1,
            ;
            assert(block_num & 1 == 0 <==> block_num % 2 == 0) by (bit_vector);
            assert(block_num & 1 == 1 || block_num & 1 == 0) by (bit_vector);
            assert(buddy as int == buddy_of(block_num as int));
        }
        match position_of(&self.free_list[level], buddy) {
            None => {
                proof {
                    lemma_merge_done(fl, level as int, block_num as int);
                }
            },
            Some(p) => {
                proof {
                    if level == 0 {
                        lemma_free_entry(fl, 0, p as int);
                        assert(pow2(0) == 1) by {
                            vstd::arithmetic::power2::lemma2_to64();
                        }
                    }
                    lemma_merge(fl, live, level as int, p as int);
                    assert(level_well_formed(fl[level as int], level as int));
                    lemma_index_of_unique(fl[level as int], p as int);
                }
                self.free_list[level].pop();
                self.free_list[level].remove(p);
                self.free_list[level - 1].push(block_num / 2);
                proof {
                    let s1 = fl[level as int].drop_last().remove(p as int);
                    assert(self.free_lists() =~= fl.update(level as int, s1).update(
                        level - 1,
                        fl[level - 1].push(((block_num as int) / 2) as u32),
                    ));
                }
                self.merge_buddies(level - 1, block_num / 2);
            },
        }
    }

    /// Allocate a block for a request of `size` bytes aligned to `align`:
    /// the smallest block of at least `max(size, align)` bytes. Returns its
    /// address.
    pub fn allocate(&mut self, size: usize, align: usize) -> (r: Result<u64, AllocError>)
        requires
            old(self).wf(),
        ensures
            final(self).wf(),
            final(self).same_region(old(self)),
            !old(self).is_initialized() ==> r == Err::<u64, AllocError>(AllocError::Uninitialized),
            old(self).is_initialized() ==> (r is Ok <==> request_bytes(size, align) <= ARENA_SIZE
                && any_free_upto(
                old(self).free_lists(),
                level_for(request_bytes(size, align)),
            )),
            old(self).is_initialized() && !(r is Ok) ==> r == Err::<u64, AllocError>(
                AllocError::OutOfMemory,
            ),
            !(r is Ok) ==> *final(self) == *old(self),
            r is Ok ==> ({
                let lvl = level_for(request_bytes(size, align));
                let b = (lvl, split_index(old(self).free_lists(), lvl));
                &&& final(self).live_blocks() == old(self).live_blocks().push(b)
                &&& final(self).free_lists() == split_lists(old(self).free_lists(), lvl)
                &&& r->Ok_0 == old(self).block_address(b)
                &&& request_bytes(size, align) <= block_bytes(lvl)
                &&& old(self).start() <= r->Ok_0
                &&& r->Ok_0 + block_bytes(lvl) <= old(self).start() + ARENA_SIZE
            }),
    {
        if !self.initialized {
            return Err(AllocError::Uninitialized);
        }
        let req = if size > align {
            size
        } else {
            align
        };
        if req > ARENA_SIZE {
            return Err(AllocError::OutOfMemory);
        }
        let level = self.size_to_level(req);
        match self.get_free_block(level) {
            None => Err(AllocError::OutOfMemory),
            Some(block) => {
                let bs = level_block_size(level);
                proof {
                    let live = self.live_blocks();
                    assert(live[live.len() - 1] == (level as int, block as int));
                    assert(valid_block(live[live.len() - 1]));
                    lemma_valid_block_span((level as int, block as int));
                }
                let addr = self.start_address + (block as u64) * (bs as u64);
                Ok(addr)
            },
        }
    }

    /// Release the block at `ptr` that served a request of `size` bytes
    /// aligned to `align`, and merge it with its free buddies.
    pub fn dealloc(&mut self, ptr: u64, size: usize, align: usize)
        requires
            old(self).wf(),
            old(self).is_initialized(),
            old(self).is_allocation(ptr, request_bytes(size, align)),
        ensures
            final(self).wf(),
            final(self).same_region(old(self)),
            exists|k: int|
                0 <= k < old(self).live_blocks().len() && old(self).live_blocks()[k].0 == level_for(
                    request_bytes(size, align),
                ) && old(self).block_address(old(self).live_blocks()[k]) == ptr
                    && final(self).live_blocks() == old(self).live_blocks().remove(k)
                    && final(self).free_lists() == merged(
                    old(self).free_lists().update(
                        old(self).live_blocks()[k].0,
                        old(self).free_lists()[old(self).live_blocks()[k].0].push(
                            old(self).live_blocks()[k].1 as u32,
                        ),
                    ),
                    old(self).live_blocks()[k].0,
                    old(self).live_blocks()[k].1,
                ),
    {
        let ghost fl = self.free_lists();
        let ghost live = self.live_blocks();
        let ghost k = choose|k: int|
            0 <= k < live.len() && #[trigger] live[k].0 == level_for(request_bytes(size, align))
                && self.block_address(live[k]) == ptr;
        let req = if size > align {
            size
        } else {
            align
        };
        let level = self.size_to_level(req);
        let bs = level_block_size(level);
        proof {
            assert(valid_block(live[k]));
            lemma_valid_block_span(live[k]);
            lemma_block_bytes(level as int);
            vstd::arithmetic::div_mod::lemma_div_multiples_vanish(live[k].1, bs as int);
            assert(live[k].1 * bs as int == bs as int * live[k].1) by (nonlinear_arith);
        }
        let block_num = ((ptr - self.start_address) / (bs as u64)) as u32;
        proof {
            assert(block_num as int == live[k].1);
            assert(live[k] == (level as int, block_num as int));
        }
        self.free_list[level].push(block_num);
        self.live = Ghost(self.live@.remove(k));
        proof {
            assert(self.free_lists() =~= fl.update(level as int, fl[level as int].push(block_num)));
            lemma_release(fl, live, k);
        }
        self.merge_buddies(level, block_num);
    }

    /// Bytes in use and bytes free: `(used, free)`. The free bytes are read
    /// off the free lists; the used bytes are the rest of the arena.
    pub fn usage(&self) -> (r: (usize, usize))
        requires
            self.wf(),
        ensures
            r.1 == free_bytes(self.free_lists(), NUM_LEVELS + 1),
            r.0 == live_bytes(self.live_blocks()),
            r.0 + r.1 == ARENA_SIZE,
    {
        let mut free: usize = 0;
        let mut l: usize = 0;
        while l < NUM_LEVELS + 1
            invariant
                self.wf(),
                l <= NUM_LEVELS + 1,
                free == free_bytes(self.free_lists(), l as int),
            decreases NUM_LEVELS + 1 - l,
        {
            let n = self.free_list[l].len();
            let bs = level_block_size(l);
            proof {
                lemma_bytes_bounded(self.free_lists(), self.live_blocks(), l as int + 1);
                lemma_bytes_bounded(self.free_lists(), self.live_blocks(), l as int);
                assert(self.free_lists()[l as int].len() == n);
                assert(free + n * bs == free_bytes(self.free_lists(), l as int + 1));
            }
            free = free + n * bs;
            l += 1;
        }
        proof {
            lemma_bytes_bounded(self.free_lists(), self.live_blocks(), NUM_LEVELS + 1);
        }
        (ARENA_SIZE - free, free)
    }

    /// The number of free blocks on each level, root level first.
    pub fn free_list_lengths(&self) -> (r: Vec<usize>)
        requires
            self.wf(),
        ensures
            r@.len() == NUM_LEVELS + 1,
            forall|l: int| 0 <= l <= NUM_LEVELS ==> r@[l] == self.free_lists()[l].len(),
    {
        let mut r: Vec<usize> = Vec::new();
        let mut l: usize = 0;
        while l < NUM_LEVELS + 1
            invariant
                self.wf(),
                l <= NUM_LEVELS + 1,
                r@.len() == l,
                forall|j: int| 0 <= j < l ==> r@[j] == self.free_lists()[j].len(),
            decreases NUM_LEVELS + 1 - l,
        {
            r.push(self.free_list[l].len());
            l += 1;
        }
        r
    }

    /// The free list of `level`, as indices of blocks of that level.
    pub fn free_blocks(&self, level: usize) -> (r: Vec<u32>)
        requires
            self.wf(),
            level <= NUM_LEVELS,
        ensures
            r@ == self.free_lists()[level as int],
    {
        self.free_list[level].clone()
    }
}

/// The free blocks and the live blocks together always account for every
/// byte of the arena: the sum over levels of free-list length times block
/// size, plus the sizes of the live blocks, is the arena size.
pub proof fn lemma_bytes_accounted(a: &BuddyAllocator)
    requires
        a.wf(),
    ensures
        free_bytes(a.free_lists(), NUM_LEVELS + 1) + live_bytes(a.live_blocks()) == ARENA_SIZE,
{
}

/// Once every allocation has been released, the free lists are exactly
/// those of a fresh allocator: one block at level 0. Allocation and release
/// keep `wf` and release drops the block from the live blocks, so this is
/// the state after any sequence of allocations each matched by a release.
pub proof fn lemma_all_released(a: &BuddyAllocator)
    requires
        a.wf(),
        a.live_blocks().len() == 0,
    ensures
        a.free_lists() == pristine_lists(),
{
    lemma_released_heap_is_pristine(a.free_lists(), a.live_blocks());
}

/// Two distinct live allocations occupy disjoint byte ranges.
pub proof fn lemma_allocations_disjoint(a: &BuddyAllocator, j: int, k: int)
    requires
        a.wf(),
        0 <= j < a.live_blocks().len(),
        0 <= k < a.live_blocks().len(),
        j != k,
    ensures
        ({
            let bj = a.live_blocks()[j];
            let bk = a.live_blocks()[k];
            a.block_address(bj) + block_bytes(bj.0) <= a.block_address(bk) || a.block_address(bk)
                + block_bytes(bk.0) <= a.block_address(bj)
        }),
{
    lemma_live_blocks_disjoint(a.free_lists(), a.live_blocks(), j, k);
    assert(valid_block(a.live_blocks()[j]) && valid_block(a.live_blocks()[k]));
    lemma_valid_block_span(a.live_blocks()[j]);
    lemma_valid_block_span(a.live_blocks()[k]);
}

} // verus!

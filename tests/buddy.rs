use kernel::buddy::{level_block_size, AllocError, BuddyAllocator, InitError};
use kernel::heap::{kernel_init_heap_allocator, HeapAllocator};
use kernel::address::{MemoryRegion, PageAddress, Virtual};

const START: u64 = 0x4000_0000;
const GIB: usize = 0x4000_0000;

fn pristine_lengths() -> Vec<usize> {
    let mut v = vec![0usize; 19];
    v[0] = 1;
    v
}

fn ready() -> BuddyAllocator {
    let mut a = BuddyAllocator::new();
    assert_eq!(a.init(START, GIB), Ok(()));
    a
}

#[test]
fn fresh_allocator_has_one_root_block() {
    let a = BuddyAllocator::new();
    assert_eq!(a.free_list_lengths(), pristine_lengths());
    assert_eq!(a.free_blocks(0), vec![0u32]);
    assert_eq!(a.max_size(), GIB);
}

#[test]
fn level_sizes() {
    assert_eq!(level_block_size(0), GIB);
    assert_eq!(level_block_size(10), 1 << 20);
    assert_eq!(level_block_size(17), 8192);
    assert_eq!(level_block_size(18), 4096);
}

#[test]
fn size_to_level_picks_smallest_fitting_block() {
    let a = BuddyAllocator::new();
    assert_eq!(a.size_to_level(0), 18);
    assert_eq!(a.size_to_level(1), 18);
    assert_eq!(a.size_to_level(64), 18);
    assert_eq!(a.size_to_level(4096), 18);
    assert_eq!(a.size_to_level(4097), 17);
    assert_eq!(a.size_to_level(8192), 17);
    assert_eq!(a.size_to_level(1 << 20), 10);
    assert_eq!(a.size_to_level((1 << 20) + 1), 9);
    assert_eq!(a.size_to_level(GIB), 0);
}

#[test]
fn init_rules() {
    let mut a = BuddyAllocator::new();
    assert_eq!(a.init(START + 1, GIB), Err(InitError::InvalidRegion));
    assert_eq!(a.init(START, GIB - 4096), Err(InitError::InvalidRegion));
    assert_eq!(a.init(u64::MAX - 4095, GIB), Err(InitError::InvalidRegion));
    assert_eq!(a.init(START, GIB), Ok(()));
    assert_eq!(a.init(START, GIB), Err(InitError::AlreadyInitialized));
}

#[test]
fn allocation_before_init_is_refused() {
    let mut a = BuddyAllocator::new();
    assert_eq!(a.allocate(64, 8), Err(AllocError::Uninitialized));
    assert_eq!(a.free_list_lengths(), pristine_lengths());
}

#[test]
fn first_small_allocation_takes_the_arena_start() {
    let mut a = ready();
    assert_eq!(a.allocate(64, 8), Ok(START));
    // one block was split at every level on the way down: each level now
    // holds the right half
    let mut expected = vec![1usize; 19];
    expected[0] = 0;
    assert_eq!(a.free_list_lengths(), expected);
    assert_eq!(a.free_blocks(18), vec![1u32]);
    assert_eq!(a.free_blocks(1), vec![1u32]);
}

#[test]
fn alignment_larger_than_size_sets_the_block() {
    let mut a = ready();
    let p = a.allocate(16, 8192).unwrap();
    assert_eq!(p, START);
    let q = a.allocate(16, 8192).unwrap();
    assert_eq!(q, START + 8192);
    assert_eq!(q % 8192, 0);
}

#[test]
fn oversized_request_is_refused() {
    let mut a = ready();
    assert_eq!(a.allocate(GIB + 1, 8), Err(AllocError::OutOfMemory));
    assert_eq!(a.allocate(8, GIB + 1), Err(AllocError::OutOfMemory));
    assert_eq!(a.free_list_lengths(), pristine_lengths());
}

#[test]
fn whole_arena_then_out_of_memory() {
    let mut a = ready();
    assert_eq!(a.allocate(GIB, 8), Ok(START));
    assert_eq!(a.allocate(64, 8), Err(AllocError::OutOfMemory));
    a.dealloc(START, GIB, 8);
    assert_eq!(a.free_list_lengths(), pristine_lengths());
    assert_eq!(a.allocate(64, 8), Ok(START));
}

#[test]
fn buddy_round_trip() {
    let mut a = ready();
    let p1 = a.allocate(64, 8).unwrap();
    let p2 = a.allocate(1 << 20, 8).unwrap();
    let p3 = a.allocate(64, 8).unwrap();
    assert_eq!(p1, START);
    assert_eq!(p2, START + (1 << 20));
    assert_eq!(p3, START + 4096);
    a.dealloc(p3, 64, 8);
    a.dealloc(p2, 1 << 20, 8);
    a.dealloc(p1, 64, 8);
    assert_eq!(a.free_list_lengths(), pristine_lengths());
    assert_eq!(a.free_blocks(0), vec![0u32]);
    assert_eq!(a.usage(), (0, GIB));
}

#[test]
fn buddy_split_merge() {
    let mut a = ready();
    let x = a.allocate(4096, 8).unwrap();
    let y = a.allocate(4096, 8).unwrap();
    assert_eq!(y - x, 4096);
    // both leaves share their level-17 parent
    assert_eq!((x - START) / 8192, (y - START) / 8192);
    // a third leaf keeps the parent's buddy split, so the merge stops there
    let z = a.allocate(4096, 8).unwrap();
    assert_eq!(z, START + 8192);
    a.dealloc(x, 4096, 8);
    a.dealloc(y, 4096, 8);
    let parent = ((x - START) / 8192) as u32;
    assert!(a.free_blocks(17).contains(&parent));
    assert!(!a.free_blocks(18).contains(&0));
    assert!(!a.free_blocks(18).contains(&1));
    a.dealloc(z, 4096, 8);
    assert_eq!(a.free_list_lengths(), pristine_lengths());
}

#[test]
fn released_in_any_order_restores_pristine() {
    let mut a = ready();
    let sizes: [usize; 6] = [64, 5000, 4096, 1 << 16, 100, 1 << 21];
    let mut ptrs = Vec::new();
    for s in sizes.iter() {
        ptrs.push(a.allocate(*s, 8).unwrap());
    }
    for i in [2usize, 0, 5, 1, 4, 3].iter() {
        a.dealloc(ptrs[*i], sizes[*i], 8);
    }
    assert_eq!(a.free_list_lengths(), pristine_lengths());
}

#[test]
fn usage_accounts_for_every_byte() {
    let mut a = ready();
    assert_eq!(a.usage(), (0, GIB));
    a.allocate(64, 8).unwrap();
    a.allocate(5000, 8).unwrap();
    a.allocate(1 << 20, 8).unwrap();
    let (used, free) = a.usage();
    assert_eq!(used, 4096 + 8192 + (1 << 20));
    assert_eq!(used + free, GIB);
    let lengths = a.free_list_lengths();
    let mut sum = 0usize;
    for (l, n) in lengths.iter().enumerate() {
        sum += n * (GIB >> l);
    }
    assert_eq!(sum, free);
}

#[test]
fn live_allocations_never_overlap() {
    let mut a = ready();
    let sizes: [usize; 8] = [64, 4096, 8192, 100, 1 << 20, 3000, 1 << 16, 64];
    let mut spans: Vec<(u64, u64)> = Vec::new();
    for s in sizes.iter() {
        let p = a.allocate(*s, 8).unwrap();
        let block = level_block_size(a.size_to_level(*s)) as u64;
        assert_eq!(p % block, 0);
        assert!(p >= START && p + block <= START + GIB as u64);
        spans.push((p, p + block));
    }
    for i in 0..spans.len() {
        for j in 0..spans.len() {
            if i != j {
                assert!(spans[i].1 <= spans[j].0 || spans[j].1 <= spans[i].0);
            }
        }
    }
}

#[test]
fn heap_usage_and_lifecycle() {
    let mut h = HeapAllocator::new();
    assert_eq!(h.allocate(8, 8), Err(AllocError::Uninitialized));
    assert_eq!(h.init(START, GIB), Ok(()));
    assert_eq!(h.init(START, GIB), Err(InitError::AlreadyInitialized));
    assert_eq!(h.print_usage(), (0, GIB));
    let p = h.allocate(4, 4).unwrap();
    assert_eq!(p, START);
    assert_eq!(h.print_usage(), (4096, GIB - 4096));
    h.deallocate(p, 4, 4);
    assert_eq!(h.print_usage(), (0, GIB));
    let mut expected = vec![0usize; 19];
    expected[0] = 1;
    assert_eq!(h.free_list_lengths(), expected);
}

#[test]
fn heap_takes_its_region_once() {
    let mut h = HeapAllocator::new();
    let region: MemoryRegion<Virtual> = MemoryRegion::new(
        PageAddress::new(START as usize),
        PageAddress::new(START as usize + GIB),
    );
    assert_eq!(kernel_init_heap_allocator(&mut h, &region), Ok(()));
    assert_eq!(kernel_init_heap_allocator(&mut h, &region), Err(InitError::AlreadyInitialized));
    let small: MemoryRegion<Virtual> = MemoryRegion::new(
        PageAddress::new(0x1_0000),
        PageAddress::new(0x2_0000),
    );
    let mut h2 = HeapAllocator::new();
    assert_eq!(kernel_init_heap_allocator(&mut h2, &small), Err(InitError::InvalidRegion));
}

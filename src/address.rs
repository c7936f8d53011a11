//! Typed physical and virtual addresses, page addresses and memory regions.
//!
//! An address carries the address space it belongs to as a type parameter,
//! so a physical address is never silently used as a virtual one.

use core::marker::PhantomData;
use vstd::prelude::*;

verus! {

/// log2 of the translation granule (64 KiB).
pub const GRANULE_SHIFT: usize = 16;

/// Size of the translation granule in bytes.
pub const GRANULE_SIZE: usize = 0x1_0000;

/// Marker for the physical address space.
pub struct Physical;

/// Marker for the virtual address space.
pub struct Virtual;

/// A machine-word-sized address tagged with the address space it belongs to.
pub struct Address<K> {
    value: usize,
    kind: PhantomData<K>,
}

impl<K> View for Address<K> {
    type V = int;

    closed spec fn view(&self) -> int {
        self.value as int
    }
}

/// Whether `a` lies on a page boundary.
pub open spec fn page_aligned(a: int) -> bool {
    a % (GRANULE_SIZE as int) == 0
}

impl<K> Clone for Address<K> {
    fn clone(&self) -> (r: Self)
        ensures
            r@ == self@,
    {
        *self
    }
}

impl<K> Copy for Address<K> {

}

impl<K> Address<K> {
    /// The address `value`.
    pub fn new(value: usize) -> (r: Self)
        ensures
            r@ == value,
    {
        Address { value, kind: PhantomData }
    }

    /// The raw integer.
    pub fn as_usize(&self) -> (r: usize)
        ensures
            r == self@,
    {
        self.value
    }

    /// The address `offset` bytes further, if it is representable.
    pub fn checked_add(&self, offset: usize) -> (r: Option<Self>)
        ensures
            r is Some <==> self@ + offset <= usize::MAX,
            r is Some ==> r->0@ == self@ + offset,
    {
        if offset <= usize::MAX - self.value {
            Some(Address { value: self.value + offset, kind: PhantomData })
        } else {
            None
        }
    }

    /// Whether the address lies on a page boundary.
    pub fn is_page_aligned(&self) -> (r: bool)
        ensures
            r == page_aligned(self@),
    {
        self.value % GRANULE_SIZE == 0
    }

    /// Distance from the start of the page holding this address.
    pub fn offset_into_page(&self) -> (r: usize)
        ensures
            r == self@ % (GRANULE_SIZE as int),
    {
        self.value % GRANULE_SIZE
    }

    /// The start of the page holding this address.
    pub fn align_down_page(&self) -> (r: PageAddress<K>)
        ensures
            r@ == self@ - self@ % (GRANULE_SIZE as int),
    {
        let v = self.value - self.value % GRANULE_SIZE;
        PageAddress { inner: Address { value: v, kind: PhantomData } }
    }

    /// The first page boundary at or above this address, if representable.
    pub fn align_up_page(&self) -> (r: Option<PageAddress<K>>)
        ensures
            self@ % (GRANULE_SIZE as int) == 0 ==> r is Some && r->0@ == self@,
            self@ % (GRANULE_SIZE as int) != 0 ==> (r is Some <==> self@ - self@ % (
            GRANULE_SIZE as int) + GRANULE_SIZE <= usize::MAX),
            self@ % (GRANULE_SIZE as int) != 0 && r is Some ==> r->0@ == self@ - self@ % (
            GRANULE_SIZE as int) + GRANULE_SIZE,
    {
        let rem = self.value % GRANULE_SIZE;
        if rem == 0 {
            return Some(PageAddress { inner: Address { value: self.value, kind: PhantomData } });
        }
        let down = self.value - rem;
        if down <= usize::MAX - GRANULE_SIZE {
            Some(PageAddress { inner: Address { value: down + GRANULE_SIZE, kind: PhantomData } })
        } else {
            None
        }
    }
}

/// An address on a page boundary.
pub struct PageAddress<K> {
    inner: Address<K>,
}

impl<K> View for PageAddress<K> {
    type V = int;

    closed spec fn view(&self) -> int {
        self.inner@
    }
}

impl<K> Clone for PageAddress<K> {
    fn clone(&self) -> (r: Self)
        ensures
            r@ == self@,
    {
        *self
    }
}

impl<K> Copy for PageAddress<K> {

}

impl<K> PageAddress<K> {
    #[verifier::type_invariant]
    spec fn aligned(&self) -> bool {
        page_aligned(self.inner@)
    }

    /// The page address `value`, which must lie on a page boundary.
    pub fn new(value: usize) -> (r: Self)
        requires
            page_aligned(value as int),
        ensures
            r@ == value,
    {
        PageAddress { inner: Address::new(value) }
    }

    /// The page address `value`, if it lies on a page boundary.
    pub fn try_new(value: usize) -> (r: Option<Self>)
        ensures
            r is Some <==> page_aligned(value as int),
            r is Some ==> r->0@ == value,
    {
        if value % GRANULE_SIZE == 0 {
            Some(PageAddress { inner: Address::new(value) })
        } else {
            None
        }
    }

    /// The address itself.
    pub fn into_inner(&self) -> (r: Address<K>)
        ensures
            r@ == self@,
    {
        self.inner
    }

    /// The raw integer, a multiple of the granule.
    pub fn as_usize(&self) -> (r: usize)
        ensures
            r == self@,
            page_aligned(r as int),
    {
        proof {
            use_type_invariant(self);
        }
        self.inner.value
    }

    /// The page address `count` pages further (backwards for a negative
    /// count), if it is representable.
    pub fn checked_offset(&self, count: isize) -> (r: Option<Self>)
        ensures
            r is Some <==> 0 <= self@ + count * GRANULE_SIZE <= usize::MAX,
            r is Some ==> r->0@ == self@ + count * GRANULE_SIZE,
    {
        proof {
            use_type_invariant(self);
            assert(isize::MIN * GRANULE_SIZE <= count * GRANULE_SIZE <= isize::MAX * GRANULE_SIZE)
                by (nonlinear_arith)
                requires
                    isize::MIN <= count <= isize::MAX,
            ;
        }
        let delta: i128 = (count as i128) * (GRANULE_SIZE as i128);
        let target: i128 = self.inner.value as i128 + delta;
        if target < 0 || target > usize::MAX as i128 {
            return None;
        }
        proof {
            let v = self.inner.value as int;
            assert((v + count * GRANULE_SIZE) % (GRANULE_SIZE as int) == 0) by (nonlinear_arith)
                requires
                    v % (GRANULE_SIZE as int) == 0,
            ;
        }
        Some(PageAddress { inner: Address::new(target as usize) })
    }
}

/// A half-open range of whole pages, `[start, end_exclusive)`.
pub struct MemoryRegion<K> {
    start: PageAddress<K>,
    end_exclusive: PageAddress<K>,
}

impl<K> Clone for MemoryRegion<K> {
    fn clone(&self) -> (r: Self)
        ensures
            r.start() == self.start(),
            r.end() == self.end(),
    {
        *self
    }
}

impl<K> Copy for MemoryRegion<K> {

}

impl<K> MemoryRegion<K> {
    #[verifier::type_invariant]
    spec fn ordered(&self) -> bool {
        self.start@ <= self.end_exclusive@
    }

    /// First address of the region.
    pub closed spec fn start(&self) -> int {
        self.start@
    }

    /// First address past the region.
    pub closed spec fn end(&self) -> int {
        self.end_exclusive@
    }

    /// The region is ordered and made of whole pages (true of every region).
    pub open spec fn valid(&self) -> bool {
        &&& 0 <= self.start() <= self.end() <= usize::MAX
        &&& page_aligned(self.start())
        &&& page_aligned(self.end())
    }

    /// Number of pages in the region.
    pub open spec fn pages(&self) -> int {
        (self.end() - self.start()) / (GRANULE_SIZE as int)
    }

    /// Every region is ordered and made of whole pages.
    fn well_formed_facts(&self)
        ensures
            0 <= self.start() <= self.end() <= usize::MAX,
            page_aligned(self.start()),
            page_aligned(self.end()),
            self.end() - self.start() == self.pages() * GRANULE_SIZE,
            self.valid(),
    {
        proof {
            use_type_invariant(self);
            use_type_invariant(&self.start);
            use_type_invariant(&self.end_exclusive);
            let s = self.start();
            let e = self.end();
            assert((e - s) % (GRANULE_SIZE as int) == 0) by (nonlinear_arith)
                requires
                    s % (GRANULE_SIZE as int) == 0,
                    e % (GRANULE_SIZE as int) == 0,
            ;
        }
    }

    /// The region `[start, end_exclusive)`.
    pub fn new(start: PageAddress<K>, end_exclusive: PageAddress<K>) -> (r: Self)
        requires
            start@ <= end_exclusive@,
        ensures
            r.start() == start@,
            r.end() == end_exclusive@,
    {
        MemoryRegion { start, end_exclusive }
    }

    /// First page of the region.
    pub fn start_page_addr(&self) -> (r: PageAddress<K>)
        ensures
            r@ == self.start(),
    {
        self.start
    }

    /// First page past the region.
    pub fn end_exclusive_page_addr(&self) -> (r: PageAddress<K>)
        ensures
            r@ == self.end(),
    {
        self.end_exclusive
    }

    /// First address of the region.
    pub fn start_addr(&self) -> (r: Address<K>)
        ensures
            r@ == self.start(),
    {
        self.start.inner
    }

    /// First address past the region.
    pub fn end_exclusive_addr(&self) -> (r: Address<K>)
        ensures
            r@ == self.end(),
    {
        self.end_exclusive.inner
    }

    /// Size of the region in bytes.
    pub fn size(&self) -> (r: usize)
        ensures
            r == self.end() - self.start(),
    {
        proof {
            use_type_invariant(self);
        }
        self.end_exclusive.inner.value - self.start.inner.value
    }

    /// Number of pages in the region. The region's bounds are page aligned
    /// and ordered.
    pub fn num_pages(&self) -> (r: usize)
        ensures
            r == self.pages(),
            0 <= self.start() <= self.end() <= usize::MAX,
            page_aligned(self.start()),
            page_aligned(self.end()),
            self.end() - self.start() == self.pages() * GRANULE_SIZE,
    {
        self.well_formed_facts();
        (self.end_exclusive.inner.value - self.start.inner.value) / GRANULE_SIZE
    }

    /// Whether the region holds no page.
    pub fn is_empty(&self) -> (r: bool)
        ensures
            r == (self.start() == self.end()),
    {
        self.start.inner.value == self.end_exclusive.inner.value
    }

    /// Whether `addr` lies in the region.
    pub fn contains(&self, addr: Address<K>) -> (r: bool)
        ensures
            r == (self.start() <= addr@ < self.end()),
    {
        self.start.inner.value <= addr.value && addr.value < self.end_exclusive.inner.value
    }

    /// Whether the two regions share an address.
    pub fn overlaps(&self, other: &Self) -> (r: bool)
        ensures
            r == (self.start() < other.end() && other.start() < self.end()),
    {
        self.start.inner.value < other.end_exclusive.inner.value && other.start.inner.value
            < self.end_exclusive.inner.value
    }

    /// The `i`-th page of the region.
    pub fn page_at(&self, i: usize) -> (r: PageAddress<K>)
        requires
            i < self.pages(),
        ensures
            r@ == self.start() + i * GRANULE_SIZE,
    {
        self.well_formed_facts();
        proof {
            assert(i * GRANULE_SIZE < self.end() - self.start()) by (nonlinear_arith)
                requires
                    i < self.pages(),
                    self.end() - self.start() == self.pages() * GRANULE_SIZE,
            ;
            assert((self.start() + i * GRANULE_SIZE) % (GRANULE_SIZE as int) == 0) by (
            nonlinear_arith)
                requires
                    self.start() % (GRANULE_SIZE as int) == 0,
            ;
        }
        PageAddress { inner: Address::new(self.start.inner.value + i * GRANULE_SIZE) }
    }

    /// Split off the first `n` pages: returns them as a region and keeps the
    /// rest.
    pub fn take_first_n_pages(&mut self, n: usize) -> (r: Option<Self>)
        ensures
            r is Some <==> 0 < n <= old(self).pages(),
            r is None ==> *final(self) == *old(self),
            r is Some ==> {
                &&& r->0.start() == old(self).start()
                &&& r->0.end() == old(self).start() + n * GRANULE_SIZE
                &&& final(self).start() == r->0.end()
                &&& final(self).end() == old(self).end()
            },
    {
        self.well_formed_facts();
        let avail = self.num_pages();
        if n == 0 || n > avail {
            return None;
        }
        proof {
            assert(n * GRANULE_SIZE <= self.end() - self.start()) by (nonlinear_arith)
                requires
                    n <= self.pages(),
                    self.end() - self.start() == self.pages() * GRANULE_SIZE,
            ;
            assert((self.start() + n * GRANULE_SIZE) % (GRANULE_SIZE as int) == 0) by (
            nonlinear_arith)
                requires
                    self.start() % (GRANULE_SIZE as int) == 0,
            ;
        }
        let split = PageAddress { inner: Address::new(self.start.inner.value + n * GRANULE_SIZE) };
        let first = MemoryRegion { start: self.start, end_exclusive: split };
        self.start = split;
        Some(first)
    }
}

} // verus!

//! The kernel's virtual memory layout and the mappings built on it: the
//! binary's code, data and boot stack, and device memory placed in the
//! MMIO remap window.

use crate::address::{
    page_aligned, Address, MemoryRegion, PageAddress, Physical, Virtual, GRANULE_SIZE,
};
use crate::translation_table::{
    lemma_map_then_read_attributes, lemma_map_then_translate, map_check, mapped,
    page_attributes, page_number, translate, AccessPermissions, AttributeFields,
    FixedSizeTranslationTable, MappingError, MemAttributes, TranslationTable,
};
use vstd::prelude::*;

verus! {

/// The addresses the linker gives the parts of the kernel binary, all page
/// aligned; the binary is identity mapped.
#[derive(Debug, Clone, Copy, PartialEq, Eq, Structural)]
pub struct KernelLayout {
    pub code_start: usize,
    pub code_end_exclusive: usize,
    pub data_start: usize,
    pub data_end_exclusive: usize,
    pub mmio_remap_start: usize,
    pub mmio_remap_end_exclusive: usize,
    pub boot_core_stack_start: usize,
    pub boot_core_stack_end_exclusive: usize,
}

/// `[start, end)` is a non-empty run of whole pages.
pub open spec fn page_span(start: usize, end: usize) -> bool {
    page_aligned(start as int) && page_aligned(end as int) && start < end
}

impl KernelLayout {
    /// Every part is a non-empty run of whole pages.
    pub open spec fn valid(&self) -> bool {
        &&& page_span(self.code_start, self.code_end_exclusive)
        &&& page_span(self.data_start, self.data_end_exclusive)
        &&& page_span(self.mmio_remap_start, self.mmio_remap_end_exclusive)
        &&& page_span(self.boot_core_stack_start, self.boot_core_stack_end_exclusive)
    }
}

/// Attributes of the boot stack and of data: cacheable, read-write,
/// never executed.
pub open spec fn rw_data_attributes() -> AttributeFields {
    AttributeFields {
        mem_attributes: MemAttributes::CacheableDRAM,
        acc_perms: AccessPermissions::ReadWrite,
        execute_never: true,
    }
}

/// Attributes of code and read-only data: cacheable, read-only,
/// executable.
pub open spec fn code_attributes() -> AttributeFields {
    AttributeFields {
        mem_attributes: MemAttributes::CacheableDRAM,
        acc_perms: AccessPermissions::ReadOnly,
        execute_never: false,
    }
}

/// Attributes of device memory: device, read-write, never executed.
pub open spec fn device_attributes() -> AttributeFields {
    AttributeFields {
        mem_attributes: MemAttributes::Device,
        acc_perms: AccessPermissions::ReadWrite,
        execute_never: true,
    }
}

/// The number of pages `size` bytes span; `size` is a non-zero multiple of
/// the granule.
pub fn size_to_num_pages(size: usize) -> (r: usize)
    requires
        size > 0,
        size % GRANULE_SIZE == 0,
    ensures
        r * GRANULE_SIZE == size,
        r > 0,
{
    proof {
        vstd::bits::lemma_usize_shr_is_div(size, 16);
        vstd::arithmetic::power2::lemma2_to64();
    }
    size >> 16usize
}

/// The region `[start, end)`, a non-empty run of whole pages, built as the
/// page count from `start`.
fn page_region(start: usize, end: usize) -> (r: MemoryRegion<Virtual>)
    requires
        page_span(start, end),
    ensures
        r.start() == start,
        r.end() == end,
{
    let num_pages = size_to_num_pages(end - start);
    let start_page_addr = PageAddress::new(start);
    proof {
        assert(num_pages <= isize::MAX);
    }
    match start_page_addr.checked_offset(num_pages as isize) {
        Some(end_exclusive_page_addr) => MemoryRegion::new(start_page_addr, end_exclusive_page_addr),
        None => {
            proof {
                assert(false);
            }
            MemoryRegion::new(start_page_addr, start_page_addr)
        },
    }
}

/// The code pages of the kernel binary.
pub fn virt_code_region(layout: &KernelLayout) -> (r: MemoryRegion<Virtual>)
    requires
        page_span(layout.code_start, layout.code_end_exclusive),
    ensures
        r.start() == layout.code_start,
        r.end() == layout.code_end_exclusive,
{
    page_region(layout.code_start, layout.code_end_exclusive)
}

/// The data pages of the kernel binary.
pub fn virt_data_region(layout: &KernelLayout) -> (r: MemoryRegion<Virtual>)
    requires
        page_span(layout.data_start, layout.data_end_exclusive),
    ensures
        r.start() == layout.data_start,
        r.end() == layout.data_end_exclusive,
{
    page_region(layout.data_start, layout.data_end_exclusive)
}

/// The boot core's stack pages.
pub fn virt_boot_core_stack_region(layout: &KernelLayout) -> (r: MemoryRegion<Virtual>)
    requires
        page_span(layout.boot_core_stack_start, layout.boot_core_stack_end_exclusive),
    ensures
        r.start() == layout.boot_core_stack_start,
        r.end() == layout.boot_core_stack_end_exclusive,
{
    page_region(layout.boot_core_stack_start, layout.boot_core_stack_end_exclusive)
}

/// The virtual window reserved for device memory.
pub fn virt_mmio_remap_region(layout: &KernelLayout) -> (r: MemoryRegion<Virtual>)
    requires
        page_span(layout.mmio_remap_start, layout.mmio_remap_end_exclusive),
    ensures
        r.start() == layout.mmio_remap_start,
        r.end() == layout.mmio_remap_end_exclusive,
{
    page_region(layout.mmio_remap_start, layout.mmio_remap_end_exclusive)
}

/// The physical region behind a region of the (identity mapped) binary.
pub fn kernel_virt_to_phys_region(virt_region: MemoryRegion<Virtual>) -> (r: MemoryRegion<
    Physical,
>)
    ensures
        r.start() == virt_region.start(),
        r.end() == virt_region.end(),
{
    let n = virt_region.num_pages();
    MemoryRegion::new(
        PageAddress::new(virt_region.start_page_addr().as_usize()),
        PageAddress::new(virt_region.end_exclusive_page_addr().as_usize()),
    )
}

/// The result of mapping `[s, e)` onto itself with `attr`, once that is
/// accepted.
pub open spec fn identity_mapped(descs: Seq<u64>, s: int, e: int, attr: AttributeFields) -> Seq<u64> {
    mapped(descs, page_number(s), page_number(e - s), s, attr)
}

/// Map the kernel binary, identity mapped: the boot stack read-write and
/// never executed, the code read-only and executable, the data read-write
/// and never executed, in that order. Stops at the first refusal.
pub fn kernel_map_binary(tables: &mut FixedSizeTranslationTable, layout: &KernelLayout) -> (r: Result<
    (),
    MappingError,
>)
    requires
        old(tables).wf(),
        page_span(layout.boot_core_stack_start, layout.boot_core_stack_end_exclusive),
        page_span(layout.code_start, layout.code_end_exclusive),
        page_span(layout.data_start, layout.data_end_exclusive),
    ensures
        final(tables).wf(),
        final(tables).is_initialized() == old(tables).is_initialized(),
        ({
            let init = old(tables).is_initialized();
            let d0 = old(tables).descriptors();
            let (ss, se) = (layout.boot_core_stack_start as int, layout.boot_core_stack_end_exclusive as int);
            let (cs, ce) = (layout.code_start as int, layout.code_end_exclusive as int);
            let (ds, de) = (layout.data_start as int, layout.data_end_exclusive as int);
            let o1 = map_check(init, d0, ss, se, ss, se);
            let d1 = identity_mapped(d0, ss, se, rw_data_attributes());
            let o2 = map_check(init, d1, cs, ce, cs, ce);
            let d2 = identity_mapped(d1, cs, ce, code_attributes());
            let o3 = map_check(init, d2, ds, de, ds, de);
            let d3 = identity_mapped(d2, ds, de, rw_data_attributes());
            &&& r == (if o1 is Err {
                o1
            } else if o2 is Err {
                o2
            } else {
                o3
            })
            &&& o1 is Err ==> final(tables).descriptors() == d0
            &&& o1 is Ok && o2 is Err ==> final(tables).descriptors() == d1
            &&& o1 is Ok && o2 is Ok && o3 is Err ==> final(tables).descriptors() == d2
            &&& r is Ok ==> final(tables).descriptors() == d3
        }),
{
    let rw = AttributeFields {
        mem_attributes: MemAttributes::CacheableDRAM,
        acc_perms: AccessPermissions::ReadWrite,
        execute_never: true,
    };
    let ro_x = AttributeFields {
        mem_attributes: MemAttributes::CacheableDRAM,
        acc_perms: AccessPermissions::ReadOnly,
        execute_never: false,
    };
    let stack = virt_boot_core_stack_region(layout);
    tables.map_at(&stack, &kernel_virt_to_phys_region(stack), &rw)?;
    let code = virt_code_region(layout);
    tables.map_at(&code, &kernel_virt_to_phys_region(code), &ro_x)?;
    let data = virt_data_region(layout);
    tables.map_at(&data, &kernel_virt_to_phys_region(data), &rw)?;
    Ok(())
}

/// A device's register block: its physical start address and its size in
/// bytes.
#[derive(Clone, Copy)]
pub struct MMIODescriptor {
    pub start_addr: Address<Physical>,
    pub size: usize,
}

impl MMIODescriptor {
    /// The block of `size` bytes at `start_addr`.
    pub fn new(start_addr: Address<Physical>, size: usize) -> (r: Self)
        ensures
            r.start_addr@ == start_addr@,
            r.size == size,
    {
        MMIODescriptor { start_addr, size }
    }

    /// The first page of the block.
    pub open spec fn page_start(&self) -> int {
        self.start_addr@ - self.start_addr@ % (GRANULE_SIZE as int)
    }

    /// The first page boundary at or past the end of the block.
    pub open spec fn page_end(&self) -> int {
        let e = self.start_addr@ + self.size;
        if e % (GRANULE_SIZE as int) == 0 {
            e
        } else {
            e - e % (GRANULE_SIZE as int) + GRANULE_SIZE
        }
    }

    /// The block is not empty and its page span is representable.
    pub open spec fn pages_ok(&self) -> bool {
        self.size > 0 && self.page_end() <= usize::MAX
    }

    /// The physical pages that hold the block.
    pub fn phys_region(&self) -> (r: Result<MemoryRegion<Physical>, MappingError>)
        ensures
            r is Ok <==> self.pages_ok(),
            !self.pages_ok() && self.size == 0 ==> r == Err::<MemoryRegion<Physical>, MappingError>(
                MappingError::EmptyRegion,
            ),
            !self.pages_ok() && self.size > 0 ==> r == Err::<MemoryRegion<Physical>, MappingError>(
                MappingError::OutOfRange,
            ),
            r is Ok ==> r->Ok_0.start() == self.page_start() && r->Ok_0.end() == self.page_end(),
    {
        if self.size == 0 {
            return Err(MappingError::EmptyRegion);
        }
        let end = match self.start_addr.checked_add(self.size) {
            Some(e) => e,
            None => {
                return Err(MappingError::OutOfRange);
            },
        };
        let end_page = match end.align_up_page() {
            Some(p) => p,
            None => {
                return Err(MappingError::OutOfRange);
            },
        };
        let start_page = self.start_addr.align_down_page();
        Ok(MemoryRegion::new(start_page, end_page))
    }
}

/// Hands out pages of the MMIO remap window, lowest first.
pub struct MmioRemapAllocator {
    free: MemoryRegion<Virtual>,
}

impl MmioRemapAllocator {
    /// The pages not handed out yet.
    pub closed spec fn free_region(&self) -> MemoryRegion<Virtual> {
        self.free
    }

    /// An allocator over the whole `window`.
    pub fn new(window: MemoryRegion<Virtual>) -> (r: Self)
        ensures
            r.free_region() == window,
    {
        MmioRemapAllocator { free: window }
    }

    /// Take the next `num_pages` pages of the window, if that many are left.
    pub fn take_pages(&mut self, num_pages: usize) -> (r: Option<MemoryRegion<Virtual>>)
        ensures
            r is Some <==> 0 < num_pages <= old(self).free_region().pages(),
            r is None ==> *final(self) == *old(self),
            r is Some ==> {
                &&& r->0.start() == old(self).free_region().start()
                &&& r->0.end() == old(self).free_region().start() + num_pages * GRANULE_SIZE
                &&& final(self).free_region().start() == r->0.end()
                &&& final(self).free_region().end() == old(self).free_region().end()
            },
    {
        self.free.take_first_n_pages(num_pages)
    }
}

/// Map a device's register block into the MMIO remap window, read-write,
/// device memory, never executed, and return the virtual address of its
/// first register.
pub fn kernel_map_mmio(
    tables: &mut FixedSizeTranslationTable,
    window: &mut MmioRemapAllocator,
    descriptor: &MMIODescriptor,
) -> (r: Result<Address<Virtual>, MappingError>)
    requires
        old(tables).wf(),
    ensures
        final(tables).wf(),
        final(tables).is_initialized() == old(tables).is_initialized(),
        r is Err ==> final(tables).descriptors() == old(tables).descriptors(),
        !descriptor.pages_ok() ==> r is Err && *final(window) == *old(window),
        ({
            let n = page_number(descriptor.page_end() - descriptor.page_start());
            let vs = old(window).free_region().start();
            descriptor.pages_ok() && n <= old(window).free_region().pages() && map_check(
                old(tables).is_initialized(),
                old(tables).descriptors(),
                vs,
                vs + n * GRANULE_SIZE,
                descriptor.page_start(),
                descriptor.page_end(),
            ) is Ok ==> r is Ok
        }),
        r is Ok ==> {
            &&& r->Ok_0@ == old(window).free_region().start() + descriptor.start_addr@ % (
            GRANULE_SIZE as int)
            &&& translate(final(tables).descriptors(), r->Ok_0@) == Ok::<int, MappingError>(
                descriptor.start_addr@,
            )
            &&& page_attributes(final(tables).descriptors(), r->Ok_0@) == Ok::<
                AttributeFields,
                MappingError,
            >(device_attributes())
        },
{
    let phys = descriptor.phys_region()?;
    let offset = descriptor.start_addr.offset_into_page();
    let n = phys.num_pages();
    let virt = match window.take_pages(n) {
        Some(v) => v,
        None => {
            return Err(MappingError::NoVirtualSpace);
        },
    };
    let attr = AttributeFields {
        mem_attributes: MemAttributes::Device,
        acc_perms: AccessPermissions::ReadWrite,
        execute_never: true,
    };
    let ghost descs = tables.descriptors();
    proof {
        tables.lemma_descriptors_len();
    }
    let vn = virt.num_pages();
    tables.map_at(&virt, &phys, &attr)?;
    proof {
        tables.lemma_descriptors_len();
        assert(offset < GRANULE_SIZE);
        let va = virt.start() + offset;
        assert(virt.start() <= va < virt.end());
        lemma_map_then_translate(descs, virt, phys, attr, va);
        lemma_map_then_read_attributes(descs, virt, phys, attr, va);
    }
    let start = virt.start_addr();
    Ok(Address::new(start.as_usize() + offset))
}

} // verus!

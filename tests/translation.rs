use kernel::address::{Address, MemoryRegion, PageAddress, Physical, Virtual};
use kernel::bsp::{phys_addr_space_end_exclusive_addr, pl011_uart_mmio, gpio_mmio, PHYS_END};
use kernel::layout::{
    kernel_map_binary, kernel_map_mmio, kernel_virt_to_phys_region, size_to_num_pages,
    virt_boot_core_stack_region, virt_code_region, virt_data_region, virt_mmio_remap_region,
    KernelLayout, MMIODescriptor, MmioRemapAllocator,
};
use kernel::translation_table::{
    decode_attributes, make_page_descriptor, AccessPermissions, AttributeFields,
    FixedSizeTranslationTable, MappingError, MemAttributes, TranslationTable,
};

const PAGE: usize = 0x1_0000;

fn vregion(start: usize, end: usize) -> MemoryRegion<Virtual> {
    MemoryRegion::new(PageAddress::new(start), PageAddress::new(end))
}

fn pregion(start: usize, end: usize) -> MemoryRegion<Physical> {
    MemoryRegion::new(PageAddress::new(start), PageAddress::new(end))
}

fn tables() -> FixedSizeTranslationTable {
    let mut t = FixedSizeTranslationTable::new();
    assert_eq!(t.init(0x20_0000), Ok(()));
    t
}

fn all_attributes() -> Vec<AttributeFields> {
    let mut v = Vec::new();
    for m in [MemAttributes::CacheableDRAM, MemAttributes::Device].iter() {
        for a in [AccessPermissions::ReadOnly, AccessPermissions::ReadWrite].iter() {
            for x in [false, true].iter() {
                v.push(AttributeFields { mem_attributes: *m, acc_perms: *a, execute_never: *x });
            }
        }
    }
    v
}

#[test]
fn page_descriptor_bits() {
    let rw_xn = AttributeFields {
        mem_attributes: MemAttributes::CacheableDRAM,
        acc_perms: AccessPermissions::ReadWrite,
        execute_never: true,
    };
    // valid, page, AttrIndx 1, inner shareable, AF, PXN, UXN
    assert_eq!(make_page_descriptor(0x8_0000, &rw_xn), 0x0060_0000_0008_0707);
    let dev = AttributeFields {
        mem_attributes: MemAttributes::Device,
        acc_perms: AccessPermissions::ReadOnly,
        execute_never: false,
    };
    // valid, page, AttrIndx 0, AP read-only, outer shareable, AF, UXN
    assert_eq!(make_page_descriptor(0x3F20_0000, &dev), 0x0040_0000_3F20_0683);
    for a in all_attributes().iter() {
        let d = make_page_descriptor(0x1234_0000, a);
        assert_eq!(decode_attributes(d), Some(*a));
        assert_eq!(d & 0x0000_FFFF_FFFF_0000, 0x1234_0000);
        if a.execute_never {
            assert_ne!(d & (1 << 53), 0);
            assert_ne!(d & (1 << 54), 0);
        }
    }
    assert_eq!(decode_attributes(0x3 | (2 << 2)), None);
}

#[test]
fn map_then_read_attributes() {
    for (i, a) in all_attributes().iter().enumerate() {
        let mut t = tables();
        let v = 0x100_0000 + i * PAGE;
        let p = 0x20_0000 + i * PAGE;
        assert_eq!(t.map_at(&vregion(v, v + PAGE), &pregion(p, p + PAGE), a), Ok(()));
        assert_eq!(t.try_page_attributes(PageAddress::new(v)), Ok(*a));
    }
}

#[test]
fn map_then_translate() {
    let mut t = tables();
    let a = AttributeFields {
        mem_attributes: MemAttributes::CacheableDRAM,
        acc_perms: AccessPermissions::ReadWrite,
        execute_never: true,
    };
    assert_eq!(
        t.map_at(&vregion(0x100_0000, 0x100_0000 + 3 * PAGE), &pregion(0x50_0000, 0x50_0000 + 3 * PAGE), &a),
        Ok(())
    );
    assert_eq!(
        t.try_virt_page_addr_to_phys_page_addr(PageAddress::new(0x100_0000)).map(|p| p.as_usize()),
        Ok(0x50_0000)
    );
    assert_eq!(
        t.try_virt_page_addr_to_phys_page_addr(PageAddress::new(0x100_0000 + 2 * PAGE)).map(|p| p.as_usize()),
        Ok(0x50_0000 + 2 * PAGE)
    );
    assert_eq!(
        t.try_virt_addr_to_phys_addr(Address::new(0x100_0000 + PAGE + 0x1234)).map(|p| p.as_usize()),
        Ok(0x50_0000 + PAGE + 0x1234)
    );
    assert_eq!(
        t.try_virt_addr_to_phys_addr(Address::new(0x100_0000 + 3 * PAGE)).map(|p| p.as_usize()),
        Err(MappingError::NotMapped)
    );
}

#[test]
fn mapping_twice_overlaps_and_changes_nothing() {
    let mut t = tables();
    let rw = AttributeFields {
        mem_attributes: MemAttributes::CacheableDRAM,
        acc_perms: AccessPermissions::ReadWrite,
        execute_never: true,
    };
    let ro = AttributeFields {
        mem_attributes: MemAttributes::Device,
        acc_perms: AccessPermissions::ReadOnly,
        execute_never: false,
    };
    let v = vregion(0x200_0000, 0x200_0000 + 2 * PAGE);
    assert_eq!(t.map_at(&v, &pregion(0x10_0000, 0x10_0000 + 2 * PAGE), &rw), Ok(()));
    assert_eq!(t.map_at(&v, &pregion(0x30_0000, 0x30_0000 + 2 * PAGE), &ro), Err(MappingError::Overlap));
    // a region that only partly overlaps is refused too, and nothing of it is mapped
    let partial = vregion(0x200_0000 + PAGE, 0x200_0000 + 3 * PAGE);
    assert_eq!(t.map_at(&partial, &pregion(0x30_0000, 0x30_0000 + 2 * PAGE), &ro), Err(MappingError::Overlap));
    assert_eq!(t.try_page_attributes(PageAddress::new(0x200_0000 + PAGE)), Ok(rw));
    assert_eq!(
        t.try_virt_page_addr_to_phys_page_addr(PageAddress::new(0x200_0000 + PAGE)).map(|p| p.as_usize()),
        Ok(0x10_0000 + PAGE)
    );
    assert_eq!(
        t.try_page_attributes(PageAddress::new(0x200_0000 + 2 * PAGE)),
        Err(MappingError::NotMapped)
    );
}

#[test]
fn mapping_errors() {
    let a = AttributeFields {
        mem_attributes: MemAttributes::CacheableDRAM,
        acc_perms: AccessPermissions::ReadWrite,
        execute_never: true,
    };
    let mut fresh = FixedSizeTranslationTable::new();
    assert_eq!(
        fresh.map_at(&vregion(0, PAGE), &pregion(0, PAGE), &a),
        Err(MappingError::Uninitialized)
    );
    assert_eq!(fresh.init(0x1234), Err(MappingError::Misaligned));
    let mut t = tables();
    assert_eq!(t.init(0x1234), Ok(()));
    assert_eq!(
        t.map_at(&vregion(0, 2 * PAGE), &pregion(0, PAGE), &a),
        Err(MappingError::SizeMismatch)
    );
    assert_eq!(t.map_at(&vregion(PAGE, PAGE), &pregion(0, 0), &a), Err(MappingError::EmptyRegion));
    assert_eq!(
        t.map_at(&vregion(0x4000_0000, 0x4000_0000 + PAGE), &pregion(0, PAGE), &a),
        Err(MappingError::OutOfRange)
    );
    assert_eq!(
        t.map_at(&vregion(0, PAGE), &pregion(PHYS_END, PHYS_END + PAGE), &a),
        Err(MappingError::OutOfRange)
    );
    assert_eq!(t.try_page_attributes(PageAddress::new(0)), Err(MappingError::NotMapped));
    assert_eq!(
        t.try_page_attributes(PageAddress::new(0x4000_0000)),
        Err(MappingError::OutOfRange)
    );
    assert_eq!(
        t.try_virt_page_addr_to_phys_page_addr(PageAddress::new(0x4000_0000)).map(|p| p.as_usize()),
        Err(MappingError::OutOfRange)
    );
}

#[test]
fn mmio_map() {
    let mut t = tables();
    let window = vregion(0x3000_0000, 0x3000_0000 + 16 * PAGE);
    let mut va_alloc = MmioRemapAllocator::new(window);
    let uart = pl011_uart_mmio();
    let va = kernel_map_mmio(&mut t, &mut va_alloc, &uart).unwrap();
    assert_eq!(va.as_usize(), 0x3000_0000 + 0x1000);
    assert_eq!(t.try_virt_addr_to_phys_addr(va).map(|p| p.as_usize()), Ok(0x3F20_1000));
    let page = va.align_down_page();
    let dev = AttributeFields {
        mem_attributes: MemAttributes::Device,
        acc_perms: AccessPermissions::ReadWrite,
        execute_never: true,
    };
    assert_eq!(t.try_page_attributes(page), Ok(dev));
    // the next device lands on the next page of the window
    let gpio = gpio_mmio();
    let gva = kernel_map_mmio(&mut t, &mut va_alloc, &gpio).unwrap();
    assert_eq!(gva.as_usize(), 0x3000_0000 + PAGE);
    assert_eq!(t.try_virt_addr_to_phys_addr(gva).map(|p| p.as_usize()), Ok(0x3F20_0000));
}

#[test]
fn mmio_map_errors() {
    let mut t = tables();
    let mut small = MmioRemapAllocator::new(vregion(0x3000_0000, 0x3000_0000 + PAGE));
    let empty = MMIODescriptor::new(Address::new(0x3F20_1000), 0);
    assert_eq!(
        kernel_map_mmio(&mut t, &mut small, &empty).map(|a| a.as_usize()),
        Err(MappingError::EmptyRegion)
    );
    // two pages needed, one left
    let wide = MMIODescriptor::new(Address::new(0x3F20_F000), 0x2000);
    assert_eq!(
        kernel_map_mmio(&mut t, &mut small, &wide).map(|a| a.as_usize()),
        Err(MappingError::NoVirtualSpace)
    );
    let far = MMIODescriptor::new(Address::new(usize::MAX - 4), 0x10);
    assert_eq!(
        kernel_map_mmio(&mut t, &mut small, &far).map(|a| a.as_usize()),
        Err(MappingError::OutOfRange)
    );
    let mut uninit = FixedSizeTranslationTable::new();
    assert_eq!(
        kernel_map_mmio(&mut uninit, &mut small, &pl011_uart_mmio()).map(|a| a.as_usize()),
        Err(MappingError::Uninitialized)
    );
}

fn layout() -> KernelLayout {
    KernelLayout {
        boot_core_stack_start: 0x0,
        boot_core_stack_end_exclusive: 0x8_0000,
        code_start: 0x8_0000,
        code_end_exclusive: 0x10_0000,
        data_start: 0x10_0000,
        data_end_exclusive: 0x12_0000,
        mmio_remap_start: 0x12_0000,
        mmio_remap_end_exclusive: 0x22_0000,
    }
}

#[test]
fn binary_regions() {
    let l = layout();
    assert_eq!(size_to_num_pages(0x8_0000), 8);
    let code = virt_code_region(&l);
    assert_eq!((code.start_addr().as_usize(), code.end_exclusive_addr().as_usize()), (0x8_0000, 0x10_0000));
    assert_eq!(code.num_pages(), 8);
    let data = virt_data_region(&l);
    assert_eq!((data.start_addr().as_usize(), data.size()), (0x10_0000, 0x2_0000));
    let stack = virt_boot_core_stack_region(&l);
    assert_eq!((stack.start_addr().as_usize(), stack.num_pages()), (0, 8));
    let mmio = virt_mmio_remap_region(&l);
    assert_eq!((mmio.start_addr().as_usize(), mmio.num_pages()), (0x12_0000, 16));
    let phys = kernel_virt_to_phys_region(code);
    assert_eq!((phys.start_addr().as_usize(), phys.end_exclusive_addr().as_usize()), (0x8_0000, 0x10_0000));
    assert_eq!(phys_addr_space_end_exclusive_addr().as_usize(), 0x4001_0000);
}

#[test]
fn binary_mapping() {
    let mut t = tables();
    assert_eq!(kernel_map_binary(&mut t, &layout()), Ok(()));
    let code = t.try_page_attributes(PageAddress::new(0x9_0000)).unwrap();
    assert_eq!(code.acc_perms, AccessPermissions::ReadOnly);
    assert!(!code.execute_never);
    let data = t.try_page_attributes(PageAddress::new(0x11_0000)).unwrap();
    assert_eq!(data.acc_perms, AccessPermissions::ReadWrite);
    assert!(data.execute_never);
    let stack = t.try_page_attributes(PageAddress::new(0x7_0000)).unwrap();
    assert_eq!(stack, data);
    assert_eq!(
        t.try_virt_addr_to_phys_addr(Address::new(0x9_1234)).map(|p| p.as_usize()),
        Ok(0x9_1234)
    );
    assert_eq!(t.try_page_attributes(PageAddress::new(0x12_0000)), Err(MappingError::NotMapped));
    // mapping the binary twice stops at the first region
    assert_eq!(kernel_map_binary(&mut t, &layout()), Err(MappingError::Overlap));
}

use kernel::address::{Address, MemoryRegion, PageAddress, Physical, Virtual};

#[test]
fn address_arithmetic() {
    let a: Address<Virtual> = Address::new(0x1_2345);
    assert_eq!(a.as_usize(), 0x1_2345);
    assert!(!a.is_page_aligned());
    assert_eq!(a.offset_into_page(), 0x2345);
    assert_eq!(a.align_down_page().as_usize(), 0x1_0000);
    assert_eq!(a.align_up_page().map(|p| p.as_usize()), Some(0x2_0000));
    assert_eq!(a.checked_add(0x10).map(|x| x.as_usize()), Some(0x1_2355));
    let top: Address<Physical> = Address::new(usize::MAX);
    assert!(top.checked_add(1).is_none());
    assert!(top.align_up_page().is_none());
    let b: Address<Physical> = Address::new(0x3_0000);
    assert_eq!(b.align_up_page().map(|p| p.as_usize()), Some(0x3_0000));
}

#[test]
fn page_address_offsets() {
    assert!(PageAddress::<Virtual>::try_new(0x1_0001).is_none());
    let p: PageAddress<Virtual> = PageAddress::new(0x5_0000);
    assert_eq!(p.checked_offset(3).map(|x| x.as_usize()), Some(0x8_0000));
    assert_eq!(p.checked_offset(-5).map(|x| x.as_usize()), Some(0));
    assert!(p.checked_offset(-6).is_none());
    let high: PageAddress<Virtual> = PageAddress::new(usize::MAX - 0xFFFF);
    assert!(high.checked_offset(1).is_none());
    assert_eq!(p.into_inner().as_usize(), 0x5_0000);
}

#[test]
fn regions() {
    let mut r: MemoryRegion<Virtual> =
        MemoryRegion::new(PageAddress::new(0x10_0000), PageAddress::new(0x14_0000));
    assert_eq!(r.size(), 0x4_0000);
    assert_eq!(r.num_pages(), 4);
    assert!(!r.is_empty());
    assert!(r.contains(Address::new(0x13_FFFF)));
    assert!(!r.contains(Address::new(0x14_0000)));
    assert_eq!(r.page_at(2).as_usize(), 0x12_0000);
    let other: MemoryRegion<Virtual> =
        MemoryRegion::new(PageAddress::new(0x13_0000), PageAddress::new(0x20_0000));
    assert!(r.overlaps(&other));
    let first = r.take_first_n_pages(3).unwrap();
    assert_eq!((first.start_addr().as_usize(), first.end_exclusive_addr().as_usize()), (0x10_0000, 0x13_0000));
    assert_eq!(r.start_page_addr().as_usize(), 0x13_0000);
    assert!(!first.overlaps(&r));
    assert!(r.take_first_n_pages(2).is_none());
    assert!(r.take_first_n_pages(0).is_none());
    assert_eq!(r.num_pages(), 1);
    let e: MemoryRegion<Physical> =
        MemoryRegion::new(PageAddress::new(0x10_0000), PageAddress::new(0x10_0000));
    assert!(e.is_empty());
}

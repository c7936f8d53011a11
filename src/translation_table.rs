//! The kernel's translation tables for a 64 KiB granule over a 1 GiB
//! address space: two level-2 "table" descriptors, each pointing to a
//! level-3 table of 8192 "page" descriptors.

use crate::address::{Address, MemoryRegion, PageAddress, Physical, Virtual, GRANULE_SIZE};
use vstd::prelude::*;

verus! {

/// Size of the virtual address space covered by the tables (1 GiB).
pub const ADDR_SPACE_SIZE: usize = 0x4000_0000;

/// Exclusive end of the physical address space that may be mapped.
pub const PHYS_ADDR_SPACE_END: usize = 0x4001_0000;

/// Number of level-2 entries (one per 512 MiB).
pub const NUM_LVL2_ENTRIES: usize = 2;

/// Number of page descriptors in one level-3 table.
pub const NUM_LVL3_ENTRIES: usize = 8192;

/// Number of pages the tables can map.
pub const NUM_PAGES: usize = 16384;

/// Descriptor bit: the descriptor is valid.
pub const DESC_VALID: u64 = 0b1;

/// Descriptor bit: a table (level 2) or page (level 3) descriptor.
pub const DESC_TABLE_OR_PAGE: u64 = 0b10;

/// Page descriptor field AttrIndx (bits 4..2) = 1: the normal, cacheable
/// MAIR entry.
pub const DESC_ATTR_NORMAL: u64 = 0x4;

/// Page descriptor field AttrIndx (bits 4..2) = 0: the device MAIR entry.
pub const DESC_ATTR_DEVICE: u64 = 0x0;

/// Page descriptor field AP (bits 7..6) = 0b10: read-only at EL1.
pub const DESC_AP_RO_EL1: u64 = 0x80;

/// Page descriptor field AP (bits 7..6) = 0b00: read-write at EL1.
pub const DESC_AP_RW_EL1: u64 = 0x0;

/// Page descriptor field SH (bits 9..8) = 0b11: inner shareable.
pub const DESC_SH_INNER: u64 = 0x300;

/// Page descriptor field SH (bits 9..8) = 0b10: outer shareable.
pub const DESC_SH_OUTER: u64 = 0x200;

/// Page descriptor bit 10: access flag.
pub const DESC_AF: u64 = 0x400;

/// Page descriptor bit 53: privileged execute-never.
pub const DESC_PXN: u64 = 0x20_0000_0000_0000;

/// Page descriptor bit 54: unprivileged execute-never.
pub const DESC_UXN: u64 = 0x40_0000_0000_0000;

/// The output-address field of a 64 KiB-granule descriptor, bits 47..16.
pub const DESC_OUTPUT_ADDR_MASK: u64 = 0x0000_FFFF_FFFF_0000;

/// Memory type of a mapping.
#[derive(Debug, Clone, Copy, PartialEq, Eq, Structural)]
pub enum MemAttributes {
    /// Normal memory, write-back cacheable.
    CacheableDRAM,
    /// Device memory: non-gathering, non-reordering, no early write
    /// acknowledgement.
    Device,
}

/// Access permissions of a mapping.
#[derive(Debug, Clone, Copy, PartialEq, Eq, Structural)]
pub enum AccessPermissions {
    ReadOnly,
    ReadWrite,
}

/// The permissions and memory type wanted for a page.
#[derive(Debug, Clone, Copy, PartialEq, Eq, Structural)]
pub struct AttributeFields {
    pub mem_attributes: MemAttributes,
    pub acc_perms: AccessPermissions,
    pub execute_never: bool,
}

/// Why a translation-table operation was refused.
#[derive(Debug, Clone, Copy, PartialEq, Eq, Structural)]
pub enum MappingError {
    /// The tables have not been initialized.
    Uninitialized,
    /// The table base handed to `init` is not granule aligned, or too high.
    Misaligned,
    /// The virtual and physical regions differ in size.
    SizeMismatch,
    /// The regions hold no page.
    EmptyRegion,
    /// A region leaves the space the tables or the board cover.
    OutOfRange,
    /// A page of the virtual region is already mapped.
    Overlap,
    /// The page is not mapped.
    NotMapped,
    /// The descriptor's attributes match no known attribute set.
    AttributeConflict,
    /// The MMIO remap window has too few free pages left.
    NoVirtualSpace,
}

/// Descriptor bits that encode `a`, with the valid, page and access bits.
pub open spec fn attribute_bits(a: AttributeFields) -> u64 {
    let mem: u64 = match a.mem_attributes {
        MemAttributes::CacheableDRAM => DESC_ATTR_NORMAL | DESC_SH_INNER,
        MemAttributes::Device => DESC_ATTR_DEVICE | DESC_SH_OUTER,
    };
    let ap: u64 = match a.acc_perms {
        AccessPermissions::ReadOnly => DESC_AP_RO_EL1,
        AccessPermissions::ReadWrite => DESC_AP_RW_EL1,
    };
    let xn: u64 = if a.execute_never {
        DESC_PXN
    } else {
        0
    };
    mem | ap | xn | DESC_UXN | DESC_AF | DESC_TABLE_OR_PAGE | DESC_VALID
}

/// The level-3 descriptor mapping a page to physical address `phys`.
pub open spec fn page_descriptor(phys: u64, a: AttributeFields) -> u64 {
    (phys & DESC_OUTPUT_ADDR_MASK) | attribute_bits(a)
}

/// Whether a descriptor is valid.
pub open spec fn descriptor_valid(d: u64) -> bool {
    d & DESC_VALID == 1
}

/// The output address a descriptor names.
pub open spec fn descriptor_output(d: u64) -> u64 {
    d & DESC_OUTPUT_ADDR_MASK
}

/// The attributes a page descriptor encodes, if its AttrIndx and AP fields
/// hold values this kernel writes.
pub open spec fn descriptor_attributes(d: u64) -> Option<AttributeFields> {
    let idx = (d >> 2u64) & 0b111;
    let ap = (d >> 6u64) & 0b11;
    let xn = (d >> 53u64) & 1 == 1;
    if (idx == 1 || idx == 0) && (ap == 0 || ap == 0b10) {
        Some(
            AttributeFields {
                mem_attributes: if idx == 1 {
                    MemAttributes::CacheableDRAM
                } else {
                    MemAttributes::Device
                },
                acc_perms: if ap == 0b10 {
                    AccessPermissions::ReadOnly
                } else {
                    AccessPermissions::ReadWrite
                },
                execute_never: xn,
            },
        )
    } else {
        None
    }
}

/// Build the page descriptor that maps to `phys` with attributes `attr`.
pub fn make_page_descriptor(phys: u64, attr: &AttributeFields) -> (r: u64)
    ensures
        r == page_descriptor(phys, *attr),
{
    let mem: u64 = match attr.mem_attributes {
        MemAttributes::CacheableDRAM => DESC_ATTR_NORMAL | DESC_SH_INNER,
        MemAttributes::Device => DESC_ATTR_DEVICE | DESC_SH_OUTER,
    };
    let ap: u64 = match attr.acc_perms {
        AccessPermissions::ReadOnly => DESC_AP_RO_EL1,
        AccessPermissions::ReadWrite => DESC_AP_RW_EL1,
    };
    let xn: u64 = if attr.execute_never {
        DESC_PXN
    } else {
        0
    };
    (phys & DESC_OUTPUT_ADDR_MASK) | (mem | ap | xn | DESC_UXN | DESC_AF | DESC_TABLE_OR_PAGE
        | DESC_VALID)
}

/// Read the attributes back out of a page descriptor.
pub fn decode_attributes(d: u64) -> (r: Option<AttributeFields>)
    ensures
        r == descriptor_attributes(d),
{
    let idx = (d >> 2u64) & 0b111;
    let ap = (d >> 6u64) & 0b11;
    let xn = (d >> 53u64) & 1 == 1;
    if (idx == 1 || idx == 0) && (ap == 0 || ap == 0b10) {
        Some(
            AttributeFields {
                mem_attributes: if idx == 1 {
                    MemAttributes::CacheableDRAM
                } else {
                    MemAttributes::Device
                },
                acc_perms: if ap == 0b10 {
                    AccessPermissions::ReadOnly
                } else {
                    AccessPermissions::ReadWrite
                },
                execute_never: xn,
            },
        )
    } else {
        None
    }
}

/// A page descriptor is valid, names the page it was built from, and gives
/// back the attributes it was built with. Execute-never mappings carry both
/// the privileged and the unprivileged execute-never bits.
pub proof fn lemma_page_descriptor_round_trip(phys: u64, a: AttributeFields)
    ensures
        descriptor_valid(page_descriptor(phys, a)),
        descriptor_output(page_descriptor(phys, a)) == phys & DESC_OUTPUT_ADDR_MASK,
        descriptor_attributes(page_descriptor(phys, a)) == Some(a),
        a.execute_never ==> page_descriptor(phys, a) & DESC_PXN != 0 && page_descriptor(phys, a)
            & DESC_UXN != 0,
{
    let c = attribute_bits(a);
    let d = page_descriptor(phys, a);
    let m = DESC_OUTPUT_ADDR_MASK;
    let an = DESC_ATTR_NORMAL;
    let ad = DESC_ATTR_DEVICE;
    let si = DESC_SH_INNER;
    let so = DESC_SH_OUTER;
    let ro = DESC_AP_RO_EL1;
    let rw = DESC_AP_RW_EL1;
    let px = DESC_PXN;
    let ux = DESC_UXN;
    let af = DESC_AF;
    let tp = DESC_TABLE_OR_PAGE;
    let va = DESC_VALID;
    let mb: u64 = match a.mem_attributes {
        MemAttributes::CacheableDRAM => an | si,
        MemAttributes::Device => ad | so,
    };
    let ab: u64 = match a.acc_perms {
        AccessPermissions::ReadOnly => ro,
        AccessPermissions::ReadWrite => rw,
    };
    let xb: u64 = if a.execute_never {
        px
    } else {
        0
    };
    assert(c == mb | ab | xb | ux | af | tp | va);
    // every attribute encoding stays clear of the address field
    assert({
        &&& c & m == 0
        &&& c & 1 == 1
        &&& ((c >> 2u64) & 0b111 == 1) == (mb == (an | si))
        &&& ((c >> 2u64) & 0b111 == 0) == (mb == (ad | so))
        &&& ((c >> 6u64) & 0b11 == 0b10) == (ab == ro)
        &&& ((c >> 6u64) & 0b11 == 0) == (ab == rw)
        &&& ((c >> 53u64) & 1 == 1) == (xb == px)
        &&& (xb == px ==> c & px != 0)
        &&& c & ux != 0
    }) by (bit_vector)
        requires
            c == mb | ab | xb | ux | af | tp | va,
            mb == (an | si) || mb == (ad | so),
            ab == ro || ab == rw,
            xb == px || xb == 0,
            m == 0x0000_FFFF_FFFF_0000u64,
            an == 4u64,
            ad == 0u64,
            si == 0x300u64,
            so == 0x200u64,
            ro == 0x80u64,
            rw == 0u64,
            px == 0x20_0000_0000_0000u64,
            ux == 0x40_0000_0000_0000u64,
            af == 0x400u64,
            tp == 2u64,
            va == 1u64,
    ;
    // the address field and the attribute bits do not disturb each other
    assert(c & m == 0 ==> {
        &&& ((phys & m) | c) & m == phys & m
        &&& ((phys & m) | c) & 1 == c & 1
        &&& (((phys & m) | c) >> 2u64) & 0b111 == (c >> 2u64) & 0b111
        &&& (((phys & m) | c) >> 6u64) & 0b11 == (c >> 6u64) & 0b11
        &&& (((phys & m) | c) >> 53u64) & 1 == (c >> 53u64) & 1
        &&& ((phys & m) | c) & px == c & px
        &&& ((phys & m) | c) & ux == c & ux
    }) by (bit_vector)
        requires
            m == 0x0000_FFFF_FFFF_0000u64,
            px == 0x20_0000_0000_0000u64,
            ux == 0x40_0000_0000_0000u64,
    ;
}

/// A granule-aligned address below 2^48 passes through the output-address
/// field unchanged.
pub proof fn lemma_output_field_keeps(x: u64)
    requires
        x as int % (GRANULE_SIZE as int) == 0,
        x < 0x1_0000_0000_0000,
    ensures
        x & DESC_OUTPUT_ADDR_MASK == x,
{
    let m = DESC_OUTPUT_ADDR_MASK;
    assert(x & m == x) by (bit_vector)
        requires
            x % 0x1_0000 == 0,
            x < 0x1_0000_0000_0000u64,
            m == 0x0000_FFFF_FFFF_0000u64,
    ;
}

/// The output address field is always granule aligned and below 2^48.
pub proof fn lemma_output_address(d: u64)
    ensures
        descriptor_output(d) as int % (GRANULE_SIZE as int) == 0,
        descriptor_output(d) < 0x1_0000_0000_0000,
{
    let m = DESC_OUTPUT_ADDR_MASK;
    assert((d & m) % 0x1_0000 == 0 && d & m < 0x1_0000_0000_0000u64) by (bit_vector)
        requires
            m == 0x0000_FFFF_FFFF_0000u64,
    ;
}

/// Index of the page holding address `a`.
pub open spec fn page_number(a: int) -> int {
    a / (GRANULE_SIZE as int)
}

/// The outcome `map_at` owes for mapping the virtual pages `[vs, ve)` to
/// the physical pages `[ps, pe)` on tables in state (`initialized`,
/// `descs`); the checks apply in this order.
pub open spec fn map_check(
    initialized: bool,
    descs: Seq<u64>,
    vs: int,
    ve: int,
    ps: int,
    pe: int,
) -> Result<(), MappingError> {
    if !initialized {
        Err(MappingError::Uninitialized)
    } else if page_number(ve - vs) != page_number(pe - ps) {
        Err(MappingError::SizeMismatch)
    } else if page_number(ve - vs) == 0 {
        Err(MappingError::EmptyRegion)
    } else if ve > ADDR_SPACE_SIZE || pe > PHYS_ADDR_SPACE_END {
        Err(MappingError::OutOfRange)
    } else if exists|v: int|
        page_number(vs) <= v < page_number(vs) + page_number(ve - vs) && descriptor_valid(
            #[trigger] descs[v],
        ) {
        Err(MappingError::Overlap)
    } else {
        Ok(())
    }
}

/// The outcome `map_at` owes for mapping `virt` to `phys`.
pub open spec fn map_outcome(
    initialized: bool,
    descs: Seq<u64>,
    virt: MemoryRegion<Virtual>,
    phys: MemoryRegion<Physical>,
) -> Result<(), MappingError> {
    map_check(initialized, descs, virt.start(), virt.end(), phys.start(), phys.end())
}

/// The descriptors after mapping the `n` pages from virtual page `vfirst`
/// to the physical pages from address `pstart`, with attributes `attr`.
pub open spec fn mapped(descs: Seq<u64>, vfirst: int, n: int, pstart: int, attr: AttributeFields) -> Seq<
    u64,
> {
    Seq::new(
        descs.len(),
        |v: int|
            if vfirst <= v < vfirst + n {
                page_descriptor((pstart + (v - vfirst) * GRANULE_SIZE) as u64, attr)
            } else {
                descs[v]
            },
    )
}

/// What translating the page at `va` yields: the physical page address.
pub open spec fn translate_page(descs: Seq<u64>, va: int) -> Result<int, MappingError> {
    if va >= ADDR_SPACE_SIZE {
        Err(MappingError::OutOfRange)
    } else if !descriptor_valid(descs[page_number(va)]) {
        Err(MappingError::NotMapped)
    } else {
        Ok(descriptor_output(descs[page_number(va)]) as int)
    }
}

/// What translating the address `va` yields: the physical address.
pub open spec fn translate(descs: Seq<u64>, va: int) -> Result<int, MappingError> {
    match translate_page(descs, va - va % (GRANULE_SIZE as int)) {
        Ok(p) => Ok(p + va % (GRANULE_SIZE as int)),
        Err(e) => Err(e),
    }
}

/// What reading the attributes of the page at `va` yields.
pub open spec fn page_attributes(descs: Seq<u64>, va: int) -> Result<AttributeFields, MappingError> {
    if va >= ADDR_SPACE_SIZE {
        Err(MappingError::OutOfRange)
    } else if !descriptor_valid(descs[page_number(va)]) {
        Err(MappingError::NotMapped)
    } else {
        match descriptor_attributes(descs[page_number(va)]) {
            Some(a) => Ok(a),
            None => Err(MappingError::AttributeConflict),
        }
    }
}

/// A page address result seen as an integer result.
pub open spec fn page_result<K>(r: Result<PageAddress<K>, MappingError>) -> Result<int, MappingError> {
    match r {
        Ok(p) => Ok(p@),
        Err(e) => Err(e),
    }
}

/// An address result seen as an integer result.
pub open spec fn address_result<K>(r: Result<Address<K>, MappingError>) -> Result<int, MappingError> {
    match r {
        Ok(p) => Ok(p@),
        Err(e) => Err(e),
    }
}

/// The level-2 table descriptor for the level-3 table at physical `addr`.
pub open spec fn table_descriptor(addr: u64) -> u64 {
    (addr & DESC_OUTPUT_ADDR_MASK) | DESC_TABLE_OR_PAGE | DESC_VALID
}

/// Translation table operations.
pub trait TranslationTable: Sized {
    /// The tables have their fixed shape.
    spec fn wf(&self) -> bool;

    /// `init` has run.
    spec fn is_initialized(&self) -> bool;

    /// The level-3 descriptors, indexed by virtual page number.
    spec fn descriptors(&self) -> Seq<u64>;

    /// The level-2 descriptors.
    spec fn table_descriptors(&self) -> Seq<u64>;

    /// Fill in the level-2 descriptors, the level-3 tables lying one
    /// granule apart from physical address `phys_lvl3_base`. Only the first
    /// successful call has an effect.
    fn init(&mut self, phys_lvl3_base: u64) -> (r: Result<(), MappingError>)
        requires
            old(self).wf(),
        ensures
            final(self).wf(),
            final(self).descriptors() == old(self).descriptors(),
            old(self).is_initialized() ==> r is Ok && *final(self) == *old(self),
            !old(self).is_initialized() ==> (r is Ok <==> phys_lvl3_base % (GRANULE_SIZE as u64)
                == 0 && phys_lvl3_base < 0x1_0000_0000_0000 - 2 * GRANULE_SIZE),
            !old(self).is_initialized() && r is Ok ==> final(self).is_initialized()
                && final(self).table_descriptors() == seq![
                table_descriptor(phys_lvl3_base),
                table_descriptor((phys_lvl3_base + GRANULE_SIZE) as u64),
            ],
            r is Err ==> r == Err::<(), MappingError>(MappingError::Misaligned) && *final(self)
                == *old(self),
    ;

    /// Map the pages of `virt` to those of `phys`, in order, with `attr`.
    /// Refuses (and changes nothing) if the tables are not initialized,
    /// the regions differ in size or are empty, either leaves its address
    /// space, or a page of `virt` is already mapped.
    fn map_at(
        &mut self,
        virt: &MemoryRegion<Virtual>,
        phys: &MemoryRegion<Physical>,
        attr: &AttributeFields,
    ) -> (r: Result<(), MappingError>)
        requires
            old(self).wf(),
        ensures
            final(self).wf(),
            final(self).is_initialized() == old(self).is_initialized(),
            final(self).table_descriptors() == old(self).table_descriptors(),
            r == map_outcome(old(self).is_initialized(), old(self).descriptors(), *virt, *phys),
            r is Err ==> final(self).descriptors() == old(self).descriptors(),
            r is Ok ==> final(self).descriptors() == mapped(
                old(self).descriptors(),
                page_number(virt.start()),
                virt.pages(),
                phys.start(),
                *attr,
            ),
    ;

    /// The physical page that the virtual page `va` maps to.
    fn try_virt_page_addr_to_phys_page_addr(&self, va: PageAddress<Virtual>) -> (r: Result<
        PageAddress<Physical>,
        MappingError,
    >)
        requires
            self.wf(),
        ensures
            page_result(r) == translate_page(self.descriptors(), va@),
    ;

    /// The attributes of the virtual page `va`.
    fn try_page_attributes(&self, va: PageAddress<Virtual>) -> (r: Result<
        AttributeFields,
        MappingError,
    >)
        requires
            self.wf(),
        ensures
            r == page_attributes(self.descriptors(), va@),
    ;

    /// The physical address that the virtual address `va` maps to.
    fn try_virt_addr_to_phys_addr(&self, va: Address<Virtual>) -> (r: Result<
        Address<Physical>,
        MappingError,
    >)
        requires
            self.wf(),
        ensures
            address_result(r) == translate(self.descriptors(), va@),
    ;
}

/// The kernel's tables: two level-3 tables of 8192 page descriptors and the
/// two level-2 descriptors that point to them.
pub struct FixedSizeTranslationTable {
    lvl3: Vec<Vec<u64>>,
    lvl2: Vec<u64>,
    initialized: bool,
}

impl FixedSizeTranslationTable {
    /// Empty tables: every descriptor invalid, not yet initialized.
    pub fn new() -> (r: Self)
        ensures
            r.wf(),
            !r.is_initialized(),
            forall|v: int| 0 <= v < NUM_PAGES ==> #[trigger] r.descriptors()[v] == 0,
    {
        let mut lvl3: Vec<Vec<u64>> = Vec::new();
        let mut t: usize = 0;
        while t < NUM_LVL2_ENTRIES
            invariant
                t <= NUM_LVL2_ENTRIES,
                lvl3@.len() == t,
                forall|j: int| 0 <= j < t ==> (#[trigger] lvl3@[j])@ == Seq::new(
                    NUM_LVL3_ENTRIES as nat,
                    |k: int| 0u64,
                ),
            decreases NUM_LVL2_ENTRIES - t,
        {
            let mut table: Vec<u64> = Vec::new();
            let mut k: usize = 0;
            while k < NUM_LVL3_ENTRIES
                invariant
                    k <= NUM_LVL3_ENTRIES,
                    table@ == Seq::new(k as nat, |i: int| 0u64),
                decreases NUM_LVL3_ENTRIES - k,
            {
                table.push(0);
                k += 1;
                proof {
                    assert(table@ =~= Seq::new(k as nat, |i: int| 0u64));
                }
            }
            lvl3.push(table);
            t += 1;
        }
        let r = FixedSizeTranslationTable { lvl3, lvl2: vec![0, 0], initialized: false };
        proof {
            assert(0u64 & 1u64 == 0u64) by (bit_vector);
            assert forall|v: int| 0 <= v < NUM_PAGES implies #[trigger] r.descriptors()[v] == 0 by {
                assert(r.lvl3@[v / 8192]@ == Seq::new(NUM_LVL3_ENTRIES as nat, |k: int| 0u64));
            }
        }
        r
    }

    /// Whether any of the `n` pages from virtual page `vfirst` is mapped.
    fn any_page_mapped(&self, vfirst: usize, n: usize) -> (r: bool)
        requires
            self.wf(),
            vfirst + n <= NUM_PAGES,
        ensures
            r == exists|v: int| vfirst <= v < vfirst + n && descriptor_valid(
                #[trigger] self.descriptors()[v],
            ),
    {
        let mut i: usize = 0;
        while i < n
            invariant
                self.wf(),
                i <= n,
                vfirst + n <= NUM_PAGES,
                forall|v: int|
                    vfirst <= v < vfirst + i ==> !descriptor_valid(#[trigger] self.descriptors()[v]),
            decreases n - i,
        {
            let d = self.entry(vfirst + i);
            if d & DESC_VALID == 1 {
                proof {
                    assert(descriptor_valid(self.descriptors()[vfirst + i]));
                }
                return true;
            }
            i += 1;
        }
        false
    }

    /// The level-3 descriptor of virtual page `v`, as the hardware reads it.
    pub fn page_descriptor_at(&self, v: usize) -> (r: u64)
        requires
            self.wf(),
            v < NUM_PAGES,
        ensures
            r == self.descriptors()[v as int],
    {
        self.entry(v)
    }

    /// The level-2 descriptor `i`, as the hardware reads it.
    pub fn table_descriptor_at(&self, i: usize) -> (r: u64)
        requires
            self.wf(),
            i < NUM_LVL2_ENTRIES,
        ensures
            r == self.table_descriptors()[i as int],
    {
        self.lvl2[i]
    }

    /// The tables describe exactly `NUM_PAGES` pages.
    pub proof fn lemma_descriptors_len(&self)
        ensures
            self.descriptors().len() == NUM_PAGES,
    {
    }

    /// The entry for virtual page `v`.
    fn entry(&self, v: usize) -> (r: u64)
        requires
            self.wf(),
            v < NUM_PAGES,
        ensures
            r == self.descriptors()[v as int],
    {
        self.lvl3[v / NUM_LVL3_ENTRIES][v % NUM_LVL3_ENTRIES]
    }
}

impl TranslationTable for FixedSizeTranslationTable {
    closed spec fn wf(&self) -> bool {
        &&& self.lvl3@.len() == NUM_LVL2_ENTRIES
        &&& forall|j: int| 0 <= j < NUM_LVL2_ENTRIES ==> (#[trigger] self.lvl3@[j])@.len()
            == NUM_LVL3_ENTRIES
        &&& self.lvl2@.len() == NUM_LVL2_ENTRIES
        &&& forall|v: int|
            0 <= v < NUM_PAGES && descriptor_valid(#[trigger] self.descriptors()[v])
                ==> descriptor_output(self.descriptors()[v]) < PHYS_ADDR_SPACE_END
    }

    closed spec fn is_initialized(&self) -> bool {
        self.initialized
    }

    closed spec fn descriptors(&self) -> Seq<u64> {
        Seq::new(NUM_PAGES as nat, |v: int| self.lvl3@[v / 8192]@[v % 8192])
    }

    closed spec fn table_descriptors(&self) -> Seq<u64> {
        self.lvl2@
    }

    fn init(&mut self, phys_lvl3_base: u64) -> (r: Result<(), MappingError>) {
        if self.initialized {
            return Ok(());
        }
        if phys_lvl3_base % (GRANULE_SIZE as u64) != 0 || phys_lvl3_base >= 0x1_0000_0000_0000 - 2
            * (GRANULE_SIZE as u64) {
            return Err(MappingError::Misaligned);
        }
        let ghost descs = self.descriptors();
        let d0 = (phys_lvl3_base & DESC_OUTPUT_ADDR_MASK) | DESC_TABLE_OR_PAGE | DESC_VALID;
        let second = phys_lvl3_base + GRANULE_SIZE as u64;
        let d1 = (second & DESC_OUTPUT_ADDR_MASK) | DESC_TABLE_OR_PAGE | DESC_VALID;
        self.lvl2 = vec![d0, d1];
        self.initialized = true;
        proof {
            assert(self.descriptors() =~= descs);
            assert(self.lvl2@ =~= seq![
                table_descriptor(phys_lvl3_base),
                table_descriptor((phys_lvl3_base + GRANULE_SIZE) as u64),
            ]);
        }
        Ok(())
    }

    fn map_at(
        &mut self,
        virt: &MemoryRegion<Virtual>,
        phys: &MemoryRegion<Physical>,
        attr: &AttributeFields,
    ) -> (r: Result<(), MappingError>) {
        if !self.initialized {
            return Err(MappingError::Uninitialized);
        }
        let n = virt.num_pages();
        let pn = phys.num_pages();
        if n != pn {
            return Err(MappingError::SizeMismatch);
        }
        if n == 0 {
            return Err(MappingError::EmptyRegion);
        }
        if virt.end_exclusive_addr().as_usize() > ADDR_SPACE_SIZE
            || phys.end_exclusive_addr().as_usize() > PHYS_ADDR_SPACE_END {
            return Err(MappingError::OutOfRange);
        }
        let vfirst = virt.start_addr().as_usize() / GRANULE_SIZE;
        let ghost descs = self.descriptors();
        proof {
            assert(vfirst + n <= NUM_PAGES) by (nonlinear_arith)
                requires
                    vfirst == virt.start() / (GRANULE_SIZE as int),
                    virt.start() % (GRANULE_SIZE as int) == 0,
                    virt.end() - virt.start() == n * GRANULE_SIZE,
                    virt.end() <= ADDR_SPACE_SIZE,
            ;
        }
        if self.any_page_mapped(vfirst, n) {
            return Err(MappingError::Overlap);
        }
        let pstart = phys.start_addr().as_usize() as u64;
        proof {
            assert(pstart + n * GRANULE_SIZE <= PHYS_ADDR_SPACE_END);
        }
        let mut i: usize = 0;
        while i < n
            invariant
                self.wf(),
                self.initialized,
                i <= n,
                vfirst + n <= NUM_PAGES,
                pstart + n * GRANULE_SIZE <= PHYS_ADDR_SPACE_END,
                self.descriptors() == mapped(descs, vfirst as int, i as int, pstart as int, *attr),
                self.lvl2@ == old(self).lvl2@,
                pstart as int % (GRANULE_SIZE as int) == 0,
                descs.len() == NUM_PAGES,
            decreases n - i,
        {
            proof {
                assert(i * GRANULE_SIZE < n * GRANULE_SIZE) by (nonlinear_arith)
                    requires
                        i < n,
                ;
            }
            let d = make_page_descriptor(pstart + (i * GRANULE_SIZE) as u64, attr);
            proof {
                let x = (pstart + i * GRANULE_SIZE) as u64;
                assert(x as int % (GRANULE_SIZE as int) == 0) by (nonlinear_arith)
                    requires
                        x == pstart + i * GRANULE_SIZE,
                        pstart as int % (GRANULE_SIZE as int) == 0,
                ;
                lemma_output_field_keeps(x);
                lemma_page_descriptor_round_trip(x, *attr);
                assert(descriptor_output(d) < PHYS_ADDR_SPACE_END);
            }
            let v = vfirst + i;
            let ghost iold = i as int;
            let ghost before = self.descriptors();
            let ghost before_lvl3 = self.lvl3@;
            let t = v / NUM_LVL3_ENTRIES;
            let k = v % NUM_LVL3_ENTRIES;
            self.lvl3[t].set(k, d);
            i += 1;
            proof {
                assert(self.lvl3@[t as int]@ == before_lvl3[t as int]@.update(k as int, d));
                assert(forall|j: int| 0 <= j < 2 && j != t ==> self.lvl3@[j] == before_lvl3[j]);
                assert forall|w: int| 0 <= w < NUM_PAGES implies #[trigger] self.descriptors()[w]
                    == mapped(descs, vfirst as int, i as int, pstart as int, *attr)[w] by {
                    let wt = w / 8192;
                    let wk = w % 8192;
                    assert(w == 8192 * wt + wk);
                    assert(v == 8192 * t + k);
                    if w != v {
                        assert(wt != t || wk != k);
                        assert(self.descriptors()[w] == before[w]);
                        assert(before[w] == mapped(
                            descs,
                            vfirst as int,
                            iold,
                            pstart as int,
                            *attr,
                        )[w]);
                    } else {
                        assert(self.descriptors()[w] == d);
                        assert(w - vfirst == iold);
                        assert((w - vfirst) * GRANULE_SIZE == iold * GRANULE_SIZE);
                    }
                }
                assert(self.descriptors() =~= mapped(
                    descs,
                    vfirst as int,
                    i as int,
                    pstart as int,
                    *attr,
                ));
                assert forall|j: int| 0 <= j < NUM_LVL2_ENTRIES implies (
                #[trigger] self.lvl3@[j])@.len() == NUM_LVL3_ENTRIES by {
                    if j != t {
                        assert(self.lvl3@[j] == before_lvl3[j]);
                    }
                }
                assert forall|w: int|
                    0 <= w < NUM_PAGES && descriptor_valid(
                        #[trigger] self.descriptors()[w],
                    ) implies descriptor_output(self.descriptors()[w]) < PHYS_ADDR_SPACE_END by {
                    if w != v {
                        assert(self.descriptors()[w] == before[w]);
                    } else {
                        assert(self.descriptors()[w] == d);
                    }
                }
            }
        }
        Ok(())
    }

    fn try_virt_page_addr_to_phys_page_addr(&self, va: PageAddress<Virtual>) -> (r: Result<
        PageAddress<Physical>,
        MappingError,
    >) {
        let a = va.as_usize();
        if a >= ADDR_SPACE_SIZE {
            return Err(MappingError::OutOfRange);
        }
        let d = self.entry(a / GRANULE_SIZE);
        if d & DESC_VALID != 1 {
            return Err(MappingError::NotMapped);
        }
        let out = d & DESC_OUTPUT_ADDR_MASK;
        proof {
            lemma_output_address(d);
        }
        Ok(PageAddress::new(out as usize))
    }

    fn try_page_attributes(&self, va: PageAddress<Virtual>) -> (r: Result<
        AttributeFields,
        MappingError,
    >) {
        let a = va.as_usize();
        if a >= ADDR_SPACE_SIZE {
            return Err(MappingError::OutOfRange);
        }
        let d = self.entry(a / GRANULE_SIZE);
        if d & DESC_VALID != 1 {
            return Err(MappingError::NotMapped);
        }
        match decode_attributes(d) {
            Some(attr) => Ok(attr),
            None => Err(MappingError::AttributeConflict),
        }
    }

    fn try_virt_addr_to_phys_addr(&self, va: Address<Virtual>) -> (r: Result<
        Address<Physical>,
        MappingError,
    >) {
        let page = va.align_down_page();
        let offset = va.offset_into_page();
        match self.try_virt_page_addr_to_phys_page_addr(page) {
            Ok(p) => {
                proof {
                    lemma_output_address(self.descriptors()[page_number(page@)]);
                }
                Ok(Address::new(p.as_usize() + offset))
            },
            Err(e) => Err(e),
        }
    }
}

/// Where page `va` of region `virt` lands once `virt` is mapped to `phys`.
proof fn lemma_mapped_page(
    descs: Seq<u64>,
    virt: MemoryRegion<Virtual>,
    phys: MemoryRegion<Physical>,
    attr: AttributeFields,
    va: int,
)
    requires
        descs.len() == NUM_PAGES,
        virt.valid(),
        phys.valid(),
        map_outcome(true, descs, virt, phys) is Ok,
        virt.start() <= va < virt.end(),
    ensures
        ({
            let w = page_number(va);
            let vfirst = page_number(virt.start());
            let x = phys.start() + (w - vfirst) * GRANULE_SIZE;
            &&& va < ADDR_SPACE_SIZE
            &&& 0 <= w < NUM_PAGES
            &&& vfirst <= w < vfirst + virt.pages()
            &&& x + va % (GRANULE_SIZE as int) == phys.start() + (va - virt.start())
            &&& mapped(descs, vfirst, virt.pages(), phys.start(), attr)[w] == page_descriptor(
                x as u64,
                attr,
            )
            &&& descriptor_valid(page_descriptor(x as u64, attr))
            &&& descriptor_output(page_descriptor(x as u64, attr)) == x
            &&& descriptor_attributes(page_descriptor(x as u64, attr)) == Some(attr)
        }),
{
    let w = page_number(va);
    let vfirst = page_number(virt.start());
    let n = virt.pages();
    let vs = virt.start();
    let ps = phys.start();
    assert(vs == vfirst * 65536);
    assert(va == w * 65536 + va % 65536);
    assert(virt.end() - vs == n * 65536);
    assert(phys.end() - ps == phys.pages() * 65536);
    assert(vfirst <= w < vfirst + n);
    assert(w < NUM_PAGES);
    let x = ps + (w - vfirst) * 65536;
    assert(x % 65536 == 0);
    assert(x < ps + n * 65536);
    assert(x + va % 65536 == ps + (va - vs));
    lemma_output_field_keeps(x as u64);
    lemma_page_descriptor_round_trip(x as u64, attr);
}

/// After a region is mapped with attributes `attr`, reading the attributes
/// of any address in it gives `attr`.
pub proof fn lemma_map_then_read_attributes(
    descs: Seq<u64>,
    virt: MemoryRegion<Virtual>,
    phys: MemoryRegion<Physical>,
    attr: AttributeFields,
    va: int,
)
    requires
        descs.len() == NUM_PAGES,
        virt.valid(),
        phys.valid(),
        map_outcome(true, descs, virt, phys) is Ok,
        virt.start() <= va < virt.end(),
    ensures
        page_attributes(
            mapped(descs, page_number(virt.start()), virt.pages(), phys.start(), attr),
            va,
        ) == Ok::<AttributeFields, MappingError>(attr),
{
    lemma_mapped_page(descs, virt, phys, attr, va);
}

/// After a region is mapped, every address in it translates to the
/// address at the same offset in the physical region.
pub proof fn lemma_map_then_translate(
    descs: Seq<u64>,
    virt: MemoryRegion<Virtual>,
    phys: MemoryRegion<Physical>,
    attr: AttributeFields,
    va: int,
)
    requires
        descs.len() == NUM_PAGES,
        virt.valid(),
        phys.valid(),
        map_outcome(true, descs, virt, phys) is Ok,
        virt.start() <= va < virt.end(),
    ensures
        translate(mapped(descs, page_number(virt.start()), virt.pages(), phys.start(), attr), va)
            == Ok::<int, MappingError>(phys.start() + (va - virt.start())),
{
    lemma_mapped_page(descs, virt, phys, attr, va);
    let page = va - va % 65536;
    assert(page_number(page) == page_number(va) && page % 65536 == 0);
}

/// Mapping a virtual region a second time, to any physical region that
/// would have been accepted the first time, is refused as an overlap (and
/// `map_at` then leaves the tables unchanged).
pub proof fn lemma_map_twice_overlaps(
    descs: Seq<u64>,
    virt: MemoryRegion<Virtual>,
    phys: MemoryRegion<Physical>,
    attr: AttributeFields,
    phys2: MemoryRegion<Physical>,
)
    requires
        descs.len() == NUM_PAGES,
        virt.valid(),
        phys.valid(),
        map_outcome(true, descs, virt, phys) is Ok,
        map_outcome(true, descs, virt, phys2) is Ok,
    ensures
        map_outcome(
            true,
            mapped(descs, page_number(virt.start()), virt.pages(), phys.start(), attr),
            virt,
            phys2,
        ) == Err::<(), MappingError>(MappingError::Overlap),
{
    let after = mapped(descs, page_number(virt.start()), virt.pages(), phys.start(), attr);
    assert(virt.pages() > 0);
    assert(virt.end() > virt.start());
    lemma_mapped_page(descs, virt, phys, attr, virt.start());
    let w = page_number(virt.start());
    assert(descriptor_valid(after[w]));
}

} // verus!

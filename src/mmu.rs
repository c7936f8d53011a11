//! MMU configuration: the register values that turn on paging with the
//! kernel's translation tables.

use vstd::prelude::*;

verus! {

/// MAIR_EL1: attribute 1 is normal memory, write-back, read/write-allocate
/// (0xFF); attribute 0 is device memory, non-gathering, non-reordering, no
/// early write acknowledgement (0x00).
pub const MAIR_EL1_VALUE: u64 = 0xFF00;

/// TCR_EL1: T0SZ = 34 (a 1 GiB space), inner and outer write-back
/// write-allocate walks of inner-shareable tables, 64 KiB granule for
/// TTBR0, TTBR1 walks disabled, 40-bit physical addresses.
pub const TCR_EL1_VALUE: u64 = 0x2_0080_7522;

/// SCTLR_EL1 bits M (MMU), C (data cache) and I (instruction cache).
pub const SCTLR_ENABLE_BITS: u64 = 0x1005;

/// The register values to program, in the order MAIR, TTBR0, TCR, then
/// (after a DSB) SCTLR, followed by an ISB.
#[derive(Debug, Clone, Copy, PartialEq, Eq, Structural)]
pub struct MmuSettings {
    pub mair_el1: u64,
    pub ttbr0_el1: u64,
    pub tcr_el1: u64,
    pub sctlr_el1: u64,
}

/// Why the MMU cannot be turned on.
#[derive(Debug, Clone, Copy, PartialEq, Eq, Structural)]
pub enum MmuFailure {
    /// The CPU does not support the 64 KiB granule.
    Unsupported,
    /// The MMU is already on, or the table base is not granule aligned.
    ConfigConflict,
}

/// Whether ID_AA64MMFR0_EL1 reports 64 KiB granule support (TGran64,
/// bits 27..24, equal to 0).
pub open spec fn granule_supported(id_aa64mmfr0: u64) -> bool {
    (id_aa64mmfr0 >> 24u64) & 0xf == 0
}

/// The outcome of turning on the MMU with tables at `phys_tables_base`,
/// given ID_AA64MMFR0_EL1 and the current SCTLR_EL1.
pub open spec fn mmu_settings_spec(id_aa64mmfr0: u64, sctlr: u64, phys_tables_base: u64) -> Result<
    MmuSettings,
    MmuFailure,
> {
    if !granule_supported(id_aa64mmfr0) {
        Err(MmuFailure::Unsupported)
    } else if sctlr & 1 == 1 || phys_tables_base % 0x1_0000 != 0 {
        Err(MmuFailure::ConfigConflict)
    } else {
        Ok(
            MmuSettings {
                mair_el1: MAIR_EL1_VALUE,
                ttbr0_el1: phys_tables_base,
                tcr_el1: TCR_EL1_VALUE,
                sctlr_el1: sctlr | SCTLR_ENABLE_BITS,
            },
        )
    }
}

/// Compute the register values that turn on the MMU, or why it cannot be
/// turned on. Nothing is written to SCTLR unless this succeeds.
pub fn mmu_settings(id_aa64mmfr0: u64, sctlr: u64, phys_tables_base: u64) -> (r: Result<
    MmuSettings,
    MmuFailure,
>)
    ensures
        r == mmu_settings_spec(id_aa64mmfr0, sctlr, phys_tables_base),
{
    if (id_aa64mmfr0 >> 24u64) & 0xf != 0 {
        return Err(MmuFailure::Unsupported);
    }
    if sctlr & 1 == 1 || phys_tables_base % 0x1_0000 != 0 {
        return Err(MmuFailure::ConfigConflict);
    }
    Ok(
        MmuSettings {
            mair_el1: MAIR_EL1_VALUE,
            ttbr0_el1: phys_tables_base,
            tcr_el1: TCR_EL1_VALUE,
            sctlr_el1: sctlr | SCTLR_ENABLE_BITS,
        },
    )
}

/// Whether SCTLR_EL1 has the MMU on.
pub fn mmu_enabled(sctlr: u64) -> (r: bool)
    ensures
        r == (sctlr & 1 == 1),
{
    sctlr & 1 == 1
}

} // verus!

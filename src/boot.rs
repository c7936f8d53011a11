//! Early boot decisions: which core boots, and the EL2 register state that
//! makes an exception return enter the kernel at EL1.

use vstd::prelude::*;

verus! {

/// The core that boots the kernel.
pub const BOOT_CORE_ID: u64 = 0;

/// MPIDR_EL1 bits that hold the core number.
pub const CORE_ID_MASK: u64 = 0b11;

/// CurrentEL value at EL2.
pub const CURRENT_EL_EL2: u64 = 0x8;

/// CNTHCTL_EL2: EL1PCTEN (bit 0) and EL1PCEN (bit 1), giving EL1 the
/// physical counter and timer.
pub const CNTHCTL_EL2_VALUE: u64 = 0b11;

/// HCR_EL2: RW (bit 31), EL1 runs AArch64.
pub const HCR_EL2_VALUE: u64 = 0x8000_0000;

/// SPSR_EL2: D, A, I and F masked (bits 9..6) and M = EL1h (0b0101).
pub const SPSR_EL2_VALUE: u64 = 0x3C5;

/// What a core does at reset.
#[derive(Debug, Clone, Copy, PartialEq, Eq, Structural)]
pub enum BootAction {
    /// Boot the kernel.
    Boot,
    /// Wait for events forever.
    Park,
}

/// A core boots if it runs at EL2 and is the boot core; any other parks.
pub fn boot_action(current_el: u64, mpidr: u64) -> (r: BootAction)
    ensures
        r == (if current_el == CURRENT_EL_EL2 && mpidr & CORE_ID_MASK == BOOT_CORE_ID {
            BootAction::Boot
        } else {
            BootAction::Park
        }),
{
    if current_el == CURRENT_EL_EL2 && mpidr & CORE_ID_MASK == BOOT_CORE_ID {
        BootAction::Boot
    } else {
        BootAction::Park
    }
}

/// The EL2 register values that prepare the return to EL1.
#[derive(Debug, Clone, Copy, PartialEq, Eq, Structural)]
pub struct El1Transition {
    pub cnthctl_el2: u64,
    pub cntvoff_el2: u64,
    pub hcr_el2: u64,
    pub spsr_el2: u64,
    pub elr_el2: u64,
    pub sp_el1: u64,
}

/// Prepare the transition from EL2 to EL1: counters for EL1, no virtual
/// counter offset, EL1 in AArch64, a saved status with every interrupt
/// masked and SP_EL1 selected, the kernel entry as return address and the
/// boot stack for EL1.
pub fn prepare_el2_to_el1_transition(
    virt_boot_core_stack_end_exclusive_addr: u64,
    virt_kernel_init_addr: u64,
) -> (r: El1Transition)
    ensures
        r == (El1Transition {
            cnthctl_el2: CNTHCTL_EL2_VALUE,
            cntvoff_el2: 0,
            hcr_el2: HCR_EL2_VALUE,
            spsr_el2: SPSR_EL2_VALUE,
            elr_el2: virt_kernel_init_addr,
            sp_el1: virt_boot_core_stack_end_exclusive_addr,
        }),
        r.spsr_el2 & 0x3C0 == 0x3C0,
        r.spsr_el2 & 0xF == 0b0101,
{
    proof {
        assert(0x3C5u64 & 0x3C0u64 == 0x3C0u64) by (bit_vector);
        assert(0x3C5u64 & 0xFu64 == 0b0101u64) by (bit_vector);
    }
    El1Transition {
        cnthctl_el2: CNTHCTL_EL2_VALUE,
        cntvoff_el2: 0,
        hcr_el2: HCR_EL2_VALUE,
        spsr_el2: SPSR_EL2_VALUE,
        elr_el2: virt_kernel_init_addr,
        sp_el1: virt_boot_core_stack_end_exclusive_addr,
    }
}

} // verus!

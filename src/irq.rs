//! The interrupt mask bits (DAIF) and the IRQ-safe critical section built
//! on them.

use vstd::prelude::*;

verus! {

/// DAIF bit 9: debug exceptions masked.
pub const DAIF_D: u64 = 0x200;

/// DAIF bit 8: SError masked.
pub const DAIF_A: u64 = 0x100;

/// DAIF bit 7: IRQ masked.
pub const DAIF_I: u64 = 0x80;

/// DAIF bit 6: FIQ masked.
pub const DAIF_F: u64 = 0x40;

/// One of the four interrupt masks.
#[derive(Debug, Clone, Copy, PartialEq, Eq, Structural)]
pub enum DaifField {
    Debug,
    SError,
    Irq,
    Fiq,
}

/// The DAIF bit of a mask.
pub open spec fn daif_bit(f: DaifField) -> u64 {
    match f {
        DaifField::Debug => DAIF_D,
        DaifField::SError => DAIF_A,
        DaifField::Irq => DAIF_I,
        DaifField::Fiq => DAIF_F,
    }
}

/// The DAIF bit of a mask.
pub fn daif_field(f: DaifField) -> (r: u64)
    ensures
        r == daif_bit(f),
{
    match f {
        DaifField::Debug => DAIF_D,
        DaifField::SError => DAIF_A,
        DaifField::Irq => DAIF_I,
        DaifField::Fiq => DAIF_F,
    }
}

/// Whether `f` is masked in the DAIF value `daif`.
pub fn is_masked(daif: u64, f: DaifField) -> (r: bool)
    ensures
        r == (daif & daif_bit(f) != 0),
{
    daif & daif_field(f) != 0
}

/// Whether IRQs are masked in the DAIF value `daif`.
pub fn is_local_irq_masked(daif: u64) -> (r: bool)
    ensures
        r == (daif & DAIF_I != 0),
{
    is_masked(daif, DaifField::Irq)
}

/// The DAIF value with IRQs masked and the other masks kept.
pub fn local_irq_mask(daif: u64) -> (r: u64)
    ensures
        r == daif | DAIF_I,
        r & DAIF_I != 0,
        r & (DAIF_D | DAIF_A | DAIF_F) == daif & (DAIF_D | DAIF_A | DAIF_F),
{
    let r = daif | DAIF_I;
    proof {
        assert((0x200u64 | 0x100u64 | 0x40u64) == 0x340u64) by (bit_vector);
        assert((daif | 0x80u64) & 0x80u64 != 0u64) by (bit_vector);
        assert((daif | 0x80u64) & 0x340u64 == daif & 0x340u64) by (bit_vector);
    }
    r
}

/// The DAIF value with IRQs unmasked and the other masks kept.
pub fn local_irq_unmask(daif: u64) -> (r: u64)
    ensures
        r == daif & !DAIF_I,
        r & DAIF_I == 0,
        r & (DAIF_D | DAIF_A | DAIF_F) == daif & (DAIF_D | DAIF_A | DAIF_F),
{
    let r = daif & !DAIF_I;
    proof {
        assert((0x200u64 | 0x100u64 | 0x40u64) == 0x340u64) by (bit_vector);
        assert((daif & !0x80u64) & 0x80u64 == 0u64) by (bit_vector);
        assert((daif & !0x80u64) & 0x340u64 == daif & 0x340u64) by (bit_vector);
    }
    r
}

/// Entering an IRQ-safe critical section: the DAIF value to restore on
/// leaving (the current one) and the DAIF value to run with (IRQs masked).
pub fn local_irq_mask_save(daif: u64) -> (r: (u64, u64))
    ensures
        r.0 == daif,
        r.1 == daif | DAIF_I,
{
    (daif, local_irq_mask(daif))
}

/// Leaving an IRQ-safe critical section: the saved DAIF value comes back
/// unchanged, whatever the section did to the masks.
pub fn local_irq_restore(saved: u64) -> (r: u64)
    ensures
        r == saved,
{
    saved
}

/// Why an IRQ request failed.
#[derive(Debug, Clone, Copy, PartialEq, Eq, Structural)]
pub enum IrqError {
    /// No interrupt controller has been registered yet.
    NoManager,
}

/// The IRQ manager in place until the interrupt controller registers
/// itself: every request fails, and the caller treats that as fatal.
pub struct NullIRQManager;

impl NullIRQManager {
    /// Registering a handler needs a real manager.
    pub fn register_handler(&self, irq_number: usize) -> (r: Result<(), IrqError>)
        ensures
            r == Err::<(), IrqError>(IrqError::NoManager),
    {
        Err(IrqError::NoManager)
    }

    /// Enabling an IRQ needs a real manager.
    pub fn enable(&self, irq_number: usize) -> (r: Result<(), IrqError>)
        ensures
            r == Err::<(), IrqError>(IrqError::NoManager),
    {
        Err(IrqError::NoManager)
    }

    /// Handling pending IRQs needs a real manager.
    pub fn handle_pending_irqs(&self) -> (r: Result<(), IrqError>)
        ensures
            r == Err::<(), IrqError>(IrqError::NoManager),
    {
        Err(IrqError::NoManager)
    }
}

} // verus!

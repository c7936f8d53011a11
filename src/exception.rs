//! Synchronous exception classification and handling policy.
//!
//! The vector table saves an `ExceptionContext` and hands it to a handler;
//! the decisions a handler makes (what the exception was, whether the
//! kernel survives it, where execution resumes) are made here.

use aarch64_cpu::registers::ESR_EL1;
use tock_registers::LocalRegisterCopy;
use vstd::prelude::*;

verus! {

/// The exception classes (ESR_EL1.EC, bits 31..26) that the architecture
/// names.
#[derive(Debug, Clone, Copy, PartialEq, Eq, Structural)]
pub enum ExceptionClass {
    Unknown,
    TrappedWFIorWFE,
    TrappedMCRorMRC,
    TrappedMCRRorMRRC,
    TrappedMCRorMRC2,
    TrappedLDCorSTC,
    TrappedFP,
    TrappedMRRC,
    BranchTarget,
    IllegalExecutionState,
    SVC32,
    SVC64,
    HVC64,
    SMC64,
    TrappedMsrMrs,
    TrappedSve,
    PointerAuth,
    InstrAbortLowerEL,
    InstrAbortCurrentEL,
    PCAlignmentFault,
    DataAbortLowerEL,
    DataAbortCurrentEL,
    SPAlignmentFault,
    TrappedFP32,
    TrappedFP64,
    SError,
    BreakpointLowerEL,
    BreakpointCurrentEL,
    SoftwareStepLowerEL,
    SoftwareStepCurrentEL,
    WatchpointLowerEL,
    WatchpointCurrentEL,
    Bkpt32,
    Brk64,
}

/// The EC field of a syndrome value.
pub open spec fn ec_field(esr: u64) -> u64 {
    (esr >> 26u64) & 0x3f
}

/// The class with encoding `ec`, if the architecture names one.
pub open spec fn class_of_ec(ec: u64) -> Option<ExceptionClass> {
    if ec == 0x00 {
        Some(ExceptionClass::Unknown)
    } else if ec == 0x01 {
        Some(ExceptionClass::TrappedWFIorWFE)
    } else if ec == 0x03 {
        Some(ExceptionClass::TrappedMCRorMRC)
    } else if ec == 0x04 {
        Some(ExceptionClass::TrappedMCRRorMRRC)
    } else if ec == 0x05 {
        Some(ExceptionClass::TrappedMCRorMRC2)
    } else if ec == 0x06 {
        Some(ExceptionClass::TrappedLDCorSTC)
    } else if ec == 0x07 {
        Some(ExceptionClass::TrappedFP)
    } else if ec == 0x0c {
        Some(ExceptionClass::TrappedMRRC)
    } else if ec == 0x0d {
        Some(ExceptionClass::BranchTarget)
    } else if ec == 0x0e {
        Some(ExceptionClass::IllegalExecutionState)
    } else if ec == 0x11 {
        Some(ExceptionClass::SVC32)
    } else if ec == 0x15 {
        Some(ExceptionClass::SVC64)
    } else if ec == 0x16 {
        Some(ExceptionClass::HVC64)
    } else if ec == 0x17 {
        Some(ExceptionClass::SMC64)
    } else if ec == 0x18 {
        Some(ExceptionClass::TrappedMsrMrs)
    } else if ec == 0x19 {
        Some(ExceptionClass::TrappedSve)
    } else if ec == 0x1c {
        Some(ExceptionClass::PointerAuth)
    } else if ec == 0x20 {
        Some(ExceptionClass::InstrAbortLowerEL)
    } else if ec == 0x21 {
        Some(ExceptionClass::InstrAbortCurrentEL)
    } else if ec == 0x22 {
        Some(ExceptionClass::PCAlignmentFault)
    } else if ec == 0x24 {
        Some(ExceptionClass::DataAbortLowerEL)
    } else if ec == 0x25 {
        Some(ExceptionClass::DataAbortCurrentEL)
    } else if ec == 0x26 {
        Some(ExceptionClass::SPAlignmentFault)
    } else if ec == 0x28 {
        Some(ExceptionClass::TrappedFP32)
    } else if ec == 0x2c {
        Some(ExceptionClass::TrappedFP64)
    } else if ec == 0x2f {
        Some(ExceptionClass::SError)
    } else if ec == 0x30 {
        Some(ExceptionClass::BreakpointLowerEL)
    } else if ec == 0x31 {
        Some(ExceptionClass::BreakpointCurrentEL)
    } else if ec == 0x32 {
        Some(ExceptionClass::SoftwareStepLowerEL)
    } else if ec == 0x33 {
        Some(ExceptionClass::SoftwareStepCurrentEL)
    } else if ec == 0x34 {
        Some(ExceptionClass::WatchpointLowerEL)
    } else if ec == 0x35 {
        Some(ExceptionClass::WatchpointCurrentEL)
    } else if ec == 0x38 {
        Some(ExceptionClass::Bkpt32)
    } else if ec == 0x3c {
        Some(ExceptionClass::Brk64)
    } else {
        None
    }
}

/// Relies on tock-registers' `LocalRegisterCopy::read` with aarch64-cpu's
/// `ESR_EL1::EC` field (offset 26, 6 bits): the field's value, shifted
/// down.
#[verifier::external_body]
fn esr_ec(esr: u64) -> (r: u64)
    ensures
        r == ec_field(esr),
{
    LocalRegisterCopy::<u64, ESR_EL1::Register>::new(esr).read(ESR_EL1::EC)
}

/// The class whose encoding is `ec`.
pub fn exception_class_from_ec(ec: u64) -> (r: Option<ExceptionClass>)
    ensures
        r == class_of_ec(ec),
{
    if ec == 0x00 {
        Some(ExceptionClass::Unknown)
    } else if ec == 0x01 {
        Some(ExceptionClass::TrappedWFIorWFE)
    } else if ec == 0x03 {
        Some(ExceptionClass::TrappedMCRorMRC)
    } else if ec == 0x04 {
        Some(ExceptionClass::TrappedMCRRorMRRC)
    } else if ec == 0x05 {
        Some(ExceptionClass::TrappedMCRorMRC2)
    } else if ec == 0x06 {
        Some(ExceptionClass::TrappedLDCorSTC)
    } else if ec == 0x07 {
        Some(ExceptionClass::TrappedFP)
    } else if ec == 0x0c {
        Some(ExceptionClass::TrappedMRRC)
    } else if ec == 0x0d {
        Some(ExceptionClass::BranchTarget)
    } else if ec == 0x0e {
        Some(ExceptionClass::IllegalExecutionState)
    } else if ec == 0x11 {
        Some(ExceptionClass::SVC32)
    } else if ec == 0x15 {
        Some(ExceptionClass::SVC64)
    } else if ec == 0x16 {
        Some(ExceptionClass::HVC64)
    } else if ec == 0x17 {
        Some(ExceptionClass::SMC64)
    } else if ec == 0x18 {
        Some(ExceptionClass::TrappedMsrMrs)
    } else if ec == 0x19 {
        Some(ExceptionClass::TrappedSve)
    } else if ec == 0x1c {
        Some(ExceptionClass::PointerAuth)
    } else if ec == 0x20 {
        Some(ExceptionClass::InstrAbortLowerEL)
    } else if ec == 0x21 {
        Some(ExceptionClass::InstrAbortCurrentEL)
    } else if ec == 0x22 {
        Some(ExceptionClass::PCAlignmentFault)
    } else if ec == 0x24 {
        Some(ExceptionClass::DataAbortLowerEL)
    } else if ec == 0x25 {
        Some(ExceptionClass::DataAbortCurrentEL)
    } else if ec == 0x26 {
        Some(ExceptionClass::SPAlignmentFault)
    } else if ec == 0x28 {
        Some(ExceptionClass::TrappedFP32)
    } else if ec == 0x2c {
        Some(ExceptionClass::TrappedFP64)
    } else if ec == 0x2f {
        Some(ExceptionClass::SError)
    } else if ec == 0x30 {
        Some(ExceptionClass::BreakpointLowerEL)
    } else if ec == 0x31 {
        Some(ExceptionClass::BreakpointCurrentEL)
    } else if ec == 0x32 {
        Some(ExceptionClass::SoftwareStepLowerEL)
    } else if ec == 0x33 {
        Some(ExceptionClass::SoftwareStepCurrentEL)
    } else if ec == 0x34 {
        Some(ExceptionClass::WatchpointLowerEL)
    } else if ec == 0x35 {
        Some(ExceptionClass::WatchpointCurrentEL)
    } else if ec == 0x38 {
        Some(ExceptionClass::Bkpt32)
    } else if ec == 0x3c {
        Some(ExceptionClass::Brk64)
    } else {
        None
    }
}

/// The seven classes for which FAR_EL1 holds the faulting address.
pub open spec fn reports_fault_address(c: Option<ExceptionClass>) -> bool {
    match c {
        Some(ExceptionClass::InstrAbortLowerEL) => true,
        Some(ExceptionClass::InstrAbortCurrentEL) => true,
        Some(ExceptionClass::PCAlignmentFault) => true,
        Some(ExceptionClass::DataAbortLowerEL) => true,
        Some(ExceptionClass::DataAbortCurrentEL) => true,
        Some(ExceptionClass::WatchpointLowerEL) => true,
        Some(ExceptionClass::WatchpointCurrentEL) => true,
        _ => false,
    }
}

/// The condition flags and exception masks of a saved program status.
#[derive(Debug, Clone, Copy, PartialEq, Eq, Structural)]
pub struct SpsrFlags {
    /// Negative (bit 31).
    pub negative: bool,
    /// Zero (bit 30).
    pub zero: bool,
    /// Carry (bit 29).
    pub carry: bool,
    /// Overflow (bit 28).
    pub overflow: bool,
    /// Debug exceptions masked (bit 9).
    pub debug_masked: bool,
    /// SError masked (bit 8).
    pub serror_masked: bool,
    /// IRQ masked (bit 7).
    pub irq_masked: bool,
    /// FIQ masked (bit 6).
    pub fiq_masked: bool,
    /// Illegal execution state (bit 20).
    pub illegal_execution_state: bool,
}

/// Whether bit `n` of `v` is set.
pub open spec fn bit_set(v: u64, n: u64) -> bool {
    (v >> n) & 1 == 1
}

/// What a handler decides about a synchronous exception.
#[derive(Debug, Clone, Copy, PartialEq, Eq, Structural)]
pub enum FaultPolicy {
    /// Resume execution this many bytes past the faulting instruction.
    Survive(u64),
    /// The exception cannot be survived: report the context and halt.
    Fatal,
}

/// The kernel's policy: step over breakpoints and data aborts (one
/// instruction, 4 bytes); anything else is fatal.
pub open spec fn policy_for(c: Option<ExceptionClass>) -> FaultPolicy {
    match c {
        Some(ExceptionClass::Brk64) => FaultPolicy::Survive(4),
        Some(ExceptionClass::DataAbortCurrentEL) => FaultPolicy::Survive(4),
        Some(ExceptionClass::DataAbortLowerEL) => FaultPolicy::Survive(4),
        _ => FaultPolicy::Fatal,
    }
}

/// Decide the policy for an exception of class `c`.
pub fn fault_policy(c: Option<ExceptionClass>) -> (r: FaultPolicy)
    ensures
        r == policy_for(c),
{
    match c {
        Some(ExceptionClass::Brk64) => FaultPolicy::Survive(4),
        Some(ExceptionClass::DataAbortCurrentEL) => FaultPolicy::Survive(4),
        Some(ExceptionClass::DataAbortLowerEL) => FaultPolicy::Survive(4),
        _ => FaultPolicy::Fatal,
    }
}

/// The register state saved on the stack when an exception is taken.
#[derive(Debug, Clone, Copy, PartialEq, Eq)]
pub struct ExceptionContext {
    /// General purpose registers x0 to x29.
    pub gpr: [u64; 30],
    /// The link register, x30.
    pub lr: u64,
    /// Exception link register: where execution resumes.
    pub elr_el1: u64,
    /// Saved program status.
    pub spsr_el1: u64,
    /// Exception syndrome.
    pub esr_el1: u64,
}

impl ExceptionContext {
    /// The class of the exception, from the saved syndrome.
    pub open spec fn class(&self) -> Option<ExceptionClass> {
        class_of_ec(ec_field(self.esr_el1))
    }

    /// The class of the exception, if the architecture names it.
    pub fn exception_class(&self) -> (r: Option<ExceptionClass>)
        ensures
            r == self.class(),
    {
        exception_class_from_ec(esr_ec(self.esr_el1))
    }

    /// Whether FAR_EL1 holds a meaningful faulting address for this
    /// exception: true exactly for instruction and data aborts, PC alignment
    /// faults and watchpoints.
    pub fn fault_address_valid(&self) -> (r: bool)
        ensures
            r == reports_fault_address(self.class()),
    {
        match self.exception_class() {
            None => false,
            Some(ec) => match ec {
                ExceptionClass::InstrAbortLowerEL
                | ExceptionClass::InstrAbortCurrentEL
                | ExceptionClass::PCAlignmentFault
                | ExceptionClass::DataAbortLowerEL
                | ExceptionClass::DataAbortCurrentEL
                | ExceptionClass::WatchpointLowerEL
                | ExceptionClass::WatchpointCurrentEL => true,
                _ => false,
            },
        }
    }

    /// The instruction-specific syndrome (bits 24..0 of ESR_EL1).
    pub fn iss(&self) -> (r: u64)
        ensures
            r == self.esr_el1 & 0x1ff_ffff,
    {
        self.esr_el1 & 0x1ff_ffff
    }

    /// The flags and masks of the saved program status.
    pub fn spsr_flags(&self) -> (r: SpsrFlags)
        ensures
            r.negative == bit_set(self.spsr_el1, 31),
            r.zero == bit_set(self.spsr_el1, 30),
            r.carry == bit_set(self.spsr_el1, 29),
            r.overflow == bit_set(self.spsr_el1, 28),
            r.debug_masked == bit_set(self.spsr_el1, 9),
            r.serror_masked == bit_set(self.spsr_el1, 8),
            r.irq_masked == bit_set(self.spsr_el1, 7),
            r.fiq_masked == bit_set(self.spsr_el1, 6),
            r.illegal_execution_state == bit_set(self.spsr_el1, 20),
    {
        let s = self.spsr_el1;
        SpsrFlags {
            negative: (s >> 31u64) & 1 == 1,
            zero: (s >> 30u64) & 1 == 1,
            carry: (s >> 29u64) & 1 == 1,
            overflow: (s >> 28u64) & 1 == 1,
            debug_masked: (s >> 9u64) & 1 == 1,
            serror_masked: (s >> 8u64) & 1 == 1,
            irq_masked: (s >> 7u64) & 1 == 1,
            fiq_masked: (s >> 6u64) & 1 == 1,
            illegal_execution_state: (s >> 20u64) & 1 == 1,
        }
    }
}

/// The synchronous handler for exceptions taken from the current level:
/// classify the exception and, where the policy survives it, move the
/// saved ELR past the faulting instruction. Nothing else in the context
/// changes, so the interrupted code resumes with its registers intact.
pub fn current_elx_synchronous(e: &mut ExceptionContext) -> (r: FaultPolicy)
    ensures
        r == policy_for(old(e).class()),
        match r {
            FaultPolicy::Survive(n) => *final(e) == ExceptionContext {
                elr_el1: old(e).elr_el1.wrapping_add(n),
                ..*old(e)
            },
            FaultPolicy::Fatal => *final(e) == *old(e),
        },
{
    let policy = fault_policy(e.exception_class());
    match policy {
        FaultPolicy::Survive(n) => {
            e.elr_el1 = e.elr_el1.wrapping_add(n);
        },
        FaultPolicy::Fatal => {},
    }
    policy
}

/// Where an exception was taken from: the four groups of the vector table.
#[derive(Debug, Clone, Copy, PartialEq, Eq, Structural)]
pub enum ExceptionOrigin {
    /// Current level, using SP_EL0.
    CurrentEl0,
    /// Current level, using SP_ELx.
    CurrentElx,
    /// A lower level running AArch64.
    LowerAArch64,
    /// A lower level running AArch32.
    LowerAArch32,
}

/// The kind of exception: the four entries of each group.
#[derive(Debug, Clone, Copy, PartialEq, Eq, Structural)]
pub enum ExceptionKind {
    Synchronous,
    Irq,
    Fiq,
    SError,
}

/// What the vector table does with an exception.
#[derive(Debug, Clone, Copy, PartialEq, Eq, Structural)]
pub enum VectorAction {
    /// Run the synchronous handler (`current_elx_synchronous`).
    HandleSynchronous,
    /// Ask the registered IRQ manager to handle pending IRQs.
    DispatchIrq,
    /// Print the context and panic: this kernel does not expect it.
    Fatal,
}

/// Only synchronous exceptions and IRQs taken at the current level with
/// SP_ELx are handled; every other entry of the table is fatal.
pub open spec fn vector_action_spec(origin: ExceptionOrigin, kind: ExceptionKind) -> VectorAction {
    match (origin, kind) {
        (ExceptionOrigin::CurrentElx, ExceptionKind::Synchronous) => VectorAction::HandleSynchronous,
        (ExceptionOrigin::CurrentElx, ExceptionKind::Irq) => VectorAction::DispatchIrq,
        _ => VectorAction::Fatal,
    }
}

/// The action of the vector-table entry for `origin` and `kind`.
pub fn vector_action(origin: ExceptionOrigin, kind: ExceptionKind) -> (r: VectorAction)
    ensures
        r == vector_action_spec(origin, kind),
{
    match (origin, kind) {
        (ExceptionOrigin::CurrentElx, ExceptionKind::Synchronous) => VectorAction::HandleSynchronous,
        (ExceptionOrigin::CurrentElx, ExceptionKind::Irq) => VectorAction::DispatchIrq,
        _ => VectorAction::Fatal,
    }
}

/// Byte offset of the entry for `origin` and `kind` from the table base:
/// sixteen entries of 0x80 bytes, grouped by origin.
pub fn vector_offset(origin: ExceptionOrigin, kind: ExceptionKind) -> (r: usize)
    ensures
        r < 0x800,
        r % 0x80 == 0,
        r == 0x200 * (match origin {
            ExceptionOrigin::CurrentEl0 => 0int,
            ExceptionOrigin::CurrentElx => 1int,
            ExceptionOrigin::LowerAArch64 => 2int,
            ExceptionOrigin::LowerAArch32 => 3int,
        }) + 0x80 * (match kind {
            ExceptionKind::Synchronous => 0int,
            ExceptionKind::Irq => 1int,
            ExceptionKind::Fiq => 2int,
            ExceptionKind::SError => 3int,
        }),
{
    let group: usize = match origin {
        ExceptionOrigin::CurrentEl0 => 0,
        ExceptionOrigin::CurrentElx => 1,
        ExceptionOrigin::LowerAArch64 => 2,
        ExceptionOrigin::LowerAArch32 => 3,
    };
    let entry: usize = match kind {
        ExceptionKind::Synchronous => 0,
        ExceptionKind::Irq => 1,
        ExceptionKind::Fiq => 2,
        ExceptionKind::SError => 3,
    };
    0x200 * group + 0x80 * entry
}

/// Kernel privilege levels.
#[derive(Debug, Clone, Copy, PartialEq, Eq, Structural)]
pub enum PrivilegeLevel {
    User,
    Kernel,
    Hypervisor,
    Unknown,
}

/// The privilege level named by the EL field (bits 3..2) of CurrentEL.
pub open spec fn privilege_level_spec(current_el: u64) -> PrivilegeLevel {
    let el = (current_el >> 2u64) & 0b11;
    if el == 2 {
        PrivilegeLevel::Hypervisor
    } else if el == 1 {
        PrivilegeLevel::Kernel
    } else if el == 0 {
        PrivilegeLevel::User
    } else {
        PrivilegeLevel::Unknown
    }
}

/// The privilege level of a CurrentEL value, with its name.
pub fn current_privilege_level(current_el: u64) -> (r: (PrivilegeLevel, &'static str))
    ensures
        r.0 == privilege_level_spec(current_el),
        r.1@ == match r.0 {
            PrivilegeLevel::Hypervisor => "EL2"@,
            PrivilegeLevel::Kernel => "EL1"@,
            PrivilegeLevel::User => "EL0"@,
            PrivilegeLevel::Unknown => "Unknown"@,
        },
{
    proof {
        reveal_strlit("EL2");
        reveal_strlit("EL1");
        reveal_strlit("EL0");
        reveal_strlit("Unknown");
    }
    let el = (current_el >> 2u64) & 0b11;
    if el == 2 {
        (PrivilegeLevel::Hypervisor, "EL2")
    } else if el == 1 {
        (PrivilegeLevel::Kernel, "EL1")
    } else if el == 0 {
        (PrivilegeLevel::User, "EL0")
    } else {
        (PrivilegeLevel::Unknown, "Unknown")
    }
}

} // verus!

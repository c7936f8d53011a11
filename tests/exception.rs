use kernel::exception::{
    current_elx_synchronous, current_privilege_level, exception_class_from_ec, fault_policy,
    vector_action, vector_offset, ExceptionClass, ExceptionContext, ExceptionKind,
    ExceptionOrigin, FaultPolicy, PrivilegeLevel, VectorAction,
};

fn context(ec: u64, elr: u64) -> ExceptionContext {
    let mut gpr = [0u64; 30];
    for (i, r) in gpr.iter_mut().enumerate() {
        *r = 0x1000 + i as u64;
    }
    ExceptionContext { gpr, lr: 0xAAAA, elr_el1: elr, spsr_el1: 0x3C5, esr_el1: (ec << 26) | 0x1234 }
}

#[test]
fn exception_class_is_read_from_bits_31_to_26() {
    assert_eq!(context(0x25, 0).exception_class(), Some(ExceptionClass::DataAbortCurrentEL));
    assert_eq!(context(0x3C, 0).exception_class(), Some(ExceptionClass::Brk64));
    assert_eq!(context(0x15, 0).exception_class(), Some(ExceptionClass::SVC64));
    assert_eq!(context(0x00, 0).exception_class(), Some(ExceptionClass::Unknown));
    assert_eq!(context(0x02, 0).exception_class(), None);
    // the syndrome's low bits do not leak into the class
    let e = ExceptionContext { esr_el1: 0x25, ..context(0, 0) };
    assert_eq!(e.exception_class(), Some(ExceptionClass::Unknown));
    assert_eq!(exception_class_from_ec(0x24), Some(ExceptionClass::DataAbortLowerEL));
    assert_eq!(exception_class_from_ec(0x3F), None);
}

#[test]
fn fault_address_valid_for_the_seven_classes() {
    let valid: [u64; 7] = [0x20, 0x21, 0x22, 0x24, 0x25, 0x34, 0x35];
    for ec in 0u64..64 {
        assert_eq!(context(ec, 0).fault_address_valid(), valid.contains(&ec), "ec {:#x}", ec);
    }
}

#[test]
fn survive_data_abort() {
    let before = context(0x25, 0x8_1000);
    let mut e = before;
    assert_eq!(current_elx_synchronous(&mut e), FaultPolicy::Survive(4));
    assert_eq!(e.elr_el1, 0x8_1004);
    assert_eq!(e.gpr, before.gpr);
    assert_eq!(e.lr, before.lr);
    assert_eq!(e.spsr_el1, before.spsr_el1);
    assert_eq!(e.esr_el1, before.esr_el1);
    let mut lower = context(0x24, 0x100);
    assert_eq!(current_elx_synchronous(&mut lower), FaultPolicy::Survive(4));
    assert_eq!(lower.elr_el1, 0x104);
}

#[test]
fn breakpoint_steps_over_brk() {
    // brk #0 gives ESR 0xF2000000
    let mut e = ExceptionContext { esr_el1: 0xF200_0000, ..context(0, 0x9_0000) };
    assert_eq!(current_elx_synchronous(&mut e), FaultPolicy::Survive(4));
    assert_eq!(e.elr_el1, 0x9_0004);
}

#[test]
fn other_exceptions_are_fatal_and_untouched() {
    for ec in [0x00u64, 0x15, 0x21, 0x22, 0x2F, 0x31, 0x35, 0x02].iter() {
        let before = context(*ec, 0x1234);
        let mut e = before;
        assert_eq!(current_elx_synchronous(&mut e), FaultPolicy::Fatal);
        assert_eq!(e, before);
    }
    assert_eq!(fault_policy(None), FaultPolicy::Fatal);
    assert_eq!(fault_policy(Some(ExceptionClass::Brk64)), FaultPolicy::Survive(4));
}

#[test]
fn elr_wraps_at_the_top() {
    let mut e = context(0x3C, u64::MAX - 1);
    assert_eq!(current_elx_synchronous(&mut e), FaultPolicy::Survive(4));
    assert_eq!(e.elr_el1, 2);
}

#[test]
fn iss_and_spsr_flags() {
    let e = ExceptionContext { spsr_el1: 0x8010_03C5, ..context(0x25, 0) };
    assert_eq!(e.iss(), 0x1234);
    let f = e.spsr_flags();
    assert!(f.negative && !f.zero && !f.carry && !f.overflow);
    assert!(f.debug_masked && f.serror_masked && f.irq_masked && f.fiq_masked);
    assert!(f.illegal_execution_state);
    let clear = ExceptionContext { spsr_el1: 0x7000_0005, ..context(0, 0) }.spsr_flags();
    assert!(!clear.negative && clear.zero && clear.carry && clear.overflow);
    assert!(!clear.debug_masked && !clear.irq_masked && !clear.illegal_execution_state);
}

#[test]
fn vector_table_dispatch() {
    assert_eq!(
        vector_action(ExceptionOrigin::CurrentElx, ExceptionKind::Synchronous),
        VectorAction::HandleSynchronous
    );
    assert_eq!(vector_action(ExceptionOrigin::CurrentElx, ExceptionKind::Irq), VectorAction::DispatchIrq);
    assert_eq!(vector_action(ExceptionOrigin::CurrentElx, ExceptionKind::SError), VectorAction::Fatal);
    assert_eq!(vector_action(ExceptionOrigin::CurrentEl0, ExceptionKind::Synchronous), VectorAction::Fatal);
    assert_eq!(vector_action(ExceptionOrigin::LowerAArch64, ExceptionKind::Irq), VectorAction::Fatal);
    assert_eq!(vector_action(ExceptionOrigin::LowerAArch32, ExceptionKind::Synchronous), VectorAction::Fatal);
    assert_eq!(vector_offset(ExceptionOrigin::CurrentEl0, ExceptionKind::Synchronous), 0x000);
    assert_eq!(vector_offset(ExceptionOrigin::CurrentElx, ExceptionKind::Synchronous), 0x200);
    assert_eq!(vector_offset(ExceptionOrigin::CurrentElx, ExceptionKind::Irq), 0x280);
    assert_eq!(vector_offset(ExceptionOrigin::LowerAArch32, ExceptionKind::SError), 0x780);
}

#[test]
fn privilege_levels() {
    assert_eq!(current_privilege_level(0x8), (PrivilegeLevel::Hypervisor, "EL2"));
    assert_eq!(current_privilege_level(0x4), (PrivilegeLevel::Kernel, "EL1"));
    assert_eq!(current_privilege_level(0x0), (PrivilegeLevel::User, "EL0"));
    assert_eq!(current_privilege_level(0xC), (PrivilegeLevel::Unknown, "Unknown"));
}

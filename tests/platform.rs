use kernel::boot::{boot_action, prepare_el2_to_el1_transition, BootAction, BOOT_CORE_ID};
use kernel::bsp::board_name;
use kernel::irq::{
    is_local_irq_masked, is_masked, local_irq_mask, local_irq_mask_save, local_irq_restore,
    local_irq_unmask, DaifField, IrqError, NullIRQManager,
};
use kernel::mmu::{mmu_enabled, mmu_settings, MmuFailure, MAIR_EL1_VALUE, TCR_EL1_VALUE};
use kernel::state::{PanicGuard, State, StateError, StateManager};
use kernel::time::{time_manager, TimeManager};
use kernel::symbols::{lookup_symbol, Symbol};

#[test]
fn boot_transition() {
    assert_eq!(boot_action(0x8, BOOT_CORE_ID), BootAction::Boot);
    assert_eq!(boot_action(0x8, 0x8000_0100), BootAction::Boot);
    assert_eq!(boot_action(0x8, 1), BootAction::Park);
    assert_eq!(boot_action(0x4, 0), BootAction::Park);
    let t = prepare_el2_to_el1_transition(0x8_0000, 0x8_1234);
    assert_eq!(t.elr_el2, 0x8_1234);
    assert_eq!(t.sp_el1, 0x8_0000);
    // D, A, I, F masked; M = EL1h
    assert_eq!(t.spsr_el2 & 0x3C0, 0x3C0);
    assert_eq!(t.spsr_el2 & 0xF, 0b0101);
    assert_eq!(t.spsr_el2, 0x3C5);
    assert_eq!(t.hcr_el2, 1 << 31);
    assert_eq!(t.cnthctl_el2, 0b11);
    assert_eq!(t.cntvoff_el2, 0);
}

#[test]
fn mmu_configuration() {
    let s = mmu_settings(0, 0x30D0_0800, 0x9_0000).unwrap();
    assert_eq!(s.mair_el1, 0xFF00);
    assert_eq!(s.mair_el1, MAIR_EL1_VALUE);
    assert_eq!(s.ttbr0_el1, 0x9_0000);
    assert_eq!(s.tcr_el1, TCR_EL1_VALUE);
    // T0SZ = 64 - 30, 64 KiB granule for TTBR0, TTBR1 walks off
    assert_eq!(s.tcr_el1 & 0x3F, 34);
    assert_eq!((s.tcr_el1 >> 14) & 0b11, 0b01);
    assert_eq!((s.tcr_el1 >> 23) & 1, 1);
    assert_eq!(s.sctlr_el1, 0x30D0_0800 | 0x1005);
    assert!(mmu_enabled(s.sctlr_el1));
    assert_eq!(mmu_settings(0x0F00_0000, 0, 0x9_0000), Err(MmuFailure::Unsupported));
    assert_eq!(mmu_settings(0, 1, 0x9_0000), Err(MmuFailure::ConfigConflict));
    assert_eq!(mmu_settings(0, 0, 0x9_1000), Err(MmuFailure::ConfigConflict));
    assert!(!mmu_enabled(0x30D0_0800));
}

#[test]
fn interrupt_masks() {
    assert!(is_masked(0x3C0, DaifField::Debug));
    assert!(is_masked(0x3C0, DaifField::Fiq));
    assert!(!is_masked(0x300, DaifField::Irq));
    assert!(is_local_irq_masked(0x80));
    assert!(!is_local_irq_masked(0x340));
    assert_eq!(local_irq_mask(0x200), 0x280);
    assert_eq!(local_irq_unmask(0x3C0), 0x340);
    let (saved, running) = local_irq_mask_save(0x340);
    assert_eq!(saved, 0x340);
    assert_eq!(running, 0x3C0);
    assert_eq!(local_irq_restore(saved), 0x340);
    let m = NullIRQManager;
    assert_eq!(m.handle_pending_irqs(), Err(IrqError::NoManager));
    assert_eq!(m.register_handler(57), Err(IrqError::NoManager));
    assert_eq!(m.enable(57), Err(IrqError::NoManager));
}

#[test]
fn time_conversions() {
    let t = TimeManager::new();
    assert_eq!(t.resolution(62_500_000), 16);
    assert_eq!(t.resolution(19_200_000), 52);
    assert_eq!(t.uptime(0, 62_500_000), (0, 0));
    assert_eq!(t.uptime(62_500_000 * 3 + 125, 62_500_000), (3, 2000));
    assert_eq!(t.spin_for(1000, 1_000_000_000, 62_500_000), Some(62_501_000));
    // waits round up to whole ticks
    assert_eq!(t.spin_for(1000, 10, 62_500_000), Some(1001));
    assert_eq!(t.spin_for(0, 500_000_000, 3), Some(2));
    assert_eq!(t.spin_for(0, 1_000, 19_200_000), Some(20));
    assert_eq!(t.spin_for(7, 0, 19_200_000), Some(7));
    assert_eq!(t.spin_for(u64::MAX - 10, 1_000_000, 62_500_000), None);
    assert_eq!(time_manager().resolution(1_000_000_000), 1);
}

#[test]
fn state_transitions_once() {
    let mut s = StateManager::new();
    assert!(s.is_init());
    assert_eq!(s.transition_to_single_core_main(), Ok(()));
    assert_eq!(s.state(), State::SingleCoreMain);
    assert_eq!(s.transition_to_single_core_main(), Err(StateError::AlreadyTransitioned));
    assert!(!s.is_init());
}

#[test]
fn second_panic_parks() {
    let mut g = PanicGuard::new();
    assert!(g.panic_prevent_reenter());
    assert!(!g.panic_prevent_reenter());
    assert!(!g.panic_prevent_reenter());
}

#[test]
fn board() {
    assert_eq!(board_name(), "Raspberry Pi 3");
}

#[test]
fn symbol_lookup() {
    let syms = vec![
        Symbol::new("_start", 0x8_0000, 0x100),
        Symbol::new("kernel_init", 0x8_0100, 0x80),
        Symbol::new("kernel_main", 0x8_0180, 0x200),
    ];
    assert_eq!(lookup_symbol(&syms, 0x8_0000), Some(0));
    assert_eq!(lookup_symbol(&syms, 0x8_017F), Some(1));
    let i = lookup_symbol(&syms, 0x8_0200).unwrap();
    assert_eq!(syms[i].name(), "kernel_main");
    assert_eq!(lookup_symbol(&syms, 0x8_0380), None);
    assert_eq!(lookup_symbol(&syms, 0x7_FFFF), None);
    assert!(!Symbol::new("edge", usize::MAX - 1, 1).contains(usize::MAX));
}

//! The board: Raspberry Pi 3 (BCM2837) physical memory map.

use crate::address::{Address, PageAddress, Physical};
use crate::layout::MMIODescriptor;
use vstd::prelude::*;

verus! {

/// Peripheral interrupt controller registers.
pub const PERIPHERAL_IC_START: usize = 0x3F00_B200;

/// Size of the peripheral interrupt controller registers.
pub const PERIPHERAL_IC_SIZE: usize = 0x24;

/// GPIO registers.
pub const GPIO_START: usize = 0x3F20_0000;

/// Size of the GPIO registers.
pub const GPIO_SIZE: usize = 0xA0;

/// PL011 UART registers.
pub const PL011_UART_START: usize = 0x3F20_1000;

/// Size of the PL011 UART registers.
pub const PL011_UART_SIZE: usize = 0x48;

/// Exclusive end of the physical address space.
pub const PHYS_END: usize = 0x4001_0000;

/// Board identification.
pub fn board_name() -> (r: &'static str)
    ensures
        r@ == "Raspberry Pi 3"@,
{
    proof {
        reveal_strlit("Raspberry Pi 3");
    }
    "Raspberry Pi 3"
}

/// Exclusive end address of the physical address space.
pub fn phys_addr_space_end_exclusive_addr() -> (r: PageAddress<Physical>)
    ensures
        r@ == PHYS_END,
{
    PageAddress::new(PHYS_END)
}

/// The PL011 UART's register block.
pub fn pl011_uart_mmio() -> (r: MMIODescriptor)
    ensures
        r.start_addr@ == PL011_UART_START,
        r.size == PL011_UART_SIZE,
{
    MMIODescriptor::new(Address::new(PL011_UART_START), PL011_UART_SIZE)
}

/// The GPIO register block.
pub fn gpio_mmio() -> (r: MMIODescriptor)
    ensures
        r.start_addr@ == GPIO_START,
        r.size == GPIO_SIZE,
{
    MMIODescriptor::new(Address::new(GPIO_START), GPIO_SIZE)
}

/// The peripheral interrupt controller's register block.
pub fn interrupt_controller_mmio() -> (r: MMIODescriptor)
    ensures
        r.start_addr@ == PERIPHERAL_IC_START,
        r.size == PERIPHERAL_IC_SIZE,
{
    MMIODescriptor::new(Address::new(PERIPHERAL_IC_START), PERIPHERAL_IC_SIZE)
}

} // verus!

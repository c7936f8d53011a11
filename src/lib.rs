//! Core of a small AArch64 kernel for Raspberry Pi 3 class hardware: the
//! kernel address-space model, translation tables, MMU configuration,
//! exception classification and the buddy heap allocator.

pub mod address;
pub mod buddy_model;
pub mod buddy;
pub mod translation_table;
pub mod exception;
pub mod irq;
pub mod mmu;
pub mod boot;
pub mod layout;
pub mod heap;
pub mod time;
pub mod bsp;
pub mod state;
pub mod symbols;


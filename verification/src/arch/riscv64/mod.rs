//! RISC-V 64: Sv39x4 page table entries, the PLIC and APLIC interrupt
//! controllers, and trapped-instruction decoding.
pub mod page_table;
pub mod page_fault;
pub mod plic;
pub mod aplic;
pub mod imsic;
pub mod interrupt;
pub mod regs;
pub mod start;
pub mod timer;
pub mod context_frame;
pub mod vplic;
pub mod vaplic;

//! The architecture-specific parts: page tables, interrupt controllers and
//! their emulation.
pub mod aarch64;
pub mod riscv64;
pub mod traits;

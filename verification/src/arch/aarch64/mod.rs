//! AArch64: stage-2 page tables and the GICv3 and its emulation.
pub mod page_table;
pub mod vgicv3;
pub mod vgic;
pub mod regs;
pub mod interface;
pub mod gicv3;
pub mod smmu;
pub mod mmu;
pub mod context_frame;

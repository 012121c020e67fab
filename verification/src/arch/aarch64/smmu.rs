//! Where a platform's SMMU lies.
use vstd::prelude::*;

verus! {

/// The SMMU's register base, its interrupt, and the mask of its global stream ids.
#[derive(Clone, Copy, PartialEq, Eq, Structural, Debug)]
pub struct SmmuDesc {
    pub base: usize,
    pub interrupt_id: usize,
    pub global_mask: u16,
}

/// The architecture part of a platform's description.
#[derive(Clone, Copy, PartialEq, Eq, Structural, Debug)]
pub struct ArchDesc {
    pub gic_desc: crate::arch::aarch64::gicv3::GicDesc,
    pub smmu_desc: SmmuDesc,
}

} // verus!

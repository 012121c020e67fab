//! Where a platform's GICv3 lies.
use vstd::prelude::*;

verus! {

/// The addresses of the GIC's distributor, CPU interface, hypervisor control
/// and virtual CPU interface frames and of its redistributors, and the
/// interrupt that signals list register maintenance.
#[derive(Clone, Copy, PartialEq, Eq, Structural, Debug)]
pub struct GicDesc {
    pub gicd_addr: usize,
    pub gicc_addr: usize,
    pub gich_addr: usize,
    pub gicv_addr: usize,
    pub gicr_addr: usize,
    pub maintenance_int_id: usize,
}

} // verus!

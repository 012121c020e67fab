//! Which interrupt the hypervisor takes for a trap cause.
use vstd::prelude::*;

verus! {

pub const INTERRUPT_NUM_MAX: usize = 1024;
pub const INTERRUPT_IRQ_HYPERVISOR_TIMER: usize = 26;
/// The interrupt number of an inter-processor interrupt (from the CLINT, not the PLIC).
pub const IRQ_IPI: usize = 60;
/// The interrupt number of the hypervisor timer (from the CLINT, not the PLIC).
pub const IRQ_HYPERVISOR_TIMER: usize = 61;
/// The interrupt number of the guest timer (from the CLINT, not the PLIC).
pub const IRQ_GUEST_TIMER: usize = 62;

pub const CAUSE_INTR_SOFT: usize = 1;
pub const CAUSE_INTR_TIMER: usize = 5;
pub const CAUSE_INTR_EXTERNAL: usize = 9;

/// The interrupt taken for trap cause `int_cause`: the inter-processor
/// interrupt for a software interrupt, the hypervisor timer for a timer
/// interrupt, and for an external interrupt the source `claim` that the PLIC's
/// claim register gave, none if it gave 0. The caller reads the claim
/// register only for an external interrupt, and completes a source it took.
pub fn riscv_get_pending_irqs(int_cause: usize, claim: usize) -> (r: Option<usize>)
    requires
        int_cause == CAUSE_INTR_SOFT || int_cause == CAUSE_INTR_TIMER || int_cause == CAUSE_INTR_EXTERNAL,
    ensures
        int_cause == CAUSE_INTR_SOFT ==> r == Some(IRQ_IPI),
        int_cause == CAUSE_INTR_TIMER ==> r == Some(IRQ_HYPERVISOR_TIMER),
        int_cause == CAUSE_INTR_EXTERNAL ==> r == (if claim == 0 { None } else { Some(claim) }),
{
    if int_cause == CAUSE_INTR_SOFT {
        Some(IRQ_IPI)
    } else if int_cause == CAUSE_INTR_TIMER {
        Some(IRQ_HYPERVISOR_TIMER)
    } else if claim == 0 {
        None
    } else {
        Some(claim)
    }
}

} // verus!

//! Which core boots the hypervisor.
use vstd::prelude::*;

verus! {

/// The id of the core that boots first.
pub fn boot_core() -> (r: usize)
    ensures
        r == 0,
{
    0
}

/// Whether `cpu_id` is the boot core.
pub fn is_boot_core(cpu_id: usize) -> (r: bool)
    ensures
        r == (cpu_id == 0),
{
    cpu_id == 0
}

} // verus!

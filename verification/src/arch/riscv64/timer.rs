//! The timer's frequency.
use vstd::prelude::*;

verus! {

/// The frequency of the timer counter, in Hz.
pub fn timer_arch_get_frequency() -> (r: usize)
    ensures
        r == 10_000_000,
{
    1000_0000
}

} // verus!

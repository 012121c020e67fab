//! Interfaces that each architecture's pieces provide.
use vstd::prelude::*;

verus! {

/// A page table entry of some architecture, built from and read as a raw word.
pub trait ArchPageTableEntryTrait: Sized {
    /// The entry holding the raw word `value`.
    fn from_pte(value: usize) -> Self;

    /// The entry whose output address is `pa`.
    fn from_pa(pa: usize) -> Self;

    /// The raw word of the entry.
    fn to_pte(&self) -> usize;

    /// The output address of the entry.
    fn to_pa(&self) -> usize;

    /// Whether the entry is valid.
    fn valid(&self) -> bool;

    /// The entry that points to a next-level table at `frame_pa`.
    fn make_table(frame_pa: usize) -> Self;
}


/// The registers a trap saves: the pc to return to, the stack pointer, and
/// the general-purpose registers.
pub trait ContextFrameTrait: Sized {
    /// The number of general-purpose registers the frame holds.
    spec fn gpr_count() -> int;

    /// A frame that starts at `pc` with `arg` as its first argument.
    fn new(pc: usize, sp: usize, arg: usize) -> Self;

    /// The pc the trap returns to.
    fn exception_pc(&self) -> usize;

    /// Sets the pc the trap returns to.
    fn set_exception_pc(&mut self, pc: usize);

    /// The stack pointer.
    fn stack_pointer(&self) -> usize;

    /// Sets the stack pointer.
    fn set_stack_pointer(&mut self, sp: usize);

    /// Sets the first argument register.
    fn set_argument(&mut self, arg: usize);

    /// Sets general-purpose register `index`.
    fn set_gpr(&mut self, index: usize, val: usize)
        requires
            index < Self::gpr_count(),
    ;

    /// General-purpose register `index`.
    fn gpr(&self, index: usize) -> usize
        requires
            index < Self::gpr_count(),
    ;
}

} // verus!

//! The registers saved on a trap from a guest, and the guest's supervisor
//! state that the hypervisor keeps for it.
use vstd::prelude::*;

use crate::arch::riscv64::regs::{A0_NUM, SP_NUM, SSTATUS_FS, SSTATUS_SD, SSTATUS_VS};
use crate::arch::traits::ContextFrameTrait;

verus! {

/// The registers saved on a trap: the 32 general-purpose registers (x0 to
/// x31, the stack pointer among them) and the supervisor trap registers.
#[derive(Clone, Copy, Debug)]
pub struct Riscv64ContextFrame {
    pub gpr: [u64; 32],
    pub sepc: u64,
    pub scause: u64,
    pub stval: u64,
    pub sstatus: u64,
    pub sscratch: u64,
}

impl Riscv64ContextFrame {
    /// A frame with every register 0.
    pub fn default() -> (r: Riscv64ContextFrame)
        ensures
            forall|i: int| 0 <= i < 32 ==> r.gpr@[i] == 0,
            r.sepc == 0,
            r.scause == 0,
            r.stval == 0,
            r.sstatus == 0,
            r.sscratch == 0,
    {
        Riscv64ContextFrame { gpr: [0u64; 32], sepc: 0, scause: 0, stval: 0, sstatus: 0, sscratch: 0 }
    }

    /// Shows the trap cause; there is nothing to show on this architecture.
    pub fn print_scause() {
    }
}

impl ContextFrameTrait for Riscv64ContextFrame {
    open spec fn gpr_count() -> int {
        32
    }

    fn new(pc: usize, sp: usize, arg: usize) -> (r: Self)
        ensures
            r.sepc == pc as u64,
            forall|i: int| 0 <= i < 32 && i != A0_NUM ==> r.gpr@[i] == 0,
            r.gpr@[A0_NUM as int] == arg as u64,
            r.scause == 0,
            r.stval == 0,
            r.sstatus == 0,
            r.sscratch == 0,
    {
        let mut r = Riscv64ContextFrame {
            gpr: [0u64; 32],
            sepc: pc as u64,
            scause: 0,
            stval: 0,
            sstatus: 0,
            sscratch: 0,
        };
        r.set_argument(arg);
        r
    }

    fn exception_pc(&self) -> (r: usize)
        ensures
            r == self.sepc as usize,
    {
        self.sepc as usize
    }

    fn set_exception_pc(&mut self, pc: usize)
        ensures
            *final(self) == (Riscv64ContextFrame { sepc: pc as u64, ..*old(self) }),
    {
        self.sepc = pc as u64;
    }

    fn stack_pointer(&self) -> (r: usize)
        ensures
            r == self.gpr@[SP_NUM as int] as usize,
    {
        self.gpr[SP_NUM] as usize
    }

    fn set_stack_pointer(&mut self, sp: usize)
        ensures
            final(self).gpr@ == old(self).gpr@.update(SP_NUM as int, sp as u64),
            final(self).sepc == old(self).sepc,
            final(self).scause == old(self).scause,
            final(self).stval == old(self).stval,
            final(self).sstatus == old(self).sstatus,
            final(self).sscratch == old(self).sscratch,
    {
        self.gpr[SP_NUM] = sp as u64;
    }

    fn set_argument(&mut self, arg: usize)
        ensures
            final(self).gpr@ == old(self).gpr@.update(A0_NUM as int, arg as u64),
            final(self).sepc == old(self).sepc,
            final(self).scause == old(self).scause,
            final(self).stval == old(self).stval,
            final(self).sstatus == old(self).sstatus,
            final(self).sscratch == old(self).sscratch,
    {
        self.gpr[A0_NUM] = arg as u64;
    }

    fn set_gpr(&mut self, index: usize, val: usize)
        ensures
            final(self).gpr@ == old(self).gpr@.update(index as int, val as u64),
            final(self).sepc == old(self).sepc,
            final(self).scause == old(self).scause,
            final(self).stval == old(self).stval,
            final(self).sstatus == old(self).sstatus,
            final(self).sscratch == old(self).sscratch,
    {
        self.gpr[index] = val as u64;
    }

    fn gpr(&self, index: usize) -> (r: usize)
        ensures
            r == self.gpr@[index as int] as usize,
    {
        self.gpr[index] as usize
    }
}

pub const HSTATUS_SPV: u64 = 0x80;

/// The value a guest's next timer interrupt time is reset to: far enough
/// ahead that it does not fire.
pub const NEXT_TIMER_INTR_NEVER: u64 = 0xffffffffffff;

/// The guest's supervisor-mode state that the hypervisor saves and restores.
#[derive(Clone, Copy, Debug)]
pub struct VmContext {
    pub fp: [u64; 32],
    pub hvip: u64,
    pub hstatus: u64,
    pub vsstatus: u64,
    pub vsip: u64,
    pub vsie: u64,
    pub vstvec: u64,
    pub vsscratch: u64,
    pub vsepc: u64,
    pub vscause: u64,
    pub vstval: u64,
    pub vsatp: u64,
    pub cpuid: u64,
    pub next_timer_intr: u64,
}

/// Whether `c` is the initial guest state, given the hypervisor's own
/// `hstatus`: the guest marked virtual (SPV), the floating-point and vector
/// units on, no timer interrupt due, everything else 0.
pub open spec fn initial_vm_context(c: VmContext, hstatus_mem: u64) -> bool {
    &&& forall|i: int| 0 <= i < 32 ==> c.fp@[i] == 0
    &&& c.hvip == 0
    &&& c.hstatus == hstatus_mem | HSTATUS_SPV
    &&& c.vsstatus == SSTATUS_FS | SSTATUS_VS | SSTATUS_SD
    &&& c.vsip == 0 && c.vsie == 0 && c.vstvec == 0 && c.vsscratch == 0
    &&& c.vsepc == 0 && c.vscause == 0 && c.vstval == 0 && c.vsatp == 0
    &&& c.cpuid == 0
    &&& c.next_timer_intr == NEXT_TIMER_INTR_NEVER
}

impl VmContext {
    /// The initial guest state, given the hypervisor's own `hstatus`.
    pub fn default_with_hstatus(hstatus_mem: u64) -> (r: VmContext)
        ensures
            initial_vm_context(r, hstatus_mem),
    {
        VmContext {
            fp: [0u64; 32],
            hvip: 0,
            hstatus: hstatus_mem | HSTATUS_SPV,
            vsstatus: SSTATUS_FS | SSTATUS_VS | SSTATUS_SD,
            vsip: 0,
            vsie: 0,
            vstvec: 0,
            vsscratch: 0,
            vsepc: 0,
            vscause: 0,
            vstval: 0,
            vsatp: 0,
            cpuid: 0,
            next_timer_intr: NEXT_TIMER_INTR_NEVER,
        }
    }

    /// Puts the guest state back to the initial one.
    pub fn reset(&mut self, hstatus_mem: u64)
        ensures
            initial_vm_context(*final(self), hstatus_mem),
    {
        *self = VmContext::default_with_hstatus(hstatus_mem);
    }
}

} // verus!

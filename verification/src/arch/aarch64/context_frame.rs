//! The registers saved on a trap from a guest on AArch64, the guest's
//! floating-point state, and the GIC state kept for it.
use vstd::prelude::*;

use crate::arch::traits::ContextFrameTrait;

verus! {

/// The saved program status of a new frame: EL1 with its own stack pointer
/// (EL1h), and debug, SError, IRQ and FIQ exceptions masked.
pub const SPSR_EL1H_MASKED: u64 = 0b0101 | (1 << 6) | (1 << 7) | (1 << 8) | (1 << 9);

/// The registers saved on a trap: x0 to x30, the saved program status, the
/// exception return address and the stack pointer.
#[derive(Clone, Copy, Debug)]
pub struct Aarch64ContextFrame {
    pub gpr: [u64; 31],
    pub spsr: u64,
    pub elr: u64,
    pub sp: u64,
}

impl ContextFrameTrait for Aarch64ContextFrame {
    open spec fn gpr_count() -> int {
        31
    }

    fn new(pc: usize, sp: usize, arg: usize) -> (r: Self)
        ensures
            r.elr == pc as u64,
            r.sp == sp as u64,
            r.spsr == SPSR_EL1H_MASKED,
            r.gpr@[0] == arg as u64,
            forall|i: int| 1 <= i < 31 ==> r.gpr@[i] == 0,
    {
        let mut r = Aarch64ContextFrame { gpr: [0u64; 31], spsr: SPSR_EL1H_MASKED, elr: pc as u64, sp: sp as u64 };
        r.set_argument(arg);
        r
    }

    fn exception_pc(&self) -> (r: usize)
        ensures
            r == self.elr as usize,
    {
        self.elr as usize
    }

    fn set_exception_pc(&mut self, pc: usize)
        ensures
            *final(self) == (Aarch64ContextFrame { elr: pc as u64, ..*old(self) }),
    {
        self.elr = pc as u64;
    }

    fn stack_pointer(&self) -> (r: usize)
        ensures
            r == self.sp as usize,
    {
        self.sp as usize
    }

    fn set_stack_pointer(&mut self, sp: usize)
        ensures
            *final(self) == (Aarch64ContextFrame { sp: sp as u64, ..*old(self) }),
    {
        self.sp = sp as u64;
    }

    fn set_argument(&mut self, arg: usize)
        ensures
            final(self).gpr@ == old(self).gpr@.update(0, arg as u64),
            final(self).spsr == old(self).spsr,
            final(self).elr == old(self).elr,
            final(self).sp == old(self).sp,
    {
        self.gpr[0] = arg as u64;
    }

    fn set_gpr(&mut self, index: usize, val: usize)
        ensures
            final(self).gpr@ == old(self).gpr@.update(index as int, val as u64),
            final(self).spsr == old(self).spsr,
            final(self).elr == old(self).elr,
            final(self).sp == old(self).sp,
    {
        self.gpr[index] = val as u64;
    }

    fn gpr(&self, index: usize) -> (r: usize)
        ensures
            r == self.gpr@[index as int] as usize,
    {
        self.gpr[index] as usize
    }
}

impl Aarch64ContextFrame {
    /// A frame with every register 0, returning to EL1h with exceptions masked.
    pub fn default() -> (r: Aarch64ContextFrame)
        ensures
            forall|i: int| 0 <= i < 31 ==> r.gpr@[i] == 0,
            r.spsr == SPSR_EL1H_MASKED,
            r.elr == 0,
            r.sp == 0,
    {
        Aarch64ContextFrame { gpr: [0u64; 31], spsr: SPSR_EL1H_MASKED, elr: 0, sp: 0 }
    }
}

/// The guest's floating-point and SIMD registers (32 registers of 128 bits,
/// as 64 words) and their status and control registers.
#[derive(Clone, Copy, Debug)]
pub struct VmCtxFpsimd {
    pub fpsimd: [u64; 64],
    pub fpsr: u32,
    pub fpcr: u32,
}

/// Whether every register of `f` is 0.
pub open spec fn fpsimd_zeroed(f: VmCtxFpsimd) -> bool {
    &&& forall|i: int| 0 <= i < 64 ==> f.fpsimd@[i] == 0
    &&& f.fpsr == 0
    &&& f.fpcr == 0
}

impl VmCtxFpsimd {
    /// Floating-point state with every register 0.
    pub fn default() -> (r: VmCtxFpsimd)
        ensures
            fpsimd_zeroed(r),
    {
        VmCtxFpsimd { fpsimd: [0u64; 64], fpsr: 0, fpcr: 0 }
    }

    /// Sets every register to 0.
    pub fn reset(&mut self)
        ensures
            fpsimd_zeroed(*final(self)),
    {
        self.fpsr = 0;
        self.fpcr = 0;
        let mut i: usize = 0;
        while i < 64
            invariant
                i <= 64,
                self.fpsr == 0,
                self.fpcr == 0,
                forall|j: int| 0 <= j < i ==> self.fpsimd@[j] == 0,
            decreases 64 - i,
        {
            self.fpsimd[i] = 0;
            i = i + 1;
        }
    }
}

/// The saved distributor state of one physical interrupt of a VM.
#[derive(Clone, Copy, Debug, Default)]
pub struct GicIrqState {
    pub id: u64,
    pub enable: u8,
    pub pend: u8,
    pub active: u8,
    pub priority: u8,
    pub target: u8,
}

/// The GIC state saved for a VM: up to 10 interrupts (the first `irq_num`
/// entries), and the virtual CPU interface's control and priority mask.
#[derive(Clone, Copy, Debug, Default)]
pub struct GicContext {
    pub irq_num: usize,
    pub irq_state: [GicIrqState; 10],
    pub gicv_ctlr: u32,
    pub gicv_pmr: u32,
}

impl GicContext {
    /// Records interrupt `id` in the next entry, given what the distributor
    /// holds for it: the set-enable word `is_enabler` of its group of 32 (the
    /// enable bit is read at position `id & 32`), its priority byte and its
    /// target byte.
    pub fn add_irq(&mut self, id: u64, is_enabler: u32, prio: u8, trgt: u8)
        requires
            old(self).irq_num < 10,
            id & 32 == 0,
        ensures
            final(self).irq_num == old(self).irq_num + 1,
            final(self).gicv_ctlr == old(self).gicv_ctlr,
            final(self).gicv_pmr == old(self).gicv_pmr,
            final(self).irq_state@ == old(self).irq_state@.update(
                old(self).irq_num as int,
                GicIrqState {
                    id,
                    enable: (is_enabler & 1) as u8,
                    priority: prio,
                    target: trgt,
                    ..old(self).irq_state@[old(self).irq_num as int]
                },
            ),
    {
        let idx = self.irq_num;
        let mut st = self.irq_state[idx];
        st.id = id;
        assert((is_enabler >> ((id & 32) as u32)) == is_enabler >> 0u32);
        assert(is_enabler >> 0u32 == is_enabler) by (bit_vector);
        st.enable = ((is_enabler >> ((id & 32) as u32)) & 1) as u8;
        st.priority = prio;
        st.target = trgt;
        self.irq_state[idx] = st;
        self.irq_num = idx + 1;
    }

    /// Sets the saved control register of the virtual CPU interface.
    pub fn set_gicv_ctlr(&mut self, ctlr: u32)
        ensures
            *final(self) == (GicContext { gicv_ctlr: ctlr, ..*old(self) }),
    {
        self.gicv_ctlr = ctlr;
    }

    /// Sets the saved priority mask of the virtual CPU interface.
    pub fn set_gicv_pmr(&mut self, pmr: u32)
        ensures
            *final(self) == (GicContext { gicv_pmr: pmr, ..*old(self) }),
    {
        self.gicv_pmr = pmr;
    }

    /// The saved control register of the virtual CPU interface.
    pub fn gicv_ctlr(&self) -> (r: u32)
        ensures
            r == self.gicv_ctlr,
    {
        self.gicv_ctlr
    }

    /// The saved priority mask of the virtual CPU interface.
    pub fn gicv_pmr(&self) -> (r: u32)
        ensures
            r == self.gicv_pmr,
    {
        self.gicv_pmr
    }
}

} // verus!

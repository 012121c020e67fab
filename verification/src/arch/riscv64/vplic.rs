//! The virtual PLIC that a guest sees: the state of its sources and hart
//! contexts, the guest's register reads and writes, and the interrupts the
//! hypervisor injects into it.
use vstd::prelude::*;

use crate::arch::riscv64::plic::{
    PLICMode, MAX_HARTS, PLIC_ENABLE_BEGIN, PLIC_ENABLE_END, PLIC_MAX_IRQ, PLIC_PENDING_BEGIN,
    PLIC_PENDING_END, PLIC_PRIO_BEGIN, PLIC_PRIO_END, PLIC_THRESHOLD_CLAIM_BEGIN, PLIC_THRESHOLD_CLAIM_END,
};

verus! {

/// The number of interrupt sources, source 0 (which means "none") included.
pub const VPLIC_SOURCES: usize = 512;

/// The size of the register window of the virtual PLIC.
pub const VPLIC_LENGTH: usize = 0x600000;

/// Whether `irq` names a source: 1 to 511.
pub open spec fn valid_irq(irq: int) -> bool {
    0 < irq <= PLIC_MAX_IRQ
}

/// Whether the context of `hart` in `mode` exists: harts 0 to 7, hart 0 having
/// no supervisor context.
pub open spec fn valid_ctx(mode: PLICMode, hart: int) -> bool {
    0 <= hart < MAX_HARTS && !(mode == PLICMode::Supervisor && hart == 0)
}

/// The state of a guest's virtual PLIC: the priority and the number of
/// pending injections of each source, the enable bit of each source in each
/// hart context (hart `h`, source `i` at `h * 512 + i`), and each context's
/// threshold and last claim.
pub struct VPlicInner {
    pub emulated_base_addr: usize,
    pub priority: Vec<u32>,
    pub pending_cnt: Vec<usize>,
    pub m_enables: Vec<bool>,
    pub s_enables: Vec<bool>,
    pub m_thresholds: Vec<u32>,
    pub s_thresholds: Vec<u32>,
    pub m_claim: Vec<u32>,
    pub s_claim: Vec<u32>,
}

/// A change the virtual PLIC passes on to the physical PLIC, for a source
/// handed through to the VM.
#[derive(Clone, Copy, PartialEq, Eq, Structural, Debug)]
pub enum PlicForward {
    /// Set the source's physical priority to 1.
    SetPriorityOne(usize),
    /// Enable the source for the physical hart's context in this mode.
    SetEnable { irq: usize, mode: PLICMode, pcpu: usize },
    /// Disable the source for the physical hart's context in this mode.
    ClearEnable { irq: usize, mode: PLICMode, pcpu: usize },
}

/// What injecting an interrupt into the guest asks of the hart.
#[derive(Clone, Copy, PartialEq, Eq, Structural, Debug)]
pub enum InjectAction {
    /// Raise the guest timer interrupt and mask the supervisor timer.
    Timer,
    /// Raise the guest software interrupt.
    Software,
    /// An external interrupt was recorded; raise the guest external interrupt
    /// when this is true (a source is ready for the injecting hart).
    External(bool),
}

impl VPlicInner {
    /// Whether the vectors have their sizes.
    pub open spec fn wf(&self) -> bool {
        &&& self.priority@.len() == VPLIC_SOURCES
        &&& self.pending_cnt@.len() == VPLIC_SOURCES
        &&& self.m_enables@.len() == MAX_HARTS * VPLIC_SOURCES
        &&& self.s_enables@.len() == MAX_HARTS * VPLIC_SOURCES
        &&& self.m_thresholds@.len() == MAX_HARTS
        &&& self.s_thresholds@.len() == MAX_HARTS
        &&& self.m_claim@.len() == MAX_HARTS
        &&& self.s_claim@.len() == MAX_HARTS
    }

    /// The priority of `irq` as the guest reads it (0 for a non-source).
    pub open spec fn prio(&self, irq: int) -> u32 {
        if valid_irq(irq) {
            self.priority@[irq]
        } else {
            0
        }
    }

    /// Whether `irq` is pending.
    pub open spec fn pending(&self, irq: int) -> bool {
        valid_irq(irq) && self.pending_cnt@[irq] > 0
    }

    /// Whether `irq` is enabled in the context of `hart` in `mode`.
    pub open spec fn enabled(&self, irq: int, mode: PLICMode, hart: int) -> bool {
        valid_irq(irq) && valid_ctx(mode, hart) && if mode == PLICMode::Machine {
            self.m_enables@[hart * VPLIC_SOURCES + irq]
        } else {
            self.s_enables@[hart * VPLIC_SOURCES + irq]
        }
    }

    /// The threshold of the context of `hart` in `mode` (0 for none).
    pub open spec fn threshold(&self, mode: PLICMode, hart: int) -> u32 {
        if !valid_ctx(mode, hart) {
            0
        } else if mode == PLICMode::Machine {
            self.m_thresholds@[hart]
        } else {
            self.s_thresholds@[hart]
        }
    }

    /// Whether `irq` is ready for the context: pending, enabled, and of a
    /// priority at least the threshold.
    pub open spec fn ready(&self, irq: int, mode: PLICMode, hart: int) -> bool {
        self.pending(irq) && self.enabled(irq, mode, hart) && self.prio(irq) >= self.threshold(mode, hart)
    }

    /// The lowest source from `i` on that is ready for the context, 0 if none.
    pub open spec fn first_ready(&self, mode: PLICMode, hart: int, i: int) -> int
        decreases PLIC_MAX_IRQ + 1 - i,
    {
        if i < 1 || i > PLIC_MAX_IRQ {
            0
        } else if self.ready(i, mode, hart) {
            i
        } else {
            self.first_ready(mode, hart, i + 1)
        }
    }

    /// The lowest source ready for the context, 0 if none.
    pub open spec fn pending_irq(&self, mode: PLICMode, hart: int) -> int {
        self.first_ready(mode, hart, 1)
    }

    /// A nonzero answer of `first_ready` is a ready source at or after `i`,
    /// and no source between `i` and it is ready.
    pub proof fn lemma_first_ready(&self, mode: PLICMode, hart: int, i: int)
        requires
            1 <= i,
        ensures
            self.first_ready(mode, hart, i) != 0 ==> i <= self.first_ready(mode, hart, i) <= PLIC_MAX_IRQ
                && self.ready(self.first_ready(mode, hart, i), mode, hart),
            forall|j: int| i <= j < self.first_ready(mode, hart, i) ==> !#[trigger] self.ready(j, mode, hart),
            self.first_ready(mode, hart, i) == 0 ==> forall|j: int| i <= j <= PLIC_MAX_IRQ ==> !#[trigger] self.ready(j, mode, hart),
        decreases PLIC_MAX_IRQ + 1 - i,
    {
        if i <= PLIC_MAX_IRQ && !self.ready(i, mode, hart) {
            self.lemma_first_ready(mode, hart, i + 1);
        }
    }

    /// Whether `other` is `self` with only the pending counts changed.
    pub open spec fn same_but_pending(&self, other: &Self) -> bool {
        &&& self.emulated_base_addr == other.emulated_base_addr
        &&& self.priority@ == other.priority@
        &&& self.m_enables@ == other.m_enables@
        &&& self.s_enables@ == other.s_enables@
        &&& self.m_thresholds@ == other.m_thresholds@
        &&& self.s_thresholds@ == other.s_thresholds@
        &&& self.m_claim@ == other.m_claim@
        &&& self.s_claim@ == other.s_claim@
    }

    /// A virtual PLIC at `emulated_base_addr` with every source at priority 0,
    /// not pending and disabled, and every threshold and claim 0.
    pub fn new(emulated_base_addr: usize) -> (r: VPlicInner)
        ensures
            r.wf(),
            r.emulated_base_addr == emulated_base_addr,
            forall|i: int| 0 <= i < VPLIC_SOURCES ==> r.priority@[i] == 0 && r.pending_cnt@[i] == 0,
            forall|i: int| 0 <= i < MAX_HARTS * VPLIC_SOURCES ==> !r.m_enables@[i] && !r.s_enables@[i],
            forall|h: int| 0 <= h < MAX_HARTS ==> r.m_thresholds@[h] == 0 && r.s_thresholds@[h] == 0
                && r.m_claim@[h] == 0 && r.s_claim@[h] == 0,
    {
        VPlicInner {
            emulated_base_addr,
            priority: vec_u32(VPLIC_SOURCES),
            pending_cnt: vec_usize(VPLIC_SOURCES),
            m_enables: vec_false(MAX_HARTS * VPLIC_SOURCES),
            s_enables: vec_false(MAX_HARTS * VPLIC_SOURCES),
            m_thresholds: vec_u32(MAX_HARTS),
            s_thresholds: vec_u32(MAX_HARTS),
            m_claim: vec_u32(MAX_HARTS),
            s_claim: vec_u32(MAX_HARTS),
        }
    }

    /// The address of the first register.
    pub fn get_emulated_base_addr(&self) -> (r: usize)
        ensures
            r == self.emulated_base_addr,
    {
        self.emulated_base_addr
    }

    /// The priority of `irq` (0 for a non-source).
    pub fn get_priority(&self, irq: usize) -> (r: usize)
        requires
            self.wf(),
        ensures
            r == self.prio(irq as int),
    {
        if !(irq <= PLIC_MAX_IRQ && irq > 0) {
            return 0;
        }
        self.priority[irq] as usize
    }

    /// Sets the priority of `irq` (a non-source is left alone); a source
    /// handed through to the VM (`passthrough`) gets priority 1 on the
    /// physical PLIC.
    pub fn set_priority(&mut self, irq: usize, priority: usize, passthrough: bool) -> (r: Option<PlicForward>)
        requires
            old(self).wf(),
        ensures
            final(self).wf(),
            !valid_irq(irq as int) ==> *final(self) == *old(self) && r is None,
            valid_irq(irq as int) ==> final(self).priority@ == old(self).priority@.update(irq as int, priority as u32),
            valid_irq(irq as int) ==> r == (if passthrough { Some(PlicForward::SetPriorityOne(irq)) } else { None }),
            final(self).pending_cnt@ == old(self).pending_cnt@,
            final(self).emulated_base_addr == old(self).emulated_base_addr,
            final(self).m_enables@ == old(self).m_enables@,
            final(self).s_enables@ == old(self).s_enables@,
            final(self).m_thresholds@ == old(self).m_thresholds@,
            final(self).s_thresholds@ == old(self).s_thresholds@,
            final(self).m_claim@ == old(self).m_claim@,
            final(self).s_claim@ == old(self).s_claim@,
    {
        if !(irq <= PLIC_MAX_IRQ && irq > 0) {
            return None;
        }
        self.priority.set(irq, priority as u32);
        if passthrough {
            Some(PlicForward::SetPriorityOne(irq))
        } else {
            None
        }
    }

    /// Whether `irq` is pending.
    pub fn get_pending(&self, irq: usize) -> (r: bool)
        requires
            self.wf(),
        ensures
            r == self.pending(irq as int),
    {
        if !(irq <= PLIC_MAX_IRQ && irq > 0) {
            return false;
        }
        self.pending_cnt[irq] > 0
    }

    /// Whether `irq` is enabled in the context of `hart` in `mode`.
    pub fn get_enable(&self, irq: usize, mode: PLICMode, hart: usize) -> (r: bool)
        requires
            self.wf(),
        ensures
            r == self.enabled(irq as int, mode, hart as int),
    {
        if !(irq <= PLIC_MAX_IRQ && irq > 0) || hart >= MAX_HARTS || (mode == PLICMode::Supervisor && hart == 0) {
            return false;
        }
        match mode {
            PLICMode::Machine => self.m_enables[hart * VPLIC_SOURCES + irq],
            PLICMode::Supervisor => self.s_enables[hart * VPLIC_SOURCES + irq],
        }
    }

    /// Enables (`en`) or disables `irq` in the context of `hart` in `mode`; for
    /// a source handed through, the change goes to the physical hart
    /// `pcpu` that runs virtual hart `hart`, if any.
    pub fn update_enable(&mut self, irq: usize, mode: PLICMode, hart: usize, en: bool, passthrough: bool, pcpu: Option<usize>) -> (r: Option<PlicForward>)
        requires
            old(self).wf(),
        ensures
            final(self).wf(),
            forall|i: int, m: PLICMode, h: int| #[trigger] final(self).enabled(i, m, h) == (if i == irq && m == mode && h == hart
                && valid_irq(i) && valid_ctx(m, h) {
                en
            } else {
                old(self).enabled(i, m, h)
            }),
            valid_irq(irq as int) && valid_ctx(mode, hart as int) && passthrough && pcpu is Some ==> r == Some(
                if en {
                    PlicForward::SetEnable { irq, mode, pcpu: pcpu->0 }
                } else {
                    PlicForward::ClearEnable { irq, mode, pcpu: pcpu->0 }
                },
            ),
            !(valid_irq(irq as int) && valid_ctx(mode, hart as int) && passthrough && pcpu is Some) ==> r is None,
            final(self).priority@ == old(self).priority@,
            final(self).pending_cnt@ == old(self).pending_cnt@,
            final(self).emulated_base_addr == old(self).emulated_base_addr,
            final(self).m_thresholds@ == old(self).m_thresholds@,
            final(self).s_thresholds@ == old(self).s_thresholds@,
            final(self).m_claim@ == old(self).m_claim@,
            final(self).s_claim@ == old(self).s_claim@,
    {
        if !(irq <= PLIC_MAX_IRQ && irq > 0) || hart >= MAX_HARTS || (mode == PLICMode::Supervisor && hart == 0) {
            return None;
        }
        let idx = hart * VPLIC_SOURCES + irq;
        let ghost old_self = *self;
        match mode {
            PLICMode::Machine => self.m_enables.set(idx, en),
            PLICMode::Supervisor => self.s_enables.set(idx, en),
        }
        proof {
            assert forall|i: int, m: PLICMode, h: int| #[trigger] self.enabled(i, m, h) == (if i == irq && m == mode && h == hart
                && valid_irq(i) && valid_ctx(m, h) {
                en
            } else {
                old_self.enabled(i, m, h)
            }) by {
                if valid_irq(i) && valid_ctx(m, h) && !(i == irq && h == hart) {
                    assert(h * 512 + i != hart * 512 + irq) by (nonlinear_arith)
                        requires
                            0 < i < 512,
                            0 < irq < 512,
                            0 <= h,
                            0 <= hart,
                            !(i == irq && h == hart),
                    ;
                }
            }
        }
        match pcpu {
            Some(p) => if passthrough {
                Some(if en {
                    PlicForward::SetEnable { irq, mode, pcpu: p }
                } else {
                    PlicForward::ClearEnable { irq, mode, pcpu: p }
                })
            } else {
                None
            },
            None => None,
        }
    }

    /// The threshold of the context of `hart` in `mode` (0 for none).
    pub fn get_threshold(&self, mode: PLICMode, hart: usize) -> (r: usize)
        requires
            self.wf(),
        ensures
            r == self.threshold(mode, hart as int),
    {
        if hart >= MAX_HARTS || (mode == PLICMode::Supervisor && hart == 0) {
            return 0;
        }
        match mode {
            PLICMode::Machine => self.m_thresholds[hart] as usize,
            PLICMode::Supervisor => self.s_thresholds[hart] as usize,
        }
    }

    /// Sets the threshold of the context of `hart` in `mode` (no context, no change).
    pub fn set_threshold(&mut self, mode: PLICMode, hart: usize, threshold: usize)
        requires
            old(self).wf(),
        ensures
            final(self).wf(),
            forall|m: PLICMode, h: int| #[trigger] final(self).threshold(m, h) == (if m == mode && h == hart && valid_ctx(m, h) {
                threshold as u32
            } else {
                old(self).threshold(m, h)
            }),
            final(self).priority@ == old(self).priority@,
            final(self).pending_cnt@ == old(self).pending_cnt@,
            final(self).m_enables@ == old(self).m_enables@,
            final(self).s_enables@ == old(self).s_enables@,
            final(self).emulated_base_addr == old(self).emulated_base_addr,
            final(self).m_claim@ == old(self).m_claim@,
            final(self).s_claim@ == old(self).s_claim@,
    {
        if hart >= MAX_HARTS || (mode == PLICMode::Supervisor && hart == 0) {
            return;
        }
        match mode {
            PLICMode::Machine => self.m_thresholds.set(hart, threshold as u32),
            PLICMode::Supervisor => self.s_thresholds.set(hart, threshold as u32),
        }
    }

    /// The lowest source ready for the context of `hart` in `mode`, 0 if none.
    pub fn get_pending_irq(&self, mode: PLICMode, hart: usize) -> (r: usize)
        requires
            self.wf(),
        ensures
            r == self.pending_irq(mode, hart as int),
    {
        let thres = self.get_threshold(mode, hart);
        let mut i: usize = 1;
        while i <= PLIC_MAX_IRQ
            invariant
                self.wf(),
                1 <= i <= PLIC_MAX_IRQ + 1,
                thres == self.threshold(mode, hart as int),
                self.first_ready(mode, hart as int, i as int) == self.pending_irq(mode, hart as int),
            decreases PLIC_MAX_IRQ + 1 - i,
        {
            if self.get_pending(i) && self.get_enable(i, mode, hart) && self.get_priority(i) >= thres {
                return i;
            }
            i = i + 1;
        }
        0
    }

    /// Claims the lowest source ready for the context of `hart` in `mode`: one
    /// of its pending injections is taken; 0 if none is ready. (The caller
    /// also clears the guest's external interrupt.)
    pub fn get_claim(&mut self, mode: PLICMode, hart: usize) -> (r: usize)
        requires
            old(self).wf(),
        ensures
            final(self).wf(),
            r == old(self).pending_irq(mode, hart as int),
            r == 0 ==> final(self).pending_cnt@ == old(self).pending_cnt@,
            r != 0 ==> final(self).pending_cnt@ == old(self).pending_cnt@.update(r as int, (old(self).pending_cnt@[r as int] - 1) as usize),
            final(self).same_but_pending(&*old(self)),
    {
        let irq = self.get_pending_irq(mode, hart);
        proof {
            self.lemma_first_ready(mode, hart as int, 1);
        }
        if irq != 0 {
            let c = self.pending_cnt[irq];
            self.pending_cnt.set(irq, c - 1);
        }
        irq
    }

    /// Completes the handling of `irq`: nothing to do.
    pub fn set_complete(&self, mode: PLICMode, hart: usize, irq: usize) {
    }
}

fn vec_u32(n: usize) -> (v: Vec<u32>)
    ensures
        v@.len() == n,
        forall|i: int| 0 <= i < n ==> v@[i] == 0,
{
    let mut v: Vec<u32> = Vec::new();
    let mut i: usize = 0;
    while i < n
        invariant
            i <= n,
            v@.len() == i,
            forall|j: int| 0 <= j < i ==> v@[j] == 0,
        decreases n - i,
    {
        v.push(0);
        i = i + 1;
    }
    v
}

fn vec_usize(n: usize) -> (v: Vec<usize>)
    ensures
        v@.len() == n,
        forall|i: int| 0 <= i < n ==> v@[i] == 0,
{
    let mut v: Vec<usize> = Vec::new();
    let mut i: usize = 0;
    while i < n
        invariant
            i <= n,
            v@.len() == i,
            forall|j: int| 0 <= j < i ==> v@[j] == 0,
        decreases n - i,
    {
        v.push(0);
        i = i + 1;
    }
    v
}

fn vec_false(n: usize) -> (v: Vec<bool>)
    ensures
        v@.len() == n,
        forall|i: int| 0 <= i < n ==> !v@[i],
{
    let mut v: Vec<bool> = Vec::new();
    let mut i: usize = 0;
    while i < n
        invariant
            i <= n,
            v@.len() == i,
            forall|j: int| 0 <= j < i ==> !v@[j],
        decreases n - i,
    {
        v.push(false);
        i = i + 1;
    }
    v
}


/// Bit `i` of a 32-bit register value.
pub open spec fn bit32(v: u32, i: int) -> bool {
    (v >> (i as u32)) & 1 == 1
}

proof fn lemma_set_bit32()
    by (bit_vector)
    ensures
        forall|v: u32, i: u32, j: u32| i < 32 && j < 32 ==> ((#[trigger] (((v | (1u32 << i)) >> j) & 1u32)) == 1u32) == (j == i || ((v >> j) & 1u32) == 1u32),
        forall|j: u32| j < 32 ==> #[trigger] ((0u32 >> j) & 1u32) == 0u32,
{
}

/// A register of the virtual PLIC, by the offset of its word.
#[derive(Clone, Copy, PartialEq, Eq, Structural, Debug)]
pub enum VplicReg {
    /// The priority of a source.
    Priority(usize),
    /// A word of pending bits.
    Pending(usize),
    /// A word of enable bits of a context.
    Enable { index: usize, mode: PLICMode, hart: usize },
    /// The threshold of a context.
    Threshold { mode: PLICMode, hart: usize },
    /// The claim and complete register of a context.
    Claim { mode: PLICMode, hart: usize },
    /// Another word of a context's block: reads 0, writes do nothing.
    Ignored,
}

/// Whether `off` is the offset of a word that the guest may read: within the
/// window, pending words within the 16 that exist, enable words from the
/// first hart context on.
pub open spec fn readable_offset(off: int) -> bool {
    &&& 0 <= off <= PLIC_THRESHOLD_CLAIM_END
    &&& PLIC_PENDING_BEGIN <= off <= PLIC_PENDING_END ==> (off - PLIC_PENDING_BEGIN) / 4 < 16
    &&& PLIC_ENABLE_BEGIN <= off <= PLIC_ENABLE_END ==> off >= 0x2080
}

/// Whether `off` is the offset of a word that the guest may write: as for a
/// read, but the pending words are read-only.
pub open spec fn writable_offset(off: int) -> bool {
    &&& 0 <= off <= PLIC_THRESHOLD_CLAIM_END
    &&& !(PLIC_PENDING_BEGIN <= off <= PLIC_PENDING_END)
    &&& PLIC_ENABLE_BEGIN <= off <= PLIC_ENABLE_END ==> off >= 0x2080
}

/// The register whose word is at offset `off` (a multiple of 4): the
/// priorities, then the pending words, then the enable words (32 words per
/// context, machine context at 0x80 in each 0x100 block, hart `h` at block
/// `h + 1` counted from 0x1f80), then the context blocks of 0x1000 bytes
/// (supervisor context at 0x2000 in each 0x2000 block), the threshold at 0
/// and the claim at 4.
pub open spec fn vplic_reg(off: int) -> VplicReg {
    if off <= PLIC_PRIO_END {
        VplicReg::Priority((off / 4) as usize)
    } else if off <= PLIC_PENDING_END {
        VplicReg::Pending(((off - PLIC_PENDING_BEGIN) / 4) as usize)
    } else if off <= PLIC_ENABLE_END {
        VplicReg::Enable {
            index: ((off % 0x80) / 4) as usize,
            mode: if (off / 0x80) % 2 == 1 { PLICMode::Machine } else { PLICMode::Supervisor },
            hart: ((off - 0x1f80) / 0x100 - 1) as usize,
        }
    } else {
        let mode = if (off / 0x2000) % 2 == 1 { PLICMode::Supervisor } else { PLICMode::Machine };
        let hart = ((off - PLIC_THRESHOLD_CLAIM_BEGIN) / 0x2000) as usize;
        if off % 0x1000 == 0 {
            VplicReg::Threshold { mode, hart }
        } else if off % 0x1000 == 4 {
            VplicReg::Claim { mode, hart }
        } else {
            VplicReg::Ignored
        }
    }
}

proof fn lemma_offset_bits()
    by (bit_vector)
    ensures
        forall|x: usize| #[trigger] (x & 0x7fusize) == x % 0x80,
        forall|x: usize| ((#[trigger] (x & 0x80usize)) != 0) == ((x / 0x80) % 2 == 1),
        forall|x: usize| #[trigger] (x & 0xfffusize) == x % 0x1000,
        forall|x: usize| ((#[trigger] (x & 0x2000usize)) != 0) == ((x / 0x2000) % 2 == 1),
        forall|x: usize| #[trigger] (x & !3usize) == x - x % 4,
{
}

/// The register at offset `off` (a multiple of 4 within the window).
pub fn decode_vplic_reg(off: usize) -> (r: VplicReg)
    requires
        off <= PLIC_THRESHOLD_CLAIM_END,
        PLIC_ENABLE_BEGIN <= off <= PLIC_ENABLE_END ==> off >= 0x2080,
    ensures
        r == vplic_reg(off as int),
{
    proof {
        lemma_offset_bits();
    }
    if off <= PLIC_PRIO_END {
        VplicReg::Priority((off - PLIC_PRIO_BEGIN) / 0x4)
    } else if off <= PLIC_PENDING_END {
        VplicReg::Pending((off - PLIC_PENDING_BEGIN) / 0x4)
    } else if off <= PLIC_ENABLE_END {
        let index = (off & (0x80 - 1)) / 0x4;
        let mode = if (off & 0x80) != 0 {
            PLICMode::Machine
        } else {
            PLICMode::Supervisor
        };
        let hart = (off - 0x1f80) / 0x100 - 1;
        VplicReg::Enable { index, mode, hart }
    } else {
        let reg = off & 0xfff;
        let mode = if (off & 0x2000) != 0 {
            PLICMode::Supervisor
        } else {
            PLICMode::Machine
        };
        let hart = (off - PLIC_THRESHOLD_CLAIM_BEGIN) / 0x2000;
        if reg == 0x0 {
            VplicReg::Threshold { mode, hart }
        } else if reg == 0x4 {
            VplicReg::Claim { mode, hart }
        } else {
            VplicReg::Ignored
        }
    }
}

impl VPlicInner {
    /// The pending word `index`: bit `i` set when source `32 * index + i` has
    /// a pending injection.
    pub fn get_pending_reg(&self, index: usize) -> (r: u32)
        requires
            self.wf(),
            index < 16,
        ensures
            forall|i: int| 0 <= i < 32 ==> bit32(r, i) == (self.pending_cnt@[index * 32 + i] > 0),
    {
        let mut res: u32 = 0;
        let mut i: usize = 0;
        proof {
            lemma_set_bit32();
        }
        while i < 32
            invariant
                self.wf(),
                index < 16,
                i <= 32,
                forall|j: int| 0 <= j < i ==> bit32(res, j) == (self.pending_cnt@[index * 32 + j] > 0),
                forall|j: int| i <= j < 32 ==> !bit32(res, j),
            decreases 32 - i,
        {
            proof {
                lemma_set_bit32();
            }
            if self.pending_cnt[index * 32 + i] > 0 {
                let ghost before = res;
                res = res | (1u32 << (i as u32));
                assert forall|j: int| 0 <= j < 32 implies bit32(res, j) == (j == i || bit32(before, j)) by {
                    assert(((((before | (1u32 << (i as u32))) >> (j as u32)) & 1u32) == 1u32) == ((j as u32) == (i as u32) || ((before >> (j as u32)) & 1u32) == 1u32));
                }
            }
            i = i + 1;
        }
        res
    }

    /// The enable word `index` of the context of `hart` in `mode`: bit `i`
    /// set when source `32 * index + i` is enabled there.
    pub fn get_enable_reg(&self, index: usize, mode: PLICMode, hart: usize) -> (r: u32)
        requires
            self.wf(),
            index < 32,
        ensures
            forall|i: int| 0 <= i < 32 ==> bit32(r, i) == self.enabled(index * 32 + i, mode, hart as int),
    {
        let mut res: u32 = 0;
        let mut i: usize = 0;
        proof {
            lemma_set_bit32();
        }
        while i < 32
            invariant
                self.wf(),
                index < 32,
                i <= 32,
                forall|j: int| 0 <= j < i ==> bit32(res, j) == self.enabled(index * 32 + j, mode, hart as int),
                forall|j: int| i <= j < 32 ==> !bit32(res, j),
            decreases 32 - i,
        {
            proof {
                lemma_set_bit32();
            }
            if self.get_enable(index * 32 + i, mode, hart) {
                let ghost before = res;
                res = res | (1u32 << (i as u32));
                assert forall|j: int| 0 <= j < 32 implies bit32(res, j) == (j == i || bit32(before, j)) by {
                    assert(((((before | (1u32 << (i as u32))) >> (j as u32)) & 1u32) == 1u32) == ((j as u32) == (i as u32) || ((before >> (j as u32)) & 1u32) == 1u32));
                }
            }
            i = i + 1;
        }
        res
    }

    /// Writes enable word `index` of the context of `hart` in `mode`: each
    /// source of the word is enabled or disabled by its bit of `val`; changes
    /// to sources handed through (`passthrough`, by source) go to the physical
    /// hart `pcpu` that runs virtual hart `hart`, if any, in order.
    pub fn edit_enable_reg(&mut self, index: usize, mode: PLICMode, hart: usize, val: u32, passthrough: &Vec<bool>, pcpu: Option<usize>) -> (r: Vec<PlicForward>)
        requires
            old(self).wf(),
            index < 32,
            passthrough@.len() == VPLIC_SOURCES,
        ensures
            final(self).wf(),
            forall|i: int| 0 <= i < 32 ==> #[trigger] final(self).enabled(index * 32 + i, mode, hart as int) == (valid_irq(index * 32 + i)
                && valid_ctx(mode, hart as int) && bit32(val, i)),
            forall|irq: int, m: PLICMode, h: int| !(m == mode && h == hart && index * 32 <= irq < index * 32 + 32)
                ==> #[trigger] final(self).enabled(irq, m, h) == old(self).enabled(irq, m, h),
            final(self).priority@ == old(self).priority@,
            final(self).pending_cnt@ == old(self).pending_cnt@,
            final(self).emulated_base_addr == old(self).emulated_base_addr,
            final(self).m_thresholds@ == old(self).m_thresholds@,
            final(self).s_thresholds@ == old(self).s_thresholds@,
            final(self).m_claim@ == old(self).m_claim@,
            final(self).s_claim@ == old(self).s_claim@,
    {
        let mut out: Vec<PlicForward> = Vec::new();
        let ghost start = *self;
        let mut i: usize = 0;
        while i < 32
            invariant
                self.wf(),
                index < 32,
                passthrough@.len() == VPLIC_SOURCES,
                i <= 32,
                forall|j: int| 0 <= j < i ==> #[trigger] self.enabled(index * 32 + j, mode, hart as int) == (valid_irq(index * 32 + j)
                    && valid_ctx(mode, hart as int) && bit32(val, j)),
                forall|irq: int, m: PLICMode, h: int| !(m == mode && h == hart && index * 32 <= irq < index * 32 + i)
                    ==> #[trigger] self.enabled(irq, m, h) == start.enabled(irq, m, h),
                self.priority@ == start.priority@,
                self.pending_cnt@ == start.pending_cnt@,
                self.emulated_base_addr == start.emulated_base_addr,
                self.m_thresholds@ == start.m_thresholds@,
                self.s_thresholds@ == start.s_thresholds@,
                self.m_claim@ == start.m_claim@,
                self.s_claim@ == start.s_claim@,
            decreases 32 - i,
        {
            let irq = index * 32 + i;
            let en = (val >> (i as u32)) & 1 == 1;
            let pt = irq < VPLIC_SOURCES && passthrough[irq];
            let ghost before = *self;
            match self.update_enable(irq, mode, hart, en, pt, pcpu) {
                Some(f) => out.push(f),
                None => {},
            }
            proof {
                assert forall|j: int| 0 <= j < i + 1 implies #[trigger] self.enabled(index * 32 + j, mode, hart as int) == (valid_irq(index * 32 + j)
                    && valid_ctx(mode, hart as int) && bit32(val, j)) by {
                    if j < i {
                        assert(before.enabled(index * 32 + j, mode, hart as int) == (valid_irq(index * 32 + j)
                            && valid_ctx(mode, hart as int) && bit32(val, j)));
                    }
                }
            }
            i = i + 1;
        }
        out
    }

    /// Records an injection of external source `irq` (one more pending) and
    /// says whether a source is now ready for the machine context of the
    /// injecting virtual hart `vcpu`.
    pub fn inject_external_intr(&mut self, irq: usize, vcpu: usize) -> (r: bool)
        requires
            old(self).wf(),
            irq < VPLIC_SOURCES,
            old(self).pending_cnt@[irq as int] < usize::MAX,
        ensures
            final(self).wf(),
            final(self).pending_cnt@ == old(self).pending_cnt@.update(irq as int, (old(self).pending_cnt@[irq as int] + 1) as usize),
            final(self).same_but_pending(&*old(self)),
            r == (final(self).pending_irq(PLICMode::Machine, vcpu as int) != 0),
    {
        let c = self.pending_cnt[irq];
        self.pending_cnt.set(irq, c + 1);
        self.get_pending_irq(PLICMode::Machine, vcpu) != 0
    }

    /// Injects interrupt `irq` into the guest from virtual hart `vcpu`: the
    /// guest timer and the software interrupt are raised directly, any other
    /// is recorded as an external source.
    pub fn inject_intr(&mut self, irq: usize, vcpu: usize) -> (r: InjectAction)
        requires
            old(self).wf(),
            irq != crate::arch::riscv64::interrupt::IRQ_GUEST_TIMER && irq != crate::arch::riscv64::interrupt::IRQ_IPI ==> irq < VPLIC_SOURCES
                && old(self).pending_cnt@[irq as int] < usize::MAX,
        ensures
            final(self).wf(),
            irq == crate::arch::riscv64::interrupt::IRQ_GUEST_TIMER ==> r == InjectAction::Timer && *final(self) == *old(self),
            irq == crate::arch::riscv64::interrupt::IRQ_IPI ==> r == InjectAction::Software && *final(self) == *old(self),
            irq != crate::arch::riscv64::interrupt::IRQ_GUEST_TIMER && irq != crate::arch::riscv64::interrupt::IRQ_IPI ==> {
                &&& final(self).pending_cnt@ == old(self).pending_cnt@.update(irq as int, (old(self).pending_cnt@[irq as int] + 1) as usize)
                &&& final(self).same_but_pending(&*old(self))
                &&& r == InjectAction::External(final(self).pending_irq(PLICMode::Machine, vcpu as int) != 0)
            },
    {
        if irq == crate::arch::riscv64::interrupt::IRQ_GUEST_TIMER {
            InjectAction::Timer
        } else if irq == crate::arch::riscv64::interrupt::IRQ_IPI {
            InjectAction::Software
        } else {
            InjectAction::External(self.inject_external_intr(irq, vcpu))
        }
    }
}


/// The offset of the word that an access at `addr` touches, in a window at `base`.
pub open spec fn word_offset(addr: usize, base: usize) -> int {
    (addr - base) - (addr - base) % 4
}

/// The hart that runs virtual hart `hart`, if the VM has that many.
pub open spec fn pcpu_of(pcpus: Seq<Option<usize>>, hart: int) -> Option<usize> {
    if 0 <= hart < pcpus.len() {
        pcpus[hart]
    } else {
        None
    }
}

impl VPlicInner {
    /// A guest's read of the word at `addr`: a priority, a pending word, an
    /// enable word, a threshold, or a claim (which takes a pending injection
    /// of the source it returns); 0 for the other words of a context block.
    pub fn vm_read_register(&mut self, addr: usize) -> (r: u32)
        requires
            old(self).wf(),
            addr >= old(self).emulated_base_addr,
            readable_offset(word_offset(addr, old(self).emulated_base_addr)),
        ensures
            final(self).wf(),
            match vplic_reg(word_offset(addr, old(self).emulated_base_addr)) {
                VplicReg::Priority(irq) => r == old(self).prio(irq as int) && *final(self) == *old(self),
                VplicReg::Pending(index) => *final(self) == *old(self) && forall|i: int| 0 <= i < 32 ==> bit32(r, i) == (
                old(self).pending_cnt@[index * 32 + i] > 0),
                VplicReg::Enable { index, mode, hart } => *final(self) == *old(self) && forall|i: int|
                    0 <= i < 32 ==> bit32(r, i) == old(self).enabled(index * 32 + i, mode, hart as int),
                VplicReg::Threshold { mode, hart } => r == old(self).threshold(mode, hart as int) && *final(self) == *old(self),
                VplicReg::Claim { mode, hart } => {
                    &&& r == old(self).pending_irq(mode, hart as int)
                    &&& r == 0 ==> final(self).pending_cnt@ == old(self).pending_cnt@
                    &&& r != 0 ==> final(self).pending_cnt@ == old(self).pending_cnt@.update(r as int, (old(self).pending_cnt@[r as int] - 1) as usize)
                    &&& final(self).same_but_pending(&*old(self))
                },
                VplicReg::Ignored => r == 0 && *final(self) == *old(self),
            },
    {
        let raw = addr - self.emulated_base_addr;
        proof {
            lemma_offset_bits();
        }
        let offset = raw & !0x3;
        match decode_vplic_reg(offset) {
            VplicReg::Priority(irq) => self.get_priority(irq) as u32,
            VplicReg::Pending(index) => self.get_pending_reg(index),
            VplicReg::Enable { index, mode, hart } => self.get_enable_reg(index, mode, hart),
            VplicReg::Threshold { mode, hart } => self.get_threshold(mode, hart) as u32,
            VplicReg::Claim { mode, hart } => {
                proof {
                    self.lemma_first_ready(mode, hart as int, 1);
                }
                self.get_claim(mode, hart) as u32
            },
            VplicReg::Ignored => 0,
        }
    }

    /// A guest's write of `val` to the word at `addr`: a priority, an enable
    /// word, a threshold, or a completion (which does nothing); writes to the
    /// other words of a context block do nothing. Changes to sources handed
    /// through (`passthrough`, by source) are passed on to the physical PLIC,
    /// for the physical hart `pcpus[h]` of virtual hart `h`, in order.
    pub fn vm_write_register(&mut self, addr: usize, val: u32, passthrough: &Vec<bool>, pcpus: &Vec<Option<usize>>) -> (r: Vec<PlicForward>)
        requires
            old(self).wf(),
            addr >= old(self).emulated_base_addr,
            writable_offset(word_offset(addr, old(self).emulated_base_addr)),
            passthrough@.len() == VPLIC_SOURCES,
        ensures
            final(self).wf(),
            final(self).pending_cnt@ == old(self).pending_cnt@,
            match vplic_reg(word_offset(addr, old(self).emulated_base_addr)) {
                VplicReg::Priority(irq) => if valid_irq(irq as int) {
                    &&& final(self).priority@ == old(self).priority@.update(irq as int, val)
                    &&& final(self).same_but_priority(&*old(self))
                    &&& r@ == (if passthrough@[irq as int] { seq![PlicForward::SetPriorityOne(irq)] } else { Seq::empty() })
                } else {
                    *final(self) == *old(self) && r@.len() == 0
                },
                VplicReg::Enable { index, mode, hart } => {
                    &&& forall|i: int| 0 <= i < 32 ==> #[trigger] final(self).enabled(index * 32 + i, mode, hart as int) == (
                    valid_irq(index * 32 + i) && valid_ctx(mode, hart as int) && bit32(val, i))
                    &&& forall|irq: int, m: PLICMode, h: int| !(m == mode && h == hart && index * 32 <= irq < index * 32 + 32)
                        ==> #[trigger] final(self).enabled(irq, m, h) == old(self).enabled(irq, m, h)
                    &&& final(self).priority@ == old(self).priority@
                    &&& final(self).m_thresholds@ == old(self).m_thresholds@
                    &&& final(self).s_thresholds@ == old(self).s_thresholds@
                },
                VplicReg::Threshold { mode, hart } => {
                    &&& forall|m: PLICMode, h: int| #[trigger] final(self).threshold(m, h) == (if m == mode && h == hart && valid_ctx(m, h) {
                        val
                    } else {
                        old(self).threshold(m, h)
                    })
                    &&& final(self).priority@ == old(self).priority@
                    &&& final(self).m_enables@ == old(self).m_enables@
                    &&& final(self).s_enables@ == old(self).s_enables@
                    &&& r@.len() == 0
                },
                _ => *final(self) == *old(self) && r@.len() == 0,
            },
    {
        let raw = addr - self.emulated_base_addr;
        proof {
            lemma_offset_bits();
        }
        let offset = raw & !0x3;
        let mut out: Vec<PlicForward> = Vec::new();
        match decode_vplic_reg(offset) {
            VplicReg::Priority(irq) => {
                let pt = irq < VPLIC_SOURCES && passthrough[irq];
                match self.set_priority(irq, val as usize, pt) {
                    Some(f) => out.push(f),
                    None => {},
                }
                proof {
                    if valid_irq(irq as int) {
                        assert(out@ =~= (if passthrough@[irq as int] { seq![PlicForward::SetPriorityOne(irq)] } else { Seq::empty() }));
                    }
                }
            },
            VplicReg::Enable { index, mode, hart } => {
                let pcpu = if hart < pcpus.len() {
                    pcpus[hart]
                } else {
                    None
                };
                out = self.edit_enable_reg(index, mode, hart, val, passthrough, pcpu);
            },
            VplicReg::Threshold { mode, hart } => {
                self.set_threshold(mode, hart, val as usize);
            },
            _ => {},
        }
        out
    }

    /// Whether `other` is `self` with only the priorities changed.
    pub open spec fn same_but_priority(&self, other: &Self) -> bool {
        &&& self.emulated_base_addr == other.emulated_base_addr
        &&& self.pending_cnt@ == other.pending_cnt@
        &&& self.m_enables@ == other.m_enables@
        &&& self.s_enables@ == other.s_enables@
        &&& self.m_thresholds@ == other.m_thresholds@
        &&& self.s_thresholds@ == other.s_thresholds@
        &&& self.m_claim@ == other.m_claim@
        &&& self.s_claim@ == other.s_claim@
    }
}

/// A read of an enable word gives back, for each source that exists in a
/// context that exists, the bit last written to it.
pub proof fn law_enable_word_roundtrip(s: VPlicInner, index: usize, mode: PLICMode, hart: usize, written: u32, read: u32)
    requires
        forall|i: int| 0 <= i < 32 ==> #[trigger] s.enabled(index * 32 + i, mode, hart as int) == (valid_irq(index * 32 + i)
            && valid_ctx(mode, hart as int) && bit32(written, i)),
        forall|i: int| 0 <= i < 32 ==> bit32(read, i) == s.enabled(index * 32 + i, mode, hart as int),
    ensures
        forall|i: int| 0 <= i < 32 && valid_irq(index * 32 + i) && valid_ctx(mode, hart as int) ==> bit32(read, i) == bit32(written, i),
        forall|i: int| 0 <= i < 32 && !(valid_irq(index * 32 + i) && valid_ctx(mode, hart as int)) ==> !bit32(read, i),
{
}

/// A read of a source's priority gives back the priority last written to it.
pub proof fn law_priority_roundtrip(s0: VPlicInner, s1: VPlicInner, irq: usize, written: u32)
    requires
        s0.wf(),
        valid_irq(irq as int),
        s1.priority@ == s0.priority@.update(irq as int, written),
    ensures
        s1.prio(irq as int) == written,
{
}

/// A virtual PLIC for a VM, its registers at `base_ipa`.
pub fn emu_intc_init(base_ipa: usize) -> (r: VPlicInner)
    ensures
        r.wf(),
        r.emulated_base_addr == base_ipa,
        forall|i: int| 0 <= i < VPLIC_SOURCES ==> r.priority@[i] == 0 && r.pending_cnt@[i] == 0,
        forall|i: int| 0 <= i < MAX_HARTS * VPLIC_SOURCES ==> !r.m_enables@[i] && !r.s_enables@[i],
        forall|h: int| 0 <= h < MAX_HARTS ==> r.m_thresholds@[h] == 0 && r.s_thresholds@[h] == 0,
{
    VPlicInner::new(base_ipa)
}

} // verus!

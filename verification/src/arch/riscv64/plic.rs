//! The platform-level interrupt controller: where each of its registers lies
//! for an interrupt source and a hart context, and which bit of a register
//! word stands for a source.
use vstd::prelude::*;

verus! {

pub const PLIC_MAX_IRQ: usize = 511;
pub const MAX_HARTS: usize = 8;

pub const PLIC_PRIO_BEGIN: usize = 0x0000;
pub const PLIC_PRIO_END: usize = 0x0FFF;
pub const PLIC_PENDING_BEGIN: usize = 0x1000;
pub const PLIC_PENDING_END: usize = 0x1FFF;
pub const PLIC_ENABLE_BEGIN: usize = 0x2000;
pub const PLIC_ENABLE_END: usize = 0x1f_ffff;
pub const PLIC_THRESHOLD_CLAIM_BEGIN: usize = 0x20_0000;
pub const PLIC_THRESHOLD_CLAIM_END: usize = 0x3f_ffff;

/// The privilege mode of a hart context.
#[derive(Clone, Copy, PartialEq, Eq, Structural, Debug)]
pub enum PLICMode {
    Machine,
    Supervisor,
}

/// A 32-bit register write: the value `value` at address `addr`.
#[derive(Clone, Copy, PartialEq, Eq, Structural, Debug)]
pub struct MmioWrite {
    pub addr: usize,
    pub value: u32,
}

/// One bit of a 32-bit register: the word at `addr`, the bit `mask`.
#[derive(Clone, Copy, PartialEq, Eq, Structural, Debug)]
pub struct MmioBit {
    pub addr: usize,
    pub mask: u32,
}

/// Whether `irq` names an interrupt source: 1 to 511.
pub open spec fn plic_irq_valid(irq: usize) -> bool {
    0 < irq <= PLIC_MAX_IRQ
}

/// The bit of source `irq` in its 32-bit register word.
pub open spec fn irq_bit(irq: usize) -> u32 {
    1u32 << ((irq % 32) as u32)
}

fn irq_mask(irq: usize) -> (r: u32)
    ensures
        r == irq_bit(irq),
{
    1u32 << ((irq % 32) as u32)
}

/// A PLIC at `base_addr`.
#[derive(Clone, Copy, PartialEq, Eq, Structural, Debug)]
pub struct PLIC {
    pub base_addr: usize,
}

/// The offset of the enable word of `irq` for the context of `hart` in `mode`
/// (on the QEMU virt layout: hart contexts of 0x100 bytes, machine mode at
/// 0x80, supervisor mode at 0x100).
pub open spec fn enable_offset(irq: usize, mode: PLICMode, hart: usize) -> int {
    PLIC_ENABLE_BEGIN + (if mode == PLICMode::Machine {
        0x80int
    } else {
        0x100int
    }) + 0x100 * hart + 4 * (irq / 32)
}

/// The offset of the threshold register of the context of `hart` in `mode`;
/// the claim and complete register follows it.
pub open spec fn prio_claim_offset(mode: PLICMode, hart: usize) -> int {
    PLIC_THRESHOLD_CLAIM_BEGIN + (if mode == PLICMode::Machine {
        0x1000int
    } else {
        0x2000int
    }) + 0x2000 * hart
}

impl PLIC {
    /// A PLIC whose registers start at `base_addr`.
    pub fn new(base_addr: usize) -> (r: PLIC)
        ensures
            r.base_addr == base_addr,
    {
        PLIC { base_addr }
    }

    /// The address the registers start at.
    pub fn get_base_addr(&self) -> (r: usize)
        ensures
            r == self.base_addr,
    {
        self.base_addr
    }

    /// The address of the enable word of `irq` for the context of `hart` in
    /// `mode`; none for a number that names no source.
    pub fn get_enable_array_addr(&self, irq: usize, mode: PLICMode, hart: usize) -> (r: Option<usize>)
        requires
            plic_irq_valid(irq) ==> self.base_addr + enable_offset(irq, mode, hart) <= usize::MAX,
        ensures
            !plic_irq_valid(irq) ==> r is None,
            plic_irq_valid(irq) ==> r == Some((self.base_addr + enable_offset(irq, mode, hart)) as usize),
    {
        if !(irq <= PLIC_MAX_IRQ && irq > 0) {
            return None;
        }
        let res = match mode {
            PLICMode::Machine => self.base_addr + PLIC_ENABLE_BEGIN + 0x80 + 0x100 * hart + 0x4 * (irq / 32),
            PLICMode::Supervisor => self.base_addr + PLIC_ENABLE_BEGIN + 0x100 + 0x100 * hart + 0x4 * (irq / 32),
        };
        Some(res)
    }

    /// The address of the threshold register of the context of `hart` in `mode`.
    pub fn get_prio_claim_baseaddr(&self, mode: PLICMode, hart: usize) -> (r: Option<usize>)
        requires
            self.base_addr + prio_claim_offset(mode, hart) <= usize::MAX,
        ensures
            r == Some((self.base_addr + prio_claim_offset(mode, hart)) as usize),
    {
        let res = match mode {
            PLICMode::Machine => self.base_addr + PLIC_THRESHOLD_CLAIM_BEGIN + 0x1000 + 0x2000 * hart,
            PLICMode::Supervisor => self.base_addr + PLIC_THRESHOLD_CLAIM_BEGIN + 0x2000 + 0x2000 * hart,
        };
        Some(res)
    }
}

/// The register accesses of the PLIC's operations. A read is given as the
/// address (or bit) to read, a write as the word to write; `None` where the
/// operation does nothing (a read then gives 0 or false). The addresses of a
/// valid source or context must fit in a `usize`.
pub trait PLICTrait {
    /// The address the registers start at.
    spec fn base(&self) -> usize;

    /// The priority register of `irq`.
    fn get_priority(&self, irq: usize) -> Option<usize>
        requires
            plic_irq_valid(irq) ==> self.base() + 4 * irq <= usize::MAX,
    ;

    /// Sets the priority of `irq`.
    fn set_priority(&self, irq: usize, priority: usize) -> Option<MmioWrite>
        requires
            plic_irq_valid(irq) ==> self.base() + 4 * irq <= usize::MAX,
    ;

    /// The pending bit of `irq`.
    fn get_pending(&self, irq: usize) -> Option<MmioBit>
        requires
            plic_irq_valid(irq) ==> self.base() + PLIC_PENDING_BEGIN + 4 * (irq / 32) <= usize::MAX,
    ;

    /// The enable bit of `irq` for a context.
    fn get_enable(&self, irq: usize, mode: PLICMode, hart: usize) -> Option<MmioBit>
        requires
            plic_irq_valid(irq) ==> self.base() + enable_offset(irq, mode, hart) <= usize::MAX,
    ;

    /// The enable bit of `irq` to set for a context.
    fn set_enable(&self, irq: usize, mode: PLICMode, hart: usize) -> Option<MmioBit>
        requires
            plic_irq_valid(irq) ==> self.base() + enable_offset(irq, mode, hart) <= usize::MAX,
    ;

    /// The enable bit of `irq` to clear for a context.
    fn clear_enable(&self, irq: usize, mode: PLICMode, hart: usize) -> Option<MmioBit>
        requires
            plic_irq_valid(irq) ==> self.base() + enable_offset(irq, mode, hart) <= usize::MAX,
    ;

    /// The threshold register of a context.
    fn get_threshold(&self, mode: PLICMode, hart: usize) -> Option<usize>
        requires
            self.base() + prio_claim_offset(mode, hart) <= usize::MAX,
    ;

    /// Sets the threshold of a context.
    fn set_threshold(&self, mode: PLICMode, hart: usize, threshold: usize) -> Option<MmioWrite>
        requires
            self.base() + prio_claim_offset(mode, hart) <= usize::MAX,
    ;

    /// The claim register of a context.
    fn get_claim(&self, mode: PLICMode, hart: usize) -> Option<usize>
        requires
            self.base() + prio_claim_offset(mode, hart) + 4 <= usize::MAX,
    ;

    /// Completes the handling of `irq` in a context.
    fn set_complete(&self, mode: PLICMode, hart: usize, irq: usize) -> Option<MmioWrite>
        requires
            self.base() + prio_claim_offset(mode, hart) + 4 <= usize::MAX,
    ;
}

impl PLICTrait for PLIC {
    open spec fn base(&self) -> usize {
        self.base_addr
    }

    fn get_priority(&self, irq: usize) -> (r: Option<usize>)
        ensures
            !plic_irq_valid(irq) ==> r is None,
            plic_irq_valid(irq) ==> r == Some((self.base_addr + 4 * irq) as usize),
    {
        if !(irq <= PLIC_MAX_IRQ && irq > 0) {
            return None;
        }
        Some(self.base_addr + 0x4 * irq)
    }

    fn set_priority(&self, irq: usize, priority: usize) -> (r: Option<MmioWrite>)
        ensures
            !plic_irq_valid(irq) ==> r is None,
            plic_irq_valid(irq) ==> r == Some(
                MmioWrite { addr: (self.base_addr + 4 * irq) as usize, value: priority as u32 },
            ),
    {
        if !(irq <= PLIC_MAX_IRQ && irq > 0) {
            return None;
        }
        Some(MmioWrite { addr: self.base_addr + 0x4 * irq, value: priority as u32 })
    }

    fn get_pending(&self, irq: usize) -> (r: Option<MmioBit>)
        ensures
            !plic_irq_valid(irq) ==> r is None,
            plic_irq_valid(irq) ==> r == Some(
                MmioBit {
                    addr: (self.base_addr + PLIC_PENDING_BEGIN + 4 * (irq / 32)) as usize,
                    mask: irq_bit(irq),
                },
            ),
    {
        if !(irq <= PLIC_MAX_IRQ && irq > 0) {
            return None;
        }
        Some(MmioBit { addr: self.base_addr + PLIC_PENDING_BEGIN + 0x4 * (irq / 32), mask: irq_mask(irq) })
    }

    fn get_enable(&self, irq: usize, mode: PLICMode, hart: usize) -> (r: Option<MmioBit>)
        ensures
            r == self.enable_bit_spec(irq, mode, hart),
    {
        match self.get_enable_array_addr(irq, mode, hart) {
            Some(addr) => Some(MmioBit { addr, mask: irq_mask(irq) }),
            None => None,
        }
    }

    fn set_enable(&self, irq: usize, mode: PLICMode, hart: usize) -> (r: Option<MmioBit>)
        ensures
            r == self.enable_bit_spec(irq, mode, hart),
    {
        match self.get_enable_array_addr(irq, mode, hart) {
            Some(addr) => Some(MmioBit { addr, mask: irq_mask(irq) }),
            None => None,
        }
    }

    fn clear_enable(&self, irq: usize, mode: PLICMode, hart: usize) -> (r: Option<MmioBit>)
        ensures
            r == self.enable_bit_spec(irq, mode, hart),
    {
        match self.get_enable_array_addr(irq, mode, hart) {
            Some(addr) => Some(MmioBit { addr, mask: irq_mask(irq) }),
            None => None,
        }
    }

    fn get_threshold(&self, mode: PLICMode, hart: usize) -> (r: Option<usize>)
        ensures
            r == Some((self.base_addr + prio_claim_offset(mode, hart)) as usize),
    {
        self.get_prio_claim_baseaddr(mode, hart)
    }

    fn set_threshold(&self, mode: PLICMode, hart: usize, threshold: usize) -> (r: Option<MmioWrite>)
        ensures
            r == Some(
                MmioWrite {
                    addr: (self.base_addr + prio_claim_offset(mode, hart)) as usize,
                    value: threshold as u32,
                },
            ),
    {
        match self.get_prio_claim_baseaddr(mode, hart) {
            Some(addr) => Some(MmioWrite { addr, value: threshold as u32 }),
            None => None,
        }
    }

    fn get_claim(&self, mode: PLICMode, hart: usize) -> (r: Option<usize>)
        ensures
            r == Some((self.base_addr + prio_claim_offset(mode, hart) + 4) as usize),
    {
        match self.get_prio_claim_baseaddr(mode, hart) {
            Some(addr) => Some(addr + 0x4),
            None => None,
        }
    }

    fn set_complete(&self, mode: PLICMode, hart: usize, irq: usize) -> (r: Option<MmioWrite>)
        ensures
            r == Some(
                MmioWrite {
                    addr: (self.base_addr + prio_claim_offset(mode, hart) + 4) as usize,
                    value: irq as u32,
                },
            ),
    {
        match self.get_prio_claim_baseaddr(mode, hart) {
            Some(addr) => Some(MmioWrite { addr: addr + 0x4, value: irq as u32 }),
            None => None,
        }
    }
}

impl PLIC {
    /// The enable bit of `irq` for the context of `hart` in `mode`, for a
    /// valid source.
    pub open spec fn enable_bit_spec(&self, irq: usize, mode: PLICMode, hart: usize) -> Option<MmioBit> {
        if plic_irq_valid(irq) {
            Some(
                MmioBit {
                    addr: (self.base_addr + enable_offset(irq, mode, hart)) as usize,
                    mask: irq_bit(irq),
                },
            )
        } else {
            None
        }
    }
}

/// Whether source `irq` is pending in the pending words `words` (word `k`
/// holds sources `32k` to `32k + 31`).
pub open spec fn pending_in(words: Seq<u32>, irq: int) -> bool {
    words[irq / 32] & (1u32 << ((irq % 32) as u32)) != 0
}

/// The pending sources 1 to 511, in increasing order, given the 16 pending
/// words of the PLIC.
pub fn get_pending_list(words: &Vec<u32>) -> (r: Vec<usize>)
    requires
        words@.len() == 16,
    ensures
        forall|k: int| 0 <= k < r@.len() ==> 1 <= #[trigger] r@[k] <= PLIC_MAX_IRQ && pending_in(words@, r@[k] as int),
        forall|k1: int, k2: int| 0 <= k1 < k2 < r@.len() ==> r@[k1] < r@[k2],
        forall|irq: int| 1 <= irq <= PLIC_MAX_IRQ && pending_in(words@, irq) ==> r@.contains(irq as usize),
{
    let mut out: Vec<usize> = Vec::new();
    let mut irq: usize = 1;
    while irq <= PLIC_MAX_IRQ
        invariant
            1 <= irq <= PLIC_MAX_IRQ + 1,
            words@.len() == 16,
            forall|k: int| 0 <= k < out@.len() ==> 1 <= #[trigger] out@[k] < irq && pending_in(words@, out@[k] as int),
            forall|k1: int, k2: int| 0 <= k1 < k2 < out@.len() ==> out@[k1] < out@[k2],
            forall|i: int| 1 <= i < irq && pending_in(words@, i) ==> out@.contains(i as usize),
        decreases PLIC_MAX_IRQ + 1 - irq,
    {
        let word = words[irq / 32];
        let ghost before = out@;
        if word & (1u32 << ((irq % 32) as u32)) != 0 {
            out.push(irq);
            assert(out@[out@.len() - 1] == irq);
        }
        assert forall|i: int| 1 <= i < irq + 1 && pending_in(words@, i) implies out@.contains(i as usize) by {
            if i < irq {
                let k = choose|k: int| 0 <= k < before.len() && before[k] == i as usize;
                assert(out@[k] == before[k]);
            } else {
                assert(out@[out@.len() - 1] == irq);
            }
        }
        irq = irq + 1;
    }
    out
}

} // verus!

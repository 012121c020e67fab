//! The virtual APLIC a VM sees: a copy of the registers the guest wrote, each
//! write also made, where the VM owns the source, on the physical APLIC.
use vstd::prelude::*;

use crate::arch::riscv64::aplic::{
    domaincfg_word, fits, source_mode_code, APLICTrait, SourceModes, APLIC, APLIC_CLR_ENABLE_BASE,
    APLIC_CLR_ENABLE_NUM_BASE, APLIC_CLR_ENABLE_NUM_TOP, APLIC_CLR_ENABLE_TOP, APLIC_CLR_PENDING_BASE,
    APLIC_CLR_PENDING_NUM_BASE, APLIC_CLR_PENDING_NUM_TOP, APLIC_CLR_PENDING_TOP, APLIC_DOMAINCFG_BASE,
    APLIC_DOMAINCFG_TOP, APLIC_GENMSI_BASE, APLIC_GENMSI_TOP, APLIC_SET_ENABLE_BASE, APLIC_SET_ENABLE_NUM_BASE,
    APLIC_SET_ENABLE_NUM_TOP, APLIC_SET_ENABLE_TOP, APLIC_SET_IPNUM_BE_BASE, APLIC_SET_IPNUM_BE_TOP,
    APLIC_SET_IPNUM_LE_BASE, APLIC_SET_IPNUM_LE_TOP, APLIC_SET_PENDING_BASE, APLIC_SET_PENDING_NUM_BASE,
    APLIC_SET_PENDING_NUM_TOP, APLIC_SET_PENDING_TOP, APLIC_SOURCECFG_BASE, APLIC_SOURCECFG_TOP,
    APLIC_S_MSIADDR_BASE, APLIC_S_MSIADDR_TOP, APLIC_TARGET_BASE, APLIC_TARGET_TOP,
};
use crate::arch::riscv64::interrupt::{IRQ_GUEST_TIMER, IRQ_IPI};
use crate::arch::riscv64::plic::MmioWrite;
use crate::arch::riscv64::vplic::InjectAction;

verus! {

/// The size of the virtual APLIC's register window.
pub const VPLIC_LENGTH: usize = 0x8000;

/// The registers of a virtual APLIC.
pub struct VAPlicInner {
    pub emulated_base: usize,
    pub emulated_size: usize,
    pub domaincfg: u32,
    /// The configuration of sources 1 to 1023, source `i` at index `i - 1`.
    pub sourcecfg: Vec<u32>,
    pub mmsiaddrcfg: u32,
    pub mmsiaddrcfgh: u32,
    pub smsiaddrcfg: u32,
    pub smsiaddrcfgh: u32,
    pub setip: Vec<u32>,
    pub setipnum: u32,
    pub in_clrip: Vec<u32>,
    pub clripnum: u32,
    pub setie: Vec<u32>,
    pub setienum: u32,
    pub clrie: Vec<u32>,
    pub clrienum: u32,
    pub setipnum_le: u32,
    pub setipnum_be: u32,
    pub genmsi: u32,
    /// The target of sources 1 to 1023, source `i` at index `i - 1`.
    pub target: Vec<u32>,
}

/// A vector of `n` zero words.
fn zeros(n: usize) -> (r: Vec<u32>)
    ensures
        r@.len() == n,
        forall|i: int| 0 <= i < n ==> #[trigger] r@[i] == 0,
{
    let mut v: Vec<u32> = Vec::new();
    let mut i: usize = 0;
    while i < n
        invariant
            i <= n,
            v@.len() == i,
            forall|j: int| 0 <= j < i ==> #[trigger] v@[j] == 0,
        decreases n - i,
    {
        v.push(0);
        i = i + 1;
    }
    v
}

/// The source mode a source configuration word names, if it names one.
pub open spec fn mode_of_code(value: u32) -> Option<SourceModes> {
    if value == 0 {
        Some(SourceModes::Inactive)
    } else if value == 1 {
        Some(SourceModes::Detached)
    } else if value == 4 {
        Some(SourceModes::RisingEdge)
    } else if value == 5 {
        Some(SourceModes::FallingEdge)
    } else if value == 6 {
        Some(SourceModes::LevelHigh)
    } else if value == 7 {
        Some(SourceModes::LevelLow)
    } else {
        None
    }
}

/// The register a guest access at byte offset `offset` of the window
/// addresses: the offset rounded down to a word.
pub open spec fn word_offset(offset: usize) -> usize {
    (offset - offset % 4) as usize
}

/// Whether `off` lies in `[lo, hi]`.
pub open spec fn within(off: usize, lo: usize, hi: usize) -> bool {
    lo <= off && off <= hi
}

/// Whether a guest write of `value` at word offset `off` is one the virtual
/// APLIC takes: not to the pending, set-enable or MSI-generation registers,
/// a source mode it knows, and a register that exists.
pub open spec fn vaplic_write_ok(off: usize, value: u32) -> bool {
    if within(off, APLIC_DOMAINCFG_BASE, APLIC_DOMAINCFG_TOP) {
        true
    } else if within(off, APLIC_SOURCECFG_BASE, APLIC_SOURCECFG_TOP) {
        (value >> 10u32) & 1 == 1 || mode_of_code(value) is Some
    } else if within(off, APLIC_S_MSIADDR_BASE, APLIC_S_MSIADDR_TOP) {
        true
    } else if within(off, APLIC_SET_PENDING_BASE, APLIC_SET_PENDING_TOP) || within(
        off,
        APLIC_SET_PENDING_NUM_BASE,
        APLIC_SET_PENDING_NUM_TOP,
    ) || within(off, APLIC_CLR_PENDING_BASE, APLIC_CLR_PENDING_TOP) || within(
        off,
        APLIC_CLR_PENDING_NUM_BASE,
        APLIC_CLR_PENDING_NUM_TOP,
    ) || within(off, APLIC_SET_ENABLE_BASE, APLIC_SET_ENABLE_TOP) {
        false
    } else if within(off, APLIC_SET_ENABLE_NUM_BASE, APLIC_SET_ENABLE_NUM_TOP) || within(
        off,
        APLIC_CLR_ENABLE_BASE,
        APLIC_CLR_ENABLE_TOP,
    ) || within(off, APLIC_CLR_ENABLE_NUM_BASE, APLIC_CLR_ENABLE_NUM_TOP) || within(
        off,
        APLIC_SET_IPNUM_LE_BASE,
        APLIC_SET_IPNUM_LE_TOP,
    ) || within(off, APLIC_SET_IPNUM_BE_BASE, APLIC_SET_IPNUM_BE_TOP) {
        true
    } else if within(off, APLIC_GENMSI_BASE, APLIC_GENMSI_TOP) {
        false
    } else {
        within(off, APLIC_TARGET_BASE, APLIC_TARGET_TOP)
    }
}

/// Whether the VM has source `irq` (`vm_irqs` lists the VM's interrupts by number).
pub open spec fn vm_owns_irq(vm_irqs: Seq<bool>, irq: int) -> bool {
    0 <= irq < vm_irqs.len() && vm_irqs[irq]
}

/// Whether the VM has source `irq`.
pub fn vm_has_interrupt(vm_irqs: &Vec<bool>, irq: usize) -> (r: bool)
    ensures
        r == vm_owns_irq(vm_irqs@, irq as int),
{
    irq < vm_irqs.len() && vm_irqs[irq]
}

impl VAPlicInner {
    /// Whether the register arrays have their sizes.
    pub open spec fn wf(&self) -> bool {
        &&& self.sourcecfg@.len() == 1023
        &&& self.target@.len() == 1023
        &&& self.setip@.len() == 32
        &&& self.in_clrip@.len() == 32
        &&& self.setie@.len() == 32
        &&& self.clrie@.len() == 32
    }

    /// A virtual APLIC at `emulated_base` with every register 0.
    pub fn new(emulated_base: usize) -> (r: VAPlicInner)
        ensures
            r.wf(),
            r.emulated_base == emulated_base,
            r.emulated_size == VPLIC_LENGTH,
            r.domaincfg == 0,
            forall|i: int| 0 <= i < 1023 ==> #[trigger] r.sourcecfg@[i] == 0 && r.target@[i] == 0,
            forall|i: int| 0 <= i < 32 ==> #[trigger] r.setip@[i] == 0 && r.in_clrip@[i] == 0 && r.setie@[i] == 0
                && r.clrie@[i] == 0,
    {
        VAPlicInner {
            emulated_base,
            emulated_size: VPLIC_LENGTH,
            domaincfg: 0,
            sourcecfg: zeros(1023),
            mmsiaddrcfg: 0,
            mmsiaddrcfgh: 0,
            smsiaddrcfg: 0,
            smsiaddrcfgh: 0,
            setip: zeros(32),
            setipnum: 0,
            in_clrip: zeros(32),
            clripnum: 0,
            setie: zeros(32),
            setienum: 0,
            clrie: zeros(32),
            clrienum: 0,
            setipnum_le: 0,
            setipnum_be: 0,
            genmsi: 0,
            target: zeros(1023),
        }
    }

    /// Where the register window starts.
    pub fn get_emulated_base_addr(&self) -> (r: usize)
        ensures
            r == self.emulated_base,
    {
        self.emulated_base
    }

    /// Sets the domain configuration, here and (the returned write) on `global`.
    pub fn set_domaincfg(&mut self, global: &APLIC, bigendian: bool, msimode: bool, enabled: bool) -> (w: MmioWrite)
        ensures
            w == (MmioWrite { addr: global.base, value: domaincfg_word(bigendian, msimode, enabled) }),
            final(self).domaincfg == domaincfg_word(bigendian, msimode, enabled),
            *final(self) == (VAPlicInner { domaincfg: final(self).domaincfg, ..*old(self) }),
    {
        let w = global.set_domaincfg(bigendian, msimode, enabled);
        let enabled: u32 = if enabled { 1 } else { 0 };
        let msimode: u32 = if msimode { 1 } else { 0 };
        let bigendian: u32 = if bigendian { 1 } else { 0 };
        self.domaincfg = (enabled << 8u32) | (msimode << 2u32) | bigendian;
        w
    }

    /// The domain configuration.
    pub fn get_domaincfg(&self) -> (r: u32)
        ensures
            r == self.domaincfg,
    {
        self.domaincfg
    }

    /// Whether the domain delivers by MSI (bits 2 and 3 of its configuration).
    pub fn get_msimode(&self) -> (r: bool)
        ensures
            r == ((self.domaincfg >> 2u32) & 3 != 0),
    {
        ((self.domaincfg >> 2) & 0b11) != 0
    }
}


impl VAPlicInner {
    /// Sets the mode of source `irq`; the physical source is set too when the
    /// VM has it (the returned write).
    pub fn set_sourcecfg(&mut self, global: &APLIC, irq: u32, mode: SourceModes, vm_has: bool) -> (w: Option<MmioWrite>)
        requires
            old(self).wf(),
            0 < irq < 1024,
            fits(global.base, APLIC_SOURCECFG_BASE + (irq - 1) * 4),
        ensures
            final(self).wf(),
            final(self).sourcecfg@ == old(self).sourcecfg@.update(irq - 1, source_mode_code(mode)),
            *final(self) == (VAPlicInner { sourcecfg: final(self).sourcecfg, ..*old(self) }),
            w == if vm_has {
                Some(
                    MmioWrite {
                        addr: (global.base + APLIC_SOURCECFG_BASE + (irq - 1) * 4) as usize,
                        value: source_mode_code(mode),
                    },
                )
            } else {
                None
            },
    {
        let w = if vm_has {
            Some(global.set_sourcecfg(irq, mode))
        } else {
            None
        };
        self.sourcecfg.set(irq as usize - 1, mode.code());
        w
    }

    /// Delegates source `irq` to child domain `child`; the physical source is
    /// delegated too when the VM has it (the returned write).
    pub fn set_sourcecfg_delegate(&mut self, global: &APLIC, irq: u32, child: u32, vm_has: bool) -> (w: Option<MmioWrite>)
        requires
            old(self).wf(),
            0 < irq < 1024,
            fits(global.base, APLIC_SOURCECFG_BASE + (irq - 1) * 4),
        ensures
            final(self).wf(),
            final(self).sourcecfg@ == old(self).sourcecfg@.update(irq - 1, (1u32 << 10u32) | (child & 0x3ff)),
            *final(self) == (VAPlicInner { sourcecfg: final(self).sourcecfg, ..*old(self) }),
            w == if vm_has {
                Some(
                    MmioWrite {
                        addr: (global.base + APLIC_SOURCECFG_BASE + (irq - 1) * 4) as usize,
                        value: (1u32 << 10u32) | (child & 0x3ff),
                    },
                )
            } else {
                None
            },
    {
        let w = if vm_has {
            Some(global.set_sourcecfg_delegate(irq, child))
        } else {
            None
        };
        self.sourcecfg.set(irq as usize - 1, (1u32 << 10u32) | (child & 0x3ff));
        w
    }

    /// The configuration of source `irq`.
    pub fn get_sourcecfg(&self, irq: u32) -> (r: u32)
        requires
            self.wf(),
            0 < irq < 1024,
        ensures
            r == self.sourcecfg@[irq - 1],
    {
        self.sourcecfg[irq as usize - 1]
    }

    /// Sets the MSI address (its page number), here and on `global`.
    pub fn set_msiaddr(&mut self, global: &APLIC, addr: usize) -> (w: (MmioWrite, MmioWrite))
        requires
            fits(global.base, APLIC_S_MSIADDR_BASE + 4),
        ensures
            w.0 == (MmioWrite { addr: (global.base + APLIC_S_MSIADDR_BASE) as usize, value: (addr >> 12usize) as u32 }),
            w.1 == (MmioWrite { addr: (global.base + APLIC_S_MSIADDR_BASE + 4) as usize, value: 0 }),
            *final(self) == (VAPlicInner { smsiaddrcfg: (addr >> 12usize) as u32, smsiaddrcfgh: 0, ..*old(self) }),
    {
        let w = global.set_msiaddr(addr);
        self.smsiaddrcfg = (addr >> 12) as u32;
        self.smsiaddrcfgh = 0;
        w
    }

    /// Set-pending word `irqidx`.
    pub fn get_pending(&self, irqidx: usize) -> (r: u32)
        requires
            self.wf(),
            irqidx < 32,
        ensures
            r == self.setip@[irqidx as int],
    {
        self.setip[irqidx]
    }

    /// Writes set-pending (`pending`) or clear-pending word `irqidx`, here and on `global`.
    pub fn set_pending(&mut self, global: &APLIC, irqidx: usize, value: u32, pending: bool) -> (w: MmioWrite)
        requires
            old(self).wf(),
            irqidx < 32,
            fits(global.base, APLIC_CLR_PENDING_BASE + irqidx * 4),
        ensures
            final(self).wf(),
            w == (MmioWrite {
                addr: (global.base + (if pending { APLIC_SET_PENDING_BASE } else { APLIC_CLR_PENDING_BASE }) + irqidx * 4) as usize,
                value,
            }),
            pending ==> *final(self) == (VAPlicInner { setip: final(self).setip, ..*old(self) })
                && final(self).setip@ == old(self).setip@.update(irqidx as int, value),
            !pending ==> *final(self) == (VAPlicInner { in_clrip: final(self).in_clrip, ..*old(self) })
                && final(self).in_clrip@ == old(self).in_clrip@.update(irqidx as int, value),
    {
        let w = global.set_pending(irqidx, value, pending);
        if pending {
            self.setip.set(irqidx, value);
        } else {
            self.in_clrip.set(irqidx, value);
        }
        w
    }

    /// Writes the set-pending-by-number register, here and on `global`.
    pub fn set_pending_num(&mut self, global: &APLIC, value: u32) -> (w: MmioWrite)
        requires
            fits(global.base, APLIC_SET_PENDING_NUM_BASE as int),
        ensures
            w == (MmioWrite { addr: (global.base + APLIC_SET_PENDING_NUM_BASE) as usize, value }),
            *final(self) == (VAPlicInner { setipnum: value, ..*old(self) }),
    {
        let w = global.set_pending_num(value);
        self.setipnum = value;
        w
    }

    /// Clear-pending word `irqidx`.
    pub fn get_in_clrip(&self, irqidx: usize) -> (r: u32)
        requires
            self.wf(),
            irqidx < 32,
        ensures
            r == self.in_clrip@[irqidx as int],
    {
        self.in_clrip[irqidx]
    }

    /// Set-enable word `irqidx`.
    pub fn get_enable(&self, irqidx: usize) -> (r: u32)
        requires
            self.wf(),
            irqidx < 32,
        ensures
            r == self.setie@[irqidx as int],
    {
        self.setie[irqidx]
    }

    /// Clear-enable word `irqidx`.
    pub fn get_clr_enable(&self, irqidx: usize) -> (r: u32)
        requires
            self.wf(),
            irqidx < 32,
        ensures
            r == self.clrie@[irqidx as int],
    {
        self.clrie[irqidx]
    }

    /// Writes set-enable (`enabled`) or clear-enable word `irqidx`, here and on `global`.
    pub fn set_enable(&mut self, global: &APLIC, irqidx: usize, value: u32, enabled: bool) -> (w: MmioWrite)
        requires
            old(self).wf(),
            irqidx < 32,
            fits(global.base, APLIC_CLR_ENABLE_BASE + irqidx * 4),
        ensures
            final(self).wf(),
            w == (MmioWrite {
                addr: (global.base + (if enabled { APLIC_SET_ENABLE_BASE } else { APLIC_CLR_ENABLE_BASE }) + irqidx * 4) as usize,
                value,
            }),
            enabled ==> *final(self) == (VAPlicInner { setie: final(self).setie, ..*old(self) })
                && final(self).setie@ == old(self).setie@.update(irqidx as int, value),
            !enabled ==> *final(self) == (VAPlicInner { clrie: final(self).clrie, ..*old(self) })
                && final(self).clrie@ == old(self).clrie@.update(irqidx as int, value),
    {
        let w = global.set_enable(irqidx, value, enabled);
        if enabled {
            self.setie.set(irqidx, value);
        } else {
            self.clrie.set(irqidx, value);
        }
        w
    }

    /// Writes the set-enable-by-number register, here and on `global`.
    pub fn set_enable_num(&mut self, global: &APLIC, value: u32) -> (w: MmioWrite)
        requires
            fits(global.base, APLIC_SET_ENABLE_NUM_BASE as int),
        ensures
            w == (MmioWrite { addr: (global.base + APLIC_SET_ENABLE_NUM_BASE) as usize, value }),
            *final(self) == (VAPlicInner { setienum: value, ..*old(self) }),
    {
        let w = global.set_enable_num(value);
        self.setienum = value;
        w
    }

    /// Writes the clear-enable-by-number register, here and on `global`.
    pub fn clr_enable_num(&mut self, global: &APLIC, value: u32) -> (w: MmioWrite)
        requires
            fits(global.base, APLIC_CLR_ENABLE_NUM_BASE as int),
        ensures
            w == (MmioWrite { addr: (global.base + APLIC_CLR_ENABLE_NUM_BASE) as usize, value }),
            *final(self) == (VAPlicInner { clrienum: value, ..*old(self) }),
    {
        let w = global.clr_enable_num(value);
        self.clrienum = value;
        w
    }

    /// Writes the little-endian set-pending-by-number register, here and on `global`.
    pub fn setipnum_le(&mut self, global: &APLIC, value: u32) -> (w: MmioWrite)
        requires
            fits(global.base, APLIC_SET_IPNUM_LE_BASE as int),
        ensures
            w == (MmioWrite { addr: (global.base + APLIC_SET_IPNUM_LE_BASE) as usize, value }),
            *final(self) == (VAPlicInner { setipnum_le: value, ..*old(self) }),
    {
        let w = global.setipnum_le(value);
        self.setipnum_le = value;
        w
    }

    /// Targets source `irq` at MSI `eiid` of guest `guest` of hart `hart`; on
    /// `global` too when the VM has the source.
    pub fn set_target_msi(&mut self, global: &APLIC, irq: u32, hart: u32, guest: u32, eiid: u32, vm_has: bool) -> (w: Option<MmioWrite>)
        requires
            old(self).wf(),
            0 < irq < 1024,
            fits(global.base, APLIC_TARGET_BASE + (irq - 1) * 4),
        ensures
            final(self).wf(),
            final(self).target@ == old(self).target@.update(irq - 1, (hart << 18u32) | (guest << 12u32) | eiid),
            *final(self) == (VAPlicInner { target: final(self).target, ..*old(self) }),
            w == if vm_has {
                Some(
                    MmioWrite {
                        addr: (global.base + APLIC_TARGET_BASE + (irq - 1) * 4) as usize,
                        value: (hart << 18u32) | (guest << 12u32) | eiid,
                    },
                )
            } else {
                None
            },
    {
        let w = if vm_has {
            Some(global.set_target_msi(irq, hart, guest, eiid))
        } else {
            None
        };
        self.target.set(irq as usize - 1, (hart << 18u32) | (guest << 12u32) | eiid);
        w
    }

    /// Targets source `irq` at hart `hart` with priority `prio` (its low
    /// byte); on `global` too when the VM has the source.
    pub fn set_target_direct(&mut self, global: &APLIC, irq: u32, hart: u32, prio: u32, vm_has: bool) -> (w: Option<MmioWrite>)
        requires
            old(self).wf(),
            0 < irq < 1024,
            fits(global.base, APLIC_TARGET_BASE + (irq - 1) * 4),
        ensures
            final(self).wf(),
            final(self).target@ == old(self).target@.update(irq - 1, (hart << 18u32) | (prio & 0xff)),
            *final(self) == (VAPlicInner { target: final(self).target, ..*old(self) }),
            w == if vm_has {
                Some(
                    MmioWrite {
                        addr: (global.base + APLIC_TARGET_BASE + (irq - 1) * 4) as usize,
                        value: (hart << 18u32) | (prio & 0xff),
                    },
                )
            } else {
                None
            },
    {
        let w = if vm_has {
            Some(global.set_target_direct(irq, hart, prio))
        } else {
            None
        };
        self.target.set(irq as usize - 1, (hart << 18u32) | (prio & 0xff));
        w
    }
}


/// The word offset, in the window at `base`, that an access at `addr` addresses.
pub fn vaplic_word_offset(base: usize, addr: usize) -> (r: usize)
    requires
        addr >= base,
    ensures
        r == word_offset((addr - base) as usize),
{
    let offset = addr - base;
    offset - offset % 4
}

impl VAPlicInner {
    /// A guest read at `addr`: the domain configuration, or a clear-pending
    /// word. No other register can be read.
    pub fn vm_read_register(&self, addr: usize) -> (r: u32)
        requires
            self.wf(),
            addr >= self.emulated_base,
            within(word_offset((addr - self.emulated_base) as usize), APLIC_DOMAINCFG_BASE, APLIC_DOMAINCFG_TOP)
                || within(word_offset((addr - self.emulated_base) as usize), APLIC_CLR_PENDING_BASE, APLIC_CLR_PENDING_TOP),
        ensures
            ({
                let off = word_offset((addr - self.emulated_base) as usize);
                r == if within(off, APLIC_DOMAINCFG_BASE, APLIC_DOMAINCFG_TOP) {
                    self.domaincfg
                } else {
                    self.in_clrip@[(off - APLIC_CLR_PENDING_BASE) / 4]
                }
            }),
    {
        let offset = vaplic_word_offset(self.get_emulated_base_addr(), addr);
        if APLIC_DOMAINCFG_BASE <= offset && offset <= APLIC_DOMAINCFG_TOP {
            self.get_domaincfg()
        } else {
            let irqidx = (offset - APLIC_CLR_PENDING_BASE) / 4;
            self.get_in_clrip(irqidx)
        }
    }

    /// A guest write of `value` at `addr`, made on the virtual registers; the
    /// result lists the writes to make on the physical APLIC `global`
    /// (source configuration and targets only for sources the VM has, by
    /// `vm_irqs`).
    pub fn vm_write_register(&mut self, global: &APLIC, addr: usize, value: u32, vm_irqs: &Vec<bool>) -> (w: Vec<MmioWrite>)
        requires
            old(self).wf(),
            addr >= old(self).emulated_base,
            vaplic_write_ok(word_offset((addr - old(self).emulated_base) as usize), value),
            fits(global.base, APLIC_TARGET_TOP as int),
        ensures
            final(self).wf(),
            ({
                let off = word_offset((addr - old(self).emulated_base) as usize);
                let o = *old(self);
                let f = *final(self);
                if within(off, APLIC_DOMAINCFG_BASE, APLIC_DOMAINCFG_TOP) {
                    let word = domaincfg_word(value & 1 != 0, (value >> 2u32) & 1 != 0, (value >> 8u32) & 1 != 0);
                    &&& f == (VAPlicInner { domaincfg: word, ..o })
                    &&& w@ == seq![MmioWrite { addr: global.base, value: word }]
                } else if within(off, APLIC_SOURCECFG_BASE, APLIC_SOURCECFG_TOP) {
                    let irq = (off - APLIC_SOURCECFG_BASE) / 4 + 1;
                    let word = if (value >> 10u32) & 1 == 1 { (1u32 << 10u32) | (value & 0x3ff) } else { value };
                    &&& f == (VAPlicInner { sourcecfg: f.sourcecfg, ..o })
                    &&& f.sourcecfg@ == o.sourcecfg@.update(irq - 1, word)
                    &&& w@ == if vm_owns_irq(vm_irqs@, irq) {
                        seq![MmioWrite { addr: (global.base + APLIC_SOURCECFG_BASE + (irq - 1) * 4) as usize, value: word }]
                    } else {
                        Seq::empty()
                    }
                } else if within(off, APLIC_S_MSIADDR_BASE, APLIC_S_MSIADDR_TOP) {
                    let address = ((value as usize) << 12usize) as usize;
                    &&& f == (VAPlicInner { smsiaddrcfg: (address >> 12usize) as u32, smsiaddrcfgh: 0, ..o })
                    &&& w@ == seq![
                        MmioWrite { addr: (global.base + APLIC_S_MSIADDR_BASE) as usize, value: (address >> 12usize) as u32 },
                        MmioWrite { addr: (global.base + APLIC_S_MSIADDR_BASE + 4) as usize, value: 0 },
                    ]
                } else if within(off, APLIC_SET_ENABLE_NUM_BASE, APLIC_SET_ENABLE_NUM_TOP) {
                    &&& f == (VAPlicInner { setienum: value, ..o })
                    &&& w@ == seq![MmioWrite { addr: (global.base + APLIC_SET_ENABLE_NUM_BASE) as usize, value }]
                } else if within(off, APLIC_CLR_ENABLE_BASE, APLIC_CLR_ENABLE_TOP) {
                    let idx = (off - APLIC_CLR_ENABLE_BASE) / 4;
                    &&& f == (VAPlicInner { clrie: f.clrie, ..o })
                    &&& f.clrie@ == o.clrie@.update(idx, value)
                    &&& w@ == seq![MmioWrite { addr: (global.base + APLIC_CLR_ENABLE_BASE + idx * 4) as usize, value }]
                } else if within(off, APLIC_CLR_ENABLE_NUM_BASE, APLIC_CLR_ENABLE_NUM_TOP) {
                    &&& f == (VAPlicInner { clrienum: value, ..o })
                    &&& w@ == seq![MmioWrite { addr: (global.base + APLIC_CLR_ENABLE_NUM_BASE) as usize, value }]
                } else if within(off, APLIC_SET_IPNUM_LE_BASE, APLIC_SET_IPNUM_LE_TOP) {
                    &&& f == (VAPlicInner { setipnum_le: value, ..o })
                    &&& w@ == seq![MmioWrite { addr: (global.base + APLIC_SET_IPNUM_LE_BASE) as usize, value }]
                } else if within(off, APLIC_SET_IPNUM_BE_BASE, APLIC_SET_IPNUM_BE_TOP) {
                    &&& f == o
                    &&& w@.len() == 0
                } else {
                    let irq = (off - APLIC_TARGET_BASE) / 4 + 1;
                    let hart = (value >> 18u32) & 0x3f;
                    let word = if (o.domaincfg >> 2u32) & 3 != 0 {
                        (hart << 18u32) | ((((value >> 12u32) & 0x3f) + 1) as u32) << 12u32 | (value & 0xfff)
                    } else {
                        (hart << 18u32) | ((value & 0xff) & 0xff)
                    };
                    &&& f == (VAPlicInner { target: f.target, ..o })
                    &&& f.target@ == o.target@.update(irq - 1, word)
                    &&& w@ == if vm_owns_irq(vm_irqs@, irq) {
                        seq![MmioWrite { addr: (global.base + APLIC_TARGET_BASE + (irq - 1) * 4) as usize, value: word }]
                    } else {
                        Seq::empty()
                    }
                }
            }),
    {
        let offset = vaplic_word_offset(self.get_emulated_base_addr(), addr);
        let mut w: Vec<MmioWrite> = Vec::new();
        if APLIC_DOMAINCFG_BASE <= offset && offset <= APLIC_DOMAINCFG_TOP {
            let enabled = ((value >> 8) & 0x1) != 0;
            let msimode = ((value >> 2) & 0b1) != 0;
            let bigendian = (value & 0b1) != 0;
            w.push(self.set_domaincfg(global, bigendian, msimode, enabled));
        } else if APLIC_SOURCECFG_BASE <= offset && offset <= APLIC_SOURCECFG_TOP {
            let irq = ((offset - APLIC_SOURCECFG_BASE) / 4) + 1;
            let vm_has = vm_has_interrupt(vm_irqs, irq);
            let r = if (value >> 10) & 0b1 == 1 {
                let child = value & 0x3ff;
                proof {
                    lemma_and_idem(value);
                }
                self.set_sourcecfg_delegate(global, irq as u32, child, vm_has)
            } else {
                let mode = match value {
                    0 => SourceModes::Inactive,
                    1 => SourceModes::Detached,
                    4 => SourceModes::RisingEdge,
                    5 => SourceModes::FallingEdge,
                    6 => SourceModes::LevelHigh,
                    _ => SourceModes::LevelLow,
                };
                self.set_sourcecfg(global, irq as u32, mode, vm_has)
            };
            if let Some(x) = r {
                w.push(x);
            }
        } else if APLIC_S_MSIADDR_BASE <= offset && offset <= APLIC_S_MSIADDR_TOP {
            let address = (value as usize) << 12;
            let (a, b) = self.set_msiaddr(global, address);
            w.push(a);
            w.push(b);
        } else if APLIC_SET_ENABLE_NUM_BASE <= offset && offset <= APLIC_SET_ENABLE_NUM_TOP {
            w.push(self.set_enable_num(global, value));
        } else if APLIC_CLR_ENABLE_BASE <= offset && offset <= APLIC_CLR_ENABLE_TOP {
            let irqidx = (offset - APLIC_CLR_ENABLE_BASE) / 4;
            w.push(self.set_enable(global, irqidx, value, false));
        } else if APLIC_CLR_ENABLE_NUM_BASE <= offset && offset <= APLIC_CLR_ENABLE_NUM_TOP {
            w.push(self.clr_enable_num(global, value));
        } else if APLIC_SET_IPNUM_LE_BASE <= offset && offset <= APLIC_SET_IPNUM_LE_TOP {
            w.push(self.setipnum_le(global, value));
        } else if APLIC_SET_IPNUM_BE_BASE <= offset && offset <= APLIC_SET_IPNUM_BE_TOP {
        } else {
            let irq = ((offset - APLIC_TARGET_BASE) / 4) as u32 + 1;
            let hart = (value >> 18) & 0x3F;
            let vm_has = vm_has_interrupt(vm_irqs, irq as usize);
            proof {
                lemma_and_idem(value);
            }
            let r = if self.get_msimode() {
                let guest = ((value >> 12) & 0x3F) + 1;
                let eiid = value & 0xFFF;
                self.set_target_msi(global, irq, hart, guest, eiid, vm_has)
            } else {
                let prio = value & 0xFF;
                self.set_target_direct(global, irq, hart, prio, vm_has)
            };
            if let Some(x) = r {
                w.push(x);
            }
        }
        w
    }

    /// What injecting interrupt `irq` into the guest takes: the guest timer
    /// and software interrupts are raised; any other is left as it is.
    pub fn inject_intr(&self, irq: usize) -> (r: Option<InjectAction>)
        ensures
            r == if irq == IRQ_GUEST_TIMER {
                Some(InjectAction::Timer)
            } else if irq == IRQ_IPI {
                Some(InjectAction::Software)
            } else {
                None::<InjectAction>
            },
    {
        if irq == IRQ_GUEST_TIMER {
            Some(InjectAction::Timer)
        } else if irq == IRQ_IPI {
            Some(InjectAction::Software)
        } else {
            None
        }
    }
}

proof fn lemma_and_idem(v: u32)
    ensures
        (v & 0x3ff) & 0x3ff == v & 0x3ff,
        (v >> 12u32) & 0x3f <= 0x3f,
{
    assert((v & 0x3ffu32) & 0x3ffu32 == v & 0x3ffu32 && (v >> 12u32) & 0x3fu32 <= 0x3fu32) by (bit_vector);
}

} // verus!

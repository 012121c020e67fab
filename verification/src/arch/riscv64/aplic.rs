//! The advanced platform-level interrupt controller: the register accesses of
//! its operations, and the words written into its registers.
use vstd::prelude::*;

use crate::arch::riscv64::plic::MmioWrite;

verus! {

pub const APLIC_DOMAINCFG_BASE: usize = 0x0000;
pub const APLIC_DOMAINCFG_TOP: usize = 0x0003;
pub const APLIC_SOURCECFG_BASE: usize = 0x0004;
pub const APLIC_SOURCECFG_TOP: usize = 0x0FFF;
pub const APLIC_S_MSIADDR_BASE: usize = 0x1BC8;
pub const APLIC_S_MSIADDR_TOP: usize = 0x1BCF;
pub const APLIC_SET_PENDING_BASE: usize = 0x1C00;
pub const APLIC_SET_PENDING_TOP: usize = 0x1C7F;
pub const APLIC_SET_PENDING_NUM_BASE: usize = 0x1CDC;
pub const APLIC_SET_PENDING_NUM_TOP: usize = 0x1CDF;
pub const APLIC_CLR_PENDING_BASE: usize = 0x1D00;
pub const APLIC_CLR_PENDING_TOP: usize = 0x1D7F;
pub const APLIC_CLR_PENDING_NUM_BASE: usize = 0x1DDC;
pub const APLIC_CLR_PENDING_NUM_TOP: usize = 0x1DDF;
pub const APLIC_SET_ENABLE_BASE: usize = 0x1E00;
pub const APLIC_SET_ENABLE_TOP: usize = 0x1E7F;
pub const APLIC_SET_ENABLE_NUM_BASE: usize = 0x1EDC;
pub const APLIC_SET_ENABLE_NUM_TOP: usize = 0x1EDF;
pub const APLIC_CLR_ENABLE_BASE: usize = 0x1F00;
pub const APLIC_CLR_ENABLE_TOP: usize = 0x1F7F;
pub const APLIC_CLR_ENABLE_NUM_BASE: usize = 0x1FDC;
pub const APLIC_CLR_ENABLE_NUM_TOP: usize = 0x1FDF;
pub const APLIC_SET_IPNUM_LE_BASE: usize = 0x2000;
pub const APLIC_SET_IPNUM_LE_TOP: usize = 0x2003;
pub const APLIC_SET_IPNUM_BE_BASE: usize = 0x2004;
pub const APLIC_SET_IPNUM_BE_TOP: usize = 0x2007;
pub const APLIC_GENMSI_BASE: usize = 0x3000;
pub const APLIC_GENMSI_TOP: usize = 0x3003;
pub const APLIC_TARGET_BASE: usize = 0x3004;
pub const APLIC_TARGET_TOP: usize = 0x3FFF;
pub const APLIC_IDC_BASE: usize = 0x4000;

/// How an interrupt source is triggered.
#[derive(Clone, Copy, PartialEq, Eq, Structural, Debug)]
pub enum SourceModes {
    Inactive,
    Detached,
    RisingEdge,
    FallingEdge,
    LevelHigh,
    LevelLow,
}

/// The source-mode field value of a mode.
pub open spec fn source_mode_code(m: SourceModes) -> u32 {
    match m {
        SourceModes::Inactive => 0,
        SourceModes::Detached => 1,
        SourceModes::RisingEdge => 4,
        SourceModes::FallingEdge => 5,
        SourceModes::LevelHigh => 6,
        SourceModes::LevelLow => 7,
    }
}

impl SourceModes {
    /// The source-mode field value of this mode.
    pub fn code(&self) -> (r: u32)
        ensures
            r == source_mode_code(*self),
    {
        match self {
            SourceModes::Inactive => 0,
            SourceModes::Detached => 1,
            SourceModes::RisingEdge => 4,
            SourceModes::FallingEdge => 5,
            SourceModes::LevelHigh => 6,
            SourceModes::LevelLow => 7,
        }
    }
}

/// The privilege mode of an interrupt domain.
#[derive(Clone, Copy, PartialEq, Eq, Structural, Debug)]
pub enum APLICMode {
    Machine,
    Supervisor,
}

/// An APLIC domain at `base` of `size` bytes.
#[derive(Clone, Copy, PartialEq, Eq, Structural, Debug)]
pub struct APLIC {
    pub base: usize,
    pub size: usize,
}

impl APLIC {
    /// An APLIC domain whose registers start at `base`.
    pub fn new(base: usize, size: usize) -> (r: APLIC)
        ensures
            r.base == base,
            r.size == size,
    {
        APLIC { base, size }
    }

    /// The address the registers start at.
    pub fn get_base_addr(&self) -> (r: usize)
        ensures
            r == self.base,
    {
        self.base
    }
}

/// The domain configuration word: interrupts enabled at bit 8, MSI delivery at
/// bit 2, big-endian at bit 0.
pub open spec fn domaincfg_word(bigendian: bool, msimode: bool, enabled: bool) -> u32 {
    ((if enabled { 1u32 } else { 0u32 }) << 8u32) | ((if msimode { 1u32 } else { 0u32 }) << 2u32) | (
    if bigendian {
        1u32
    } else {
        0u32
    })
}

/// Whether a domain configuration word selects MSI delivery (bits 2 and 3).
pub fn msimode_of(domaincfg: u32) -> (r: bool)
    ensures
        r == ((domaincfg >> 2u32) & 3 != 0),
{
    ((domaincfg >> 2) & 0b11) != 0
}

/// Whether `base + offset` is an address.
pub open spec fn fits(base: usize, offset: int) -> bool {
    base + offset <= usize::MAX
}

/// The register accesses of the APLIC's operations: a read is given as the
/// address to read, a write as the word to write there.
pub trait APLICTrait {
    /// The address the registers start at.
    spec fn base_spec(&self) -> usize;

    fn set_domaincfg(&self, bigendian: bool, msimode: bool, enabled: bool) -> MmioWrite;

    fn get_domaincfg(&self) -> usize;

    fn get_msimode(&self) -> usize;

    fn set_sourcecfg(&self, irq: u32, mode: SourceModes) -> MmioWrite
        requires
            0 < irq < 1024,
            fits(self.base_spec(), APLIC_SOURCECFG_BASE + (irq - 1) * 4),
    ;

    fn set_sourcecfg_delegate(&self, irq: u32, child: u32) -> MmioWrite
        requires
            0 < irq < 1024,
            fits(self.base_spec(), APLIC_SOURCECFG_BASE + (irq - 1) * 4),
    ;

    fn get_sourcecfg(&self, irq: u32) -> usize
        requires
            0 < irq < 1024,
            fits(self.base_spec(), APLIC_SOURCECFG_BASE + (irq - 1) * 4),
    ;

    fn set_msiaddr(&self, address: usize) -> (MmioWrite, MmioWrite)
        requires
            fits(self.base_spec(), APLIC_S_MSIADDR_BASE + 4),
    ;

    fn get_pending(&self, irqidx: usize) -> usize
        requires
            irqidx < 32,
            fits(self.base_spec(), APLIC_CLR_PENDING_BASE + irqidx * 4),
    ;

    fn set_pending(&self, irqidx: usize, value: u32, pending: bool) -> MmioWrite
        requires
            irqidx < 32,
            fits(self.base_spec(), APLIC_CLR_PENDING_BASE + irqidx * 4),
    ;

    fn set_pending_num(&self, value: u32) -> MmioWrite
        requires
            fits(self.base_spec(), APLIC_SET_PENDING_NUM_BASE as int),
    ;

    fn get_in_clrip(&self, irqidx: usize) -> usize
        requires
            irqidx < 32,
            fits(self.base_spec(), APLIC_CLR_PENDING_BASE + irqidx * 4),
    ;

    fn get_enable(&self, irqidx: usize) -> usize
        requires
            irqidx < 32,
            fits(self.base_spec(), APLIC_CLR_ENABLE_BASE + irqidx * 4),
    ;

    fn get_clr_enable(&self, irqidx: usize) -> usize
        requires
            irqidx < 32,
            fits(self.base_spec(), APLIC_CLR_ENABLE_BASE + irqidx * 4),
    ;

    fn set_enable(&self, irqidx: usize, value: u32, enabled: bool) -> MmioWrite
        requires
            irqidx < 32,
            fits(self.base_spec(), APLIC_CLR_ENABLE_BASE + irqidx * 4),
    ;

    fn set_enable_num(&self, value: u32) -> MmioWrite
        requires
            fits(self.base_spec(), APLIC_SET_ENABLE_NUM_BASE as int),
    ;

    fn clr_enable_num(&self, value: u32) -> MmioWrite
        requires
            fits(self.base_spec(), APLIC_CLR_ENABLE_NUM_BASE as int),
    ;

    fn setipnum_le(&self, value: u32) -> MmioWrite
        requires
            fits(self.base_spec(), APLIC_SET_IPNUM_LE_BASE as int),
    ;

    fn set_target_msi(&self, irq: u32, hart: u32, guest: u32, eiid: u32) -> MmioWrite
        requires
            irq >= 1,
            fits(self.base_spec(), APLIC_TARGET_BASE + (irq - 1) * 4),
    ;

    fn set_target_direct(&self, irq: u32, hart: u32, prio: u32) -> MmioWrite
        requires
            irq >= 1,
            fits(self.base_spec(), APLIC_TARGET_BASE + (irq - 1) * 4),
    ;
}

impl APLICTrait for APLIC {
    open spec fn base_spec(&self) -> usize {
        self.base
    }

    /// Writes the domain configuration word.
    fn set_domaincfg(&self, bigendian: bool, msimode: bool, enabled: bool) -> (r: MmioWrite)
        ensures
            r == (MmioWrite { addr: self.base, value: domaincfg_word(bigendian, msimode, enabled) }),
    {
        let enabled: u32 = if enabled { 1 } else { 0 };
        let msimode: u32 = if msimode { 1 } else { 0 };
        let bigendian: u32 = if bigendian { 1 } else { 0 };
        MmioWrite { addr: self.base + APLIC_DOMAINCFG_BASE, value: (enabled << 8u32) | (msimode << 2u32) | bigendian }
    }

    /// The domain configuration register.
    fn get_domaincfg(&self) -> (r: usize)
        ensures
            r == self.base,
    {
        self.base + APLIC_DOMAINCFG_BASE
    }

    /// The domain configuration register, whose word `msimode_of` reads.
    fn get_msimode(&self) -> (r: usize)
        ensures
            r == self.base,
    {
        self.base + APLIC_DOMAINCFG_BASE
    }

    /// Sets the trigger mode of source `irq`.
    fn set_sourcecfg(&self, irq: u32, mode: SourceModes) -> (r: MmioWrite)
        ensures
            r == (MmioWrite {
                addr: (self.base + APLIC_SOURCECFG_BASE + (irq - 1) * 4) as usize,
                value: source_mode_code(mode),
            }),
    {
        MmioWrite { addr: self.base + APLIC_SOURCECFG_BASE + (irq as usize - 1) * 4, value: mode.code() }
    }

    /// Delegates source `irq` to child domain `child` (bit 10, child index in bits 0 to 9).
    fn set_sourcecfg_delegate(&self, irq: u32, child: u32) -> (r: MmioWrite)
        ensures
            r == (MmioWrite {
                addr: (self.base + APLIC_SOURCECFG_BASE + (irq - 1) * 4) as usize,
                value: (1u32 << 10u32) | (child & 0x3ff),
            }),
    {
        MmioWrite {
            addr: self.base + APLIC_SOURCECFG_BASE + (irq as usize - 1) * 4,
            value: (1u32 << 10u32) | (child & 0x3ff),
        }
    }

    /// The configuration register of source `irq`.
    fn get_sourcecfg(&self, irq: u32) -> (r: usize)
        ensures
            r == self.base + APLIC_SOURCECFG_BASE + (irq - 1) * 4,
    {
        self.base + APLIC_SOURCECFG_BASE + (irq as usize - 1) * 4
    }

    /// Sets the MSI target address: its page number in the low word, 0 in the high word.
    fn set_msiaddr(&self, address: usize) -> (r: (MmioWrite, MmioWrite))
        ensures
            r.0 == (MmioWrite { addr: (self.base + APLIC_S_MSIADDR_BASE) as usize, value: (address >> 12usize) as u32 }),
            r.1 == (MmioWrite { addr: (self.base + APLIC_S_MSIADDR_BASE + 4) as usize, value: 0 }),
    {
        let addr = self.base + APLIC_S_MSIADDR_BASE;
        (MmioWrite { addr, value: (address >> 12) as u32 }, MmioWrite { addr: addr + 4, value: 0 })
    }

    /// The set-pending word `irqidx`.
    fn get_pending(&self, irqidx: usize) -> (r: usize)
        ensures
            r == self.base + APLIC_SET_PENDING_BASE + irqidx * 4,
    {
        self.base + APLIC_SET_PENDING_BASE + irqidx * 4
    }

    /// Writes `value` into set-pending word `irqidx`, or into clear-pending word
    /// `irqidx` when `pending` is false.
    fn set_pending(&self, irqidx: usize, value: u32, pending: bool) -> (r: MmioWrite)
        ensures
            r == (MmioWrite {
                addr: (self.base + (if pending {
                    APLIC_SET_PENDING_BASE
                } else {
                    APLIC_CLR_PENDING_BASE
                }) + irqidx * 4) as usize,
                value,
            }),
    {
        let addr = self.base + APLIC_SET_PENDING_BASE + irqidx * 4;
        let clr_addr = self.base + APLIC_CLR_PENDING_BASE + irqidx * 4;
        if pending {
            MmioWrite { addr, value }
        } else {
            MmioWrite { addr: clr_addr, value }
        }
    }

    fn set_pending_num(&self, value: u32) -> (r: MmioWrite)
        ensures
            r == (MmioWrite { addr: (self.base + APLIC_SET_PENDING_NUM_BASE) as usize, value }),
    {
        MmioWrite { addr: self.base + APLIC_SET_PENDING_NUM_BASE, value }
    }

    /// The clear-pending word `irqidx`.
    fn get_in_clrip(&self, irqidx: usize) -> (r: usize)
        ensures
            r == self.base + APLIC_CLR_PENDING_BASE + irqidx * 4,
    {
        self.base + APLIC_CLR_PENDING_BASE + irqidx * 4
    }

    /// The set-enable word `irqidx`.
    fn get_enable(&self, irqidx: usize) -> (r: usize)
        ensures
            r == self.base + APLIC_SET_ENABLE_BASE + irqidx * 4,
    {
        self.base + APLIC_SET_ENABLE_BASE + irqidx * 4
    }

    /// The clear-enable word `irqidx`.
    fn get_clr_enable(&self, irqidx: usize) -> (r: usize)
        ensures
            r == self.base + APLIC_CLR_ENABLE_BASE + irqidx * 4,
    {
        self.base + APLIC_CLR_ENABLE_BASE + irqidx * 4
    }

    /// Writes `value` into set-enable word `irqidx`, or into clear-enable word
    /// `irqidx` when `enabled` is false.
    fn set_enable(&self, irqidx: usize, value: u32, enabled: bool) -> (r: MmioWrite)
        ensures
            r == (MmioWrite {
                addr: (self.base + (if enabled {
                    APLIC_SET_ENABLE_BASE
                } else {
                    APLIC_CLR_ENABLE_BASE
                }) + irqidx * 4) as usize,
                value,
            }),
    {
        let addr = self.base + APLIC_SET_ENABLE_BASE + irqidx * 4;
        let clr_addr = self.base + APLIC_CLR_ENABLE_BASE + irqidx * 4;
        if enabled {
            MmioWrite { addr, value }
        } else {
            MmioWrite { addr: clr_addr, value }
        }
    }

    fn set_enable_num(&self, value: u32) -> (r: MmioWrite)
        ensures
            r == (MmioWrite { addr: (self.base + APLIC_SET_ENABLE_NUM_BASE) as usize, value }),
    {
        MmioWrite { addr: self.base + APLIC_SET_ENABLE_NUM_BASE, value }
    }

    fn clr_enable_num(&self, value: u32) -> (r: MmioWrite)
        ensures
            r == (MmioWrite { addr: (self.base + APLIC_CLR_ENABLE_NUM_BASE) as usize, value }),
    {
        MmioWrite { addr: self.base + APLIC_CLR_ENABLE_NUM_BASE, value }
    }

    fn setipnum_le(&self, value: u32) -> (r: MmioWrite)
        ensures
            r == (MmioWrite { addr: (self.base + APLIC_SET_IPNUM_LE_BASE) as usize, value }),
    {
        MmioWrite { addr: self.base + APLIC_SET_IPNUM_LE_BASE, value }
    }

    /// Targets source `irq` at MSI `eiid` of guest `guest` of hart `hart`
    /// (hart index from bit 18, guest index from bit 12).
    fn set_target_msi(&self, irq: u32, hart: u32, guest: u32, eiid: u32) -> (r: MmioWrite)
        ensures
            r == (MmioWrite {
                addr: (self.base + APLIC_TARGET_BASE + (irq - 1) * 4) as usize,
                value: (hart << 18u32) | (guest << 12u32) | eiid,
            }),
    {
        MmioWrite {
            addr: self.base + APLIC_TARGET_BASE + (irq as usize - 1) * 4,
            value: (hart << 18u32) | (guest << 12u32) | eiid,
        }
    }

    /// Targets source `irq` at hart `hart` with priority `prio` (its low byte).
    fn set_target_direct(&self, irq: u32, hart: u32, prio: u32) -> (r: MmioWrite)
        ensures
            r == (MmioWrite {
                addr: (self.base + APLIC_TARGET_BASE + (irq - 1) * 4) as usize,
                value: (hart << 18u32) | (prio & 0xff),
            }),
    {
        MmioWrite {
            addr: self.base + APLIC_TARGET_BASE + (irq as usize - 1) * 4,
            value: (hart << 18u32) | (prio & 0xff),
        }
    }
}

} // verus!

//! The decisions of the virtual GICv3 that the hypervisor emulates for a VM:
//! which virtual distributor or redistributor register a trapped access
//! targets, whether the access is well formed, how a virtual interrupt is
//! encoded into a list register, and which list register it takes.
use vstd::prelude::*;

pub use crate::device::EmuContext;

verus! {

pub const GIC_SGIS_NUM: usize = 16;
pub const GIC_PPIS_NUM: usize = 16;
pub const GIC_PRIVINT_NUM: usize = 32;
pub const GIC_PRIO_BITS: usize = 8;
pub const GIC_CONFIG_BITS: usize = 2;
pub const GIC_LIST_REGS_NUM: usize = 64;

/// The size of one redistributor's register frames.
pub const GICR_FRAME_SIZE: usize = 0x20000;

pub const GICH_LR_VID_MASK: u64 = 0xffff_ffff;
pub const GICH_LR_PID_OFF: u64 = 32;
pub const GICH_LR_PID_MSK: u64 = 0x3ff << 32;
pub const GICH_LR_PRIO_OFF: u64 = 48;
pub const GICH_LR_PRIO_MSK: u64 = 0xff << 48;
pub const GICH_LR_STATE_OFF: u64 = 62;
pub const GICH_LR_STATE_MSK: u64 = 0b11 << 62;
pub const GICH_LR_STATE_ACT: u64 = 0b10 << 62;
pub const GICH_LR_STATE_PND: u64 = 0b01 << 62;
pub const GICH_LR_GRP_BIT: u64 = 1 << 60;
pub const GICH_LR_HW_BIT: u64 = 1 << 61;
pub const GICH_LR_EOI_BIT: u64 = 1 << 41;

pub const GICH_MISR_EOI: u32 = 1;
pub const GICH_MISR_U: u32 = 1 << 1;
pub const GICH_MISR_LRPEN: u32 = 1 << 2;
pub const GICH_MISR_NP: u32 = 1 << 3;

pub const GICC_SGIR_SGIINTID_OFF: u64 = 24;
pub const GICC_SGIR_IRM_BIT: u64 = 1 << 40;

/// The state of a virtual interrupt.
#[derive(Clone, Copy, PartialEq, Eq, Structural, Debug)]
pub enum IrqState {
    IrqSInactive,
    IrqSPend,
    IrqSActive,
    IrqSPendActive,
}

/// The number of a state: bit 0 is pending, bit 1 is active.
pub open spec fn irq_state_num(s: IrqState) -> nat {
    match s {
        IrqState::IrqSInactive => 0,
        IrqState::IrqSPend => 1,
        IrqState::IrqSActive => 2,
        IrqState::IrqSPendActive => 3,
    }
}

/// The state that a number below 4 names.
pub open spec fn irq_state_of(num: nat) -> IrqState {
    if num == 0 {
        IrqState::IrqSInactive
    } else if num == 1 {
        IrqState::IrqSPend
    } else if num == 2 {
        IrqState::IrqSActive
    } else {
        IrqState::IrqSPendActive
    }
}

impl IrqState {
    /// The state that `num` names; only 0 to 3 name a state.
    pub fn num_to_state(num: usize) -> (s: IrqState)
        requires
            num < 4,
        ensures
            s == irq_state_of(num as nat),
            irq_state_num(s) == num,
    {
        match num {
            0 => IrqState::IrqSInactive,
            1 => IrqState::IrqSPend,
            2 => IrqState::IrqSActive,
            _ => IrqState::IrqSPendActive,
        }
    }

    /// The number of the state.
    pub fn to_num(&self) -> (n: usize)
        ensures
            n == irq_state_num(*self),
            n < 4,
    {
        match self {
            IrqState::IrqSInactive => 0,
            IrqState::IrqSPend => 1,
            IrqState::IrqSActive => 2,
            IrqState::IrqSPendActive => 3,
        }
    }
}

/// A state read back from its number is the same state, and a number below 4
/// read as a state gives the number back.
pub proof fn law_irq_state_roundtrip(s: IrqState, n: nat)
    requires
        n < 4,
    ensures
        irq_state_of(irq_state_num(s)) == s,
        irq_state_num(irq_state_of(n)) == n,
{
}

/// The state after setting (`pend`) or clearing the pending bit of state number `state`.
pub fn pend_state(state: usize, pend: bool) -> (r: usize)
    requires
        state < 4,
    ensures
        r < 4,
        r % 2 == (if pend { 1nat } else { 0nat }),
        r / 2 == state / 2,
{
    if pend && state % 2 == 0 {
        state + 1
    } else if !pend && state % 2 != 0 {
        state - 1
    } else {
        state
    }
}

/// The state after setting (`act`) or clearing the active bit of state number `state`.
pub fn active_state(state: usize, act: bool) -> (r: usize)
    requires
        state < 4,
    ensures
        r < 4,
        r / 2 == (if act { 1nat } else { 0nat }),
        r % 2 == state % 2,
{
    if act && state < 2 {
        state + 2
    } else if !act && state >= 2 {
        state - 2
    } else {
        state
    }
}

/// The priority a guest may give: GICv3 keeps the top four priority bits in non-secure state.
pub fn vgic_prio_mask(prio: u8) -> (r: u8)
    ensures
        r == prio & 0xf0u8,
        r == prio - prio % 16,
{
    let r = prio & 0xf0;
    assert(r == prio - prio % 16) by (bit_vector)
        requires
            r == prio & 0xf0u8,
    ;
    r
}


/// The offset of an access within the 64 KiB distributor frame.
pub open spec fn gicd_offset(address: usize) -> nat {
    (address as nat) % 0x10000
}

/// Whether a register access of `width` bytes at `address` is naturally aligned
/// for 4- and 2-byte widths.
pub open spec fn misaligned_2_or_4(address: usize, width: usize) -> bool {
    (width == 4 && address % 4 != 0) || (width == 2 && address % 2 != 0)
}

/// Register groups (by offset / 128) that only take aligned 32-bit accesses.
pub open spec fn word_only_group(prefix: nat) -> bool {
    prefix == 0 || prefix == 2 || prefix == 3 || prefix == 4 || prefix == 5 || prefix == 6
        || prefix == 7 || prefix == 0x18
}

/// Whether a trapped distributor access is well formed.
pub open spec fn vgicd_access_valid(address: usize, width: usize) -> bool {
    let offset = gicd_offset(address);
    let prefix = offset / 128;
    if word_only_group(prefix) {
        width == 4 && address % 4 == 0
    } else if prefix == 0x1e {
        !misaligned_2_or_4(address, width)
    } else {
        !(0x400 <= offset < 0xc00 && misaligned_2_or_4(address, width))
    }
}

pub(crate) proof fn lemma_low_bits(a: usize)
    ensures
        a & 0xffff == a % 0x10000,
        a & 0x3 == a % 4,
        a & 0x1 == a % 2,
        (a & 0xffff) & 0xff80 == ((a & 0xffff) / 128) * 128,
        ((a & 0xffff) & 0xff80) >> 7 == (a & 0xffff) / 128,
        (a & 0xffff) >> 7 == (a & 0xffff) / 128,
        a & 0x1ffff == a % 0x20000,
        a & 0xff == a % 0x100,
{
    assert(a & 0xffff == a % 0x10000) by (bit_vector);
    assert(a & 0x3 == a % 4) by (bit_vector);
    assert(a & 0x1 == a % 2) by (bit_vector);
    assert((a & 0xffff) & 0xff80 == ((a & 0xffff) / 128) * 128) by (bit_vector);
    assert(((a & 0xffff) & 0xff80) >> 7 == (a & 0xffff) / 128) by (bit_vector);
    assert((a & 0xffff) >> 7 == (a & 0xffff) / 128) by (bit_vector);
    assert(a & 0x1ffff == a % 0x20000) by (bit_vector);
    assert(a & 0xff == a % 0x100) by (bit_vector);
}

/// Whether a trapped access to the virtual distributor is well formed: the
/// enable, pending, active and configuration register groups take aligned
/// 32-bit accesses only; the SGI register and the priority and target
/// registers take aligned 16- and 32-bit accesses.
pub fn vgicd_emu_access_is_vaild(emu_ctx: &EmuContext) -> (r: bool)
    ensures
        r == vgicd_access_valid(emu_ctx.address, emu_ctx.width),
{
    proof {
        lemma_low_bits(emu_ctx.address);
    }
    let offset = emu_ctx.address & 0xffff;
    let offset_prefix = (offset & 0xff80) >> 7;
    let misaligned = (emu_ctx.width == 4 && emu_ctx.address & 0x3 != 0) || (emu_ctx.width == 2
        && emu_ctx.address & 0x1 != 0);
    if offset_prefix == 0 || offset_prefix == 2 || offset_prefix == 3 || offset_prefix == 4
        || offset_prefix == 5 || offset_prefix == 6 || offset_prefix == 7 || offset_prefix == 0x18 {
        if emu_ctx.width != 4 || emu_ctx.address & 0x3 != 0 {
            return false;
        }
    } else if offset_prefix == 0x1e {
        if misaligned {
            return false;
        }
    } else {
        if 0x400 <= offset && offset < 0xc00 && misaligned {
            return false;
        }
    }
    true
}

/// The register of the virtual distributor or redistributor that an access targets.
#[derive(Clone, Copy, PartialEq, Eq, Structural, Debug)]
pub enum VgicReg {
    Ctlr,
    Typer,
    Iidr,
    IsEnabler,
    IcEnabler,
    IsPendr,
    IcPendr,
    IsActiver,
    IcActiver,
    Icfgr,
    Ipriorityr,
    Irouter,
    Pidr,
    Propbaser,
    Pendbaser,
    /// Reads as zero, writes are ignored.
    Razwi,
}

/// The distributor register at `offset` (within the 64 KiB frame).
pub open spec fn vgicd_reg_at(offset: nat) -> VgicReg {
    let prefix = offset / 128;
    if prefix == 2 {
        VgicReg::IsEnabler
    } else if prefix == 4 {
        VgicReg::IsPendr
    } else if prefix == 6 {
        VgicReg::IsActiver
    } else if prefix == 3 {
        VgicReg::IcEnabler
    } else if prefix == 5 {
        VgicReg::IcPendr
    } else if prefix == 7 {
        VgicReg::IcActiver
    } else if prefix == 0x18 {
        VgicReg::Icfgr
    } else if offset == 0 {
        VgicReg::Ctlr
    } else if offset == 4 {
        VgicReg::Typer
    } else if offset == 8 {
        VgicReg::Iidr
    } else if offset == 0xf00 {
        VgicReg::Razwi
    } else if 0x400 <= offset < 0x800 {
        VgicReg::Ipriorityr
    } else if 0x6000 <= offset < 0x8000 {
        VgicReg::Irouter
    } else if 0xffd0 <= offset < 0x10000 {
        VgicReg::Pidr
    } else {
        VgicReg::Razwi
    }
}

/// The distributor decoding follows the GICv3 register map: control at 0,
/// type at 4, implementer at 8; the set-enable, set-pending and set-active
/// banks (0x100, 0x200, 0x300, 128 bytes each) each with its clear twin 0x80
/// above; priorities from 0x400 to 0x800; the configuration bank from 0xc00;
/// routing from 0x6000 to 0x8000; the identification registers from 0xffd0;
/// the target registers (0x800 to 0xc00) read as zero.
pub proof fn law_vgicd_register_map(o: nat)
    ensures
        o == 0 ==> vgicd_reg_at(o) == VgicReg::Ctlr,
        o == 4 ==> vgicd_reg_at(o) == VgicReg::Typer,
        o == 8 ==> vgicd_reg_at(o) == VgicReg::Iidr,
        0x100 <= o < 0x180 ==> vgicd_reg_at(o) == VgicReg::IsEnabler && vgicd_reg_at(o + 0x80) == VgicReg::IcEnabler,
        0x200 <= o < 0x280 ==> vgicd_reg_at(o) == VgicReg::IsPendr && vgicd_reg_at(o + 0x80) == VgicReg::IcPendr,
        0x300 <= o < 0x380 ==> vgicd_reg_at(o) == VgicReg::IsActiver && vgicd_reg_at(o + 0x80) == VgicReg::IcActiver,
        0x400 <= o < 0x800 ==> vgicd_reg_at(o) == VgicReg::Ipriorityr,
        0x800 <= o < 0xc00 ==> vgicd_reg_at(o) == VgicReg::Razwi,
        0xc00 <= o < 0xc80 ==> vgicd_reg_at(o) == VgicReg::Icfgr,
        0x6000 <= o < 0x8000 ==> vgicd_reg_at(o) == VgicReg::Irouter,
        0xffd0 <= o < 0x10000 ==> vgicd_reg_at(o) == VgicReg::Pidr,
{
}

/// The redistributor decoding follows the GICv3 register map of its two
/// 64 KiB frames, whatever redistributor the address falls in: control at 0
/// and type at 8 of the first frame, the LPI tables at 0x70 and 0x78; in the
/// second frame the set-enable, set-pending and set-active registers of the
/// private interrupts at 0x100, 0x200 and 0x300, each with its clear twin
/// 0x80 above, the priorities from 0x400 to 0x420 and the configuration at
/// 0xc00 and 0xc04; the identification registers from 0xffd0.
pub proof fn law_vgicr_register_map(address: nat)
    ensures
        ({
            let o = address % 0x20000;
            &&& o == 0 ==> vgicr_reg_at(o) == VgicReg::Ctlr
            &&& o == 8 ==> vgicr_reg_at(o) == VgicReg::Typer
            &&& o == 0x70 ==> vgicr_reg_at(o) == VgicReg::Propbaser
            &&& o == 0x78 ==> vgicr_reg_at(o) == VgicReg::Pendbaser
            &&& o == 0x10100 ==> vgicr_reg_at(o) == VgicReg::IsEnabler && vgicr_reg_at(o + 0x80) == VgicReg::IcEnabler
            &&& o == 0x10200 ==> vgicr_reg_at(o) == VgicReg::IsPendr && vgicr_reg_at(o + 0x80) == VgicReg::IcPendr
            &&& o == 0x10300 ==> vgicr_reg_at(o) == VgicReg::IsActiver && vgicr_reg_at(o + 0x80) == VgicReg::IcActiver
            &&& 0x10400 <= o < 0x10420 ==> vgicr_reg_at(o) == VgicReg::Ipriorityr
            &&& (o == 0x10c00 || o == 0x10c04) ==> vgicr_reg_at(o) == VgicReg::Icfgr
            &&& 0xffd0 <= o < 0x10000 ==> vgicr_reg_at(o) == VgicReg::Pidr
        }),
{
}

/// Decides which virtual distributor register a trapped access targets; the
/// caller then performs the access on that register.
pub fn emu_intc_handler(_emu_dev_id: usize, emu_ctx: &EmuContext) -> (r: VgicReg)
    ensures
        r == vgicd_reg_at(gicd_offset(emu_ctx.address)),
{
    proof {
        lemma_low_bits(emu_ctx.address);
    }
    let offset = emu_ctx.address & 0xffff;
    let prefix = offset >> 7;
    if prefix == 2 {
        VgicReg::IsEnabler
    } else if prefix == 4 {
        VgicReg::IsPendr
    } else if prefix == 6 {
        VgicReg::IsActiver
    } else if prefix == 3 {
        VgicReg::IcEnabler
    } else if prefix == 5 {
        VgicReg::IcPendr
    } else if prefix == 7 {
        VgicReg::IcActiver
    } else if prefix == 0x18 {
        VgicReg::Icfgr
    } else if offset == 0 {
        VgicReg::Ctlr
    } else if offset == 0x004 {
        VgicReg::Typer
    } else if offset == 0x008 {
        VgicReg::Iidr
    } else if offset == 0xf00 {
        VgicReg::Razwi
    } else if 0x400 <= offset && offset < 0x800 {
        VgicReg::Ipriorityr
    } else if 0x800 <= offset && offset < 0xc00 {
        VgicReg::Razwi
    } else if 0x6000 <= offset && offset < 0x8000 {
        VgicReg::Irouter
    } else if 0xffd0 <= offset && offset < 0x10000 {
        VgicReg::Pidr
    } else {
        VgicReg::Razwi
    }
}

/// The redistributor register at `offset` (within the two 64 KiB frames).
pub open spec fn vgicr_reg_at(offset: nat) -> VgicReg {
    if offset == 0x0 {
        VgicReg::Ctlr
    } else if offset == 0x8 {
        VgicReg::Typer
    } else if offset == 0x10100 {
        VgicReg::IsEnabler
    } else if offset == 0x10200 {
        VgicReg::IsPendr
    } else if offset == 0x10300 {
        VgicReg::IsActiver
    } else if offset == 0x10180 {
        VgicReg::IcEnabler
    } else if offset == 0x10280 {
        VgicReg::IcPendr
    } else if offset == 0x10380 {
        VgicReg::IcActiver
    } else if offset == 0x10c00 || offset == 0x10c04 {
        VgicReg::Icfgr
    } else if offset == 0x70 {
        VgicReg::Propbaser
    } else if offset == 0x78 {
        VgicReg::Pendbaser
    } else if 0x10400 <= offset < 0x10420 {
        VgicReg::Ipriorityr
    } else if 0xffd0 <= offset < 0x10000 {
        VgicReg::Pidr
    } else {
        VgicReg::Razwi
    }
}

/// The index of the redistributor frame that `address` falls in, counted from `gicr_base`.
pub fn vgicr_get_id(emu_ctx: &EmuContext, gicr_base: usize) -> (r: u32)
    requires
        emu_ctx.address >= gicr_base,
        (emu_ctx.address - gicr_base) / (GICR_FRAME_SIZE as int) <= u32::MAX,
    ensures
        r == (emu_ctx.address - gicr_base) / (GICR_FRAME_SIZE as int),
{
    ((emu_ctx.address - gicr_base) / GICR_FRAME_SIZE) as u32
}

/// Decides which virtual redistributor register a trapped access targets and
/// which redistributor (counted from `gicr_base`) it belongs to.
pub fn emul_vgicr_handler(_emu_dev_id: usize, emu_ctx: &EmuContext, gicr_base: usize) -> (r: (
    VgicReg,
    u32,
))
    requires
        emu_ctx.address >= gicr_base,
        (emu_ctx.address - gicr_base) / (GICR_FRAME_SIZE as int) <= u32::MAX,
    ensures
        r.0 == vgicr_reg_at((emu_ctx.address as nat) % 0x20000),
        r.1 == (emu_ctx.address - gicr_base) / (GICR_FRAME_SIZE as int),
{
    proof {
        lemma_low_bits(emu_ctx.address);
    }
    let vgicr_id = vgicr_get_id(emu_ctx, gicr_base);
    let offset = emu_ctx.address & 0x1ffff;
    let reg = if offset == 0x0 {
        VgicReg::Ctlr
    } else if offset == 0x8 {
        VgicReg::Typer
    } else if offset == 0x10100 {
        VgicReg::IsEnabler
    } else if offset == 0x10200 {
        VgicReg::IsPendr
    } else if offset == 0x10300 {
        VgicReg::IsActiver
    } else if offset == 0x10180 {
        VgicReg::IcEnabler
    } else if offset == 0x10280 {
        VgicReg::IcPendr
    } else if offset == 0x10380 {
        VgicReg::IcActiver
    } else if offset == 0x10c00 || offset == 0x10c04 {
        VgicReg::Icfgr
    } else if offset == 0x70 {
        VgicReg::Propbaser
    } else if offset == 0x78 {
        VgicReg::Pendbaser
    } else if 0x10400 <= offset && offset < 0x10420 {
        VgicReg::Ipriorityr
    } else if 0xffd0 <= offset && offset < 0x10000 {
        VgicReg::Pidr
    } else {
        VgicReg::Razwi
    };
    (reg, vgicr_id)
}

/// The first interrupt that an access to a bank of per-interrupt registers
/// covers: the bank starts at offset `reg_base` of the 64 KiB frame and gives
/// each interrupt `bits_per_int` bits.
pub fn emu_first_int(emu_ctx: &EmuContext, reg_base: usize, bits_per_int: usize) -> (r: usize)
    requires
        bits_per_int > 0,
        gicd_offset(emu_ctx.address) >= reg_base,
    ensures
        r == ((gicd_offset(emu_ctx.address) - reg_base) * 8) / (bits_per_int as int),
{
    proof {
        lemma_low_bits(emu_ctx.address);
    }
    ((emu_ctx.address & 0xffff) - reg_base) * 8 / bits_per_int
}

/// The first interrupt that an access to the routing registers covers.
pub fn emu_irouter_first_int(emu_ctx: &EmuContext) -> (r: usize)
    requires
        gicd_offset(emu_ctx.address) >= 0x6000,
    ensures
        r == (gicd_offset(emu_ctx.address) - 0x6000) / 8,
{
    proof {
        lemma_low_bits(emu_ctx.address);
    }
    ((emu_ctx.address & 0xffff) - 0x6000) / 8
}

/// Whether an interrupt is private to one vCPU (an SGI or a PPI).
pub fn gic_is_priv(int_id: usize) -> (r: bool)
    ensures
        r == (int_id < GIC_PRIVINT_NUM),
{
    int_id < GIC_PRIVINT_NUM
}

/// The list register value that presents virtual interrupt `int_id` with
/// priority `prio` and state number `state`, hardware-backed or not.
pub open spec fn lr_encoding(int_id: u64, prio: u8, state: u64, hw: bool) -> u64 {
    let is_hw = hw && int_id >= 16;
    let hw_field = if is_hw {
        GICH_LR_HW_BIT | ((int_id << GICH_LR_PID_OFF) & GICH_LR_PID_MSK)
    } else if int_id >= 32 {
        GICH_LR_EOI_BIT
    } else {
        0
    };
    let shown = if is_hw && state == 3 {
        2
    } else {
        state
    };
    (int_id & GICH_LR_VID_MASK) | (((prio as u64) << GICH_LR_PRIO_OFF) & GICH_LR_PRIO_MSK) | hw_field | ((
    shown << GICH_LR_STATE_OFF) & GICH_LR_STATE_MSK) | GICH_LR_GRP_BIT
}

/// The list register value that presents virtual interrupt `int_id` with
/// priority `prio` and state number `state` to the guest.
///
/// A hardware interrupt (an id of at least 16 with `hw` set) carries its
/// physical id and is presented as active when it is both pending and active;
/// other shared interrupts ask for a maintenance interrupt on EOI. Every
/// interrupt is Group 1.
pub fn gich_lr_value(int_id: u64, prio: u8, state: u64, hw: bool) -> (lr: u64)
    requires
        state < 4,
        int_id < 0x1_0000_0000,
    ensures
        lr == lr_encoding(int_id, prio, state, hw),
        lr & GICH_LR_VID_MASK == int_id,
        (lr & GICH_LR_PRIO_MSK) >> 48u64 == prio as u64,
        (lr & GICH_LR_STATE_MSK) >> 62u64 == (if hw && int_id >= 16 && state == 3 {
            2
        } else {
            state
        }),
        lr & GICH_LR_GRP_BIT != 0,
        (lr & GICH_LR_HW_BIT != 0) == (hw && int_id >= 16),
        hw && int_id >= 16 ==> (lr & GICH_LR_PID_MSK) >> 32u64 == int_id % 1024,
        !(hw && int_id >= 16) ==> ((lr & GICH_LR_EOI_BIT != 0) == (int_id >= 32)),
        !(hw && int_id >= 16) ==> lr & GICH_LR_PID_MSK == (if int_id >= 32 { 0x200u64 << 32u64 } else { 0u64 }),
{
    let is_hw = hw && int_id >= 16;
    let is_priv = int_id < 32;
    let p = prio as u64;
    let vid = int_id & GICH_LR_VID_MASK;
    let prio_field = (p << GICH_LR_PRIO_OFF) & GICH_LR_PRIO_MSK;
    let hw_field = if is_hw {
        GICH_LR_HW_BIT | ((int_id << GICH_LR_PID_OFF) & GICH_LR_PID_MSK)
    } else if !is_priv {
        GICH_LR_EOI_BIT
    } else {
        0
    };
    let shown_state = if is_hw && state == 3 {
        2
    } else {
        state
    };
    let state_field = (shown_state << GICH_LR_STATE_OFF) & GICH_LR_STATE_MSK;
    let lr = vid | prio_field | hw_field | state_field | GICH_LR_GRP_BIT;
    proof {
        let a = int_id;
        let b = p;
        let s2 = shown_state;
        assert(vid & 0xffff_ffffu64 == a && vid & (0xffu64 << 48u64) == 0 && vid & (3u64 << 62u64) == 0
            && vid & (1u64 << 60u64) == 0 && vid & (1u64 << 61u64) == 0 && vid & (0x3ffu64 << 32u64) == 0
            && vid & (1u64 << 41u64) == 0) by (bit_vector)
            requires
                vid == a & 0xffff_ffffu64,
                a < 0x1_0000_0000u64,
        ;
        assert(prio_field & 0xffff_ffffu64 == 0 && (prio_field & (0xffu64 << 48u64)) >> 48u64 == b
            && prio_field & (3u64 << 62u64) == 0 && prio_field & (1u64 << 60u64) == 0 && prio_field & (1u64
            << 61u64) == 0 && prio_field & (0x3ffu64 << 32u64) == 0 && prio_field & (1u64 << 41u64) == 0)
            by (bit_vector)
            requires
                prio_field == (b << 48u64) & (0xffu64 << 48u64),
                b < 256,
        ;
        assert((state_field & (3u64 << 62u64)) >> 62u64 == s2 && state_field & 0xffff_ffffu64 == 0
            && state_field & (0xffu64 << 48u64) == 0 && state_field & (1u64 << 60u64) == 0 && state_field & (1u64
            << 61u64) == 0 && state_field & (0x3ffu64 << 32u64) == 0 && state_field & (1u64 << 41u64) == 0)
            by (bit_vector)
            requires
                state_field == (s2 << 62u64) & (3u64 << 62u64),
                s2 < 4,
        ;
        if is_hw {
            assert(hw_field & 0xffff_ffffu64 == 0 && hw_field & (0xffu64 << 48u64) == 0 && hw_field & (3u64
                << 62u64) == 0 && hw_field & (1u64 << 60u64) == 0 && hw_field & (1u64 << 61u64) != 0 && (hw_field & (0x3ffu64 << 32u64)) >> 32u64 == a % 1024)
                by (bit_vector)
                requires
                    hw_field == (1u64 << 61u64) | ((a << 32u64) & (0x3ffu64 << 32u64)),
            ;
        } else {
            assert(hw_field & 0xffff_ffffu64 == 0 && hw_field & (0xffu64 << 48u64) == 0 && hw_field & (3u64
                << 62u64) == 0 && hw_field & (1u64 << 60u64) == 0 && hw_field & (1u64 << 61u64) == 0
                && (hw_field & (1u64 << 41u64) != 0) == (hw_field != 0)
                && hw_field & (0x3ffu64 << 32u64) == (if hw_field != 0 { 0x200u64 << 32u64 } else { 0u64 }))
                by (bit_vector)
                requires
                    hw_field == 0 || hw_field == 1u64 << 41u64,
            ;
        }
        assert(forall|m: u64|
            #![auto]
            (vid | prio_field | hw_field | state_field | (1u64 << 60u64)) & m == (vid & m) | (prio_field & m)
                | (hw_field & m) | (state_field & m) | ((1u64 << 60u64) & m)) by (bit_vector);
        assert((1u64 << 60u64) & 0xffff_ffffu64 == 0 && (1u64 << 60u64) & (0xffu64 << 48u64) == 0
            && (1u64 << 60u64) & (3u64 << 62u64) == 0 && (1u64 << 60u64) & (1u64 << 61u64) == 0
            && (1u64 << 60u64) & (0x3ffu64 << 32u64) == 0 && (1u64 << 60u64) & (1u64 << 41u64) == 0
            && (1u64 << 60u64) & (1u64 << 60u64) != 0) by (bit_vector);
        assert(forall|x: u64| #![auto] (x & (0xffu64 << 48u64)) >> 48u64 == (x >> 48u64) & 0xffu64) by (bit_vector);
        assert(forall|x: u64, y: u64| #![auto] (x | y) >> 48u64 == (x >> 48u64) | (y >> 48u64)) by (bit_vector);
        assert(forall|x: u64, y: u64| #![auto] (x | y) >> 62u64 == (x >> 62u64) | (y >> 62u64)) by (bit_vector);
        assert(forall|x: u64, y: u64| #![auto] (x | y) >> 32u64 == (x >> 32u64) | (y >> 32u64)) by (bit_vector);
        assert(forall|x: u64| #![auto] x | 0 == x && 0 | x == x) by (bit_vector);
        if !is_hw {
            assert((1u64 << 41u64) != 0) by (bit_vector);
            assert((hw_field != 0) == !is_priv);
            assert(lr & (1u64 << 41u64) == (vid & (1u64 << 41u64)) | (prio_field & (1u64 << 41u64))
                | (hw_field & (1u64 << 41u64)) | (state_field & (1u64 << 41u64)) | ((1u64 << 60u64) & (1u64 << 41u64)));
            assert(lr & (0x3ffu64 << 32u64) == (vid & (0x3ffu64 << 32u64)) | (prio_field & (0x3ffu64 << 32u64))
                | (hw_field & (0x3ffu64 << 32u64)) | (state_field & (0x3ffu64 << 32u64)) | ((1u64 << 60u64) & (0x3ffu64 << 32u64)));
        }
    }
    lr
}

/// The priority field of a list register.
pub open spec fn lr_prio(lr: u64) -> u64 {
    (lr & GICH_LR_PRIO_MSK) >> 48u64
}

/// The virtual interrupt id field of a list register.
pub open spec fn lr_vid(lr: u64) -> u64 {
    lr & GICH_LR_VID_MASK
}

/// Whether a list register holds an active interrupt.
pub open spec fn lr_active(lr: u64) -> bool {
    (lr & GICH_LR_STATE_MSK) & GICH_LR_STATE_ACT != 0
}

/// Whether a list register holds a pending interrupt that is not active.
pub open spec fn lr_pending_only(lr: u64) -> bool {
    !lr_active(lr) && (lr & GICH_LR_STATE_MSK) & GICH_LR_STATE_PND != 0
}

/// Whether `(p1, i1)` comes after `(p2, i2)`: a numerically larger priority
/// (that is, a lower one), or the same priority and a larger id.
pub open spec fn key_after(p1: u64, i1: u64, p2: u64, i2: u64) -> bool {
    p1 > p2 || (p1 == p2 && i1 > i2)
}

/// Whether the empty-list-register status word marks list register `i` as free.
pub open spec fn lr_free(elrsr: u64, i: int) -> bool {
    (elrsr >> ((i % 32) as u64)) & 1u64 != 0
}

/// The number of list registers below `n` that hold a pending, not active, interrupt.
pub open spec fn pending_lr_count(lrs: Seq<u64>, n: int) -> nat
    decreases n,
{
    if n <= 0 {
        0
    } else {
        pending_lr_count(lrs, n - 1) + (if lr_pending_only(lrs[n - 1]) {
            1nat
        } else {
            0nat
        })
    }
}

/// Whether `v` is the list register below `n` that the kind `sel` of interrupt
/// (active ones, or pending-only ones) would give up first: the first one whose
/// (priority, id) comes last, provided that it comes after `(prio, id)`.
pub open spec fn is_victim(lrs: Seq<u64>, n: int, sel: spec_fn(u64) -> bool, prio: u64, id: u64, v: int) -> bool {
    &&& 0 <= v < n
    &&& sel(lrs[v])
    &&& key_after(lr_prio(lrs[v]), lr_vid(lrs[v]), prio, id)
    &&& forall|j: int|
        0 <= j < n && sel(lrs[j]) ==> !key_after(lr_prio(lrs[j]), lr_vid(lrs[j]), lr_prio(lrs[v]), lr_vid(lrs[v]))
    &&& forall|j: int|
        0 <= j < v && sel(lrs[j]) ==> key_after(lr_prio(lrs[v]), lr_vid(lrs[v]), lr_prio(lrs[j]), lr_vid(lrs[j]))
}

/// Whether no list register below `n` of the kind `sel` comes after `(prio, id)`.
pub open spec fn no_victim(lrs: Seq<u64>, n: int, sel: spec_fn(u64) -> bool, prio: u64, id: u64) -> bool {
    forall|j: int| 0 <= j < n && sel(lrs[j]) ==> !key_after(lr_prio(lrs[j]), lr_vid(lrs[j]), prio, id)
}

/// Active list registers.
pub open spec fn sel_active() -> spec_fn(u64) -> bool {
    |lr: u64| lr_active(lr)
}

/// Pending-only list registers.
pub open spec fn sel_pending() -> spec_fn(u64) -> bool {
    |lr: u64| lr_pending_only(lr)
}

/// Searches the list registers of kind `sel` for the one to give up in favour
/// of an interrupt with priority `prio` and id `id`.
pub(crate) fn find_victim(lrs: &Vec<u64>, n: usize, pending: bool, prio: u64, id: u64) -> (r: Option<usize>)
    requires
        n <= lrs@.len(),
    ensures
        match r {
            Some(v) => is_victim(lrs@, n as int, if pending { sel_pending() } else { sel_active() }, prio, id, v as int),
            None => no_victim(lrs@, n as int, if pending { sel_pending() } else { sel_active() }, prio, id),
        },
{
    let ghost sel = if pending { sel_pending() } else { sel_active() };
    let mut best: Option<usize> = None;
    let mut min_prio = prio;
    let mut min_id = id;
    let mut i: usize = 0;
    while i < n
        invariant
            i <= n,
            n <= lrs@.len(),
            sel == (if pending { sel_pending() } else { sel_active() }),
            match best {
                Some(v) => {
                    &&& v < i
                    &&& min_prio == lr_prio(lrs@[v as int])
                    &&& min_id == lr_vid(lrs@[v as int])
                    &&& is_victim(lrs@, i as int, sel, prio, id, v as int)
                },
                None => min_prio == prio && min_id == id && no_victim(lrs@, i as int, sel, prio, id),
            },
        decreases n - i,
    {
        let lr = lrs[i];
        let lr_p = (lr & GICH_LR_PRIO_MSK) >> GICH_LR_PRIO_OFF;
        let lr_state = lr & GICH_LR_STATE_MSK;
        let lr_id = lr & GICH_LR_VID_MASK;
        let act = lr_state & GICH_LR_STATE_ACT != 0;
        let pend = !act && lr_state & GICH_LR_STATE_PND != 0;
        let chosen = if pending {
            pend
        } else {
            act
        };
        assert(chosen == sel(lrs@[i as int]));
        if chosen && (lr_p > min_prio || (lr_p == min_prio && lr_id > min_id)) {
            best = Some(i);
            min_prio = lr_p;
            min_id = lr_id;
        }
        i = i + 1;
    }
    best
}

/// The list register `add_lr` writes a new interrupt into, and whether an
/// interrupt has to be spilled from it first.
///
/// A free list register (per `elrsr`) is taken first, the lowest one. With
/// none free, a pending-only interrupt is spilled when more than one list
/// register holds one, and an active interrupt otherwise; the one spilled is
/// the first whose (priority, id) comes last, provided it comes after the new
/// interrupt's.
pub fn vgic_choose_lr(lrs: &Vec<u64>, elrsr: u64, gic_lrs: usize, prio: u8, id: u64) -> (r: (
    Option<usize>,
    bool,
))
    requires
        gic_lrs <= lrs@.len(),
    ensures
        (exists|i: int| 0 <= i < gic_lrs && #[trigger] lr_free(elrsr, i)) ==> ({
            &&& r.1 == false
            &&& r.0 is Some
            &&& r.0->0 < gic_lrs
            &&& lr_free(elrsr, r.0->0 as int)
            &&& forall|j: int| 0 <= j < r.0->0 ==> !#[trigger] lr_free(elrsr, j)
        }),
        !(exists|i: int| 0 <= i < gic_lrs && #[trigger] lr_free(elrsr, i)) ==> ({
            let sel = if pending_lr_count(lrs@, gic_lrs as int) > 1 { sel_pending() } else { sel_active() };
            &&& r.1 == r.0 is Some
            &&& match r.0 {
                Some(v) => is_victim(lrs@, gic_lrs as int, sel, prio as u64, id, v as int),
                None => no_victim(lrs@, gic_lrs as int, sel, prio as u64, id),
            }
        }),
{
    let mut i: usize = 0;
    while i < gic_lrs
        invariant
            i <= gic_lrs,
            forall|j: int| 0 <= j < i ==> !#[trigger] lr_free(elrsr, j),
        decreases gic_lrs - i,
    {
        let sh = (i % 32) as u64;
        if (elrsr >> sh) & 1 != 0 {
            assert(sh == ((i as int) % 32) as u64);
            assert(lr_free(elrsr, i as int));
            return (Some(i), false);
        }
        i = i + 1;
    }
    let mut pend_found: usize = 0;
    let mut k: usize = 0;
    while k < gic_lrs
        invariant
            k <= gic_lrs,
            gic_lrs <= lrs@.len(),
            pend_found == pending_lr_count(lrs@, k as int),
            pend_found <= k,
        decreases gic_lrs - k,
    {
        let lr = lrs[k];
        let lr_state = lr & GICH_LR_STATE_MSK;
        if lr_state & GICH_LR_STATE_ACT == 0 && lr_state & GICH_LR_STATE_PND != 0 {
            pend_found = pend_found + 1;
        }
        k = k + 1;
    }
    let victim = if pend_found > 1 {
        find_victim(lrs, gic_lrs, true, prio as u64, id)
    } else {
        find_victim(lrs, gic_lrs, false, prio as u64, id)
    };
    match victim {
        Some(v) => (Some(v), true),
        None => (None, false),
    }
}

/// What the maintenance interrupt handler has to do, given the maintenance
/// interrupt status word.
#[derive(Clone, Copy, PartialEq, Eq, Structural)]
pub struct MaintenanceActions {
    /// Handle the list registers whose interrupts the guest ended.
    pub handle_eoi: bool,
    /// Refill the list registers from the spilled interrupts.
    pub refill: bool,
    /// Refill only from pending interrupts (no list register holds a pending one).
    pub refill_pending_only: bool,
    /// End the highest spilled active interrupts the guest ended while they were spilled.
    pub eoi_spilled: bool,
}

/// Decides what the GIC maintenance interrupt handler does for status word `misr`.
pub fn gic_maintenance_handler(misr: u32) -> (r: MaintenanceActions)
    ensures
        r.handle_eoi == (misr & GICH_MISR_EOI != 0),
        r.refill == (misr & (GICH_MISR_NP | GICH_MISR_U) != 0),
        r.refill_pending_only == (misr & GICH_MISR_NP != 0),
        r.eoi_spilled == (misr & GICH_MISR_LRPEN != 0),
{
    MaintenanceActions {
        handle_eoi: misr & GICH_MISR_EOI != 0,
        refill: misr & (GICH_MISR_NP | GICH_MISR_U) != 0,
        refill_pending_only: misr & GICH_MISR_NP != 0,
        eoi_spilled: misr & GICH_MISR_LRPEN != 0,
    }
}

/// The value a guest reads from the system register enable register: always 1
/// (the system register interface is on). Writes are ignored.
pub fn vgic_icc_sre_handler(_emu_dev_id: usize, emu_ctx: &EmuContext) -> (r: Option<usize>)
    ensures
        emu_ctx.write ==> r is None,
        !emu_ctx.write ==> r == Some(1usize),
{
    if !emu_ctx.write {
        Some(1)
    } else {
        None
    }
}

/// A software-generated interrupt of VM `vm_id` sent to other CPUs: the
/// message that asks each to inject interrupt `int_id`, and the physical CPUs,
/// among the first `cpu_num`, whose bit is set in `pcpu_mask`, in increasing
/// order, each to get it once.
pub fn vgic_send_sgi_msg(vm_id: usize, pcpu_mask: u64, int_id: usize, cpu_num: usize) -> (r: (IpiInitcMessage, Vec<usize>))
    requires
        cpu_num <= 64,
    ensures
        r.0 == (IpiInitcMessage { event: InitcEvent::Vgicdinject, vm_id, int_id: int_id as u16, val: 1 }),
        forall|k: int| 0 <= k < r.1@.len() ==> r.1@[k] < cpu_num,
        forall|k1: int, k2: int| 0 <= k1 < k2 < r.1@.len() ==> r.1@[k1] < r.1@[k2],
        forall|c: usize| c < cpu_num ==> (r.1@.contains(c) == ((pcpu_mask >> c as u64) & 1u64 != 0)),
{
    let m = IpiInitcMessage { event: InitcEvent::Vgicdinject, vm_id, int_id: int_id as u16, val: 1 };
    let mut out: Vec<usize> = Vec::new();
    let mut i: usize = 0;
    while i < cpu_num
        invariant
            i <= cpu_num,
            cpu_num <= 64,
            forall|k: int| 0 <= k < out@.len() ==> out@[k] < i,
            forall|k1: int, k2: int| 0 <= k1 < k2 < out@.len() ==> out@[k1] < out@[k2],
            forall|c: usize| c < i ==> (out@.contains(c) == ((pcpu_mask >> c as u64) & 1u64 != 0)),
        decreases cpu_num - i,
    {
        let ghost before = out@;
        if (pcpu_mask >> (i as u64)) & 1 != 0 {
            out.push(i);
        }
        assert forall|c: usize| c < i + 1 implies (out@.contains(c) == ((pcpu_mask >> c as u64) & 1u64 != 0)) by {
            if c < i {
                if out@.contains(c) {
                    let k = choose|k: int| 0 <= k < out@.len() && out@[k] == c;
                    if k < before.len() {
                        assert(before[k] == c);
                    }
                }
                if before.contains(c) {
                    let k = choose|k: int| 0 <= k < before.len() && before[k] == c;
                    assert(out@[k] == c);
                }
            } else {
                if out@.contains(c) && out@.len() == before.len() {
                    let k = choose|k: int| 0 <= k < out@.len() && out@[k] == c;
                    assert(before[k] < i);
                }
                if out@.len() > before.len() {
                    assert(out@[out@.len() - 1] == c);
                }
            }
        }
        i = i + 1;
    }
    (m, out)
}


/// The software-generated interrupts of one CPU: which are pending and active.
#[derive(Clone, Copy, PartialEq, Eq, Structural, Debug)]
pub struct Sgis {
    pub pend: u8,
    pub act: u8,
}

impl Sgis {
    /// No software-generated interrupt pending or active.
    pub fn default() -> (r: Sgis)
        ensures
            r.pend == 0,
            r.act == 0,
    {
        Sgis { pend: 0, act: 0 }
    }
}

/// The events that one CPU asks another to apply to the virtual interrupt
/// controller of a VM.
#[derive(Clone, Copy, PartialEq, Eq, Structural, Debug)]
pub enum InitcEvent {
    VgicdGichEn,
    VgicdSetEn,
    VgicdSetAct,
    VgicdSetPend,
    VgicdSetPrio,
    VgicdSetTrgt,
    VgicdSetCfg,
    VgicdRoute,
    Vgicdinject,
    NoEvent,
}

/// A request of one CPU to another about a VM's virtual interrupt controller.
#[derive(Clone, Copy, PartialEq, Eq, Structural, Debug)]
pub struct IpiInitcMessage {
    pub event: InitcEvent,
    pub vm_id: usize,
    pub int_id: u16,
    pub val: u8,
}

/// What the virtual interrupt controller does for a request from another CPU.
#[derive(Clone, Copy, PartialEq, Eq, Structural, Debug)]
pub enum VgicIpiAction {
    /// The message is not about the interrupt controller: report it.
    IllegalIpi,
    /// No virtual CPU of the requesting VM runs here: report it.
    UnknownVm,
    /// The virtual CPU found belongs to another VM: report it.
    ForeignVm,
    /// Turn the list-register interface on or off.
    SetGichEn(bool),
    /// Enable or disable the interrupt.
    SetEnable { int_id: usize, en: bool },
    /// Set or clear its pending state.
    SetPend { int_id: usize, pend: bool },
    /// Set its priority.
    SetPrio { int_id: usize, prio: u8 },
    /// Set its configuration.
    SetCfg { int_id: usize, cfg: u8 },
    /// Route it to a list register if this CPU owns it and is a target (the
    /// id is the low 10 bits).
    Route { int_id: usize },
    /// Inject it into the virtual CPU.
    Inject { int_id: usize },
    /// An event this handler does not handle: report it.
    UnknownEvent,
}

/// What a CPU does with a request about a VM's virtual interrupt controller:
/// `msg` is the request if the message is one, `vcpu_vm_id` the VM of the
/// virtual CPU of the requesting VM found on this CPU, if any.
pub fn vgic_ipi_handler(msg: Option<IpiInitcMessage>, vcpu_vm_id: Option<usize>) -> (r: VgicIpiAction)
    ensures
        msg is None ==> r == VgicIpiAction::IllegalIpi,
        msg is Some && vcpu_vm_id is None ==> r == VgicIpiAction::UnknownVm,
        msg is Some && vcpu_vm_id is Some && vcpu_vm_id->0 != msg->0.vm_id ==> r == VgicIpiAction::ForeignVm,
        msg is Some && vcpu_vm_id == Some(msg->0.vm_id) ==> r == ({
            let m = msg->0;
            match m.event {
                InitcEvent::VgicdGichEn => VgicIpiAction::SetGichEn(m.val != 0),
                InitcEvent::VgicdSetEn => VgicIpiAction::SetEnable { int_id: m.int_id as usize, en: m.val != 0 },
                InitcEvent::VgicdSetPend => VgicIpiAction::SetPend { int_id: m.int_id as usize, pend: m.val != 0 },
                InitcEvent::VgicdSetPrio => VgicIpiAction::SetPrio { int_id: m.int_id as usize, prio: m.val },
                InitcEvent::VgicdSetCfg => VgicIpiAction::SetCfg { int_id: m.int_id as usize, cfg: m.val },
                InitcEvent::VgicdRoute => VgicIpiAction::Route { int_id: (m.int_id % 1024) as usize },
                InitcEvent::Vgicdinject => VgicIpiAction::Inject { int_id: m.int_id as usize },
                _ => VgicIpiAction::UnknownEvent,
            }
        }),
{
    let m = match msg {
        None => {
            return VgicIpiAction::IllegalIpi;
        },
        Some(m) => m,
    };
    let vm_id = match vcpu_vm_id {
        None => {
            return VgicIpiAction::UnknownVm;
        },
        Some(id) => id,
    };
    if vm_id != m.vm_id {
        return VgicIpiAction::ForeignVm;
    }
    match m.event {
        InitcEvent::VgicdGichEn => VgicIpiAction::SetGichEn(m.val != 0),
        InitcEvent::VgicdSetEn => VgicIpiAction::SetEnable { int_id: m.int_id as usize, en: m.val != 0 },
        InitcEvent::VgicdSetPend => VgicIpiAction::SetPend { int_id: m.int_id as usize, pend: m.val != 0 },
        InitcEvent::VgicdSetPrio => VgicIpiAction::SetPrio { int_id: m.int_id as usize, prio: m.val },
        InitcEvent::VgicdSetCfg => VgicIpiAction::SetCfg { int_id: m.int_id as usize, cfg: m.val },
        InitcEvent::VgicdRoute => VgicIpiAction::Route { int_id: (m.int_id % 1024) as usize },
        InitcEvent::Vgicdinject => VgicIpiAction::Inject { int_id: m.int_id as usize },
        _ => VgicIpiAction::UnknownEvent,
    }
}

/// Whether virtual CPU target bit `k` of `trgt` (bit `k % 8` of byte `k / 8`)
/// is set and names a virtual CPU whose physical CPU, moved up by that byte's
/// position, is bit `b`: `vcpu_phys[i]` is the physical CPU of virtual CPU `i`.
pub open spec fn sgi_vcpu_hit(vcpu_phys: Seq<usize>, trgt: u32, k: int, b: int) -> bool {
    k % 8 < vcpu_phys.len() && bit_of(trgt as u64, k) && vcpu_phys[k % 8] + (k - k % 8) == b
}

/// Whether bit `b` of the translation of `trgt` is set by one of its first
/// `upto` target bits.
pub open spec fn translated_bit(vcpu_phys: Seq<usize>, trgt: u32, b: int, upto: int) -> bool {
    exists|k: int| 0 <= k < upto && #[trigger] sgi_vcpu_hit(vcpu_phys, trgt, k, b)
}

/// Translates a target list of virtual CPUs to one of physical CPUs, byte by
/// byte: in each of the four bytes of `trgt`, bit `i` (for the first eight
/// virtual CPUs) stands for virtual CPU `i` and becomes the bit of its physical
/// CPU in the same byte position; bits that move past bit 31 are dropped.
pub fn vgic_target_translate(vcpu_phys: &Vec<usize>, trgt: u32) -> (r: u64)
    ensures
        forall|b: int| 0 <= b < 64 ==> bit_of(r, b) == (b < 32 && translated_bit(vcpu_phys@, trgt, b, 32)),
{
    let mut r: u64 = 0;
    let t = trgt as u64;
    let mut k: usize = 0;
    proof {
        lemma_set_bit();
    }
    while k < 32
        invariant
            k <= 32,
            t == trgt as u64,
            forall|b: int| 0 <= b < 64 ==> bit_of(r, b) == (b < 32 && translated_bit(vcpu_phys@, trgt, b, k as int)),
        decreases 32 - k,
    {
        proof {
            lemma_set_bit();
        }
        let ghost before = r;
        let i = k % 8;
        let base = k - i;
        if i < vcpu_phys.len() && (t >> (k as u64)) & 1 == 1 && vcpu_phys[i] < 32 && vcpu_phys[i] + base < 32 {
            let sh = vcpu_phys[i] + base;
            r = r | (1u64 << (sh as u64));
            assert(sh < 32);
            assert(sgi_vcpu_hit(vcpu_phys@, trgt, k as int, sh as int));
            assert forall|b: int| 0 <= b < 64 implies bit_of(r, b) == (b < 32 && translated_bit(vcpu_phys@, trgt, b, k + 1)) by {
                assert(((((before | (1u64 << (sh as u64))) >> (b as u64)) & 1u64) == 1u64) == ((b as u64) == (sh as u64) || ((before >> (b as u64)) & 1u64) == 1u64));
                assert(bit_of(r, b) == (b == sh || bit_of(before, b)));
                assert(bit_of(before, b) == (b < 32 && translated_bit(vcpu_phys@, trgt, b, k as int)));
                if b == sh {
                    assert(sgi_vcpu_hit(vcpu_phys@, trgt, k as int, b));
                    assert(translated_bit(vcpu_phys@, trgt, b, k + 1));
                } else {
                    if translated_bit(vcpu_phys@, trgt, b, k as int) {
                        let w = choose|w: int| 0 <= w < k && #[trigger] sgi_vcpu_hit(vcpu_phys@, trgt, w, b);
                        assert(translated_bit(vcpu_phys@, trgt, b, k + 1));
                    }
                    if translated_bit(vcpu_phys@, trgt, b, k + 1) {
                        let w = choose|w: int| 0 <= w < k + 1 && #[trigger] sgi_vcpu_hit(vcpu_phys@, trgt, w, b);
                        assert(w != k);
                        assert(translated_bit(vcpu_phys@, trgt, b, k as int));
                    }
                }
            }
        } else {
            assert forall|b: int| 0 <= b < 64 implies bit_of(r, b) == (b < 32 && translated_bit(vcpu_phys@, trgt, b, k + 1)) by {
                if translated_bit(vcpu_phys@, trgt, b, k as int) {
                    let w = choose|w: int| 0 <= w < k && #[trigger] sgi_vcpu_hit(vcpu_phys@, trgt, w, b);
                    assert(translated_bit(vcpu_phys@, trgt, b, k + 1));
                }
                if b < 32 && translated_bit(vcpu_phys@, trgt, b, k + 1) {
                    let w = choose|w: int| 0 <= w < k + 1 && #[trigger] sgi_vcpu_hit(vcpu_phys@, trgt, w, b);
                    assert(w != k);
                    assert(translated_bit(vcpu_phys@, trgt, b, k as int));
                }
            }
        }
        k = k + 1;
    }
    r
}

/// What a guest's write of `sgir` to the SGI register asks: the interrupt id
/// (bits 24 to 27) and the physical CPUs it goes to: with the routing mode bit
/// (40) set, the VM's CPUs `vm_cpus` but this one (`cpu_id`); otherwise the
/// virtual target list of the low 16 bits, translated with `vcpu_phys` (the
/// physical CPU of each of the VM's virtual CPUs). A read asks nothing.
pub fn vgic_icc_sgir_handler(emu_ctx: &EmuContext, sgir: u64, vm_cpus: usize, cpu_id: usize, vcpu_phys: &Vec<usize>) -> (r: Option<(
    usize,
    u64,
)>)
    requires
        cpu_id < usize::BITS,
    ensures
        !emu_ctx.write ==> r is None,
        emu_ctx.write ==> match r {
            Some((int_id, targets)) => {
                &&& int_id == ((sgir >> 24u64) % 16) as usize
                &&& (sgir >> 40u64) % 2 == 1 ==> targets == (vm_cpus as u64) & !(1u64 << (cpu_id as u64))
                &&& (sgir >> 40u64) % 2 == 0 ==> forall|b: int|
                    0 <= b < 64 ==> bit_of(targets, b) == (b < 32 && translated_bit(
                        vcpu_phys@,
                        (sgir % 0x10000) as u32,
                        b,
                        32,
                    ))
            },
            None => false,
        },
{
    if !emu_ctx.write {
        return None;
    }
    proof {
        lemma_sgir_bits();
    }
    let id_field = (sgir >> 24u64) & 0xfu64;
    assert(id_field == (sgir >> 24u64) % 16);
    let int_id = id_field as usize;
    let irm = sgir & 0x100_0000_0000u64;
    assert((irm != 0) == ((sgir >> 40u64) % 2 == 1));
    assert(sgir & 0xffffu64 == sgir % 0x10000);
    let targets = if irm != 0 {
        (vm_cpus as u64) & !(1u64 << (cpu_id as u64))
    } else {
        vgic_target_translate(vcpu_phys, (sgir & 0xffff) as u32)
    };
    Some((int_id, targets))
}

proof fn lemma_sgir_bits()
    by (bit_vector)
    ensures
        forall|x: u64| #[trigger] ((x >> 24u64) & 0xfu64) == (x >> 24u64) % 16,
        forall|x: u64| #[trigger] (x & 0x100_0000_0000u64) != 0 <==> (x >> 40u64) % 2 == 1,
        forall|x: u64| #[trigger] (x & 0xffffu64) == x % 0x10000,
{
}


/// Bit `i` of `v`.
pub open spec fn bit_of(v: u64, i: int) -> bool {
    (v >> (i as u64)) & 1 == 1
}

/// Field `k` of `v` when `v` is cut into fields of `b` bits from bit 0 up.
pub open spec fn field_of(v: u64, k: int, b: u64) -> u64 {
    (v >> ((b * k) as u64)) & !(0xffff_ffff_ffff_ffffu64 << b)
}

proof fn lemma_set_bit()
    by (bit_vector)
    ensures
        forall|v: u64, i: u64, j: u64| i < 64 && j < 64 ==> ((#[trigger] (((v | (1u64 << i)) >> j) & 1u64)) == 1u64) == (j == i || ((v >> j) & 1u64) == 1u64),
        forall|j: u64| j < 64 ==> #[trigger] ((0u64 >> j) & 1u64) == 0u64,
{
}

/// The interrupts that a write of `val` to a register with one bit per
/// interrupt (set- or clear-enable, -pending, -active) acts on: the register
/// is `width` bytes wide and starts at interrupt `first_int`; the interrupts
/// are those whose bit is set, in increasing order.
pub fn bit_register_write_ints(first_int: usize, val: u64, width: usize) -> (r: Vec<usize>)
    requires
        width <= 8,
        first_int + 8 * width <= usize::MAX,
    ensures
        forall|k: int| 0 <= k < r@.len() ==> first_int <= #[trigger] r@[k] < first_int + 8 * width && bit_of(val, r@[k] - first_int),
        forall|k1: int, k2: int| 0 <= k1 < k2 < r@.len() ==> r@[k1] < r@[k2],
        forall|i: int| 0 <= i < 8 * width && bit_of(val, i) ==> r@.contains((first_int + i) as usize),
{
    let mut out: Vec<usize> = Vec::new();
    let n = width * 8;
    let mut i: usize = 0;
    while i < n
        invariant
            n == 8 * width,
            width <= 8,
            first_int + n <= usize::MAX,
            i <= n,
            forall|k: int| 0 <= k < out@.len() ==> first_int <= #[trigger] out@[k] < first_int + i && bit_of(val, out@[k] - first_int),
            forall|k1: int, k2: int| 0 <= k1 < k2 < out@.len() ==> out@[k1] < out@[k2],
            forall|j: int| 0 <= j < i && bit_of(val, j) ==> out@.contains((first_int + j) as usize),
        decreases n - i,
    {
        let ghost before = out@;
        if (val >> (i as u64)) & 1 == 1 {
            out.push(first_int + i);
        }
        assert forall|j: int| 0 <= j < i + 1 && bit_of(val, j) implies out@.contains((first_int + j) as usize) by {
            if j < i {
                let k = choose|k: int| 0 <= k < before.len() && before[k] == (first_int + j) as usize;
                assert(out@[k] == before[k]);
            } else {
                assert(out@[out@.len() - 1] == first_int + i);
            }
        }
        i = i + 1;
    }
    out
}

/// The value read from a register with one bit per interrupt, bit `i` being
/// `flags[i]` and the bits above them 0.
pub fn bit_register_read(flags: &Vec<bool>) -> (r: u64)
    requires
        flags@.len() <= 64,
    ensures
        forall|i: int| 0 <= i < flags@.len() ==> bit_of(r, i) == flags@[i],
        forall|i: int| flags@.len() <= i < 64 ==> !bit_of(r, i),
{
    let mut val: u64 = 0;
    let mut i: usize = 0;
    proof {
        lemma_set_bit();
    }
    while i < flags.len()
        invariant
            flags@.len() <= 64,
            i <= flags@.len(),
            forall|j: int| 0 <= j < i ==> bit_of(val, j) == flags@[j],
            forall|j: int| i <= j < 64 ==> !bit_of(val, j),
        decreases flags@.len() - i,
    {
        proof {
            lemma_set_bit();
        }
        let ghost before = val;
        if flags[i] {
            val = val | (1u64 << (i as u64));
            assert forall|j: int| 0 <= j < 64 implies bit_of(val, j) == (j == i || bit_of(before, j)) by {
                assert(((((before | (1u64 << (i as u64))) >> (j as u64)) & 1u64) == 1u64) == ((j as u64) == (i as u64) || ((before >> (j as u64)) & 1u64) == 1u64));
            }
        }
        i = i + 1;
    }
    val
}

pub(crate) proof fn lemma_field_bits()
    by (bit_vector)
    ensures
        forall|acc: u64, f: u64, s: u64, t: u64, b: u64|
            #![trigger ((acc | (f << s)) >> t) & !(0xffff_ffff_ffff_ffffu64 << b)]
            1 <= b <= 8 && t + b <= s && s + b <= 64 && f < (1u64 << b) && (acc >> s) == 0
                ==> ((acc | (f << s)) >> t) & !(0xffff_ffff_ffff_ffffu64 << b) == (acc >> t) & !(0xffff_ffff_ffff_ffffu64 << b),
        forall|acc: u64, f: u64, s: u64, b: u64|
            #![trigger ((acc | (f << s)) >> s) & !(0xffff_ffff_ffff_ffffu64 << b)]
            1 <= b <= 8 && s + b <= 64 && f < (1u64 << b) && (acc >> s) == 0
                ==> ((acc | (f << s)) >> s) & !(0xffff_ffff_ffff_ffffu64 << b) == f,
        forall|acc: u64, f: u64, s: u64, b: u64|
            #![trigger (acc | (f << s)) >> (s + b)]
            1 <= b <= 8 && s + b < 64 && f < (1u64 << b) && (acc >> s) == 0
                ==> (acc | (f << s)) >> (s + b) == 0,
        forall|b: u64| 1 <= b <= 8 ==> #[trigger] (1u64 << b) >= 2,
        forall|x: u64, b: u64| #![trigger x & !(0xffff_ffff_ffff_ffffu64 << b)] 1 <= b <= 8 ==> x & !(0xffff_ffff_ffff_ffffu64 << b) < 256 && (b == 2 ==> x & !(0xffff_ffff_ffff_ffffu64 << b) < 4),
{
}

/// The fields that a write of `val` to a register with `b`-bit fields (the
/// configuration registers, 2 bits, or the priority registers, 8 bits) sets:
/// the register is `width` bytes wide and its field `k` belongs to interrupt
/// `first_int + k`.
pub fn field_register_writes(first_int: usize, val: u64, width: usize, b: u64) -> (r: Vec<(usize, u64)>)
    requires
        width <= 8,
        b == 2 || b == 8,
        first_int + 8 * width <= usize::MAX,
    ensures
        r@.len() == (8 * width) / (b as int),
        forall|k: int| 0 <= k < r@.len() ==> #[trigger] r@[k] == ((first_int + k) as usize, field_of(val, k, b)),
{
    let mut out: Vec<(usize, u64)> = Vec::new();
    let n = (width * 8) / (b as usize);
    let mask: u64 = !(0xffff_ffff_ffff_ffffu64 << b);
    let mut k: usize = 0;
    while k < n
        invariant
            n == (8 * width) / (b as int),
            width <= 8,
            b == 2 || b == 8,
            mask == !(0xffff_ffff_ffff_ffffu64 << b),
            first_int + 8 * width <= usize::MAX,
            k <= n,
            out@.len() == k,
            forall|j: int| 0 <= j < k ==> #[trigger] out@[j] == ((first_int + j) as usize, field_of(val, j, b)),
        decreases n - k,
    {
        let shift: u64 = b * (k as u64);
        out.push((first_int + k, (val >> shift) & mask));
        k = k + 1;
    }
    out
}

/// The value read from a register with `b`-bit fields, field `k` being
/// `fields[k]` and the bits above them 0.
pub fn field_register_read(fields: &Vec<u64>, b: u64) -> (r: u64)
    requires
        b == 2 || b == 8,
        fields@.len() * b <= 64,
        forall|k: int| 0 <= k < fields@.len() ==> #[trigger] fields@[k] < (1u64 << b),
    ensures
        forall|k: int| 0 <= k < fields@.len() ==> field_of(r, k, b) == fields@[k],
        fields@.len() * b < 64 ==> r >> ((fields@.len() * b) as u64) == 0,
{
    let mut val: u64 = 0;
    let mut k: usize = 0;
    proof {
        lemma_field_bits();
        assert(0u64 >> 0u64 == 0) by (bit_vector);
    }
    while k < fields.len()
        invariant
            b == 2 || b == 8,
            fields@.len() * b <= 64,
            forall|j: int| 0 <= j < fields@.len() ==> #[trigger] fields@[j] < (1u64 << b),
            k <= fields@.len(),
            forall|j: int| 0 <= j < k ==> field_of(val, j, b) == fields@[j],
            k * b < 64 ==> val >> ((k * b) as u64) == 0,
        decreases fields@.len() - k,
    {
        proof {
            lemma_field_bits();
        }
        let shift: u64 = b * (k as u64);
        let f = fields[k];
        let ghost before = val;
        assert(k * b < 64) by (nonlinear_arith)
            requires
                k < fields@.len(),
                fields@.len() * b <= 64,
                b >= 1,
        ;
        assert(shift + b <= 64) by (nonlinear_arith)
            requires
                shift == b * k,
                k < fields@.len(),
                fields@.len() * b <= 64,
        ;
        val = val | (f << shift);
        assert forall|j: int| 0 <= j < k + 1 implies field_of(val, j, b) == fields@[j] by {
            if j < k {
                assert((b * j) + b <= shift) by (nonlinear_arith)
                    requires
                        j < k,
                        shift == b * k,
                        b >= 0,
                ;
                assert(((before | (f << shift)) >> ((b * j) as u64)) & !(0xffff_ffff_ffff_ffffu64 << b) == (before >> ((b * j) as u64)) & !(0xffff_ffff_ffff_ffffu64 << b));
            } else {
                assert(((before | (f << shift)) >> shift) & !(0xffff_ffff_ffff_ffffu64 << b) == f);
            }
        }
        proof {
            if (k + 1) * b < 64 {
                assert(((k + 1) * b) as u64 == shift + b) by (nonlinear_arith)
                    requires
                        shift == b * k,
                        (k + 1) * b < 64,
                ;
                assert((before | (f << shift)) >> (shift + b) == 0);
            }
        }
        k = k + 1;
    }
    val
}

} // verus!

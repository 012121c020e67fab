//! The virtual GICv3 of a VM as a state machine: the virtual distributor and
//! redistributors, the state of every virtual interrupt, the per-vCPU lists of
//! interrupts that wait outside the list registers, and the list registers of
//! the physical CPU that runs the vCPU being served.
//!
//! What touches hardware or another CPU is not done here: it is recorded as a
//! `VgicAction` for the caller to carry out, in order.
use vstd::prelude::*;

use crate::arch::aarch64::vgicv3::{
    emu_first_int, emu_irouter_first_int, gicd_offset, EmuContext, field_of, field_register_writes, lemma_field_bits, bit_of, bit_register_write_ints, bit_register_read,
    field_register_read, find_victim, is_victim, no_victim, pending_lr_count, sel_active, sel_pending, lr_active, lr_pending_only,
    GICH_LR_STATE_ACT, GICH_LR_STATE_PND,
    gich_lr_value, irq_state_num, irq_state_of, lr_encoding, lr_vid, InitcEvent, IpiInitcMessage, VgicIpiAction,
    IrqState, Sgis, GICH_LR_EOI_BIT, GICH_LR_HW_BIT, GICH_LR_STATE_MSK, GICH_LR_VID_MASK,
    GIC_LIST_REGS_NUM, GIC_PRIVINT_NUM, GIC_SGIS_NUM,
};

verus! {

/// The number of shared peripheral interrupts a virtual distributor models.
pub const GIC_SPI_MAX: usize = 992;

/// One more than the largest interrupt id.
pub const GIC_INTS_MAX: usize = 1024;

/// The list register slots of a CPU interface.
pub const GICH_LR_SLOTS: usize = 16;

pub const MPIDR_AFF_MSK: u64 = 0xffff;
pub const GICD_IROUTER_INV: u64 = 0xffff_ffff_ffff_0000;
pub const GICD_IROUTER_RES0_MSK: u64 = 0xff_ffff_ffff;
pub const GICD_IROUTER_IRM_BIT: u64 = 0x8000_0000;

pub const GICH_HCR_EN_BIT: u32 = 1;
pub const GICH_HCR_UIE_BIT: u32 = 1 << 1;
pub const GICH_HCR_NPIE_BIT: u32 = 1 << 3;

/// A virtual CPU: its index in its VM, the physical CPU it runs on, and its VM.
#[derive(Clone, Copy, PartialEq, Eq, Structural, Debug)]
pub struct VcpuRef {
    pub id: usize,
    pub phys_id: usize,
    pub vm_id: usize,
}

/// Where the physical interrupt behind a virtual one goes: the redistributor
/// (for a private interrupt) or the routing affinity (for a shared one).
#[derive(Clone, Copy, PartialEq, Eq, Structural, Debug)]
pub enum VgicIntPhys {
    Redist(u64),
    Route(u64),
}

/// The state of one virtual interrupt.
#[derive(Clone, Copy, PartialEq, Eq, Structural, Debug)]
pub struct VgicInt {
    /// The vCPU that may change it now, if any.
    pub owner: Option<VcpuRef>,
    /// The routing register as the guest wrote it.
    pub route: u64,
    pub phys: VgicIntPhys,
    pub id: u16,
    /// Backed by a physical interrupt.
    pub hw: bool,
    /// Presented in a list register (`lr`).
    pub in_lr: bool,
    pub lr: u16,
    pub enabled: bool,
    /// Its state while it is not in a list register.
    pub state: IrqState,
    pub prio: u8,
    pub targets: u8,
    pub cfg: u8,
    /// On its vCPU's pending list.
    pub in_pend: bool,
    /// On its vCPU's active list.
    pub in_act: bool,
}

/// A virtual redistributor's identification registers.
#[derive(Clone, Copy, PartialEq, Eq, Structural, Debug)]
pub struct Vgicr {
    pub typer: u64,
    pub cltr: u32,
    pub iidr: u32,
}

/// What the virtual GIC keeps for one vCPU.
pub struct VgicCpuPriv {
    pub vigcr: Vgicr,
    /// The interrupt last written into each list register.
    pub curr_lrs: Vec<u16>,
    pub sgis: Vec<Sgis>,
    /// Its private interrupts (SGIs and PPIs), by id.
    pub interrupts: Vec<VgicInt>,
    /// Interrupts pending outside the list registers, oldest first.
    pub pend_list: Vec<u16>,
    /// Interrupts active outside the list registers, oldest first.
    pub act_list: Vec<u16>,
}

/// The virtual distributor.
pub struct Vgicd {
    pub ctlr: u32,
    pub typer: u32,
    pub iidr: u32,
    /// The shared interrupts: interrupt `32 + k` at index `k`.
    pub interrupts: Vec<VgicInt>,
}

/// The virtual GIC of a VM, with the VM's vCPUs.
pub struct Vgic {
    pub vgicd: Vgicd,
    pub cpu_priv: Vec<VgicCpuPriv>,
    pub vcpus: Vec<VcpuRef>,
}

/// Work on hardware or on another CPU that an operation asks for.
#[derive(Clone, Copy, PartialEq, Eq, Structural, Debug)]
pub enum VgicAction {
    /// Send this request to physical CPU `target`.
    SendIpi { target: usize, msg: IpiInitcMessage },
    /// Send this request to every other CPU of the VM.
    BroadcastIpi { msg: IpiInitcMessage },
    /// Enable or disable the physical interrupt (at redistributor `redist` for a private one).
    HwSetEnable { int_id: u16, en: bool, redist: Option<u64> },
    /// Set the pending and active state of the physical interrupt.
    HwSetState { int_id: u16, state: usize, redist: Option<u64> },
    /// Set or clear the active state of the physical interrupt.
    HwSetAct { int_id: u16, act: bool, redist: Option<u64> },
    /// Set the priority of the physical interrupt.
    HwSetPrio { int_id: u16, prio: u8, redist: Option<u64> },
    /// Set the configuration of the physical interrupt.
    HwSetIcfgr { int_id: u16, cfg: u8, redist: Option<u64> },
    /// Route the physical shared interrupt.
    HwSetRoute { int_id: u16, route: u64 },
}

/// The physical CPU an operation runs on, its list registers, and the
/// requests the operation makes.
pub struct VgicEnv {
    /// The list registers; an index of 16 or more names none.
    pub lrs: Vec<u64>,
    /// The hypervisor control register of the CPU interface.
    pub hcr: u32,
    /// The number of list registers the CPU interface implements.
    pub gic_lrs: usize,
    /// This physical CPU.
    pub cpu_id: usize,
    /// The affinity bits of this CPU's MPIDR.
    pub mpidr_aff: u64,
    /// The number of physical CPUs of the platform.
    pub cpu_num: usize,
    /// The bitmask of physical CPUs that run the VM's vCPUs.
    pub vm_ncpu: u64,
    /// The right shift that turns a routing affinity into a CPU number.
    pub route_shift: u64,
    pub actions: Vec<VgicAction>,
}

/// The state field of a list register.
pub open spec fn lr_state(lr: u64) -> u64 {
    (lr & GICH_LR_STATE_MSK) >> 62u64
}

/// Whether a list register is free for a new interrupt: inactive, and not
/// waiting for the hypervisor to see the guest's end of interrupt (the
/// empty-list-register status the architecture defines).
pub open spec fn lr_empty(lr: u64) -> bool {
    lr_state(lr) == 0 && (lr & GICH_LR_HW_BIT != 0 || lr & GICH_LR_EOI_BIT == 0)
}

/// Whether the guest ended the interrupt of a list register and the
/// hypervisor asked to hear of it (the end-of-interrupt status the
/// architecture defines).
pub open spec fn lr_eoi_done(lr: u64) -> bool {
    lr_state(lr) == 0 && lr & GICH_LR_HW_BIT == 0 && lr & GICH_LR_EOI_BIT != 0
}

/// The bits of a state number below 4: bit 0 is pending, bit 1 active.
proof fn lemma_state_bits()
    ensures
        forall|s: usize|
            #![trigger s & 1]
            s < 4 ==> (s & 1 != 0) == (s % 2 == 1) && (s & 1 == 0) == (s % 2 == 0),
        forall|s: usize| #![trigger s & 2] s < 4 ==> (s & 2 != 0) == (s >= 2),
        forall|s: usize| #![trigger s | 1] s < 4 ==> s | 1 == (if s % 2 == 1 { s } else { (s + 1) as usize }),
        forall|s: usize| #![trigger s | 2] s < 4 ==> s | 2 == (if s >= 2 { s } else { (s + 2) as usize }),
        forall|s: usize| #![trigger s & !1usize] s < 4 ==> s & !1usize == (if s % 2 == 1 { (s - 1) as usize } else { s }),
        forall|s: usize| #![trigger s & !2usize] s < 4 ==> s & !2usize == (if s >= 2 { (s - 2) as usize } else { s }),
{
    assert(forall|s: usize|
        #![trigger s & 1]
        #![trigger s & 2]
        #![trigger s | 1]
        #![trigger s | 2]
        #![trigger s & !1usize]
        #![trigger s & !2usize]
        s < 4 ==> {
            &&& (s & 1 != 0) == (s % 2 == 1)
            &&& (s & 1 == 0) == (s % 2 == 0)
            &&& (s & 2 != 0) == (s >= 2)
            &&& s | 1 == (if s % 2 == 1 { s } else { (s + 1) as usize })
            &&& s | 2 == (if s >= 2 { s } else { (s + 2) as usize })
            &&& s & !1usize == (if s % 2 == 1 { (s - 1) as usize } else { s })
            &&& s & !2usize == (if s >= 2 { (s - 2) as usize } else { s })
        }) by (bit_vector);
}

proof fn lemma_lr_state_bound(lr: u64)
    ensures
        lr_state(lr) < 4,
        lr_state(0) == 0,
        (lr & GICH_LR_STATE_MSK) & GICH_LR_STATE_ACT != 0 ==> lr_state(lr) != 0,
        (lr & GICH_LR_STATE_MSK) & GICH_LR_STATE_PND != 0 ==> lr_state(lr) != 0,
        0u64 & GICH_LR_EOI_BIT == 0,
{
    assert(((lr & (3u64 << 62u64)) >> 62u64) < 4 && ((0u64 & (3u64 << 62u64)) >> 62u64) == 0 && ((lr & (3u64
        << 62u64)) & (2u64 << 62u64) != 0 ==> ((lr & (3u64 << 62u64)) >> 62u64) != 0) && ((lr & (3u64 << 62u64)) & (
    1u64 << 62u64) != 0 ==> ((lr & (3u64 << 62u64)) >> 62u64) != 0) && (0u64 & (1u64 << 41u64)) == 0) by (bit_vector);
}

impl VgicEnv {
    pub open spec fn wf(&self) -> bool {
        &&& self.lrs@.len() == GICH_LR_SLOTS
        &&& self.gic_lrs <= GICH_LR_SLOTS
        &&& self.cpu_num <= 64
        &&& self.cpu_id < 64
        &&& self.route_shift < 64
    }

    /// List register `i` as the hardware reads it: 0 past the last slot.
    pub open spec fn lr_at(&self, i: int) -> u64 {
        if 0 <= i < GICH_LR_SLOTS {
            self.lrs@[i]
        } else {
            0
        }
    }
}

/// Whether `a` and `b` differ at most in list register `i` and the actions.
pub open spec fn same_env_except_lr(a: &VgicEnv, b: &VgicEnv, i: int) -> bool {
    &&& forall|j: int| 0 <= j < a.lrs@.len() && j != i ==> a.lrs@[j] == b.lrs@[j]
    &&& same_env_meta(a, b)
}

/// Whether `a` and `b` are about the same CPU and VM.
pub open spec fn same_env_meta(a: &VgicEnv, b: &VgicEnv) -> bool {
    &&& a.lrs@.len() == b.lrs@.len()
    &&& a.gic_lrs == b.gic_lrs
    &&& a.cpu_id == b.cpu_id
    &&& a.mpidr_aff == b.mpidr_aff
    &&& a.cpu_num == b.cpu_num
    &&& a.vm_ncpu == b.vm_ncpu
    &&& a.route_shift == b.route_shift
}

impl Vgic {
    /// The number of vCPUs.
    pub open spec fn ncpu(&self) -> int {
        self.vcpus@.len() as int
    }

    /// Interrupt `id` as vCPU `c` sees it: its own private interrupt, or the shared one.
    pub open spec fn int_at(&self, c: int, id: int) -> VgicInt {
        if id < GIC_PRIVINT_NUM {
            self.cpu_priv@[c].interrupts@[id]
        } else {
            self.vgicd.interrupts@[id - GIC_PRIVINT_NUM]
        }
    }

    /// Whether `o` is one of the VM's vCPUs.
    pub open spec fn is_vcpu(&self, o: VcpuRef) -> bool {
        o.id < self.ncpu() && self.vcpus@[o.id as int] == o
    }

    /// What every virtual interrupt keeps: its id, the kind of its physical
    /// route, an owner among the VM's vCPUs (its own vCPU for a private one),
    /// and an owner and a list register slot while it is in a list register.
    pub open spec fn int_ok(&self, c: int, id: int) -> bool {
        let x = self.int_at(c, id);
        &&& x.id == id
        &&& (id < GIC_PRIVINT_NUM ==> x.phys is Redist && (x.owner is Some ==> x.owner == Some(self.vcpus@[c])))
        &&& (id >= GIC_PRIVINT_NUM ==> x.phys is Route && (x.owner is Some ==> self.is_vcpu(x.owner->0)))
        &&& (x.in_lr ==> x.owner is Some && x.lr < GICH_LR_SLOTS)
        &&& x.cfg < 4
    }

    pub open spec fn wf(&self) -> bool {
        &&& 1 <= self.ncpu() <= 64
        &&& self.cpu_priv@.len() == self.ncpu()
        &&& self.vgicd.interrupts@.len() == GIC_SPI_MAX
        &&& forall|c: int|
            #![trigger self.cpu_priv@[c]]
            0 <= c < self.ncpu() ==> {
                &&& self.cpu_priv@[c].interrupts@.len() == GIC_PRIVINT_NUM
                &&& self.cpu_priv@[c].curr_lrs@.len() == GIC_LIST_REGS_NUM
                &&& self.cpu_priv@[c].sgis@.len() == GIC_SGIS_NUM
                &&& self.vcpus@[c].id == c
                &&& self.vcpus@[c].vm_id == self.vcpus@[0].vm_id
                &&& forall|k: int|
                    0 <= k < self.cpu_priv@[c].pend_list@.len() ==> #[trigger] self.cpu_priv@[c].pend_list@[k] < GIC_INTS_MAX
                &&& forall|k: int|
                    0 <= k < self.cpu_priv@[c].act_list@.len() ==> #[trigger] self.cpu_priv@[c].act_list@[k] < GIC_INTS_MAX
            }
        &&& forall|c1: int, c2: int|
            0 <= c1 < self.ncpu() && 0 <= c2 < self.ncpu() && c1 != c2 ==> #[trigger] self.vcpus@[c1].phys_id
                != #[trigger] self.vcpus@[c2].phys_id
        &&& forall|c: int, id: int|
            0 <= c < self.ncpu() && 0 <= id < GIC_INTS_MAX ==> #[trigger] self.int_ok(c, id)
    }

    /// Whether the vCPU `v` is the VM's vCPU running on the CPU of `env`.
    pub open spec fn runs_here(&self, env: &VgicEnv, v: VcpuRef) -> bool {
        self.is_vcpu(v) && v.phys_id == env.cpu_id
    }

    /// Whether the vCPUs, the distributor registers, the redistributor
    /// registers and the software-generated interrupt state are as in `old`.
    pub open spec fn same_shape(&self, old: &Vgic) -> bool {
        &&& self.vcpus@ == old.vcpus@
        &&& self.cpu_priv@.len() == old.cpu_priv@.len()
        &&& self.vgicd.interrupts@.len() == old.vgicd.interrupts@.len()
        &&& self.vgicd.ctlr == old.vgicd.ctlr
        &&& self.vgicd.typer == old.vgicd.typer
        &&& self.vgicd.iidr == old.vgicd.iidr
        &&& forall|c: int|
            #![trigger self.cpu_priv@[c]]
            0 <= c < self.cpu_priv@.len() ==> {
                &&& self.cpu_priv@[c].vigcr == old.cpu_priv@[c].vigcr
                &&& self.cpu_priv@[c].sgis@ == old.cpu_priv@[c].sgis@
                &&& self.cpu_priv@[c].interrupts@.len() == old.cpu_priv@[c].interrupts@.len()
                &&& self.cpu_priv@[c].curr_lrs@.len() == old.cpu_priv@[c].curr_lrs@.len()
            }
    }

    /// Whether the record of the interrupt last written into each list register is as in `old`.
    pub open spec fn same_curr_lrs(&self, old: &Vgic) -> bool {
        forall|c: int|
            #![trigger self.cpu_priv@[c]]
            0 <= c < self.cpu_priv@.len() ==> self.cpu_priv@[c].curr_lrs@ == old.cpu_priv@[c].curr_lrs@
    }

    /// Whether every pending and active list is as in `old`.
    pub open spec fn same_lists(&self, old: &Vgic) -> bool {
        forall|c: int|
            #![trigger self.cpu_priv@[c]]
            0 <= c < self.cpu_priv@.len() ==> {
                &&& self.cpu_priv@[c].pend_list@ == old.cpu_priv@[c].pend_list@
                &&& self.cpu_priv@[c].act_list@ == old.cpu_priv@[c].act_list@
            }
    }

    /// Whether everything but the interrupts is as in `old`.
    pub open spec fn same_but_ints(&self, old: &Vgic) -> bool {
        &&& self.same_shape(old)
        &&& self.same_curr_lrs(old)
        &&& self.same_lists(old)
    }

    /// Whether the interrupts are as in `old` but interrupt `id` (of vCPU `c`
    /// when private), which is `x`.
    pub open spec fn ints_updated(&self, old: &Vgic, c: int, id: int, x: VgicInt) -> bool {
        forall|c2: int, id2: int|
            0 <= c2 < self.ncpu() && 0 <= id2 < GIC_INTS_MAX ==> #[trigger] self.int_at(c2, id2) == if id2 == id
                && (id >= GIC_PRIVINT_NUM || c2 == c) {
                x
            } else {
                old.int_at(c2, id2)
            }
    }

    /// Interrupt `int_id` as `vcpu` sees it, if there is one by that id.
    pub fn get_int(&self, vcpu: VcpuRef, int_id: usize) -> (r: Option<VgicInt>)
        requires
            self.wf(),
            self.is_vcpu(vcpu),
        ensures
            int_id < GIC_INTS_MAX ==> r == Some(self.int_at(vcpu.id as int, int_id as int)),
            int_id >= GIC_INTS_MAX ==> r is None,
    {
        if int_id < GIC_PRIVINT_NUM {
            Some(self.cpu_priv[vcpu.id].interrupts[int_id])
        } else if int_id < GIC_INTS_MAX {
            Some(self.vgicd.interrupts[int_id - GIC_PRIVINT_NUM])
        } else {
            None
        }
    }

    /// Stores `x` as interrupt `x.id` (of vCPU `c` when private).
    fn set_int(&mut self, c: usize, x: VgicInt)
        requires
            old(self).wf(),
            c < old(self).ncpu(),
            x.id < GIC_INTS_MAX,
            x.id < GIC_PRIVINT_NUM ==> x.phys is Redist && (x.owner is Some ==> x.owner == Some(old(self).vcpus@[c as int])),
            x.id >= GIC_PRIVINT_NUM ==> x.phys is Route && (x.owner is Some ==> old(self).is_vcpu(x.owner->0)),
            x.in_lr ==> x.owner is Some && x.lr < GICH_LR_SLOTS,
            x.cfg < 4,
        ensures
            final(self).wf(),
            final(self).same_but_ints(old(self)),
            final(self).ints_updated(old(self), c as int, x.id as int, x),
    {
        let id = x.id as usize;
        if id < GIC_PRIVINT_NUM {
            self.cpu_priv[c].interrupts.set(id, x);
        } else {
            self.vgicd.interrupts.set(id - GIC_PRIVINT_NUM, x);
        }
        proof {
            assert forall|c2: int, id2: int|
                0 <= c2 < self.ncpu() && 0 <= id2 < GIC_INTS_MAX implies #[trigger] self.int_ok(c2, id2) by {
                assert(old(self).int_ok(c2, id2));
            }
        }
    }
}


/// Whether `r` is `s` without its first `v`, or `s` itself when `v` is not in it.
pub open spec fn removed_first(s: Seq<u16>, v: u16, r: Seq<u16>) -> bool {
    ||| exists|i: int|
        0 <= i < s.len() && s[i] == v && (forall|j: int| 0 <= j < i ==> s[j] != v) && r == s.remove(i)
    ||| !s.contains(v) && r == s
}

/// Removes the first `v` from `list`, if there is one.
fn remove_first(list: &mut Vec<u16>, v: u16)
    ensures
        removed_first(old(list)@, v, final(list)@),
{
    let mut i: usize = 0;
    while i < list.len()
        invariant
            i <= list@.len(),
            list@ == old(list)@,
            forall|j: int| 0 <= j < i ==> list@[j] != v,
        decreases list@.len() - i,
    {
        if list[i] == v {
            list.remove(i);
            return;
        }
        i = i + 1;
    }
}

/// Whether `vcpu` owns interrupt `x`: every vCPU owns its private
/// interrupts; a shared one is owned by the vCPU recorded as its owner.
pub open spec fn owns(vcpu: VcpuRef, x: VgicInt) -> bool {
    x.id < GIC_PRIVINT_NUM || (x.owner is Some && x.owner->0.id == vcpu.id && x.owner->0.phys_id == vcpu.phys_id)
}

/// Whether `vcpu` owns interrupt `x`.
pub fn vgic_owns(vcpu: VcpuRef, x: &VgicInt) -> (r: bool)
    ensures
        r == owns(vcpu, *x),
{
    if (x.id as usize) < GIC_PRIVINT_NUM {
        return true;
    }
    match x.owner {
        Some(o) => o.id == vcpu.id && o.phys_id == vcpu.phys_id,
        None => false,
    }
}

/// The list register that holds interrupt `x` on the CPU of `env`: the one
/// recorded for it, provided that its owner runs here and the register still
/// holds it, not inactive.
pub open spec fn lr_holding(env: &VgicEnv, x: VgicInt) -> Option<u64> {
    let lr = env.lr_at(x.lr as int);
    if x.in_lr && x.owner->0.phys_id == env.cpu_id && lr_vid(lr) == x.id as u64 && lr_state(lr) != 0 {
        Some(lr)
    } else {
        None
    }
}

/// Reads list register `i`; an index past the last slot reads 0.
pub fn read_lr(env: &VgicEnv, i: usize) -> (r: u64)
    requires
        env.wf(),
    ensures
        r == env.lr_at(i as int),
{
    if i < GICH_LR_SLOTS {
        env.lrs[i]
    } else {
        0
    }
}

/// The list register that holds interrupt `x` here, if one does.
pub fn gich_get_lr(env: &VgicEnv, x: &VgicInt) -> (r: Option<u64>)
    requires
        env.wf(),
        x.owner is Some,
    ensures
        r == lr_holding(env, *x),
{
    let phys_id = match x.owner {
        Some(o) => o.phys_id,
        None => 0,
    };
    if !x.in_lr || phys_id != env.cpu_id {
        return None;
    }
    let lr = read_lr(env, x.lr as usize);
    if lr & GICH_LR_VID_MASK == x.id as u64 && (lr & GICH_LR_STATE_MSK) >> 62u64 != 0 {
        Some(lr)
    } else {
        None
    }
}

/// The state number of interrupt `x` as the guest sees it: that of the list
/// register holding it here, else its own.
pub open spec fn vstate(env: &VgicEnv, x: VgicInt) -> nat {
    if x.in_lr && x.owner->0.phys_id == env.cpu_id && lr_holding(env, x) is Some {
        lr_state(lr_holding(env, x)->0) as nat
    } else {
        irq_state_num(x.state)
    }
}

/// The state number of interrupt `x` as the guest sees it.
pub fn vgic_get_state(env: &VgicEnv, x: &VgicInt) -> (r: usize)
    requires
        env.wf(),
        x.in_lr ==> x.owner is Some,
    ensures
        r == vstate(env, *x),
        r < 4,
{
    let mut state = x.state.to_num();
    if x.in_lr {
        let phys_id = match x.owner {
            Some(o) => o.phys_id,
            None => 0,
        };
        if phys_id == env.cpu_id {
            if let Some(lr) = gich_get_lr(env, x) {
                proof {
                    lemma_lr_state_bound(lr);
                }
                state = ((lr & GICH_LR_STATE_MSK) >> 62u64) as usize;
            }
        }
    }
    state
}

impl Vgic {
    /// Makes `vcpu` the owner of interrupt `int_id` if it has none; tells
    /// whether `vcpu` owns it now.
    pub fn vgic_int_get_owner(&mut self, vcpu: VcpuRef, int_id: usize) -> (r: bool)
        requires
            old(self).wf(),
            old(self).is_vcpu(vcpu),
            int_id < GIC_INTS_MAX,
        ensures
            final(self).others_kept(old(self), vcpu, int_id as int),
            final(self).same_routing(old(self)),
            final(self).wf(),
            final(self).same_but_ints(old(self)),
            ({
                let x = old(self).int_at(vcpu.id as int, int_id as int);
                &&& r == (x.owner is None || x.owner == Some(vcpu))
                &&& r == (x.owner is None || (x.owner->0.vm_id == vcpu.vm_id && x.owner->0.id == vcpu.id))
                &&& r == (final(self).int_at(vcpu.id as int, int_id as int).owner == Some(vcpu))
                &&& final(self).ints_updated(old(self), vcpu.id as int, int_id as int, VgicInt {
                    owner: if x.owner is None { Some(vcpu) } else { x.owner },
                    ..x
                })
            }),
    {
        let x = self.cpu_or_spi(vcpu, int_id);
        proof {
            assert(self.int_ok(vcpu.id as int, int_id as int));
        }
        match x.owner {
            Some(o) => {
                proof {
                    assert(self.ints_updated(self, vcpu.id as int, int_id as int, x));
                }
                o.vm_id == vcpu.vm_id && o.id == vcpu.id
            },
            None => {
                self.set_int(vcpu.id, VgicInt { owner: Some(vcpu), ..x });
                true
            },
        }
    }

    /// Interrupt `int_id` (below 1024) as `vcpu` sees it.
    fn cpu_or_spi(&self, vcpu: VcpuRef, int_id: usize) -> (r: VgicInt)
        requires
            self.wf(),
            self.is_vcpu(vcpu),
            int_id < GIC_INTS_MAX,
        ensures
            r == self.int_at(vcpu.id as int, int_id as int),
    {
        if int_id < GIC_PRIVINT_NUM {
            self.cpu_priv[vcpu.id].interrupts[int_id]
        } else {
            self.vgicd.interrupts[int_id - GIC_PRIVINT_NUM]
        }
    }

    /// Gives up `vcpu`'s ownership of interrupt `int_id` unless it is in a
    /// list register or active.
    pub fn vgic_int_yield_owner(&mut self, env: &VgicEnv, vcpu: VcpuRef, int_id: usize)
        requires
            old(self).wf(),
            old(self).is_vcpu(vcpu),
            env.wf(),
            int_id < GIC_INTS_MAX,
        ensures
            final(self).others_kept(old(self), vcpu, int_id as int),
            final(self).same_routing(old(self)),
            final(self).wf(),
            final(self).same_but_ints(old(self)),
            ({
                let x = old(self).int_at(vcpu.id as int, int_id as int);
                let yields = owns(vcpu, x) && !x.in_lr && vstate(env, x) / 2 == 0;
                final(self).ints_updated(old(self), vcpu.id as int, int_id as int,
                    if yields { VgicInt { owner: None, ..x } } else { x })
            }),
            old(self).lr_consistent(env, vcpu) ==> final(self).lr_consistent(env, vcpu),
    {
        let x = self.cpu_or_spi(vcpu, int_id);
        proof {
            assert(self.int_ok(vcpu.id as int, int_id as int));
        }
        if !vgic_owns(vcpu, &x) || x.in_lr || vgic_get_state(env, &x) & 2 != 0 {
            proof {
                assert(self.ints_updated(self, vcpu.id as int, int_id as int, x));
                lemma_state_bits();
            }
            return;
        }
        proof {
            lemma_state_bits();
        }
        self.set_int(vcpu.id, VgicInt { owner: None, ..x });
    }
}


/// What a list becomes when `id` may be appended (`add`) or have its first
/// occurrence removed (`rem`).
pub open spec fn list_after(l: Seq<u16>, id: u16, add: bool, rem: bool, r: Seq<u16>) -> bool {
    if add {
        r == l.push(id)
    } else if rem {
        removed_first(l, id, r)
    } else {
        r == l
    }
}

impl Vgic {
    /// Whether the lists of every vCPU but `c` are as in `old`, and those of
    /// `c` satisfy `pend` and `act`.
    pub open spec fn lists_of_only(&self, old: &Vgic, c: int) -> bool {
        forall|c2: int|
            #![trigger self.cpu_priv@[c2]]
            0 <= c2 < self.cpu_priv@.len() && c2 != c ==> {
                &&& self.cpu_priv@[c2].pend_list@ == old.cpu_priv@[c2].pend_list@
                &&& self.cpu_priv@[c2].act_list@ == old.cpu_priv@[c2].act_list@
            }
    }

    /// Whether every interrupt is as in `old`.
    pub open spec fn same_ints(&self, old: &Vgic) -> bool {
        forall|c2: int, id2: int|
            0 <= c2 < self.ncpu() && 0 <= id2 < GIC_INTS_MAX ==> #[trigger] self.int_at(c2, id2) == old.int_at(c2, id2)
    }

    /// Whether every interrupt keeps its route.
    pub open spec fn same_routing(&self, old: &Vgic) -> bool {
        forall|c2: int, id2: int|
            #![trigger self.int_at(c2, id2)]
            0 <= c2 < self.ncpu() && 0 <= id2 < GIC_INTS_MAX ==> self.int_at(c2, id2).route == old.int_at(c2, id2).route
                && self.int_at(c2, id2).phys == old.int_at(c2, id2).phys
    }

    /// Keeping routes is transitive.
    pub proof fn lemma_routing_trans(&self, mid: &Vgic, old: &Vgic)
        requires
            mid.same_routing(old),
            self.same_routing(mid),
            self.ncpu() == mid.ncpu(),
        ensures
            self.same_routing(old),
    {
        assert forall|c2: int, id2: int|
            #![trigger self.int_at(c2, id2)]
            0 <= c2 < self.ncpu() && 0 <= id2 < GIC_INTS_MAX implies self.int_at(c2, id2).route
            == old.int_at(c2, id2).route && self.int_at(c2, id2).phys == old.int_at(c2, id2).phys by {
            assert(mid.int_at(c2, id2).route == old.int_at(c2, id2).route && mid.int_at(c2, id2).phys == old.int_at(c2, id2).phys);
            assert(self.int_at(c2, id2).route == mid.int_at(c2, id2).route && self.int_at(c2, id2).phys == mid.int_at(c2, id2).phys);
        }
    }

    /// Whether every interrupt but `int_id` keeps its configuration, and its
    /// owner when that is a vCPU other than `vcpu`.
    pub open spec fn others_kept(&self, old: &Vgic, vcpu: VcpuRef, int_id: int) -> bool {
        forall|c2: int, id2: int|
            #![trigger self.int_at(c2, id2)]
            0 <= c2 < self.ncpu() && 0 <= id2 < GIC_INTS_MAX && id2 != int_id ==> {
                &&& same_config(self.int_at(c2, id2), old.int_at(c2, id2))
                &&& (old.int_at(c2, id2).owner is Some && old.int_at(c2, id2).owner != Some(vcpu) ==> self.int_at(
                    c2,
                    id2,
                ).owner == old.int_at(c2, id2).owner)
                &&& (self.int_at(c2, id2).owner is Some && self.int_at(c2, id2).owner != Some(vcpu) ==> self.int_at(
                    c2,
                    id2,
                ).owner == old.int_at(c2, id2).owner)
            }
    }

    /// Keeping the other interrupts is transitive.
    pub proof fn lemma_others_trans(&self, mid: &Vgic, old: &Vgic, vcpu: VcpuRef, int_id: int)
        requires
            mid.others_kept(old, vcpu, int_id),
            self.others_kept(mid, vcpu, int_id),
            self.ncpu() == mid.ncpu(),
        ensures
            self.others_kept(old, vcpu, int_id),
    {
        assert forall|c2: int, id2: int|
            #![trigger self.int_at(c2, id2)]
            0 <= c2 < self.ncpu() && 0 <= id2 < GIC_INTS_MAX && id2 != int_id implies {
                &&& same_config(self.int_at(c2, id2), old.int_at(c2, id2))
                &&& (old.int_at(c2, id2).owner is Some && old.int_at(c2, id2).owner != Some(vcpu) ==> self.int_at(
                    c2,
                    id2,
                ).owner == old.int_at(c2, id2).owner)
                &&& (self.int_at(c2, id2).owner is Some && self.int_at(c2, id2).owner != Some(vcpu) ==> self.int_at(
                    c2,
                    id2,
                ).owner == old.int_at(c2, id2).owner)
            } by {
            assert(same_config(mid.int_at(c2, id2), old.int_at(c2, id2)));
            assert(same_config(self.int_at(c2, id2), mid.int_at(c2, id2)));
        }
    }

    /// Whether the route of every shared interrupt names a CPU a mask can hold.
    pub open spec fn routes_fit(&self, env: &VgicEnv, vcpu: VcpuRef) -> bool {
        forall|id2: int| 0 <= id2 < GIC_INTS_MAX ==> route_fits(env, #[trigger] self.int_at(vcpu.id as int, id2))
    }

    /// Appends `id` to (`push`), or removes its first occurrence from, the
    /// pending (`pend`) or active list of vCPU `c`.
    fn edit_list(&mut self, c: usize, id: u16, pend: bool, push: bool)
        requires
            old(self).wf(),
            c < old(self).ncpu(),
            id < GIC_INTS_MAX,
        ensures
            final(self).wf(),
            final(self).same_shape(old(self)),
            final(self).same_curr_lrs(old(self)),
            final(self).lists_of_only(old(self), c as int),
            final(self).same_ints(old(self)),
            pend ==> final(self).cpu_priv@[c as int].act_list@ == old(self).cpu_priv@[c as int].act_list@,
            !pend ==> final(self).cpu_priv@[c as int].pend_list@ == old(self).cpu_priv@[c as int].pend_list@,
            ({
                let l0 = if pend { old(self).cpu_priv@[c as int].pend_list@ } else { old(self).cpu_priv@[c as int].act_list@ };
                let l1 = if pend { final(self).cpu_priv@[c as int].pend_list@ } else { final(self).cpu_priv@[c as int].act_list@ };
                if push {
                    l1 == l0.push(id)
                } else {
                    removed_first(l0, id, l1)
                }
            }),
    {
        if pend {
            if push {
                self.cpu_priv[c].pend_list.push(id);
            } else {
                remove_first(&mut self.cpu_priv[c].pend_list, id);
            }
        } else {
            if push {
                self.cpu_priv[c].act_list.push(id);
            } else {
                remove_first(&mut self.cpu_priv[c].act_list, id);
            }
        }
        proof {
            assert forall|c2: int|
                #![trigger self.cpu_priv@[c2]]
                0 <= c2 < self.ncpu() implies self.cpu_priv@[c2].interrupts@ == old(self).cpu_priv@[c2].interrupts@ by {
                if c2 != c {
                    assert(self.cpu_priv@[c2] == old(self).cpu_priv@[c2]);
                }
            }
            assert forall|c2: int, id2: int|
                0 <= c2 < self.ncpu() && 0 <= id2 < GIC_INTS_MAX implies #[trigger] self.int_at(c2, id2) == old(self).int_at(c2, id2) by {
                assert(self.cpu_priv@[c2].interrupts@ == old(self).cpu_priv@[c2].interrupts@);
            }
            assert forall|c2: int, id2: int|
                0 <= c2 < self.ncpu() && 0 <= id2 < GIC_INTS_MAX implies #[trigger] self.int_ok(c2, id2) by {
                assert(old(self).int_ok(c2, id2));
                assert(self.int_at(c2, id2) == old(self).int_at(c2, id2));
            }
        }
    }

    /// Puts interrupt `int_id` on the pending (`is_pend`) or active list of
    /// `vcpu`, unless it is in a list register.
    pub fn add_int_list(&mut self, vcpu: VcpuRef, int_id: usize, is_pend: bool)
        requires
            old(self).wf(),
            old(self).is_vcpu(vcpu),
            int_id < GIC_INTS_MAX,
        ensures
            final(self).same_routing(old(self)),
            final(self).wf(),
            final(self).same_shape(old(self)),
            final(self).same_curr_lrs(old(self)),
            final(self).lists_of_only(old(self), vcpu.id as int),
            ({
                let x = old(self).int_at(vcpu.id as int, int_id as int);
                let c = vcpu.id as int;
                let add = !x.in_lr;
                &&& final(self).ints_updated(old(self), c, int_id as int, VgicInt {
                    in_pend: x.in_pend || (add && is_pend),
                    in_act: x.in_act || (add && !is_pend),
                    ..x
                })
                &&& final(self).cpu_priv@[c].pend_list@ == if add && is_pend {
                    old(self).cpu_priv@[c].pend_list@.push(int_id as u16)
                } else {
                    old(self).cpu_priv@[c].pend_list@
                }
                &&& final(self).cpu_priv@[c].act_list@ == if add && !is_pend {
                    old(self).cpu_priv@[c].act_list@.push(int_id as u16)
                } else {
                    old(self).cpu_priv@[c].act_list@
                }
            }),
    {
        let x = self.cpu_or_spi(vcpu, int_id);
        proof {
            assert(self.int_ok(vcpu.id as int, int_id as int));
        }
        if !x.in_lr {
            if is_pend {
                self.set_int(vcpu.id, VgicInt { in_pend: true, ..x });
                self.edit_list(vcpu.id, int_id as u16, true, true);
            } else {
                self.set_int(vcpu.id, VgicInt { in_act: true, ..x });
                self.edit_list(vcpu.id, int_id as u16, false, true);
            }
        } else {
            proof {
                assert(self.ints_updated(old(self), vcpu.id as int, int_id as int, x));
            }
        }
    }

    /// Takes interrupt `int_id` off the pending (`is_pend`) or active list of
    /// `vcpu`, if it is in a list register and marked as on that list.
    pub fn remove_int_list(&mut self, vcpu: VcpuRef, int_id: usize, is_pend: bool)
        requires
            old(self).wf(),
            old(self).is_vcpu(vcpu),
            int_id < GIC_INTS_MAX,
        ensures
            final(self).same_routing(old(self)),
            final(self).wf(),
            final(self).same_shape(old(self)),
            final(self).same_curr_lrs(old(self)),
            final(self).lists_of_only(old(self), vcpu.id as int),
            ({
                let x = old(self).int_at(vcpu.id as int, int_id as int);
                let c = vcpu.id as int;
                let rem_p = x.in_lr && is_pend && x.in_pend;
                let rem_a = x.in_lr && !is_pend && x.in_act;
                &&& final(self).ints_updated(old(self), c, int_id as int, VgicInt {
                    in_pend: x.in_pend && !rem_p,
                    in_act: x.in_act && !rem_a,
                    ..x
                })
                &&& list_after(old(self).cpu_priv@[c].pend_list@, int_id as u16, false, rem_p,
                    final(self).cpu_priv@[c].pend_list@)
                &&& list_after(old(self).cpu_priv@[c].act_list@, int_id as u16, false, rem_a,
                    final(self).cpu_priv@[c].act_list@)
            }),
    {
        let x = self.cpu_or_spi(vcpu, int_id);
        proof {
            assert(self.int_ok(vcpu.id as int, int_id as int));
            assert(self.ints_updated(old(self), vcpu.id as int, int_id as int, x));
        }
        if x.in_lr {
            if is_pend {
                if !x.in_pend {
                    return;
                }
                self.edit_list(vcpu.id, int_id as u16, true, false);
                self.set_int(vcpu.id, VgicInt { in_pend: false, ..x });
            } else {
                if !x.in_act {
                    return;
                }
                self.edit_list(vcpu.id, int_id as u16, false, false);
                self.set_int(vcpu.id, VgicInt { in_act: false, ..x });
            }
        }
    }

    /// Brings the list flags and lists of interrupt `int_id` in line with its
    /// own state: a pending (active) interrupt outside the list registers
    /// joins the pending (active) list; one no longer pending (active) that
    /// is in a list register leaves it.
    pub fn update_int_list(&mut self, vcpu: VcpuRef, int_id: usize)
        requires
            old(self).wf(),
            old(self).is_vcpu(vcpu),
            int_id < GIC_INTS_MAX,
        ensures
            final(self).others_kept(old(self), vcpu, int_id as int),
            final(self).same_routing(old(self)),
            final(self).wf(),
            final(self).same_shape(old(self)),
            final(self).same_curr_lrs(old(self)),
            final(self).lists_of_only(old(self), vcpu.id as int),
            ({
                let x = old(self).int_at(vcpu.id as int, int_id as int);
                let c = vcpu.id as int;
                let s = irq_state_num(x.state);
                let add_p = s % 2 == 1 && !x.in_pend && !x.in_lr;
                let rem_p = s % 2 == 0 && x.in_lr && x.in_pend;
                let add_a = s >= 2 && !x.in_act && !x.in_lr;
                let rem_a = s < 2 && x.in_lr && x.in_act;
                &&& final(self).ints_updated(old(self), c, int_id as int, VgicInt {
                    in_pend: (x.in_pend || add_p) && !rem_p,
                    in_act: (x.in_act || add_a) && !rem_a,
                    ..x
                })
                &&& list_after(old(self).cpu_priv@[c].pend_list@, int_id as u16, add_p, rem_p,
                    final(self).cpu_priv@[c].pend_list@)
                &&& list_after(old(self).cpu_priv@[c].act_list@, int_id as u16, add_a, rem_a,
                    final(self).cpu_priv@[c].act_list@)
            }),
    {
        let x = self.cpu_or_spi(vcpu, int_id);
        let state = x.state.to_num();
        proof {
            lemma_state_bits();
        }
        if state & 1 != 0 && !x.in_pend {
            self.add_int_list(vcpu, int_id, true);
        } else if state & 1 == 0 {
            self.remove_int_list(vcpu, int_id, true);
        } else {
            proof {
                assert(self.ints_updated(old(self), vcpu.id as int, int_id as int, x));
            }
        }
        let ghost mid = *self;
        let x1 = self.cpu_or_spi(vcpu, int_id);
        if state & 2 != 0 && !x1.in_act {
            self.add_int_list(vcpu, int_id, false);
        } else if state & 2 == 0 {
            self.remove_int_list(vcpu, int_id, false);
        } else {
            proof {
                assert(self.ints_updated(&mid, vcpu.id as int, int_id as int, x1));
            }
        }
        proof {
            let c = vcpu.id as int;
            let xf = self.int_at(c, int_id as int);
            let s = irq_state_num(x.state);
            let add_p = s % 2 == 1 && !x.in_pend && !x.in_lr;
            let rem_p = s % 2 == 0 && x.in_lr && x.in_pend;
            let add_a = s >= 2 && !x.in_act && !x.in_lr;
            let rem_a = s < 2 && x.in_lr && x.in_act;
            let want = VgicInt { in_pend: (x.in_pend || add_p) && !rem_p, in_act: (x.in_act || add_a) && !rem_a, ..x };
            assert(xf == want);
            assert forall|c2: int, id2: int|
                0 <= c2 < self.ncpu() && 0 <= id2 < GIC_INTS_MAX implies #[trigger] self.int_at(c2, id2) == if id2
                    == int_id && (int_id >= GIC_PRIVINT_NUM || c2 == c) {
                    want
                } else {
                    old(self).int_at(c2, id2)
                } by {
                assert(mid.int_at(c2, id2) == mid.int_at(c2, id2));
            }
        }
    }

    /// The first interrupt on the pending (`is_pend`) or active list of `vcpu`.
    pub fn int_list_head(&self, vcpu: VcpuRef, is_pend: bool) -> (r: Option<u16>)
        requires
            self.wf(),
            self.is_vcpu(vcpu),
        ensures
            ({
                let l = if is_pend {
                    self.cpu_priv@[vcpu.id as int].pend_list@
                } else {
                    self.cpu_priv@[vcpu.id as int].act_list@
                };
                r == if l.len() == 0 { None } else { Some(l[0]) }
            }),
    {
        let cp = &self.cpu_priv[vcpu.id];
        if is_pend {
            if cp.pend_list.len() == 0 {
                None
            } else {
                Some(cp.pend_list[0])
            }
        } else if cp.act_list.len() == 0 {
            None
        } else {
            Some(cp.act_list[0])
        }
    }
}


impl VgicEnv {
    /// Writes list register `i`.
    fn set_lr(&mut self, i: usize, v: u64)
        requires
            old(self).wf(),
            i < GICH_LR_SLOTS,
        ensures
            final(self).wf(),
            final(self).lrs@ == old(self).lrs@.update(i as int, v),
            same_env_except_lr(final(self), old(self), i as int),
            final(self).hcr == old(self).hcr,
            final(self).actions@ == old(self).actions@,
    {
        self.lrs.set(i, v);
    }
}

/// The state the guest sees of an interrupt whose state was `s` once it
/// is in a list register: a hardware interrupt both pending and active shows
/// as active only, as its physical interrupt keeps it pending.
pub open spec fn shown_state(x: VgicInt, s: nat) -> nat {
    if x.hw && x.id >= GIC_SGIS_NUM && s == 3 {
        2
    } else {
        s
    }
}

/// Whether list register value `lr` presents no interrupt of a view other
/// than `id`: it is inactive, or holds `id`, or an id past the view.
pub open spec fn slot_clear_for(lr: u64, id: int) -> bool {
    lr_state(lr) == 0 || lr_vid(lr) == id || lr_vid(lr) >= GIC_INTS_MAX
}

impl Vgic {
    /// Whether every interrupt of vCPU `c`'s view but `except` shows the
    /// guest, with `env`, the state it showed in `old` with `old_env`.
    pub open spec fn vstates_kept(&self, old: &Vgic, env: &VgicEnv, old_env: &VgicEnv, c: int, except: int) -> bool {
        forall|id2: int|
            0 <= id2 < GIC_INTS_MAX && id2 != except ==> #[trigger] vstate(env, self.int_at(c, id2)) == vstate(
                old_env,
                old.int_at(c, id2),
            )
    }

    /// Keeping the shown states is transitive.
    proof fn lemma_vstates_trans(
        &self,
        mid: &Vgic,
        old: &Vgic,
        env: &VgicEnv,
        mid_env: &VgicEnv,
        old_env: &VgicEnv,
        c: int,
        except: int,
    )
        requires
            mid.vstates_kept(old, mid_env, old_env, c, except),
            self.vstates_kept(mid, env, mid_env, c, except),
        ensures
            self.vstates_kept(old, env, old_env, c, except),
    {
        assert forall|id2: int| 0 <= id2 < GIC_INTS_MAX && id2 != except implies #[trigger] vstate(
            env,
            self.int_at(c, id2),
        ) == vstate(old_env, old.int_at(c, id2)) by {
            assert(vstate(env, self.int_at(c, id2)) == vstate(mid_env, mid.int_at(c, id2)));
        }
    }

    /// The states shown are kept when only list register `slot` changes,
    /// presenting no interrupt but `except` before and after, and every
    /// other interrupt keeps its state and id, and its register, owner and
    /// presence in a register, or leaves register `slot`.
    proof fn lemma_vstates_slot(&self, old: &Vgic, env: &VgicEnv, old_env: &VgicEnv, c: int, except: int, slot: int)
        requires
            old.wf(),
            0 <= c < old.ncpu(),
            env.wf(),
            old_env.wf(),
            env.cpu_id == old_env.cpu_id,
            0 <= slot < GICH_LR_SLOTS,
            forall|j: int| 0 <= j < GICH_LR_SLOTS && j != slot ==> env.lrs@[j] == old_env.lrs@[j],
            slot_clear_for(env.lrs@[slot], except),
            slot_clear_for(old_env.lrs@[slot], except),
            forall|id2: int|
                0 <= id2 < GIC_INTS_MAX && id2 != except ==> {
                    let o = old.int_at(c, id2);
                    let n = #[trigger] self.int_at(c, id2);
                    &&& n.state == o.state
                    &&& n.id == o.id
                    &&& n.in_lr ==> o.in_lr && n.lr == o.lr && n.owner == o.owner
                    &&& o.in_lr && !n.in_lr ==> o.lr == slot
                },
        ensures
            self.vstates_kept(old, env, old_env, c, except),
    {
        assert forall|id2: int| 0 <= id2 < GIC_INTS_MAX && id2 != except implies #[trigger] vstate(
            env,
            self.int_at(c, id2),
        ) == vstate(old_env, old.int_at(c, id2)) by {
            let o = old.int_at(c, id2);
            let n = self.int_at(c, id2);
            assert(old.int_ok(c, id2));
            lemma_lr_state_bound(env.lrs@[slot]);
            lemma_lr_state_bound(old_env.lrs@[slot]);
            if o.in_lr {
                assert(o.lr < GICH_LR_SLOTS);
            }
        }
    }

    /// The states shown are kept when the list registers are, and every
    /// interrupt keeps its state, id, presence in a register, and its
    /// register and owner while in one.
    proof fn lemma_vstates_same_lrs(&self, old: &Vgic, env: &VgicEnv, old_env: &VgicEnv, c: int, except: int)
        requires
            env.lrs@ == old_env.lrs@,
            env.cpu_id == old_env.cpu_id,
            forall|id2: int|
                0 <= id2 < GIC_INTS_MAX && id2 != except ==> {
                    let o = old.int_at(c, id2);
                    let n = #[trigger] self.int_at(c, id2);
                    &&& n.state == o.state
                    &&& n.id == o.id
                    &&& n.in_lr == o.in_lr
                    &&& n.in_lr ==> n.lr == o.lr && n.owner == o.owner
                },
        ensures
            self.vstates_kept(old, env, old_env, c, except),
    {
        assert forall|id2: int| 0 <= id2 < GIC_INTS_MAX && id2 != except implies #[trigger] vstate(
            env,
            self.int_at(c, id2),
        ) == vstate(old_env, old.int_at(c, id2)) by {
            let o = old.int_at(c, id2);
            let n = self.int_at(c, id2);
            assert(env.lr_at(n.lr as int) == old_env.lr_at(o.lr as int) || !n.in_lr);
        }
    }
}

impl Vgic {
    /// Whether every list register here that holds an interrupt of `vcpu`'s
    /// view in a state other than inactive is the one recorded for that
    /// interrupt, which `vcpu` owns.
    pub open spec fn lr_consistent(&self, env: &VgicEnv, vcpu: VcpuRef) -> bool {
        forall|i: int|
            0 <= i < GICH_LR_SLOTS && lr_state(#[trigger] env.lrs@[i]) != 0 && lr_vid(env.lrs@[i]) < GIC_INTS_MAX ==> {
                let y = self.int_at(vcpu.id as int, lr_vid(env.lrs@[i]) as int);
                y.in_lr && y.lr == i && y.owner == Some(vcpu)
            }
    }

    /// Records that list register `i` of `vcpu` now holds interrupt `id`.
    fn set_curr_lr(&mut self, c: usize, i: usize, id: u16)
        requires
            old(self).wf(),
            c < old(self).ncpu(),
            i < GIC_LIST_REGS_NUM,
        ensures
            final(self).wf(),
            final(self).same_shape(old(self)),
            final(self).same_lists(old(self)),
            final(self).same_ints(old(self)),
            final(self).cpu_priv@[c as int].curr_lrs@ == old(self).cpu_priv@[c as int].curr_lrs@.update(i as int, id),
            forall|c2: int|
                #![trigger final(self).cpu_priv@[c2]]
                0 <= c2 < final(self).ncpu() && c2 != c ==> final(self).cpu_priv@[c2].curr_lrs@
                    == old(self).cpu_priv@[c2].curr_lrs@,
    {
        self.cpu_priv[c].curr_lrs.set(i, id);
        proof {
            assert forall|c2: int|
                #![trigger self.cpu_priv@[c2]]
                0 <= c2 < self.ncpu() implies self.cpu_priv@[c2].interrupts@ == old(self).cpu_priv@[c2].interrupts@ by {
                if c2 != c {
                    assert(self.cpu_priv@[c2] == old(self).cpu_priv@[c2]);
                }
            }
            assert forall|c2: int, id2: int|
                0 <= c2 < self.ncpu() && 0 <= id2 < GIC_INTS_MAX implies #[trigger] self.int_at(c2, id2) == old(self).int_at(c2, id2) by {
                assert(self.cpu_priv@[c2].interrupts@ == old(self).cpu_priv@[c2].interrupts@);
            }
            assert forall|c2: int, id2: int|
                0 <= c2 < self.ncpu() && 0 <= id2 < GIC_INTS_MAX implies #[trigger] self.int_ok(c2, id2) by {
                assert(old(self).int_ok(c2, id2));
                assert(self.int_at(c2, id2) == old(self).int_at(c2, id2));
            }
        }
    }

    /// Takes interrupt `int_id` out of its list register, keeping the state
    /// the guest sees: the register is cleared if it still holds the
    /// interrupt, whose state becomes that register's. Tells whether the
    /// interrupt was there in a state other than inactive. Does nothing when
    /// `vcpu` does not own the interrupt or it is in no list register.
    pub fn remove_lr(&mut self, env: &mut VgicEnv, vcpu: VcpuRef, int_id: usize) -> (r: bool)
        requires
            old(self).wf(),
            old(env).wf(),
            old(self).runs_here(old(env), vcpu),
            old(self).lr_consistent(old(env), vcpu),
            int_id < GIC_INTS_MAX,
        ensures
            final(self).others_kept(old(self), vcpu, int_id as int),
            final(self).same_routing(old(self)),
            final(self).wf(),
            final(env).wf(),
            final(self).same_shape(old(self)),
            final(self).same_curr_lrs(old(self)),
            final(self).lists_of_only(old(self), vcpu.id as int),
            final(self).lr_consistent(final(env), vcpu),
            same_env_except_lr(final(env), old(env), old(self).int_at(vcpu.id as int, int_id as int).lr as int),
            final(env).actions@ == old(env).actions@,
            ({
                let c = vcpu.id as int;
                let x = old(self).int_at(c, int_id as int);
                let h = lr_holding(old(env), x);
                let st = if h is Some { irq_state_of(lr_state(h->0) as nat) } else { x.state };
                let s = irq_state_num(st);
                let xf = final(self).int_at(c, int_id as int);
                if !owns(vcpu, x) || !x.in_lr {
                    &&& !r
                    &&& final(self).same_ints(old(self))
                    &&& final(self).same_lists(old(self))
                    &&& final(env).lrs@ == old(env).lrs@
                    &&& final(env).hcr == old(env).hcr
                } else {
                    &&& r == h is Some
                    &&& final(env).lrs@ == if r { old(env).lrs@.update(x.lr as int, 0) } else { old(env).lrs@ }
                    &&& final(self).ints_updated(old(self), c, int_id as int, VgicInt {
                        in_lr: false,
                        state: st,
                        in_pend: x.in_pend || (r && s % 2 == 1),
                        in_act: x.in_act || (r && s >= 2),
                        ..x
                    })
                    &&& list_after(old(self).cpu_priv@[c].pend_list@, int_id as u16, r && s % 2 == 1 && !x.in_pend,
                        false, final(self).cpu_priv@[c].pend_list@)
                    &&& list_after(old(self).cpu_priv@[c].act_list@, int_id as u16, r && s >= 2 && !x.in_act,
                        false, final(self).cpu_priv@[c].act_list@)
                    &&& final(env).hcr == if r && s % 2 == 1 && x.enabled {
                        old(env).hcr | GICH_HCR_NPIE_BIT
                    } else {
                        old(env).hcr
                    }
                    &&& vstate(final(env), xf) == vstate(old(env), x)
                }
            }),
    {
        let ghost c = vcpu.id as int;
        let x = self.cpu_or_spi(vcpu, int_id);
        proof {
            assert(self.int_ok(c, int_id as int));
            assert(self.is_vcpu(vcpu));
        }
        if !vgic_owns(vcpu, &x) {
            return false;
        }
        if !x.in_lr {
            return false;
        }
        proof {
            if int_id >= GIC_PRIVINT_NUM {
                let o = x.owner->0;
                assert(self.is_vcpu(o));
                assert(o == vcpu) by {
                    if o != vcpu {
                        assert(self.vcpus@[o.id as int].phys_id != self.vcpus@[vcpu.id as int].phys_id);
                    }
                }
            }
            assert(x.owner == Some(vcpu));
        }
        let mut lr_val: u64 = 0;
        if let Some(lr) = gich_get_lr(env, &x) {
            env.set_lr(x.lr as usize, 0);
            lr_val = lr;
        }
        let ghost env1 = *env;
        proof {
            lemma_lr_state_bound(lr_val);
        }
        let lr_state_num = ((lr_val & GICH_LR_STATE_MSK) >> 62u64) as usize;
        if lr_state_num != 0 {
            let st = IrqState::num_to_state(lr_state_num);
            self.set_int(vcpu.id, VgicInt { in_lr: false, state: st, ..x });
            let ghost mid = *self;
            self.update_int_list(vcpu, int_id);
            let x2 = self.cpu_or_spi(vcpu, int_id);
            if (st.to_num() & 1 != 0) && x2.enabled {
                env.hcr = env.hcr | GICH_HCR_NPIE_BIT;
            }
            proof {
                lemma_state_bits();
                assert forall|c2: int, id2: int|
                    0 <= c2 < self.ncpu() && 0 <= id2 < GIC_INTS_MAX implies #[trigger] self.int_at(c2, id2) == if id2
                        == int_id && (int_id >= GIC_PRIVINT_NUM || c2 == c) {
                        VgicInt {
                            in_lr: false,
                            state: st,
                            in_pend: x.in_pend || (irq_state_num(st) % 2 == 1),
                            in_act: x.in_act || (irq_state_num(st) >= 2),
                            ..x
                        }
                    } else {
                        old(self).int_at(c2, id2)
                    } by {
                    assert(mid.int_at(c2, id2) == mid.int_at(c2, id2));
                }
                self.lemma_consistent_after_remove(old(self), old(env), env, vcpu, int_id, x);
            }
            return true;
        }
        self.set_int(vcpu.id, VgicInt { in_lr: false, ..x });
        proof {
            assert(env.lrs@ == old(env).lrs@);
            self.lemma_consistent_after_remove(old(self), old(env), env, vcpu, int_id, x);
        }
        false
    }

    /// After interrupt `int_id` (`x`) left its list register, which was
    /// cleared if it held `x` in a state other than inactive, the list
    /// registers are still consistent.
    proof fn lemma_consistent_after_remove(
        &self,
        old: &Vgic,
        env0: &VgicEnv,
        env2: &VgicEnv,
        vcpu: VcpuRef,
        int_id: usize,
        x: VgicInt,
    )
        requires
            old.wf(),
            self.wf(),
            old.is_vcpu(vcpu),
            int_id < GIC_INTS_MAX,
            x == old.int_at(vcpu.id as int, int_id as int),
            x.in_lr,
            x.lr < GICH_LR_SLOTS,
            x.owner == Some(vcpu),
            vcpu.phys_id == env0.cpu_id,
            env0.lrs@.len() == GICH_LR_SLOTS,
            old.lr_consistent(env0, vcpu),
            env2.lrs@ == if lr_holding(env0, x) is Some {
                env0.lrs@.update(x.lr as int, 0)
            } else {
                env0.lrs@
            },
            forall|id2: int|
                0 <= id2 < GIC_INTS_MAX && id2 != int_id ==> #[trigger] self.int_at(vcpu.id as int, id2)
                    == old.int_at(vcpu.id as int, id2),
            !self.int_at(vcpu.id as int, int_id as int).in_lr,
        ensures
            self.lr_consistent(env2, vcpu),
    {
        lemma_lr_state_bound(0);
        assert forall|i: int|
            0 <= i < GICH_LR_SLOTS && lr_state(#[trigger] env2.lrs@[i]) != 0 && lr_vid(env2.lrs@[i]) < GIC_INTS_MAX implies {
                let y = self.int_at(vcpu.id as int, lr_vid(env2.lrs@[i]) as int);
                y.in_lr && y.lr == i && y.owner == Some(vcpu)
            } by {
            assert(env2.lrs@[i] == env0.lrs@[i]);
            assert(lr_state(env0.lrs@[i]) != 0);
            let v = lr_vid(env0.lrs@[i]) as int;
            if v == int_id {
                assert(old.int_ok(vcpu.id as int, int_id as int));
                assert(x.lr == i);
                assert(env0.lr_at(x.lr as int) == env0.lrs@[i]);
                assert(lr_holding(env0, x) is Some);
            }
        }
    }
}


impl Vgic {
    /// Writes interrupt `int_id` into list register `lr_ind` in the state the
    /// guest sees it in. A shared interrupt that `vcpu` owns and that was
    /// recorded as the register's previous occupant leaves it (and its owner
    /// goes unless it is active). The interrupt's own state becomes inactive:
    /// the register holds it now.
    pub fn write_lr(&mut self, env: &mut VgicEnv, vcpu: VcpuRef, int_id: usize, lr_ind: usize)
        requires
            old(self).wf(),
            old(env).wf(),
            old(self).runs_here(old(env), vcpu),
            old(self).lr_consistent(old(env), vcpu),
            int_id < GIC_INTS_MAX,
            lr_ind < GICH_LR_SLOTS,
            old(self).int_at(vcpu.id as int, int_id as int).owner == Some(vcpu),
            !old(self).int_at(vcpu.id as int, int_id as int).in_lr || old(self).int_at(
                vcpu.id as int,
                int_id as int,
            ).lr == lr_ind,
        ensures
            final(self).others_kept(old(self), vcpu, int_id as int),
            final(self).same_routing(old(self)),
            final(self).wf(),
            final(env).wf(),
            final(self).same_shape(old(self)),
            final(self).lists_of_only(old(self), vcpu.id as int),
            final(self).lr_consistent(final(env), vcpu),
            same_env_except_lr(final(env), old(env), lr_ind as int),
            final(env).hcr == old(env).hcr,
            final(env).actions@ == old(env).actions@,
            lr_vid(final(env).lrs@[lr_ind as int]) == int_id,
            ({
                let c = vcpu.id as int;
                let x = old(self).int_at(c, int_id as int);
                let s = vstate(old(env), x);
                let p = old(self).cpu_priv@[c].curr_lrs@[lr_ind as int] as int;
                let pi = old(self).int_at(c, p);
                let evict = p != int_id && p >= GIC_PRIVINT_NUM && p < GIC_INTS_MAX && owns(vcpu, pi) && pi.in_lr
                    && pi.lr == lr_ind;
                let xf = VgicInt {
                    state: IrqState::IrqSInactive,
                    in_lr: true,
                    lr: lr_ind as u16,
                    in_pend: false,
                    in_act: false,
                    ..x
                };
                let pf = VgicInt {
                    in_lr: false,
                    owner: if irq_state_num(pi.state) < 2 { None } else { pi.owner },
                    ..pi
                };
                &&& final(env).lrs@ == old(env).lrs@.update(
                    lr_ind as int,
                    lr_encoding(int_id as u64, x.prio, s as u64, x.hw),
                )
                &&& final(self).cpu_priv@[c].curr_lrs@ == old(self).cpu_priv@[c].curr_lrs@.update(
                    lr_ind as int,
                    int_id as u16,
                )
                &&& forall|c2: int|
                    #![trigger final(self).cpu_priv@[c2]]
                    0 <= c2 < final(self).ncpu() && c2 != c ==> final(self).cpu_priv@[c2].curr_lrs@
                        == old(self).cpu_priv@[c2].curr_lrs@
                &&& forall|c2: int, id2: int|
                    0 <= c2 < final(self).ncpu() && 0 <= id2 < GIC_INTS_MAX ==> #[trigger] final(self).int_at(c2, id2)
                        == if id2 == int_id && (int_id >= GIC_PRIVINT_NUM || c2 == c) {
                        xf
                    } else if evict && id2 == p {
                        pf
                    } else {
                        old(self).int_at(c2, id2)
                    }
                &&& list_after(old(self).cpu_priv@[c].pend_list@, int_id as u16, false, x.in_pend,
                    final(self).cpu_priv@[c].pend_list@)
                &&& list_after(old(self).cpu_priv@[c].act_list@, int_id as u16, false, x.in_act,
                    final(self).cpu_priv@[c].act_list@)
                &&& vstate(final(env), final(self).int_at(c, int_id as int)) == shown_state(x, s)
            }),
    {
        let c = vcpu.id;
        let x = self.cpu_or_spi(vcpu, int_id);
        proof {
            assert(self.int_ok(c as int, int_id as int));
        }
        let prev = self.cpu_priv[c].curr_lrs[lr_ind] as usize;
        let ghost pi = self.int_at(c as int, prev as int);
        let ghost evict = prev != int_id && prev >= GIC_PRIVINT_NUM && prev < GIC_INTS_MAX && owns(vcpu, pi)
            && pi.in_lr && pi.lr == lr_ind;
        self.evict_prev(env, vcpu, int_id, lr_ind, prev);
        let ghost s1 = *self;
        let state = vgic_get_state(env, &x);
        let lr = gich_lr_value(int_id as u64, x.prio, state as u64, x.hw);
        self.set_int(c, VgicInt { state: IrqState::IrqSInactive, in_lr: true, lr: lr_ind as u16, ..x });
        self.set_curr_lr(c, lr_ind, int_id as u16);
        env.set_lr(lr_ind, lr);
        let ghost s2 = *self;
        self.update_int_list(vcpu, int_id);
        proof {
            let xf = VgicInt {
                state: IrqState::IrqSInactive,
                in_lr: true,
                lr: lr_ind as u16,
                in_pend: false,
                in_act: false,
                ..x
            };
            let pf = VgicInt {
                in_lr: false,
                owner: if irq_state_num(pi.state) < 2 { None } else { pi.owner },
                ..pi
            };
            assert forall|c2: int, id2: int|
                0 <= c2 < self.ncpu() && 0 <= id2 < GIC_INTS_MAX implies #[trigger] self.int_at(c2, id2) == if id2
                    == int_id && (int_id >= GIC_PRIVINT_NUM || c2 == c) {
                    xf
                } else if evict && id2 == prev {
                    pf
                } else {
                    old(self).int_at(c2, id2)
                } by {
                assert(s2.int_at(c2, id2) == s2.int_at(c2, id2));
                assert(s1.int_at(c2, id2) == s1.int_at(c2, id2));
            }
            self.lemma_consistent_after_write(old(self), old(env), env, vcpu, int_id, lr_ind, prev, evict);
            lemma_lr_state_bound(lr);
            if evict {
                assert(old(self).int_ok(c as int, prev as int));
                let o = pi.owner->0;
                assert(old(self).is_vcpu(o));
                assert(o == vcpu);
            }
        }
    }

    /// The first step of `write_lr`: the recorded previous occupant `prev`
    /// of list register `lr_ind`, a shared interrupt that `vcpu` owns and
    /// that is recorded in that register, leaves it and its owner yields it.
    fn evict_prev(&mut self, env: &VgicEnv, vcpu: VcpuRef, int_id: usize, lr_ind: usize, prev: usize)
        requires
            old(self).wf(),
            env.wf(),
            old(self).runs_here(env, vcpu),
            int_id < GIC_INTS_MAX,
        ensures
            final(self).same_routing(old(self)),
            final(self).wf(),
            final(self).same_but_ints(old(self)),
            ({
                let c = vcpu.id as int;
                let pi = old(self).int_at(c, prev as int);
                let evict = prev != int_id && prev >= GIC_PRIVINT_NUM && prev < GIC_INTS_MAX && owns(vcpu, pi)
                    && pi.in_lr && pi.lr == lr_ind;
                let pf = VgicInt {
                    in_lr: false,
                    owner: if irq_state_num(pi.state) < 2 { None } else { pi.owner },
                    ..pi
                };
                forall|c2: int, id2: int|
                    0 <= c2 < final(self).ncpu() && 0 <= id2 < GIC_INTS_MAX ==> #[trigger] final(self).int_at(c2, id2)
                        == if evict && id2 == prev {
                        pf
                    } else {
                        old(self).int_at(c2, id2)
                    }
            }),
    {
        let c = vcpu.id;
        if prev != int_id && prev >= GIC_PRIVINT_NUM && prev < GIC_INTS_MAX {
            let p = self.cpu_or_spi(vcpu, prev);
            if vgic_owns(vcpu, &p) && p.in_lr && p.lr as usize == lr_ind {
                proof {
                    assert(self.int_ok(c as int, prev as int));
                }
                self.set_int(c, VgicInt { in_lr: false, ..p });
                let ghost s1 = *self;
                self.vgic_int_yield_owner(env, vcpu, prev);
                proof {
                    assert(irq_state_num(p.state) < 4);
                    assert forall|c2: int, id2: int|
                        0 <= c2 < self.ncpu() && 0 <= id2 < GIC_INTS_MAX implies #[trigger] self.int_at(c2, id2)
                            == if id2 == prev {
                            VgicInt {
                                in_lr: false,
                                owner: if irq_state_num(p.state) < 2 { None } else { p.owner },
                                ..p
                            }
                        } else {
                            old(self).int_at(c2, id2)
                        } by {
                        assert(s1.int_at(c2, id2) == s1.int_at(c2, id2));
                    }
                }
                return;
            }
        }
        proof {
            assert(self.same_ints(old(self)));
        }
    }

    /// After interrupt `int_id` went into list register `lr_ind`, and the
    /// recorded previous occupant `p` (changed only if `evict`) left it, the
    /// list registers are still consistent.
    proof fn lemma_consistent_after_write(
        &self,
        old: &Vgic,
        env0: &VgicEnv,
        env2: &VgicEnv,
        vcpu: VcpuRef,
        int_id: usize,
        lr_ind: usize,
        p: usize,
        evict: bool,
    )
        requires
            old.wf(),
            self.wf(),
            old.is_vcpu(vcpu),
            int_id < GIC_INTS_MAX,
            lr_ind < GICH_LR_SLOTS,
            env0.lrs@.len() == GICH_LR_SLOTS,
            old.lr_consistent(env0, vcpu),
            !old.int_at(vcpu.id as int, int_id as int).in_lr || old.int_at(vcpu.id as int, int_id as int).lr == lr_ind,
            env2.lrs@.len() == GICH_LR_SLOTS,
            forall|j: int| 0 <= j < GICH_LR_SLOTS && j != lr_ind ==> env2.lrs@[j] == env0.lrs@[j],
            lr_vid(env2.lrs@[lr_ind as int]) == int_id,
            self.int_at(vcpu.id as int, int_id as int).in_lr,
            self.int_at(vcpu.id as int, int_id as int).lr == lr_ind,
            self.int_at(vcpu.id as int, int_id as int).owner == Some(vcpu),
            evict ==> old.int_at(vcpu.id as int, p as int).lr == lr_ind,
            forall|id2: int|
                0 <= id2 < GIC_INTS_MAX && id2 != int_id && !(evict && id2 == p) ==> #[trigger] self.int_at(
                    vcpu.id as int,
                    id2,
                ) == old.int_at(vcpu.id as int, id2),
        ensures
            self.lr_consistent(env2, vcpu),
    {
        assert forall|i: int|
            0 <= i < GICH_LR_SLOTS && lr_state(#[trigger] env2.lrs@[i]) != 0 && lr_vid(env2.lrs@[i]) < GIC_INTS_MAX implies {
                let y = self.int_at(vcpu.id as int, lr_vid(env2.lrs@[i]) as int);
                y.in_lr && y.lr == i && y.owner == Some(vcpu)
            } by {
            if i != lr_ind {
                assert(env2.lrs@[i] == env0.lrs@[i]);
                let v = lr_vid(env0.lrs@[i]) as int;
                assert(old.int_at(vcpu.id as int, v).lr == i);
            }
        }
    }
}


/// Whether some list register below `n` is free.
pub open spec fn some_lr_empty(lrs: Seq<u64>, n: int) -> bool {
    exists|i: int| 0 <= i < n && #[trigger] lr_empty(lrs[i])
}

/// The kind of list register a new interrupt displaces when none is free:
/// a pending one when more than one is pending, else an active one.
pub open spec fn spill_kind(lrs: Seq<u64>, n: int) -> spec_fn(u64) -> bool {
    if pending_lr_count(lrs, n) > 1 {
        sel_pending()
    } else {
        sel_active()
    }
}

impl Vgic {
    /// Presents interrupt `int_id` to `vcpu` in a list register: the first
    /// free one, or else the one of the least urgent interrupt of the kind
    /// `spill_kind` picks, provided it is less urgent than this one, whose
    /// interrupt goes back to the lists first. Tells whether it did; when it
    /// did not, a pending interrupt asks for a maintenance interrupt once no
    /// list register is pending. A disabled interrupt, or one already in a
    /// list register, is left as it is.
    #[verifier::rlimit(50)]
    pub fn add_lr(&mut self, env: &mut VgicEnv, vcpu: VcpuRef, int_id: usize) -> (r: bool)
        requires
            old(self).wf(),
            old(env).wf(),
            old(self).runs_here(old(env), vcpu),
            old(self).lr_consistent(old(env), vcpu),
            int_id < GIC_INTS_MAX,
            old(self).int_at(vcpu.id as int, int_id as int).owner == Some(vcpu),
        ensures
            final(self).others_kept(old(self), vcpu, int_id as int),
            final(self).same_routing(old(self)),
            final(self).wf(),
            final(env).wf(),
            final(self).same_shape(old(self)),
            final(self).lists_of_only(old(self), vcpu.id as int),
            final(self).lr_consistent(final(env), vcpu),
            same_env_meta(final(env), old(env)),
            final(env).actions@ == old(env).actions@,
            final(self).vstates_kept(old(self), final(env), old(env), vcpu.id as int, int_id as int),
            ({
                let c = vcpu.id as int;
                let x = old(self).int_at(c, int_id as int);
                let xf = final(self).int_at(c, int_id as int);
                let s = irq_state_num(x.state);
                let n = old(env).gic_lrs as int;
                let lrs = old(env).lrs@;
                let free = some_lr_empty(lrs, n);
                let sel = spill_kind(lrs, n);
                if !x.enabled || x.in_lr {
                    &&& !r
                    &&& final(self).same_ints(old(self))
                    &&& final(self).same_lists(old(self))
                    &&& final(self).same_curr_lrs(old(self))
                    &&& final(env).lrs@ == old(env).lrs@
                    &&& final(env).hcr == old(env).hcr
                } else {
                    &&& r == (free || !no_victim(lrs, n, sel, x.prio as u64, x.id as u64))
                    &&& free ==> xf.lr < n && lr_empty(lrs[xf.lr as int]) && forall|j: int|
                        0 <= j < xf.lr ==> !#[trigger] lr_empty(lrs[j])
                    &&& !free && r ==> is_victim(lrs, n, sel, x.prio as u64, x.id as u64, xf.lr as int)
                    &&& r ==> xf == VgicInt {
                        state: IrqState::IrqSInactive,
                        in_lr: true,
                        lr: xf.lr,
                        in_pend: false,
                        in_act: false,
                        ..x
                    }
                    &&& r ==> xf.in_lr && final(env).lrs@[xf.lr as int] == lr_encoding(
                        int_id as u64,
                        x.prio,
                        s as u64,
                        x.hw,
                    ) && vstate(final(env), xf) == shown_state(x, s)
                    &&& !r ==> {
                        &&& final(self).same_ints(old(self))
                        &&& final(self).same_lists(old(self))
                        &&& final(self).same_curr_lrs(old(self))
                        &&& final(env).lrs@ == old(env).lrs@
                        &&& final(env).hcr == if s % 2 == 1 {
                            old(env).hcr | GICH_HCR_NPIE_BIT
                        } else {
                            old(env).hcr
                        }
                    }
                }
            }),
    {
        let c = vcpu.id;
        let x = self.cpu_or_spi(vcpu, int_id);
        proof {
            assert(self.int_ok(c as int, int_id as int));
        }
        if !x.enabled || x.in_lr {
            return false;
        }
        let gic_lrs = env.gic_lrs;
        let mut lr_ind: Option<usize> = None;
        let mut i: usize = 0;
        while i < gic_lrs
            invariant_except_break
                i <= gic_lrs,
                lr_ind is None,
            invariant
                gic_lrs == env.gic_lrs,
                env.wf(),
                forall|j: int| 0 <= j < i ==> !#[trigger] lr_empty(env.lrs@[j]),
            ensures
                lr_ind is None ==> !some_lr_empty(env.lrs@, gic_lrs as int),
                lr_ind is Some ==> lr_ind->0 == i && i < gic_lrs && lr_empty(env.lrs@[i as int]),
            decreases gic_lrs - i,
        {
            let lr = env.lrs[i];
            if (lr & GICH_LR_STATE_MSK) >> 62u64 == 0 && (lr & GICH_LR_HW_BIT != 0 || lr & GICH_LR_EOI_BIT == 0) {
                lr_ind = Some(i);
                break;
            }
            i = i + 1;
        }
        let ghost lrs0 = env.lrs@;
        if lr_ind.is_none() {
            let mut pend_found: usize = 0;
            let mut k: usize = 0;
            while k < gic_lrs
                invariant
                    k <= gic_lrs,
                    gic_lrs == env.gic_lrs,
                    env.wf(),
                    pend_found == pending_lr_count(env.lrs@, k as int),
                    pend_found <= k,
                decreases gic_lrs - k,
            {
                let lr = env.lrs[k];
                let lr_st = lr & GICH_LR_STATE_MSK;
                if lr_st & GICH_LR_STATE_ACT == 0 && lr_st & GICH_LR_STATE_PND != 0 {
                    pend_found = pend_found + 1;
                }
                k = k + 1;
            }
            let victim = find_victim(&env.lrs, gic_lrs, pend_found > 1, x.prio as u64, x.id as u64);
            if let Some(idx) = victim {
                let vid = env.lrs[idx] & GICH_LR_VID_MASK;
                proof {
                    lemma_lr_state_bound(env.lrs@[idx as int]);
                }
                if vid < GIC_INTS_MAX as u64 {
                    proof {
                        assert(lr_state(env.lrs@[idx as int]) != 0);
                        assert(self.int_at(c as int, vid as int).in_lr);
                    }
                    let ghost s0 = *self;
                    let ghost e0 = *env;
                    self.remove_lr(env, vcpu, vid as usize);
                    proof {
                        lemma_lr_state_bound(0);
                        assert(s0.int_ok(c as int, vid as int));
                        self.lemma_vstates_slot(&s0, env, &e0, c as int, vid as int, idx as int);
                        assert forall|id2: int| 0 <= id2 < GIC_INTS_MAX && id2 != int_id implies #[trigger] vstate(
                            env,
                            self.int_at(c as int, id2),
                        ) == vstate(&e0, s0.int_at(c as int, id2)) by {
                            if id2 != vid {
                                assert(vstate(env, self.int_at(c as int, id2)) == vstate(&e0, s0.int_at(c as int, id2)));
                            }
                        }
                    }
                    let ghost s1 = *self;
                    self.vgic_int_yield_owner(env, vcpu, vid as usize);
                    proof {
                        self.lemma_vstates_same_lrs(&s1, env, env, c as int, int_id as int);
                        self.lemma_vstates_trans(&s1, &s0, env, env, &e0, c as int, int_id as int);
                    }
                }
                lr_ind = Some(idx);
            }
        }
        let ghost s1 = *self;
        let ghost e1 = *env;
        proof {
            assert(self.int_at(c as int, int_id as int) == x);
        }
        match lr_ind {
            Some(idx) => {
                proof {
                    lemma_lr_state_bound(env.lrs@[idx as int]);
                }
                self.write_lr(env, vcpu, int_id, idx);
                proof {
                    assert(slot_clear_for(e1.lrs@[idx as int], int_id as int));
                    self.lemma_vstates_slot(&s1, env, &e1, c as int, int_id as int, idx as int);
                    self.lemma_vstates_trans(&s1, old(self), env, &e1, old(env), c as int, int_id as int);
                }
                true
            },
            None => {
                if vgic_get_state(env, &x) & 1 != 0 {
                    env.hcr = env.hcr | GICH_HCR_NPIE_BIT;
                }
                proof {
                    lemma_state_bits();
                }
                false
            },
        }
    }
}


/// The value the physical side of interrupt `x` carries (redistributor or route).
pub open spec fn phys_val(x: VgicInt) -> u64 {
    match x.phys {
        VgicIntPhys::Redist(r) => r,
        VgicIntPhys::Route(r) => r,
    }
}

/// Whether shared interrupt `x` goes to every CPU of its VM.
pub open spec fn broadcast(x: VgicInt) -> bool {
    x.route & GICD_IROUTER_IRM_BIT != 0
}

/// Whether `vcpu`, here, is a target of interrupt `x`: its own private
/// interrupt on its redistributor, or a shared one routed to this CPU or to all.
pub open spec fn is_target(env: &VgicEnv, vcpu: VcpuRef, x: VgicInt) -> bool {
    if x.id < GIC_PRIVINT_NUM {
        phys_val(x) == vcpu.phys_id as u64
    } else {
        (phys_val(x) ^ env.mpidr_aff) == 0 || broadcast(x)
    }
}

/// Whether shared interrupt `x` has a target other than this CPU.
pub open spec fn has_other_target(env: &VgicEnv, x: VgicInt) -> bool {
    x.id >= GIC_PRIVINT_NUM && (broadcast(x) || ((phys_val(x) ^ env.mpidr_aff) != 0 && phys_val(x)
        != GICD_IROUTER_INV))
}

/// Whether a shared interrupt's route names a CPU that a 64-bit mask can hold.
pub open spec fn route_fits(env: &VgicEnv, x: VgicInt) -> bool {
    x.id >= GIC_PRIVINT_NUM && !broadcast(x) && phys_val(x) != GICD_IROUTER_INV ==> (phys_val(x) >> env.route_shift)
        < 64
}

/// The physical CPUs that interrupt `x` targets.
pub open spec fn ptarget_mask(env: &VgicEnv, x: VgicInt) -> u64 {
    if broadcast(x) {
        env.vm_ncpu & !(1u64 << (env.cpu_id as u64))
    } else {
        1u64 << (phys_val(x) >> env.route_shift)
    }
}

/// A request `msg` to each of the first `n` CPUs in `mask`, in order.
pub open spec fn ipi_actions(mask: u64, n: nat, msg: IpiInitcMessage) -> Seq<VgicAction>
    decreases n,
{
    if n == 0 {
        Seq::empty()
    } else {
        ipi_actions(mask, (n - 1) as nat, msg) + if mask & (1u64 << ((n - 1) as u64)) != 0 {
            seq![VgicAction::SendIpi { target: (n - 1) as usize, msg }]
        } else {
            Seq::empty()
        }
    }
}

/// The requests `route` sends when it leaves interrupt `xf` (as it is in
/// the end) out of this CPU's list registers: to every other target CPU, to
/// route it there.
pub open spec fn route_ipis(env: &VgicEnv, vcpu: VcpuRef, xf: VgicInt) -> Seq<VgicAction> {
    if irq_state_num(xf.state) != 0 && xf.enabled && !xf.in_lr && has_other_target(env, xf) {
        ipi_actions(
            ptarget_mask(env, xf) & !(1u64 << (vcpu.phys_id as u64)),
            env.cpu_num as nat,
            IpiInitcMessage { event: InitcEvent::VgicdRoute, vm_id: vcpu.vm_id, int_id: xf.id, val: 0 },
        )
    } else {
        Seq::empty()
    }
}

/// Whether `vcpu`, here, is a target of interrupt `x`.
pub fn vgic_int_vcpu_is_target(env: &VgicEnv, vcpu: VcpuRef, x: &VgicInt) -> (r: bool)
    ensures
        r == is_target(env, vcpu, *x),
{
    let pri = (x.id as usize) < GIC_PRIVINT_NUM;
    let pv = match x.phys {
        VgicIntPhys::Redist(v) => v,
        VgicIntPhys::Route(v) => v,
    };
    let local = pri && pv == vcpu.phys_id as u64;
    let routed_here = !pri && (pv ^ env.mpidr_aff) == 0;
    let any = !pri && x.route & GICD_IROUTER_IRM_BIT != 0;
    local || routed_here || any
}

/// Whether shared interrupt `x` has a target other than this CPU.
pub fn vgic_int_has_other_target(env: &VgicEnv, x: &VgicInt) -> (r: bool)
    ensures
        r == has_other_target(env, *x),
{
    if (x.id as usize) < GIC_PRIVINT_NUM {
        return false;
    }
    let pv = match x.phys {
        VgicIntPhys::Redist(v) => v,
        VgicIntPhys::Route(v) => v,
    };
    let routed_here = (pv ^ env.mpidr_aff) == 0;
    let route_valid = pv != GICD_IROUTER_INV;
    let any = x.route & GICD_IROUTER_IRM_BIT != 0;
    any || (!routed_here && route_valid)
}

/// The physical CPUs that interrupt `x` targets.
pub fn vgic_int_ptarget_mask(env: &VgicEnv, x: &VgicInt) -> (r: u64)
    requires
        env.wf(),
        env.route_shift < 64,
        route_fits(env, *x),
        x.id >= GIC_PRIVINT_NUM,
        broadcast(*x) || phys_val(*x) != GICD_IROUTER_INV,
    ensures
        r == ptarget_mask(env, *x),
{
    if x.route & GICD_IROUTER_IRM_BIT != 0 {
        env.vm_ncpu & !(1u64 << (env.cpu_id as u64))
    } else {
        let pv = match x.phys {
            VgicIntPhys::Redist(v) => v,
            VgicIntPhys::Route(v) => v,
        };
        1u64 << (pv >> env.route_shift)
    }
}

impl VgicEnv {
    /// Appends a request `msg` to each of the first `cpu_num` CPUs in `mask`.
    fn send_ipis(&mut self, mask: u64, msg: IpiInitcMessage)
        requires
            old(self).wf(),
        ensures
            final(self).wf(),
            same_env_meta(final(self), old(self)),
            final(self).lrs@ == old(self).lrs@,
            final(self).hcr == old(self).hcr,
            final(self).actions@ == old(self).actions@ + ipi_actions(mask, old(self).cpu_num as nat, msg),
    {
        let n = self.cpu_num;
        let mut i: usize = 0;
        while i < n
            invariant
                i <= n,
                n == self.cpu_num,
                n <= 64,
                self.lrs@ == old(self).lrs@,
                self.hcr == old(self).hcr,
                same_env_meta(self, old(self)),
                self.actions@ == old(self).actions@ + ipi_actions(mask, i as nat, msg),
            decreases n - i,
        {
            if mask & (1u64 << (i as u64)) != 0 {
                self.actions.push(VgicAction::SendIpi { target: i, msg });
            }
            proof {
                assert(ipi_actions(mask, (i + 1) as nat, msg) == ipi_actions(mask, i as nat, msg) + if mask & (1u64
                    << (i as u64)) != 0 {
                    seq![VgicAction::SendIpi { target: i, msg }]
                } else {
                    Seq::empty()
                });
                assert(self.actions@ == old(self).actions@ + ipi_actions(mask, (i + 1) as nat, msg));
            }
            i = i + 1;
        }
    }
}


/// Whether `a` and `b` are the same interrupt with the same configuration:
/// they may differ only in where its state is kept and who owns it.
pub open spec fn same_config(a: VgicInt, b: VgicInt) -> bool {
    &&& a.id == b.id
    &&& a.hw == b.hw
    &&& a.enabled == b.enabled
    &&& a.prio == b.prio
    &&& a.cfg == b.cfg
    &&& a.targets == b.targets
    &&& a.route == b.route
    &&& a.phys == b.phys
}

impl Vgic {
    /// Delivers interrupt `int_id`, if it is pending or active and enabled:
    /// into a list register of `vcpu` when `vcpu` is a target here; when it
    /// then is in none and has other targets, `vcpu` yields it and asks those
    /// CPUs to route it.
    #[verifier::rlimit(30)]
    pub fn route(&mut self, env: &mut VgicEnv, vcpu: VcpuRef, int_id: usize)
        requires
            old(self).wf(),
            old(env).wf(),
            old(self).runs_here(old(env), vcpu),
            old(self).lr_consistent(old(env), vcpu),
            int_id < GIC_INTS_MAX,
            old(self).int_at(vcpu.id as int, int_id as int).owner == Some(vcpu),
            route_fits(old(env), old(self).int_at(vcpu.id as int, int_id as int)),
        ensures
            final(self).others_kept(old(self), vcpu, int_id as int),
            final(self).same_routing(old(self)),
            final(self).wf(),
            final(env).wf(),
            final(self).same_shape(old(self)),
            final(self).lists_of_only(old(self), vcpu.id as int),
            final(self).lr_consistent(final(env), vcpu),
            same_env_meta(final(env), old(env)),
            final(self).vstates_kept(old(self), final(env), old(env), vcpu.id as int, int_id as int),
            ({
                let c = vcpu.id as int;
                let x = old(self).int_at(c, int_id as int);
                let xf = final(self).int_at(c, int_id as int);
                &&& same_config(xf, x)
                &&& final(env).actions@ == old(env).actions@ + route_ipis(old(env), vcpu, xf)
                &&& vstate(final(env), xf) == if xf.in_lr && !x.in_lr {
                    shown_state(x, vstate(old(env), x))
                } else {
                    vstate(old(env), x)
                }
                &&& irq_state_num(x.state) != 0 && x.enabled && is_target(old(env), vcpu, x) && !x.in_lr
                    && some_lr_empty(old(env).lrs@, old(env).gic_lrs as int) ==> xf.in_lr
                &&& (irq_state_num(x.state) == 0 || !x.enabled) ==> {
                    &&& final(self).same_ints(old(self))
                    &&& final(self).same_lists(old(self))
                    &&& final(self).same_curr_lrs(old(self))
                    &&& final(env).lrs@ == old(env).lrs@
                    &&& final(env).hcr == old(env).hcr
                }
                &&& xf.owner == x.owner || (xf.owner is None && !xf.in_lr && has_other_target(old(env), x))
            }),
    {
        let c = vcpu.id;
        let x = self.cpu_or_spi(vcpu, int_id);
        proof {
            assert(self.int_ok(c as int, int_id as int));
        }
        if x.state.to_num() == 0 {
            return;
        }
        if !x.enabled {
            return;
        }
        if vgic_int_vcpu_is_target(env, vcpu, &x) {
            self.add_lr(env, vcpu, int_id);
        }
        let ghost env1 = *env;
        let x2 = self.cpu_or_spi(vcpu, int_id);
        proof {
            assert(self.int_ok(c as int, int_id as int));
        }
        if !x2.in_lr && vgic_int_has_other_target(env, &x2) {
            let msg = IpiInitcMessage { event: InitcEvent::VgicdRoute, vm_id: vcpu.vm_id, int_id: x.id, val: 0 };
            let ghost s1 = *self;
            self.vgic_int_yield_owner(env, vcpu, int_id);
            proof {
                if x2.route & GICD_IROUTER_IRM_BIT == 0 {
                    assert(phys_val(x2) != GICD_IROUTER_INV);
                }
                self.lemma_vstates_same_lrs(&s1, env, env, c as int, int_id as int);
                self.lemma_vstates_trans(&s1, old(self), env, env, old(env), c as int, int_id as int);
            }
            let trglist = vgic_int_ptarget_mask(env, &x2) & !(1u64 << (vcpu.phys_id as u64));
            let ghost e2 = *env;
            env.send_ipis(trglist, msg);
            proof {
                assert(irq_state_num(x2.state) == irq_state_num(x.state));
                self.lemma_vstates_same_lrs(self, env, &e2, c as int, int_id as int);
                self.lemma_vstates_trans(self, old(self), env, &e2, old(env), c as int, int_id as int);
            }
        }
    }
}


impl VgicEnv {
    /// Appends one request.
    fn push_action(&mut self, a: VgicAction)
        requires
            old(self).wf(),
        ensures
            final(self).wf(),
            same_env_meta(final(self), old(self)),
            final(self).lrs@ == old(self).lrs@,
            final(self).hcr == old(self).hcr,
            final(self).actions@ == old(self).actions@.push(a),
    {
        self.actions.push(a);
    }
}

/// The redistributor of a private interrupt, none for a shared one.
pub open spec fn redist_of(x: VgicInt) -> Option<u64> {
    if x.id < GIC_PRIVINT_NUM {
        Some(phys_val(x))
    } else {
        None
    }
}

/// The redistributor of a private interrupt, none for a shared one.
pub fn vgic_int_redist(x: &VgicInt) -> (r: Option<u64>)
    ensures
        r == redist_of(*x),
{
    if (x.id as usize) < GIC_PRIVINT_NUM {
        match x.phys {
            VgicIntPhys::Redist(v) => Some(v),
            VgicIntPhys::Route(v) => Some(v),
        }
    } else {
        None
    }
}

/// What an operation of `vcpu` on interrupt `x` asks the owner of `x` to do
/// in its stead.
pub open spec fn forward(x: VgicInt, vcpu: VcpuRef, event: InitcEvent, val: u8) -> VgicAction {
    VgicAction::SendIpi {
        target: x.owner->0.phys_id,
        msg: IpiInitcMessage { event, vm_id: vcpu.vm_id, int_id: x.id, val },
    }
}

/// Whether the guest-visible state of `xf` here is that of `x` before, or,
/// for a hardware interrupt now in a list register, the state it shows there.
pub open spec fn state_kept(env0: &VgicEnv, x: VgicInt, env1: &VgicEnv, xf: VgicInt) -> bool {
    vstate(env1, xf) == vstate(env0, x) || vstate(env1, xf) == shown_state(x, vstate(env0, x))
}

/// Keeping the shown state is transitive.
proof fn lemma_state_kept_trans(env0: &VgicEnv, x0: VgicInt, env1: &VgicEnv, x1: VgicInt, env2: &VgicEnv, x2: VgicInt)
    requires
        state_kept(env0, x0, env1, x1),
        state_kept(env1, x1, env2, x2),
        x1.hw == x0.hw,
        x1.id == x0.id,
    ensures
        state_kept(env0, x0, env2, x2),
{
}

impl Vgic {
    /// Whether every interrupt of vCPU `c`'s view shows the guest, with
    /// `env`, the state it showed in `old` with `old_env`, or that state as a
    /// list register shows it.
    pub open spec fn states_shown_kept(&self, old: &Vgic, env: &VgicEnv, old_env: &VgicEnv, c: int) -> bool {
        forall|id2: int|
            0 <= id2 < GIC_INTS_MAX ==> #[trigger] state_kept(old_env, old.int_at(c, id2), env, self.int_at(c, id2))
    }

    /// The shown states stay kept through a step that keeps every state shown.
    proof fn lemma_shown_kept_step(&self, mid: &Vgic, old: &Vgic, env: &VgicEnv, mid_env: &VgicEnv, old_env: &VgicEnv, c: int)
        requires
            mid.states_shown_kept(old, mid_env, old_env, c),
            self.vstates_kept(mid, env, mid_env, c, -1),
        ensures
            self.states_shown_kept(old, env, old_env, c),
    {
        assert forall|id2: int| 0 <= id2 < GIC_INTS_MAX implies #[trigger] state_kept(
            old_env,
            old.int_at(c, id2),
            env,
            self.int_at(c, id2),
        ) by {
            assert(state_kept(old_env, old.int_at(c, id2), mid_env, mid.int_at(c, id2)));
            assert(vstate(env, self.int_at(c, id2)) == vstate(mid_env, mid.int_at(c, id2)));
        }
    }
}

impl Vgic {
    /// Whether nothing changed: interrupts, lists, list register records,
    /// list registers, control register and requests.
    pub open spec fn unchanged(&self, old: &Vgic, env: &VgicEnv, env0: &VgicEnv) -> bool {
        &&& self.same_ints(old)
        &&& self.same_lists(old)
        &&& self.same_curr_lrs(old)
        &&& env.lrs@ == env0.lrs@
        &&& env.hcr == env0.hcr
        &&& env.actions@ == env0.actions@
    }

    /// Delivers interrupt `int_id` (see `route`), then lets `vcpu` yield it
    /// unless it is in a list register or active.
    #[verifier::rlimit(30)]
    pub fn reroute(&mut self, env: &mut VgicEnv, vcpu: VcpuRef, int_id: usize)
        requires
            old(self).wf(),
            old(env).wf(),
            old(self).runs_here(old(env), vcpu),
            old(self).lr_consistent(old(env), vcpu),
            int_id < GIC_INTS_MAX,
            old(self).int_at(vcpu.id as int, int_id as int).owner == Some(vcpu),
            route_fits(old(env), old(self).int_at(vcpu.id as int, int_id as int)),
        ensures
            final(self).others_kept(old(self), vcpu, int_id as int),
            final(self).wf(),
            final(env).wf(),
            final(self).same_shape(old(self)),
            final(self).same_routing(old(self)),
            final(self).lists_of_only(old(self), vcpu.id as int),
            final(self).lr_consistent(final(env), vcpu),
            same_env_meta(final(env), old(env)),
            final(self).vstates_kept(old(self), final(env), old(env), vcpu.id as int, int_id as int),
            ({
                let c = vcpu.id as int;
                let x = old(self).int_at(c, int_id as int);
                let xf = final(self).int_at(c, int_id as int);
                &&& same_config(xf, x)
                &&& (xf.owner == x.owner || xf.owner is None)
                &&& final(env).actions@ == old(env).actions@ + route_ipis(old(env), vcpu, xf)
                &&& vstate(final(env), xf) == if xf.in_lr && !x.in_lr {
                    shown_state(x, vstate(old(env), x))
                } else {
                    vstate(old(env), x)
                }
            }),
    {
        self.route(env, vcpu, int_id);
        let ghost s1 = *self;
        self.vgic_int_yield_owner(env, vcpu, int_id);
        proof {
            self.lemma_routing_trans(&s1, old(self));
            let c = vcpu.id as int;
            assert(self.int_at(c, int_id as int).in_lr == s1.int_at(c, int_id as int).in_lr);
            assert(self.int_at(c, int_id as int).state == s1.int_at(c, int_id as int).state);
            self.lemma_vstates_same_lrs(&s1, env, env, c, int_id as int);
            self.lemma_vstates_trans(&s1, old(self), env, env, old(env), c, int_id as int);
        }
    }
}

impl Vgic {
    /// The part of `set_enable` done by the owner of the interrupt.
    #[verifier::rlimit(30)]
    fn set_enable_owned(&mut self, env: &mut VgicEnv, vcpu: VcpuRef, int_id: usize, en: bool)
        requires
            old(self).wf(),
            old(env).wf(),
            old(self).runs_here(old(env), vcpu),
            old(self).lr_consistent(old(env), vcpu),
            int_id < GIC_INTS_MAX,
            old(self).int_at(vcpu.id as int, int_id as int).owner == Some(vcpu),
            route_fits(old(env), old(self).int_at(vcpu.id as int, int_id as int)),
        ensures
            final(self).others_kept(old(self), vcpu, int_id as int),
            final(self).wf(),
            final(env).wf(),
            final(self).same_shape(old(self)),
            final(self).same_routing(old(self)),
            final(self).lists_of_only(old(self), vcpu.id as int),
            final(self).lr_consistent(final(env), vcpu),
            same_env_meta(final(env), old(env)),
            final(self).vstates_kept(old(self), final(env), old(env), vcpu.id as int, int_id as int),
            ({
                let c = vcpu.id as int;
                let x = old(self).int_at(c, int_id as int);
                let xf = final(self).int_at(c, int_id as int);
                &&& same_config(xf, VgicInt { enabled: en, ..x })
                &&& (xf.owner == x.owner || xf.owner is None)
                &&& final(env).actions@ == old(env).actions@ + (if x.enabled != en && x.hw {
                    seq![VgicAction::HwSetEnable { int_id: x.id, en, redist: redist_of(x) }]
                } else {
                    Seq::empty()
                }) + route_ipis(old(env), vcpu, xf)
                &&& state_kept(old(env), x, final(env), xf)
            }),
    {
        let c = vcpu.id;
        let x = self.cpu_or_spi(vcpu, int_id);
        proof {
            assert(self.int_ok(c as int, int_id as int));
        }
        if x.enabled != en {
            self.set_int(c, VgicInt { enabled: en, ..x });
            let ghost s0 = *self;
            proof {
                self.lemma_vstates_same_lrs(old(self), env, env, c as int, int_id as int);
                lemma_lr_state_bound(0);
            }
            self.remove_lr(env, vcpu, int_id);
            let ghost e0 = *env;
            proof {
                assert(s0.same_routing(old(self)));
                self.lemma_routing_trans(&s0, old(self));
                assert(s0.int_ok(c as int, int_id as int));
                let x0 = s0.int_at(c as int, int_id as int);
                if e0.lrs@ == old(env).lrs@ {
                    self.lemma_vstates_same_lrs(&s0, env, old(env), c as int, int_id as int);
                } else {
                    self.lemma_vstates_slot(&s0, env, old(env), c as int, int_id as int, x0.lr as int);
                }
                self.lemma_vstates_trans(&s0, old(self), env, old(env), old(env), c as int, int_id as int);
            }
            if x.hw {
                let redist = vgic_int_redist(&x);
                env.push_action(VgicAction::HwSetEnable { int_id: x.id, en, redist });
                proof {
                    self.lemma_vstates_same_lrs(self, env, &e0, c as int, int_id as int);
                    self.lemma_vstates_trans(self, old(self), env, &e0, old(env), c as int, int_id as int);
                }
            }
        }
        let ghost s1 = *self;
        let ghost e1 = *env;
        self.reroute(env, vcpu, int_id);
        proof {
            self.lemma_routing_trans(&s1, old(self));
            self.lemma_vstates_trans(&s1, old(self), env, &e1, old(env), c as int, int_id as int);
        }
    }

    /// Enables or disables interrupt `int_id` for `vcpu`. When another vCPU
    /// owns it, asks that vCPU's CPU to do it; else takes it out of its list
    /// register, sets it, mirrors the change on the physical interrupt for a
    /// hardware one, and delivers it anew.
    #[verifier::rlimit(30)]
    pub fn set_enable(&mut self, env: &mut VgicEnv, vcpu: VcpuRef, int_id: usize, en: bool)
        requires
            old(self).wf(),
            old(env).wf(),
            old(self).runs_here(old(env), vcpu),
            old(self).lr_consistent(old(env), vcpu),
            old(self).routes_fit(old(env), vcpu),
        ensures
            final(self).others_kept(old(self), vcpu, int_id as int),
            final(self).wf(),
            final(env).wf(),
            final(self).same_shape(old(self)),
            final(self).same_routing(old(self)),
            final(self).lists_of_only(old(self), vcpu.id as int),
            final(self).lr_consistent(final(env), vcpu),
            same_env_meta(final(env), old(env)),
            final(self).vstates_kept(old(self), final(env), old(env), vcpu.id as int, int_id as int),
            int_id >= GIC_INTS_MAX ==> final(self).unchanged(old(self), final(env), old(env)),
            int_id < GIC_INTS_MAX ==> ({
                let c = vcpu.id as int;
                let x = old(self).int_at(c, int_id as int);
                let xf = final(self).int_at(c, int_id as int);
                if x.owner is Some && x.owner != Some(vcpu) {
                    &&& final(self).same_ints(old(self))
                    &&& final(self).same_lists(old(self))
                    &&& final(self).same_curr_lrs(old(self))
                    &&& final(env).lrs@ == old(env).lrs@
                    &&& final(env).hcr == old(env).hcr
                    &&& final(env).actions@ == old(env).actions@.push(
                        forward(x, vcpu, InitcEvent::VgicdSetEn, if en { 1 } else { 0 }),
                    )
                } else {
                    &&& same_config(xf, VgicInt { enabled: en, ..x })
                    &&& !foreign(xf, vcpu)
                    &&& final(env).actions@ == old(env).actions@ + (if x.enabled != en && x.hw {
                        seq![VgicAction::HwSetEnable { int_id: x.id, en, redist: redist_of(x) }]
                    } else {
                        Seq::empty()
                    }) + route_ipis(old(env), vcpu, xf)
                    &&& state_kept(old(env), x, final(env), xf)
                }
            }),
    {
        if int_id >= GIC_INTS_MAX {
            return;
        }
        let c = vcpu.id;
        let x = self.cpu_or_spi(vcpu, int_id);
        proof {
            assert(self.int_ok(c as int, int_id as int));
            assert(route_fits(env, x));
        }
        if self.vgic_int_get_owner(vcpu, int_id) {
            let ghost s0 = *self;
            proof {
                self.lemma_vstates_same_lrs(old(self), env, env, c as int, int_id as int);
            }
            self.set_enable_owned(env, vcpu, int_id, en);
            proof {
                self.lemma_others_trans(&s0, old(self), vcpu, int_id as int);
                self.lemma_vstates_trans(&s0, old(self), env, old(env), old(env), c as int, int_id as int);
            }
        } else {
            self.forward_ipi(env, vcpu, &x, InitcEvent::VgicdSetEn, if en { 1 } else { 0 });
            proof {
                self.lemma_vstates_same_lrs(old(self), env, old(env), c as int, int_id as int);
            }
        }
    }

    /// Asks the owner of interrupt `x` to do an operation of `vcpu` on it.
    fn forward_ipi(&self, env: &mut VgicEnv, vcpu: VcpuRef, x: &VgicInt, event: InitcEvent, val: u8)
        requires
            old(env).wf(),
            x.owner is Some,
        ensures
            final(env).wf(),
            same_env_meta(final(env), old(env)),
            final(env).lrs@ == old(env).lrs@,
            final(env).hcr == old(env).hcr,
            final(env).actions@ == old(env).actions@.push(forward(*x, vcpu, event, val)),
    {
        let target = match x.owner {
            Some(o) => o.phys_id,
            None => 0,
        };
        env.push_action(VgicAction::SendIpi { target, msg: IpiInitcMessage { event, vm_id: vcpu.vm_id, int_id: x.id, val } });
    }
}


/// A state number with its pending bit set (`pend`) or cleared.
pub open spec fn with_pend(s: nat, pend: bool) -> nat {
    if pend {
        if s % 2 == 1 { s } else { s + 1 }
    } else {
        if s % 2 == 1 { (s - 1) as nat } else { s }
    }
}

/// A state number with its active bit set (`act`) or cleared.
pub open spec fn with_act(s: nat, act: bool) -> nat {
    if act {
        if s >= 2 { s } else { s + 2 }
    } else {
        if s >= 2 { (s - 2) as nat } else { s }
    }
}

/// The physical state a hardware interrupt is set to when its virtual active
/// bit changes: a merely pending one is made active instead.
pub open spec fn hw_act_state(s: nat) -> nat {
    if s == 1 { 2 } else { s }
}

/// The requests a state change of interrupt `x` to `s` makes on its
/// physical interrupt, if it has one.
pub open spec fn hw_state_action(x: VgicInt, s: nat) -> Seq<VgicAction> {
    if x.hw {
        seq![VgicAction::HwSetState { int_id: x.id, state: s as usize, redist: redist_of(x) }]
    } else {
        Seq::empty()
    }
}

/// State number `state` with its pending (`pend_bit`) or active bit set (`on`) or cleared.
pub fn state_with_bit(state: usize, pend_bit: bool, on: bool) -> (r: usize)
    requires
        state < 4,
    ensures
        r == if pend_bit { with_pend(state as nat, on) } else { with_act(state as nat, on) },
        r < 4,
{
    proof {
        lemma_state_bits();
    }
    if pend_bit {
        if on && state & 1 == 0 {
            state | 1
        } else if !on && state & 1 != 0 {
            state & !1usize
        } else {
            state
        }
    } else {
        if on && state & 2 == 0 {
            state | 2
        } else if !on && state & 2 != 0 {
            state & !2usize
        } else {
            state
        }
    }
}

impl Vgic {
    /// The part of `set_pend` and `set_active` done by the owner of the
    /// interrupt: takes it out of its list register, sets or clears the
    /// pending (`pend_bit`) or active bit of its state, mirrors the state on a
    /// hardware interrupt, and delivers it anew.
    #[verifier::rlimit(30)]
    fn set_state_bit_owned(&mut self, env: &mut VgicEnv, vcpu: VcpuRef, int_id: usize, pend_bit: bool, on: bool)
        requires
            old(self).wf(),
            old(env).wf(),
            old(self).runs_here(old(env), vcpu),
            old(self).lr_consistent(old(env), vcpu),
            int_id < GIC_INTS_MAX,
            old(self).int_at(vcpu.id as int, int_id as int).owner == Some(vcpu),
            route_fits(old(env), old(self).int_at(vcpu.id as int, int_id as int)),
        ensures
            final(self).others_kept(old(self), vcpu, int_id as int),
            final(self).wf(),
            final(env).wf(),
            final(self).same_shape(old(self)),
            final(self).same_routing(old(self)),
            final(self).lists_of_only(old(self), vcpu.id as int),
            final(self).lr_consistent(final(env), vcpu),
            same_env_meta(final(env), old(env)),
            final(self).vstates_kept(old(self), final(env), old(env), vcpu.id as int, int_id as int),
            ({
                let c = vcpu.id as int;
                let x = old(self).int_at(c, int_id as int);
                let xf = final(self).int_at(c, int_id as int);
                let s1 = vstate(old(env), x);
                let s2 = if pend_bit { with_pend(s1, on) } else { with_act(s1, on) };
                &&& same_config(xf, x)
                &&& (xf.owner == x.owner || xf.owner is None)
                &&& final(env).actions@ == old(env).actions@ + hw_state_action(x, if pend_bit { s2 } else { hw_act_state(s2) })
                    + route_ipis(old(env), vcpu, xf)
                &&& (vstate(final(env), xf) == s2 || vstate(final(env), xf) == shown_state(x, s2))
            }),
    {
        let c = vcpu.id;
        proof {
            assert(old(self).int_ok(c as int, int_id as int));
            lemma_lr_state_bound(0);
        }
        self.remove_lr(env, vcpu, int_id);
        let ghost s0 = *self;
        let ghost e0 = *env;
        proof {
            let x0 = old(self).int_at(c as int, int_id as int);
            if e0.lrs@ == old(env).lrs@ {
                self.lemma_vstates_same_lrs(old(self), env, old(env), c as int, int_id as int);
            } else {
                self.lemma_vstates_slot(old(self), env, old(env), c as int, int_id as int, x0.lr as int);
            }
        }
        let x1 = self.cpu_or_spi(vcpu, int_id);
        proof {
            assert(self.int_ok(c as int, int_id as int));
        }
        let new_state = state_with_bit(x1.state.to_num(), pend_bit, on);
        self.set_int(c, VgicInt { state: IrqState::num_to_state(new_state), ..x1 });
        proof {
            assert(s0.same_routing(old(self)));
            self.lemma_routing_trans(&s0, old(self));
            assert(self.others_kept(&s0, vcpu, int_id as int));
            self.lemma_others_trans(&s0, old(self), vcpu, int_id as int);
            self.lemma_vstates_same_lrs(&s0, env, &e0, c as int, int_id as int);
            self.lemma_vstates_trans(&s0, old(self), env, &e0, old(env), c as int, int_id as int);
        }
        if x1.hw {
            let redist = vgic_int_redist(&x1);
            let hw_state = if pend_bit {
                new_state
            } else if new_state == 1 {
                2
            } else {
                new_state
            };
            let ghost e1 = *env;
            env.push_action(VgicAction::HwSetState { int_id: x1.id, state: hw_state, redist });
            proof {
                self.lemma_vstates_same_lrs(self, env, &e1, c as int, int_id as int);
                self.lemma_vstates_trans(self, old(self), env, &e1, old(env), c as int, int_id as int);
            }
        }
        let ghost s1 = *self;
        let ghost e2 = *env;
        self.reroute(env, vcpu, int_id);
        proof {
            self.lemma_routing_trans(&s1, old(self));
            self.lemma_others_trans(&s1, old(self), vcpu, int_id as int);
            self.lemma_vstates_trans(&s1, old(self), env, &e2, old(env), c as int, int_id as int);
        }
    }

    /// Sets or clears the pending state of interrupt `int_id` for `vcpu`:
    /// itself when it owns the interrupt or nobody does, else by asking the
    /// owner's CPU.
    #[verifier::rlimit(30)]
    pub fn set_pend(&mut self, env: &mut VgicEnv, vcpu: VcpuRef, int_id: usize, pend: bool)
        requires
            old(self).wf(),
            old(env).wf(),
            old(self).runs_here(old(env), vcpu),
            old(self).lr_consistent(old(env), vcpu),
            old(self).routes_fit(old(env), vcpu),
        ensures
            final(self).others_kept(old(self), vcpu, int_id as int),
            final(self).wf(),
            final(env).wf(),
            final(self).same_shape(old(self)),
            final(self).same_routing(old(self)),
            final(self).lists_of_only(old(self), vcpu.id as int),
            final(self).lr_consistent(final(env), vcpu),
            same_env_meta(final(env), old(env)),
            final(self).vstates_kept(old(self), final(env), old(env), vcpu.id as int, int_id as int),
            int_id >= GIC_INTS_MAX ==> final(self).unchanged(old(self), final(env), old(env)),
            int_id < GIC_INTS_MAX ==> ({
                let c = vcpu.id as int;
                let x = old(self).int_at(c, int_id as int);
                let xf = final(self).int_at(c, int_id as int);
                let s2 = with_pend(vstate(old(env), x), pend);
                if x.owner is Some && x.owner != Some(vcpu) {
                    &&& final(self).same_ints(old(self))
                    &&& final(self).same_lists(old(self))
                    &&& final(self).same_curr_lrs(old(self))
                    &&& final(env).lrs@ == old(env).lrs@
                    &&& final(env).hcr == old(env).hcr
                    &&& final(env).actions@ == old(env).actions@.push(
                        forward(x, vcpu, InitcEvent::VgicdSetPend, if pend { 1 } else { 0 }),
                    )
                } else {
                    &&& same_config(xf, x)
                    &&& !foreign(xf, vcpu)
                    &&& final(env).actions@ == old(env).actions@ + hw_state_action(x, s2) + route_ipis(old(env), vcpu, xf)
                    &&& (vstate(final(env), xf) == s2 || vstate(final(env), xf) == shown_state(x, s2))
                }
            }),
    {
        if int_id >= GIC_INTS_MAX {
            return;
        }
        let x = self.cpu_or_spi(vcpu, int_id);
        proof {
            assert(self.int_ok(vcpu.id as int, int_id as int));
            assert(route_fits(env, x));
        }
        if self.vgic_int_get_owner(vcpu, int_id) {
            let ghost s0 = *self;
            proof {
                self.lemma_vstates_same_lrs(old(self), env, env, vcpu.id as int, int_id as int);
            }
            self.set_state_bit_owned(env, vcpu, int_id, true, pend);
            proof {
                self.lemma_others_trans(&s0, old(self), vcpu, int_id as int);
                self.lemma_vstates_trans(&s0, old(self), env, old(env), old(env), vcpu.id as int, int_id as int);
            }
        } else {
            self.forward_ipi(env, vcpu, &x, InitcEvent::VgicdSetPend, if pend { 1 } else { 0 });
            proof {
                self.lemma_vstates_same_lrs(old(self), env, old(env), vcpu.id as int, int_id as int);
            }
        }
    }

    /// Sets or clears the active state of interrupt `int_id % 1024` for
    /// `vcpu`: itself when it owns the interrupt or nobody does, else by
    /// asking the owner's CPU (with the request that sets the pending state).
    #[verifier::rlimit(30)]
    pub fn set_active(&mut self, env: &mut VgicEnv, vcpu: VcpuRef, int_id: usize, act: bool)
        requires
            old(self).wf(),
            old(env).wf(),
            old(self).runs_here(old(env), vcpu),
            old(self).lr_consistent(old(env), vcpu),
            old(self).routes_fit(old(env), vcpu),
        ensures
            final(self).others_kept(old(self), vcpu, (int_id % 1024) as int),
            final(self).wf(),
            final(env).wf(),
            final(self).same_shape(old(self)),
            final(self).same_routing(old(self)),
            final(self).lists_of_only(old(self), vcpu.id as int),
            final(self).lr_consistent(final(env), vcpu),
            same_env_meta(final(env), old(env)),
            final(self).vstates_kept(old(self), final(env), old(env), vcpu.id as int, (int_id % 1024) as int),
            ({
                let c = vcpu.id as int;
                let id = int_id % 1024;
                let x = old(self).int_at(c, id as int);
                let xf = final(self).int_at(c, id as int);
                let s2 = with_act(vstate(old(env), x), act);
                if x.owner is Some && x.owner != Some(vcpu) {
                    &&& final(self).same_ints(old(self))
                    &&& final(self).same_lists(old(self))
                    &&& final(self).same_curr_lrs(old(self))
                    &&& final(env).lrs@ == old(env).lrs@
                    &&& final(env).hcr == old(env).hcr
                    &&& final(env).actions@ == old(env).actions@.push(
                        forward(x, vcpu, InitcEvent::VgicdSetPend, if act { 1 } else { 0 }),
                    )
                } else {
                    &&& same_config(xf, x)
                    &&& !foreign(xf, vcpu)
                    &&& final(env).actions@ == old(env).actions@ + hw_state_action(x, hw_act_state(s2))
                        + route_ipis(old(env), vcpu, xf)
                    &&& (vstate(final(env), xf) == s2 || vstate(final(env), xf) == shown_state(x, s2))
                }
            }),
    {
        let id = int_id % 1024;
        let x = self.cpu_or_spi(vcpu, id);
        proof {
            assert(self.int_ok(vcpu.id as int, id as int));
            assert(route_fits(env, x));
        }
        if self.vgic_int_get_owner(vcpu, id) {
            let ghost s0 = *self;
            proof {
                self.lemma_vstates_same_lrs(old(self), env, env, vcpu.id as int, id as int);
            }
            self.set_state_bit_owned(env, vcpu, id, false, act);
            proof {
                self.lemma_others_trans(&s0, old(self), vcpu, id as int);
                self.lemma_vstates_trans(&s0, old(self), env, old(env), old(env), vcpu.id as int, id as int);
            }
        } else {
            self.forward_ipi(env, vcpu, &x, InitcEvent::VgicdSetPend, if act { 1 } else { 0 });
            proof {
                self.lemma_vstates_same_lrs(old(self), env, old(env), vcpu.id as int, id as int);
            }
        }
    }
}


impl Vgic {
    /// Sets the configuration (edge or level) of interrupt `int_id` for
    /// `vcpu`: itself when it owns the interrupt or nobody does, mirroring it
    /// on a hardware interrupt and delivering it anew; else by asking the
    /// owner's CPU.
    #[verifier::rlimit(30)]
    pub fn set_icfgr(&mut self, env: &mut VgicEnv, vcpu: VcpuRef, int_id: usize, cfg: u8)
        requires
            old(self).wf(),
            old(env).wf(),
            old(self).runs_here(old(env), vcpu),
            old(self).lr_consistent(old(env), vcpu),
            old(self).routes_fit(old(env), vcpu),
            cfg < 4,
            int_id < GIC_INTS_MAX,
        ensures
            final(self).others_kept(old(self), vcpu, int_id as int),
            final(self).wf(),
            final(env).wf(),
            final(self).same_shape(old(self)),
            final(self).same_routing(old(self)),
            final(self).lists_of_only(old(self), vcpu.id as int),
            final(self).lr_consistent(final(env), vcpu),
            same_env_meta(final(env), old(env)),
            final(self).vstates_kept(old(self), final(env), old(env), vcpu.id as int, int_id as int),
            ({
                let c = vcpu.id as int;
                let x = old(self).int_at(c, int_id as int);
                let xf = final(self).int_at(c, int_id as int);
                if x.owner is Some && x.owner != Some(vcpu) {
                    &&& final(self).same_ints(old(self))
                    &&& final(self).same_lists(old(self))
                    &&& final(self).same_curr_lrs(old(self))
                    &&& final(env).lrs@ == old(env).lrs@
                    &&& final(env).hcr == old(env).hcr
                    &&& final(env).actions@ == old(env).actions@.push(forward(x, vcpu, InitcEvent::VgicdSetCfg, cfg))
                } else {
                    &&& same_config(xf, VgicInt { cfg, ..x })
                    &&& !foreign(xf, vcpu)
                    &&& final(env).actions@ == old(env).actions@ + (if x.hw {
                        seq![VgicAction::HwSetIcfgr { int_id: x.id, cfg, redist: redist_of(x) }]
                    } else {
                        Seq::empty()
                    }) + route_ipis(old(env), vcpu, xf)
                    &&& state_kept(old(env), x, final(env), xf)
                }
            }),
    {
        let c = vcpu.id;
        let x = self.cpu_or_spi(vcpu, int_id);
        proof {
            assert(self.int_ok(c as int, int_id as int));
            assert(route_fits(env, x));
        }
        if self.vgic_int_get_owner(vcpu, int_id) {
            let ghost s0 = *self;
            let x1 = self.cpu_or_spi(vcpu, int_id);
            proof {
                assert(self.int_ok(c as int, int_id as int));
            }
            self.set_int(c, VgicInt { cfg, ..x1 });
            proof {
                assert(self.same_routing(&s0));
                self.lemma_routing_trans(&s0, old(self));
                assert(self.others_kept(&s0, vcpu, int_id as int));
                self.lemma_others_trans(&s0, old(self), vcpu, int_id as int);
                self.lemma_vstates_same_lrs(old(self), env, old(env), c as int, int_id as int);
            }
            if x1.hw {
                let redist = vgic_int_redist(&x1);
                env.push_action(VgicAction::HwSetIcfgr { int_id: x1.id, cfg, redist });
                proof {
                    self.lemma_vstates_same_lrs(old(self), env, old(env), c as int, int_id as int);
                }
            }
            let ghost s1 = *self;
            let ghost e1 = *env;
            self.reroute(env, vcpu, int_id);
            proof {
                self.lemma_routing_trans(&s1, old(self));
                self.lemma_others_trans(&s1, old(self), vcpu, int_id as int);
                self.lemma_vstates_trans(&s1, old(self), env, &e1, old(env), c as int, int_id as int);
            }
        } else {
            self.forward_ipi(env, vcpu, &x, InitcEvent::VgicdSetCfg, cfg);
            proof {
                self.lemma_vstates_same_lrs(old(self), env, old(env), c as int, int_id as int);
            }
        }
    }

    /// The configuration of interrupt `int_id` as `vcpu` sees it.
    pub fn get_icfgr(&self, vcpu: VcpuRef, int_id: usize) -> (r: u8)
        requires
            self.wf(),
            self.is_vcpu(vcpu),
            int_id < GIC_INTS_MAX,
        ensures
            r == self.int_at(vcpu.id as int, int_id as int).cfg,
    {
        self.cpu_or_spi(vcpu, int_id).cfg
    }

    /// Whether interrupt `int_id` is enabled as `vcpu` sees it.
    pub fn get_enable(&self, vcpu: VcpuRef, int_id: usize) -> (r: bool)
        requires
            self.wf(),
            self.is_vcpu(vcpu),
            int_id < GIC_INTS_MAX,
        ensures
            r == self.int_at(vcpu.id as int, int_id as int).enabled,
    {
        self.cpu_or_spi(vcpu, int_id).enabled
    }

    /// The priority of interrupt `int_id` as `vcpu` sees it.
    pub fn get_prio(&self, vcpu: VcpuRef, int_id: usize) -> (r: u8)
        requires
            self.wf(),
            self.is_vcpu(vcpu),
            int_id < GIC_INTS_MAX,
        ensures
            r == self.int_at(vcpu.id as int, int_id as int).prio,
    {
        self.cpu_or_spi(vcpu, int_id).prio
    }

    /// Sets the priority of interrupt `int_id` for `vcpu` to `prio` with its
    /// low four bits cleared: itself when it owns the interrupt or nobody
    /// does (taking it out of its list register, delivering it anew when the
    /// priority rose or stayed, and mirroring it on a hardware interrupt);
    /// else by asking the owner's CPU.
    #[verifier::rlimit(30)]
    pub fn set_prio(&mut self, env: &mut VgicEnv, vcpu: VcpuRef, int_id: usize, prio: u8)
        requires
            old(self).wf(),
            old(env).wf(),
            old(self).runs_here(old(env), vcpu),
            old(self).lr_consistent(old(env), vcpu),
            old(self).routes_fit(old(env), vcpu),
        ensures
            final(self).others_kept(old(self), vcpu, int_id as int),
            final(self).wf(),
            final(env).wf(),
            final(self).same_shape(old(self)),
            final(self).same_routing(old(self)),
            final(self).lists_of_only(old(self), vcpu.id as int),
            final(self).lr_consistent(final(env), vcpu),
            same_env_meta(final(env), old(env)),
            final(self).vstates_kept(old(self), final(env), old(env), vcpu.id as int, int_id as int),
            int_id >= GIC_INTS_MAX ==> final(self).unchanged(old(self), final(env), old(env)),
            int_id < GIC_INTS_MAX ==> ({
                let c = vcpu.id as int;
                let x = old(self).int_at(c, int_id as int);
                let xf = final(self).int_at(c, int_id as int);
                let p = prio & 0xf0;
                if x.owner is Some && x.owner != Some(vcpu) {
                    &&& final(self).same_ints(old(self))
                    &&& final(self).same_lists(old(self))
                    &&& final(self).same_curr_lrs(old(self))
                    &&& final(env).lrs@ == old(env).lrs@
                    &&& final(env).hcr == old(env).hcr
                    &&& final(env).actions@ == old(env).actions@.push(forward(x, vcpu, InitcEvent::VgicdSetPrio, p))
                } else if x.prio == p {
                    &&& same_config(xf, x)
                    &&& !foreign(xf, vcpu)
                    &&& vstate(final(env), xf) == vstate(old(env), x)
                    &&& final(env).lrs@ == old(env).lrs@
                    &&& final(env).hcr == old(env).hcr
                    &&& final(env).actions@ == old(env).actions@
                    &&& final(self).same_lists(old(self))
                    &&& final(self).same_curr_lrs(old(self))
                } else {
                    &&& same_config(xf, VgicInt { prio: p, ..x })
                    &&& !foreign(xf, vcpu)
                    &&& final(env).actions@ == old(env).actions@ + (if p <= x.prio {
                        route_ipis(old(env), vcpu, xf)
                    } else {
                        Seq::empty()
                    }) + (if x.hw {
                        seq![VgicAction::HwSetPrio { int_id: x.id, prio: p, redist: redist_of(x) }]
                    } else {
                        Seq::empty()
                    })
                    &&& state_kept(old(env), x, final(env), xf)
                }
            }),
    {
        let p = prio & 0xf0;
        if int_id >= GIC_INTS_MAX {
            return;
        }
        let c = vcpu.id;
        let x = self.cpu_or_spi(vcpu, int_id);
        proof {
            assert(self.int_ok(c as int, int_id as int));
            assert(route_fits(env, x));
        }
        if self.vgic_int_get_owner(vcpu, int_id) {
            let ghost s0 = *self;
            proof {
                self.lemma_vstates_same_lrs(old(self), env, env, c as int, int_id as int);
            }
            self.set_prio_owned(env, vcpu, int_id, p);
            proof {
                self.lemma_others_trans(&s0, old(self), vcpu, int_id as int);
                self.lemma_vstates_trans(&s0, old(self), env, old(env), old(env), c as int, int_id as int);
            }
        } else {
            self.forward_ipi(env, vcpu, &x, InitcEvent::VgicdSetPrio, p);
            proof {
                self.lemma_vstates_same_lrs(old(self), env, old(env), c as int, int_id as int);
            }
        }
    }
}


impl Vgic {
    /// The part of `set_prio` done by the owner of the interrupt, with the
    /// priority `p` already masked.
    #[verifier::rlimit(30)]
    fn set_prio_owned(&mut self, env: &mut VgicEnv, vcpu: VcpuRef, int_id: usize, p: u8)
        requires
            old(self).wf(),
            old(env).wf(),
            old(self).runs_here(old(env), vcpu),
            old(self).lr_consistent(old(env), vcpu),
            int_id < GIC_INTS_MAX,
            old(self).int_at(vcpu.id as int, int_id as int).owner == Some(vcpu),
            route_fits(old(env), old(self).int_at(vcpu.id as int, int_id as int)),
        ensures
            final(self).others_kept(old(self), vcpu, int_id as int),
            final(self).wf(),
            final(env).wf(),
            final(self).same_shape(old(self)),
            final(self).same_routing(old(self)),
            final(self).lists_of_only(old(self), vcpu.id as int),
            final(self).lr_consistent(final(env), vcpu),
            same_env_meta(final(env), old(env)),
            final(self).vstates_kept(old(self), final(env), old(env), vcpu.id as int, int_id as int),
            ({
                let c = vcpu.id as int;
                let x = old(self).int_at(c, int_id as int);
                let xf = final(self).int_at(c, int_id as int);
                if x.prio == p {
                    &&& same_config(xf, x)
                    &&& (xf.owner == x.owner || xf.owner is None)
                    &&& vstate(final(env), xf) == vstate(old(env), x)
                    &&& final(env).lrs@ == old(env).lrs@
                    &&& final(env).hcr == old(env).hcr
                    &&& final(env).actions@ == old(env).actions@
                    &&& final(self).same_lists(old(self))
                    &&& final(self).same_curr_lrs(old(self))
                } else {
                    &&& same_config(xf, VgicInt { prio: p, ..x })
                    &&& (xf.owner == x.owner || xf.owner is None)
                    &&& final(env).actions@ == old(env).actions@ + (if p <= x.prio {
                        route_ipis(old(env), vcpu, xf)
                    } else {
                        Seq::empty()
                    }) + (if x.hw {
                        seq![VgicAction::HwSetPrio { int_id: x.id, prio: p, redist: redist_of(x) }]
                    } else {
                        Seq::empty()
                    })
                    &&& state_kept(old(env), x, final(env), xf)
                }
            }),
    {
        let c = vcpu.id;
        let x1 = self.cpu_or_spi(vcpu, int_id);
        if x1.prio != p {
            proof {
                assert(old(self).int_ok(c as int, int_id as int));
                lemma_lr_state_bound(0);
            }
            self.remove_lr(env, vcpu, int_id);
            let ghost s0 = *self;
            let ghost e0 = *env;
            proof {
                let x0 = old(self).int_at(c as int, int_id as int);
                if e0.lrs@ == old(env).lrs@ {
                    self.lemma_vstates_same_lrs(old(self), env, old(env), c as int, int_id as int);
                } else {
                    self.lemma_vstates_slot(old(self), env, old(env), c as int, int_id as int, x0.lr as int);
                }
            }
            let x2 = self.cpu_or_spi(vcpu, int_id);
            proof {
                assert(self.int_ok(c as int, int_id as int));
            }
            let prev_prio = x2.prio;
            self.set_int(c, VgicInt { prio: p, ..x2 });
            proof {
                assert(self.same_routing(&s0));
                self.lemma_routing_trans(&s0, old(self));
                self.lemma_vstates_same_lrs(&s0, env, &e0, c as int, int_id as int);
                self.lemma_vstates_trans(&s0, old(self), env, &e0, old(env), c as int, int_id as int);
            }
            if p <= prev_prio {
                let ghost s1 = *self;
                let ghost e1 = *env;
                self.route(env, vcpu, int_id);
                proof {
                    self.lemma_routing_trans(&s1, old(self));
                    self.lemma_vstates_trans(&s1, old(self), env, &e1, old(env), c as int, int_id as int);
                }
            }
            if x2.hw {
                let redist = vgic_int_redist(&x2);
                let ghost e3 = *env;
                env.push_action(VgicAction::HwSetPrio { int_id: x2.id, prio: p, redist });
                proof {
                    self.lemma_vstates_same_lrs(self, env, &e3, c as int, int_id as int);
                    self.lemma_vstates_trans(self, old(self), env, &e3, old(env), c as int, int_id as int);
                }
            }
        }
        let ghost s2 = *self;
        let ghost env2 = *env;
        self.vgic_int_yield_owner(env, vcpu, int_id);
        proof {
            self.lemma_routing_trans(&s2, old(self));
            self.lemma_vstates_same_lrs(&s2, env, &env2, c as int, int_id as int);
            self.lemma_vstates_trans(&s2, old(self), env, &env2, old(env), c as int, int_id as int);
        }
    }
}


/// Whether a list register here presents interrupt `id` in a state other
/// than inactive.
pub open spec fn lr_presents(env: &VgicEnv, id: int) -> bool {
    exists|i: int| 0 <= i < GICH_LR_SLOTS && lr_state(#[trigger] env.lrs@[i]) != 0 && lr_vid(env.lrs@[i]) == id
}

/// The routing affinity a write of `val` to a routing register sets: this
/// CPU's (`vcpu_mpidr`) for "any CPU", else that of the CPU running the vCPU
/// the value names (`target_mpidr`), or none.
pub open spec fn phys_route_for(val: u64, vcpu_mpidr: u64, target_mpidr: Option<u64>) -> u64 {
    if val & GICD_IROUTER_IRM_BIT != 0 {
        vcpu_mpidr
    } else {
        match target_mpidr {
            Some(m) => m & MPIDR_AFF_MSK,
            None => GICD_IROUTER_INV,
        }
    }
}

proof fn lemma_irm_kept(val: u64)
    ensures
        val & GICD_IROUTER_IRM_BIT != 0 ==> (val & GICD_IROUTER_RES0_MSK) & GICD_IROUTER_IRM_BIT != 0,
        (1u64 << 2u64) == 4,
        (1u64 << 8u64) == 256,
{
    assert((val & 0x8000_0000u64 != 0 ==> (val & 0xff_ffff_ffffu64) & 0x8000_0000u64 != 0) && (1u64 << 2u64) == 4 && (1u64
        << 8u64) == 256) by (bit_vector);
}

impl Vgic {
    /// Makes interrupt `int_id % 1024` pending for `vcpu`. A hardware
    /// interrupt is taken over by `vcpu`, made pending and delivered; any
    /// other is set pending as `set_pend` does (for `int_id` itself).
    #[verifier::rlimit(30)]
    pub fn inject(&mut self, env: &mut VgicEnv, vcpu: VcpuRef, int_id: usize)
        requires
            old(self).wf(),
            old(env).wf(),
            old(self).runs_here(old(env), vcpu),
            old(self).lr_consistent(old(env), vcpu),
            old(self).routes_fit(old(env), vcpu),
            old(self).int_at(vcpu.id as int, (int_id % 1024) as int).hw ==> !lr_presents(old(env), (int_id % 1024) as int),
        ensures
            final(self).wf(),
            final(env).wf(),
            final(self).same_shape(old(self)),
            final(self).same_routing(old(self)),
            final(self).lists_of_only(old(self), vcpu.id as int),
            final(self).lr_consistent(final(env), vcpu),
            same_env_meta(final(env), old(env)),
            final(self).vstates_kept(old(self), final(env), old(env), vcpu.id as int, (int_id % 1024) as int),
            ({
                let c = vcpu.id as int;
                let id = int_id % 1024;
                let x = old(self).int_at(c, id as int);
                let xf = final(self).int_at(c, id as int);
                let s2 = with_pend(vstate(old(env), x), true);
                if x.hw {
                    &&& same_config(xf, x)
                    &&& xf.owner == Some(vcpu) || (xf.owner is None && !xf.in_lr && has_other_target(old(env), x))
                    &&& vstate(final(env), xf) == 1
                    &&& final(env).actions@ == old(env).actions@ + route_ipis(old(env), vcpu, xf)
                } else if int_id >= GIC_INTS_MAX {
                    final(self).unchanged(old(self), final(env), old(env))
                } else if x.owner is Some && x.owner != Some(vcpu) {
                    &&& final(self).same_ints(old(self))
                    &&& final(self).same_lists(old(self))
                    &&& final(self).same_curr_lrs(old(self))
                    &&& final(env).lrs@ == old(env).lrs@
                    &&& final(env).hcr == old(env).hcr
                    &&& final(env).actions@ == old(env).actions@.push(forward(x, vcpu, InitcEvent::VgicdSetPend, 1))
                } else {
                    &&& same_config(xf, x)
                    &&& final(env).actions@ == old(env).actions@ + route_ipis(old(env), vcpu, xf)
                    &&& vstate(final(env), xf) == s2
                }
            }),
    {
        let c = vcpu.id;
        let id = int_id % 1024;
        let x = self.cpu_or_spi(vcpu, id);
        proof {
            assert(self.int_ok(c as int, id as int));
            assert(route_fits(env, x));
        }
        if x.hw {
            self.set_int(c, VgicInt { owner: Some(vcpu), state: IrqState::IrqSPend, ..x });
            let ghost s0 = *self;
            self.update_int_list(vcpu, id);
            let ghost s1 = *self;
            let x2 = self.cpu_or_spi(vcpu, id);
            proof {
                assert(self.int_ok(c as int, id as int));
            }
            self.set_int(c, VgicInt { in_lr: false, ..x2 });
            proof {
                assert(s0.same_routing(old(self)));
                s1.lemma_routing_trans(&s0, old(self));
                assert(self.same_routing(&s1));
                self.lemma_routing_trans(&s1, old(self));
                assert forall|i: int|
                    0 <= i < GICH_LR_SLOTS && lr_state(#[trigger] env.lrs@[i]) != 0 && lr_vid(env.lrs@[i]) < GIC_INTS_MAX implies {
                        let y = self.int_at(c as int, lr_vid(env.lrs@[i]) as int);
                        y.in_lr && y.lr == i && y.owner == Some(vcpu)
                    } by {
                    if lr_vid(env.lrs@[i]) == id {
                        assert(lr_presents(env, id as int));
                    }
                    assert(old(self).int_at(c as int, lr_vid(env.lrs@[i]) as int).in_lr);
                }
            }
            let ghost s2 = *self;
            proof {
                self.lemma_vstates_same_lrs(old(self), env, old(env), c as int, id as int);
            }
            self.route(env, vcpu, id);
            proof {
                self.lemma_routing_trans(&s2, old(self));
                let xf = self.int_at(c as int, id as int);
                lemma_lr_state_bound(0);
                self.lemma_vstates_trans(&s2, old(self), env, old(env), old(env), c as int, id as int);
            }
        } else {
            self.set_pend(env, vcpu, int_id, true);
            proof {
                if int_id < GIC_INTS_MAX {
                    assert(int_id % 1024 == int_id);
                }
            }
        }
    }

    /// Whether every interrupt but `int_id` keeps its route.
    pub open spec fn same_routing_except(&self, old: &Vgic, int_id: int) -> bool {
        forall|c2: int, id2: int|
            #![trigger self.int_at(c2, id2)]
            0 <= c2 < self.ncpu() && 0 <= id2 < GIC_INTS_MAX && id2 != int_id ==> self.int_at(c2, id2).route
                == old.int_at(c2, id2).route && self.int_at(c2, id2).phys == old.int_at(c2, id2).phys
    }

    /// Routes still fit when only interrupt `int_id`'s route changed, to one that fits.
    proof fn lemma_routes_fit(&self, old: &Vgic, env: &VgicEnv, env0: &VgicEnv, vcpu: VcpuRef, int_id: int)
        requires
            self.wf(),
            old.wf(),
            self.ncpu() == old.ncpu(),
            old.is_vcpu(vcpu),
            old.routes_fit(env0, vcpu),
            self.same_routing_except(old, int_id),
            env.route_shift == env0.route_shift,
            0 <= int_id < GIC_INTS_MAX,
            route_fits(env, self.int_at(vcpu.id as int, int_id)),
        ensures
            self.routes_fit(env, vcpu),
    {
        assert forall|id2: int| 0 <= id2 < GIC_INTS_MAX implies route_fits(env, #[trigger] self.int_at(vcpu.id as int, id2)) by {
            if id2 != int_id {
                assert(self.int_ok(vcpu.id as int, id2));
                assert(old.int_ok(vcpu.id as int, id2));
                assert(route_fits(env0, old.int_at(vcpu.id as int, id2)));
            }
        }
    }

    /// The part of `vgicd_set_irouter` done by the owner of the interrupt.
    #[verifier::rlimit(30)]
    fn set_irouter_owned(
        &mut self,
        env: &mut VgicEnv,
        vcpu: VcpuRef,
        int_id: usize,
        val: u64,
        vcpu_mpidr: u64,
        target_mpidr: Option<u64>,
    )
        requires
            old(self).wf(),
            old(env).wf(),
            old(self).runs_here(old(env), vcpu),
            old(self).lr_consistent(old(env), vcpu),
            GIC_PRIVINT_NUM <= int_id < GIC_INTS_MAX,
            old(self).int_at(vcpu.id as int, int_id as int).owner == Some(vcpu),
            target_mpidr is Some ==> ((target_mpidr->0 & MPIDR_AFF_MSK) >> old(env).route_shift) < 64,
        ensures
            final(self).others_kept(old(self), vcpu, int_id as int),
            final(self).wf(),
            final(env).wf(),
            final(self).same_shape(old(self)),
            final(self).lists_of_only(old(self), vcpu.id as int),
            final(self).lr_consistent(final(env), vcpu),
            final(self).same_routing_except(old(self), int_id as int),
            same_env_meta(final(env), old(env)),
            final(self).vstates_kept(old(self), final(env), old(env), vcpu.id as int, int_id as int),
            ({
                let c = vcpu.id as int;
                let x = old(self).int_at(c, int_id as int);
                let xf = final(self).int_at(c, int_id as int);
                let pr = phys_route_for(val, vcpu_mpidr, target_mpidr);
                &&& route_fits(final(env), xf)
                &&& same_config(xf, VgicInt { route: val & GICD_IROUTER_RES0_MSK, phys: VgicIntPhys::Route(pr), ..x })
                &&& final(env).actions@ == old(env).actions@ + (if x.hw {
                    seq![VgicAction::HwSetRoute { int_id: x.id, route: pr }]
                } else {
                    Seq::empty()
                }) + route_ipis(old(env), vcpu, xf)
                &&& state_kept(old(env), x, final(env), xf)
            }),
    {
        let c = vcpu.id;
        proof {
            assert(old(self).int_ok(c as int, int_id as int));
            lemma_lr_state_bound(0);
        }
        self.remove_lr(env, vcpu, int_id);
        let ghost s0 = *self;
        let ghost e0 = *env;
        proof {
            let x0 = old(self).int_at(c as int, int_id as int);
            if e0.lrs@ == old(env).lrs@ {
                self.lemma_vstates_same_lrs(old(self), env, old(env), c as int, int_id as int);
            } else {
                self.lemma_vstates_slot(old(self), env, old(env), c as int, int_id as int, x0.lr as int);
            }
        }
        let x1 = self.cpu_or_spi(vcpu, int_id);
        proof {
            assert(self.int_ok(c as int, int_id as int));
        }
        let phys_route = if val & GICD_IROUTER_IRM_BIT != 0 {
            vcpu_mpidr
        } else {
            match target_mpidr {
                Some(m) => m & MPIDR_AFF_MSK,
                None => GICD_IROUTER_INV,
            }
        };
        self.set_int(c, VgicInt { phys: VgicIntPhys::Route(phys_route), route: val & GICD_IROUTER_RES0_MSK, ..x1 });
        if x1.hw {
            env.push_action(VgicAction::HwSetRoute { int_id: x1.id, route: phys_route });
        }
        proof {
            lemma_irm_kept(val);
            assert(route_fits(env, self.int_at(c as int, int_id as int)));
            assert(self.same_routing_except(old(self), int_id as int)) by {
                assert forall|c2: int, id2: int|
                    #![trigger self.int_at(c2, id2)]
                    0 <= c2 < self.ncpu() && 0 <= id2 < GIC_INTS_MAX && id2 != int_id implies self.int_at(c2, id2).route
                        == old(self).int_at(c2, id2).route && self.int_at(c2, id2).phys == old(self).int_at(c2, id2).phys by {
                    assert(s0.int_at(c2, id2).route == old(self).int_at(c2, id2).route);
                }
            }
        }
        proof {
            self.lemma_vstates_same_lrs(&s0, env, &e0, c as int, int_id as int);
            self.lemma_vstates_trans(&s0, old(self), env, &e0, old(env), c as int, int_id as int);
        }
        let ghost s1 = *self;
        let ghost e1 = *env;
        self.reroute(env, vcpu, int_id);
        proof {
            self.lemma_vstates_trans(&s1, old(self), env, &e1, old(env), c as int, int_id as int);
            assert(self.same_routing_except(old(self), int_id as int)) by {
                assert forall|c2: int, id2: int|
                    #![trigger self.int_at(c2, id2)]
                    0 <= c2 < self.ncpu() && 0 <= id2 < GIC_INTS_MAX && id2 != int_id implies self.int_at(c2, id2).route
                        == old(self).int_at(c2, id2).route && self.int_at(c2, id2).phys == old(self).int_at(c2, id2).phys by {
                    assert(s1.int_at(c2, id2).route == old(self).int_at(c2, id2).route);
                }
            }
        }
    }

    /// Writes `val` to the routing register of shared interrupt `int_id` for
    /// `vcpu`: itself when it owns the interrupt or nobody does (taking it
    /// out of its list register, setting its route and routing affinity,
    /// mirroring them on a hardware interrupt, and delivering it anew); else
    /// by asking the owner's CPU. `vcpu_mpidr` is the MPIDR of this CPU,
    /// `target_mpidr` that of the CPU running the vCPU whose affinity the
    /// value names, if there is one.
    #[verifier::rlimit(30)]
    pub fn vgicd_set_irouter(
        &mut self,
        env: &mut VgicEnv,
        vcpu: VcpuRef,
        int_id: usize,
        val: u64,
        vcpu_mpidr: u64,
        target_mpidr: Option<u64>,
    )
        requires
            old(self).wf(),
            old(env).wf(),
            old(self).runs_here(old(env), vcpu),
            old(self).lr_consistent(old(env), vcpu),
            old(self).routes_fit(old(env), vcpu),
            int_id >= GIC_PRIVINT_NUM,
            target_mpidr is Some ==> ((target_mpidr->0 & MPIDR_AFF_MSK) >> old(env).route_shift) < 64,
        ensures
            final(self).others_kept(old(self), vcpu, int_id as int),
            final(self).wf(),
            final(env).wf(),
            final(self).same_shape(old(self)),
            final(self).lists_of_only(old(self), vcpu.id as int),
            final(self).lr_consistent(final(env), vcpu),
            final(self).routes_fit(final(env), vcpu),
            final(self).same_routing_except(old(self), int_id as int),
            same_env_meta(final(env), old(env)),
            final(self).vstates_kept(old(self), final(env), old(env), vcpu.id as int, int_id as int),
            int_id >= GIC_INTS_MAX ==> final(self).unchanged(old(self), final(env), old(env)),
            int_id < GIC_INTS_MAX ==> ({
                let c = vcpu.id as int;
                let x = old(self).int_at(c, int_id as int);
                let xf = final(self).int_at(c, int_id as int);
                let pr = phys_route_for(val, vcpu_mpidr, target_mpidr);
                if x.owner is Some && x.owner != Some(vcpu) {
                    &&& final(self).same_ints(old(self))
                    &&& final(self).same_lists(old(self))
                    &&& final(self).same_curr_lrs(old(self))
                    &&& final(env).lrs@ == old(env).lrs@
                    &&& final(env).hcr == old(env).hcr
                    &&& final(env).actions@ == old(env).actions@.push(forward(x, vcpu, InitcEvent::VgicdRoute, val as u8))
                } else {
                    &&& same_config(xf, VgicInt { route: val & GICD_IROUTER_RES0_MSK, phys: VgicIntPhys::Route(pr), ..x })
                    &&& final(env).actions@ == old(env).actions@ + (if x.hw {
                        seq![VgicAction::HwSetRoute { int_id: x.id, route: pr }]
                    } else {
                        Seq::empty()
                    }) + route_ipis(old(env), vcpu, xf)
                    &&& state_kept(old(env), x, final(env), xf)
                }
            }),
    {
        if int_id >= GIC_INTS_MAX {
            return;
        }
        let x = self.cpu_or_spi(vcpu, int_id);
        proof {
            assert(self.int_ok(vcpu.id as int, int_id as int));
        }
        if self.vgic_int_get_owner(vcpu, int_id) {
            let ghost s0 = *self;
            proof {
                self.lemma_vstates_same_lrs(old(self), env, env, vcpu.id as int, int_id as int);
            }
            self.set_irouter_owned(env, vcpu, int_id, val, vcpu_mpidr, target_mpidr);
            proof {
                self.lemma_vstates_trans(&s0, old(self), env, old(env), old(env), vcpu.id as int, int_id as int);
                self.lemma_others_trans(&s0, old(self), vcpu, int_id as int);
                assert(self.same_routing_except(old(self), int_id as int)) by {
                    assert forall|c2: int, id2: int|
                        #![trigger self.int_at(c2, id2)]
                        0 <= c2 < self.ncpu() && 0 <= id2 < GIC_INTS_MAX && id2 != int_id implies self.int_at(c2, id2).route
                            == old(self).int_at(c2, id2).route && self.int_at(c2, id2).phys == old(self).int_at(c2, id2).phys by {
                        assert(s0.int_at(c2, id2).route == old(self).int_at(c2, id2).route);
                    }
                }
                self.lemma_routes_fit(old(self), env, old(env), vcpu, int_id as int);
            }
        } else {
            self.forward_ipi(env, vcpu, &x, InitcEvent::VgicdRoute, val as u8);
            proof {
                self.lemma_vstates_same_lrs(old(self), env, old(env), vcpu.id as int, int_id as int);
                assert(self.same_routing_except(old(self), int_id as int)) by {
                    assert forall|c2: int, id2: int|
                        #![trigger self.int_at(c2, id2)]
                        0 <= c2 < self.ncpu() && 0 <= id2 < GIC_INTS_MAX && id2 != int_id implies self.int_at(c2, id2).route
                            == old(self).int_at(c2, id2).route && self.int_at(c2, id2).phys == old(self).int_at(c2, id2).phys by {
                        assert(self.int_at(c2, id2) == old(self).int_at(c2, id2));
                    }
                }
                self.lemma_routes_fit(old(self), env, old(env), vcpu, int_id as int);
            }
        }
    }
}


/// Whether interrupt `x` is owned by a vCPU other than `vcpu`.
pub open spec fn foreign(x: VgicInt, vcpu: VcpuRef) -> bool {
    x.owner is Some && x.owner != Some(vcpu)
}

impl Vgic {
    /// Routes still fit when every route is kept.
    proof fn lemma_routes_fit_kept(&self, old: &Vgic, env: &VgicEnv, env0: &VgicEnv, vcpu: VcpuRef)
        requires
            self.wf(),
            old.wf(),
            self.ncpu() == old.ncpu(),
            old.is_vcpu(vcpu),
            old.routes_fit(env0, vcpu),
            self.same_routing(old),
            env.route_shift == env0.route_shift,
        ensures
            self.routes_fit(env, vcpu),
    {
        assert forall|id2: int| 0 <= id2 < GIC_INTS_MAX implies route_fits(env, #[trigger] self.int_at(vcpu.id as int, id2)) by {
            assert(self.int_ok(vcpu.id as int, id2));
            assert(old.int_ok(vcpu.id as int, id2));
            assert(route_fits(env0, old.int_at(vcpu.id as int, id2)));
        }
    }

    /// Whether, as `vcpu` sees them, the interrupts with an id that `sel`
    /// holds and that no other vCPU owned in `old` have the configuration
    /// `f` gives, every other keeps its configuration, and no interrupt has
    /// a new owner other than `vcpu`.
    pub open spec fn configured(
        &self,
        old: &Vgic,
        vcpu: VcpuRef,
        sel: spec_fn(int) -> bool,
        f: spec_fn(int, VgicInt) -> VgicInt,
    ) -> bool {
        forall|id2: int|
            #![trigger self.int_at(vcpu.id as int, id2)]
            0 <= id2 < GIC_INTS_MAX ==> {
                let o = old.int_at(vcpu.id as int, id2);
                let n = self.int_at(vcpu.id as int, id2);
                &&& (sel(id2) && !foreign(o, vcpu) ==> same_config(n, f(id2, o)))
                &&& (!(sel(id2) && !foreign(o, vcpu)) ==> same_config(n, o))
                &&& (foreign(n, vcpu) ==> n.owner == o.owner)
                &&& (foreign(o, vcpu) ==> n.owner == o.owner)
            }
    }

    /// Enables (`en`) or disables, as `set_enable` does, each interrupt in `ints`.
    #[verifier::rlimit(30)]
    pub fn set_enable_all(&mut self, env: &mut VgicEnv, vcpu: VcpuRef, ints: &Vec<usize>, en: bool)
        requires
            old(self).wf(),
            old(env).wf(),
            old(self).runs_here(old(env), vcpu),
            old(self).lr_consistent(old(env), vcpu),
            old(self).routes_fit(old(env), vcpu),
        ensures
            final(self).wf(),
            final(env).wf(),
            final(self).same_shape(old(self)),
            final(self).same_routing(old(self)),
            final(self).lr_consistent(final(env), vcpu),
            final(self).routes_fit(final(env), vcpu),
            same_env_meta(final(env), old(env)),
            final(self).configured(
                old(self),
                vcpu,
                |id2: int| in_prefix(ints@, ints@.len() as int, id2),
                |id2: int, o: VgicInt| VgicInt { enabled: en, ..o },
            ),
            final(self).states_shown_kept(old(self), final(env), old(env), vcpu.id as int),
    {
        let ghost f = |id2: int, o: VgicInt| VgicInt { enabled: en, ..o };
        let mut k: usize = 0;
        proof {
            assert(self.configured(old(self), vcpu, |id2: int| in_prefix(ints@, 0, id2), f));
        }
        while k < ints.len()
            invariant
                k <= ints@.len(),
                self.wf(),
                env.wf(),
                self.runs_here(env, vcpu),
                self.lr_consistent(env, vcpu),
                self.routes_fit(env, vcpu),
                self.same_shape(old(self)),
                self.same_routing(old(self)),
                same_env_meta(env, old(env)),
                old(self).wf(),
                old(self).is_vcpu(vcpu),
                f == (|id2: int, o: VgicInt| VgicInt { enabled: en, ..o }),
                self.configured(old(self), vcpu, |id2: int| in_prefix(ints@, k as int, id2), f),
                self.states_shown_kept(old(self), env, old(env), vcpu.id as int),
            decreases ints@.len() - k,
        {
            let ghost prev = *self;
            let ghost env_prev = *env;
            let i = ints[k];
            self.set_enable(env, vcpu, i, en);
            proof {
                let c = vcpu.id as int;
                assert forall|id2: int| 0 <= id2 < GIC_INTS_MAX implies #[trigger] state_kept(
                    old(env),
                    old(self).int_at(c, id2),
                    env,
                    self.int_at(c, id2),
                ) by {
                    let o = old(self).int_at(c, id2);
                    let p = prev.int_at(c, id2);
                    let n = self.int_at(c, id2);
                    assert(state_kept(old(env), o, &env_prev, p));
                    assert(same_config(p, o) || same_config(p, VgicInt { enabled: en, ..o }));
                    if id2 == i as int {
                        assert(state_kept(&env_prev, p, env, n));
                    } else {
                        assert(vstate(env, n) == vstate(&env_prev, p));
                    }
                    lemma_state_kept_trans(old(env), o, &env_prev, p, env, n);
                }
                self.lemma_routing_trans(&prev, old(self));
                self.lemma_routes_fit_kept(&prev, env, &env_prev, vcpu);
                let sel0 = |id2: int| in_prefix(ints@, k as int, id2);
                let sel1 = |id2: int| in_prefix(ints@, k + 1, id2);
                lemma_in_prefix_step(ints@, k as int);
                assert(self.configured(old(self), vcpu, sel1, f)) by {
                    assert forall|id2: int| #![trigger self.int_at(vcpu.id as int, id2)] 0 <= id2 < GIC_INTS_MAX implies {
                        let o = old(self).int_at(vcpu.id as int, id2);
                        let n = self.int_at(vcpu.id as int, id2);
                        &&& (sel1(id2) && !foreign(o, vcpu) ==> same_config(n, f(id2, o)))
                        &&& (!(sel1(id2) && !foreign(o, vcpu)) ==> same_config(n, o))
                        &&& (foreign(n, vcpu) ==> n.owner == o.owner)
                        &&& (foreign(o, vcpu) ==> n.owner == o.owner)
                    } by {
                        let p = prev.int_at(vcpu.id as int, id2);
                        assert(prev.configured(old(self), vcpu, sel0, f));
                        assert(sel1(id2) == (sel0(id2) || id2 == i));
                        if id2 != i {
                            assert(self.others_kept(&prev, vcpu, i as int));
                        }
                    }
                }
            }
            k = k + 1;
        }
    }
}

/// Whether `v` is among the first `k` entries of `s`.
/// Whether state number `v` shown for interrupt `x` has its pending bit
/// (`pend_bit`) or active bit as `on` asks; a hardware interrupt made pending
/// while active may show as active only.
pub open spec fn bit_shown(v: nat, x: VgicInt, pend_bit: bool, on: bool) -> bool {
    if pend_bit {
        if on {
            v % 2 == 1 || (x.hw && x.id >= GIC_SGIS_NUM && v == 2)
        } else {
            v % 2 == 0
        }
    } else {
        if on {
            v >= 2
        } else {
            v < 2
        }
    }
}

pub open spec fn in_prefix(s: Seq<usize>, k: int, v: int) -> bool {
    exists|j: int| 0 <= j < k && #[trigger] s[j] as int == v
}

/// The interrupts a bit register write acts on are those of its set bits.
proof fn lemma_write_ints_prefix(ints: Seq<usize>, first: int, gpr: u64, n: int)
    requires
        forall|k: int| 0 <= k < ints.len() ==> first <= #[trigger] ints[k] < first + n && bit_of(gpr, ints[k] - first),
        forall|i: int| 0 <= i < n && bit_of(gpr, i) ==> ints.contains((first + i) as usize),
        first >= 0,
        first + n <= usize::MAX,
    ensures
        forall|id2: int| #[trigger] in_prefix(ints, ints.len() as int, id2) == (first <= id2 < first + n && bit_of(gpr, id2 - first)),
{
    assert forall|id2: int| #[trigger] in_prefix(ints, ints.len() as int, id2) == (first <= id2 < first + n && bit_of(gpr, id2 - first)) by {
        if in_prefix(ints, ints.len() as int, id2) {
            let j = choose|j: int| 0 <= j < ints.len() && #[trigger] ints[j] as int == id2;
            assert(first <= ints[j] < first + n);
        }
        if first <= id2 < first + n && bit_of(gpr, id2 - first) {
            assert(ints.contains((first + (id2 - first)) as usize));
            let j = choose|j: int| 0 <= j < ints.len() && ints[j] == (first + (id2 - first)) as usize;
            assert(ints[j] as int == id2);
        }
    }
}

proof fn lemma_in_prefix_step(s: Seq<usize>, k: int)
    requires
        0 <= k < s.len(),
    ensures
        forall|v: int| #[trigger] in_prefix(s, k + 1, v) == (in_prefix(s, k, v) || v == s[k] as int),
        forall|v: int| !#[trigger] in_prefix(s, 0, v),
{
    assert forall|v: int| #[trigger] in_prefix(s, k + 1, v) == (in_prefix(s, k, v) || v == s[k] as int) by {
        if in_prefix(s, k, v) {
            let j = choose|j: int| 0 <= j < k && #[trigger] s[j] as int == v;
            assert(0 <= j < k + 1 && s[j] as int == v);
        }
        if v == s[k] as int {
            assert(s[k] as int == v);
        }
    }
}


/// The configuration a write of `val` to a register with `b`-bit fields,
/// starting at interrupt `first`, gives interrupt `id2`: its priority (with
/// the low four bits cleared) for 8-bit fields, else its configuration.
pub open spec fn field_config(first: int, val: u64, b: u64, id2: int, o: VgicInt) -> VgicInt {
    let v = field_of(val, id2 - first, b) as u8;
    if b == 8 {
        VgicInt { prio: v & 0xf0, ..o }
    } else {
        VgicInt { cfg: v, ..o }
    }
}

proof fn lemma_field_small(val: u64, k: int, b: u64)
    requires
        b == 2 || b == 8,
    ensures
        field_of(val, k, b) < 256,
        b == 2 ==> field_of(val, k, b) < 4,
{
    lemma_field_bits();
}

impl Vgic {
    /// Writes `val` to a priority (`b == 8`) or configuration (`b == 2`)
    /// register `width` bytes wide whose first field is interrupt
    /// `first_int`: each field is set as `set_prio` or `set_icfgr` does.
    #[verifier::rlimit(30)]
    pub fn set_fields(&mut self, env: &mut VgicEnv, vcpu: VcpuRef, first_int: usize, val: u64, width: usize, b: u64)
        requires
            old(self).wf(),
            old(env).wf(),
            old(self).runs_here(old(env), vcpu),
            old(self).lr_consistent(old(env), vcpu),
            old(self).routes_fit(old(env), vcpu),
            width <= 8,
            b == 2 || b == 8,
            b == 2 ==> first_int + (8 * width) / (b as int) <= GIC_INTS_MAX,
            first_int + 8 * width <= usize::MAX,
        ensures
            final(self).wf(),
            final(env).wf(),
            final(self).same_shape(old(self)),
            final(self).same_routing(old(self)),
            final(self).lr_consistent(final(env), vcpu),
            final(self).routes_fit(final(env), vcpu),
            same_env_meta(final(env), old(env)),
            final(self).configured(
                old(self),
                vcpu,
                |id2: int| first_int <= id2 < first_int + (8 * width) / (b as int),
                |id2: int, o: VgicInt| field_config(first_int as int, val, b, id2, o),
            ),
            final(self).states_shown_kept(old(self), final(env), old(env), vcpu.id as int),
    {
        let ghost f = |id2: int, o: VgicInt| field_config(first_int as int, val, b, id2, o);
        let writes = field_register_writes(first_int, val, width, b);
        let mut k: usize = 0;
        while k < writes.len()
            invariant
                k <= writes@.len(),
                writes@.len() == (8 * width) / (b as int),
                forall|j: int| 0 <= j < writes@.len() ==> #[trigger] writes@[j] == ((first_int + j) as usize, field_of(val, j, b)),
                first_int + 8 * width <= usize::MAX,
                width <= 8,
                b == 2 || b == 8,
                b == 2 ==> first_int + (8 * width) / (b as int) <= GIC_INTS_MAX,
                self.wf(),
                env.wf(),
                self.runs_here(env, vcpu),
                self.lr_consistent(env, vcpu),
                self.routes_fit(env, vcpu),
                self.same_shape(old(self)),
                self.same_routing(old(self)),
                same_env_meta(env, old(env)),
                old(self).wf(),
                old(self).is_vcpu(vcpu),
                f == (|id2: int, o: VgicInt| field_config(first_int as int, val, b, id2, o)),
                self.configured(old(self), vcpu, |id2: int| first_int <= id2 < first_int + k, f),
                self.states_shown_kept(old(self), env, old(env), vcpu.id as int),
            decreases writes@.len() - k,
        {
            let ghost prev = *self;
            let ghost env_prev = *env;
            let (i, v) = writes[k];
            proof {
                assert(writes@[k as int] == ((first_int + k) as usize, field_of(val, k as int, b)));
                lemma_field_small(val, k as int, b);
            }
            if b == 8 {
                self.set_prio(env, vcpu, i, v as u8);
            } else {
                self.set_icfgr(env, vcpu, i, v as u8);
            }
            proof {
                self.lemma_routing_trans(&prev, old(self));
                self.lemma_routes_fit_kept(&prev, env, &env_prev, vcpu);
                let c = vcpu.id as int;
                assert forall|id2: int| 0 <= id2 < GIC_INTS_MAX implies #[trigger] state_kept(
                    old(env),
                    old(self).int_at(c, id2),
                    env,
                    self.int_at(c, id2),
                ) by {
                    let o = old(self).int_at(c, id2);
                    let p = prev.int_at(c, id2);
                    let n = self.int_at(c, id2);
                    assert(state_kept(old(env), o, &env_prev, p));
                    assert(prev.configured(old(self), vcpu, |id2: int| first_int <= id2 < first_int + k, f));
                    assert(p.hw == o.hw && p.id == o.id);
                    if id2 == i as int {
                        assert(state_kept(&env_prev, p, env, n));
                    } else {
                        assert(vstate(env, n) == vstate(&env_prev, p));
                    }
                    lemma_state_kept_trans(old(env), o, &env_prev, p, env, n);
                }
                let sel0 = |id2: int| first_int <= id2 < first_int + k;
                let sel1 = |id2: int| first_int <= id2 < first_int + k + 1;
                assert(self.configured(old(self), vcpu, sel1, f)) by {
                    assert forall|id2: int| #![trigger self.int_at(vcpu.id as int, id2)] 0 <= id2 < GIC_INTS_MAX implies {
                        let o = old(self).int_at(vcpu.id as int, id2);
                        let n = self.int_at(vcpu.id as int, id2);
                        &&& (sel1(id2) && !foreign(o, vcpu) ==> same_config(n, f(id2, o)))
                        &&& (!(sel1(id2) && !foreign(o, vcpu)) ==> same_config(n, o))
                        &&& (foreign(n, vcpu) ==> n.owner == o.owner)
                        &&& (foreign(o, vcpu) ==> n.owner == o.owner)
                    } by {
                        assert(prev.configured(old(self), vcpu, sel0, f));
                        let p = prev.int_at(vcpu.id as int, id2);
                        if id2 != i {
                            assert(self.others_kept(&prev, vcpu, i as int));
                        } else {
                            let o = old(self).int_at(vcpu.id as int, id2);
                            assert(i == first_int + k);
                            assert(!sel0(id2));
                            assert(same_config(p, o));
                            assert(foreign(p, vcpu) == foreign(o, vcpu));
                            if b == 8 {
                                assert(f(id2, o) == VgicInt { prio: (v as u8) & 0xf0, ..o });
                            } else {
                                assert(f(id2, o) == VgicInt { cfg: v as u8, ..o });
                            }
                        }
                    }
                }
            }
            k = k + 1;
        }
    }

    /// Sets or clears (`on`) the pending (`pend_bit`) or active state of
    /// each interrupt in `ints`, as `set_pend` or `set_active` does.
    #[verifier::rlimit(30)]
    pub fn set_state_all(&mut self, env: &mut VgicEnv, vcpu: VcpuRef, ints: &Vec<usize>, pend_bit: bool, on: bool)
        requires
            old(self).wf(),
            old(env).wf(),
            old(self).runs_here(old(env), vcpu),
            old(self).lr_consistent(old(env), vcpu),
            old(self).routes_fit(old(env), vcpu),
            forall|j: int| 0 <= j < ints@.len() ==> #[trigger] ints@[j] < GIC_INTS_MAX,
        ensures
            final(self).wf(),
            final(env).wf(),
            final(self).same_shape(old(self)),
            final(self).same_routing(old(self)),
            final(self).lr_consistent(final(env), vcpu),
            final(self).routes_fit(final(env), vcpu),
            same_env_meta(final(env), old(env)),
            final(self).configured(old(self), vcpu, |id2: int| false, |id2: int, o: VgicInt| o),
            forall|id2: int|
                0 <= id2 < GIC_INTS_MAX && in_prefix(ints@, ints@.len() as int, id2) && !foreign(
                    old(self).int_at(vcpu.id as int, id2),
                    vcpu,
                ) ==> bit_shown(
                    #[trigger] vstate(final(env), final(self).int_at(vcpu.id as int, id2)),
                    old(self).int_at(vcpu.id as int, id2),
                    pend_bit,
                    on,
                ),
            forall|id2: int|
                0 <= id2 < GIC_INTS_MAX && !in_prefix(ints@, ints@.len() as int, id2) ==> #[trigger] vstate(
                    final(env),
                    final(self).int_at(vcpu.id as int, id2),
                ) == vstate(old(env), old(self).int_at(vcpu.id as int, id2)),
    {
        let ghost f = |id2: int, o: VgicInt| o;
        let mut k: usize = 0;
        while k < ints.len()
            invariant
                k <= ints@.len(),
                forall|j: int| 0 <= j < ints@.len() ==> #[trigger] ints@[j] < GIC_INTS_MAX,
                self.wf(),
                env.wf(),
                self.runs_here(env, vcpu),
                self.lr_consistent(env, vcpu),
                self.routes_fit(env, vcpu),
                self.same_shape(old(self)),
                self.same_routing(old(self)),
                same_env_meta(env, old(env)),
                old(self).wf(),
                old(self).is_vcpu(vcpu),
                f == (|id2: int, o: VgicInt| o),
                self.configured(old(self), vcpu, |id2: int| false, f),
                forall|id2: int|
                    0 <= id2 < GIC_INTS_MAX && in_prefix(ints@, k as int, id2) && !foreign(
                        old(self).int_at(vcpu.id as int, id2),
                        vcpu,
                    ) ==> bit_shown(
                        #[trigger] vstate(env, self.int_at(vcpu.id as int, id2)),
                        old(self).int_at(vcpu.id as int, id2),
                        pend_bit,
                        on,
                    ),
                forall|id2: int|
                    0 <= id2 < GIC_INTS_MAX && !in_prefix(ints@, k as int, id2) ==> #[trigger] vstate(
                        env,
                        self.int_at(vcpu.id as int, id2),
                    ) == vstate(old(env), old(self).int_at(vcpu.id as int, id2)),
            decreases ints@.len() - k,
        {
            let ghost prev = *self;
            let ghost env_prev = *env;
            let i = ints[k];
            if pend_bit {
                self.set_pend(env, vcpu, i, on);
            } else {
                self.set_active(env, vcpu, i, on);
            }
            proof {
                assert(i % 1024 == i);
                self.lemma_routing_trans(&prev, old(self));
                self.lemma_routes_fit_kept(&prev, env, &env_prev, vcpu);
                lemma_in_prefix_step(ints@, k as int);
                let c = vcpu.id as int;
                assert forall|id2: int|
                    0 <= id2 < GIC_INTS_MAX && in_prefix(ints@, k + 1, id2) && !foreign(old(self).int_at(c, id2), vcpu)
                        implies bit_shown(
                    #[trigger] vstate(env, self.int_at(c, id2)),
                    old(self).int_at(c, id2),
                    pend_bit,
                    on,
                ) by {
                    if id2 == i {
                        let o = old(self).int_at(c, id2);
                        let p = prev.int_at(c, id2);
                        assert(!foreign(p, vcpu));
                        assert(same_config(p, o));
                        lemma_lr_state_bound(env_prev.lr_at(p.lr as int));
                        assert(vstate(&env_prev, p) < 4);
                    } else {
                        assert(vstate(env, self.int_at(c, id2)) == vstate(&env_prev, prev.int_at(c, id2)));
                    }
                }
                assert forall|id2: int| 0 <= id2 < GIC_INTS_MAX && !in_prefix(ints@, k + 1, id2) implies #[trigger] vstate(
                    env,
                    self.int_at(c, id2),
                ) == vstate(old(env), old(self).int_at(c, id2)) by {
                    assert(vstate(env, self.int_at(c, id2)) == vstate(&env_prev, prev.int_at(c, id2)));
                }
                let sel = |id2: int| false;
                assert(self.configured(old(self), vcpu, sel, f)) by {
                    assert forall|id2: int| #![trigger self.int_at(vcpu.id as int, id2)] 0 <= id2 < GIC_INTS_MAX implies {
                        let o = old(self).int_at(vcpu.id as int, id2);
                        let n = self.int_at(vcpu.id as int, id2);
                        &&& (sel(id2) && !foreign(o, vcpu) ==> same_config(n, f(id2, o)))
                        &&& (!(sel(id2) && !foreign(o, vcpu)) ==> same_config(n, o))
                        &&& (foreign(n, vcpu) ==> n.owner == o.owner)
                        &&& (foreign(o, vcpu) ==> n.owner == o.owner)
                    } by {
                        assert(prev.configured(old(self), vcpu, sel, f));
                        let p = prev.int_at(vcpu.id as int, id2);
                        if id2 != i {
                            assert(self.others_kept(&prev, vcpu, i as int));
                        }
                    }
                }
            }
            k = k + 1;
        }
    }
}


/// Whether the VM has interrupt `id` (`vm_irqs` lists, by id, the
/// interrupts of the VM, passed through or emulated).
pub open spec fn has_irq(vm_irqs: Seq<bool>, id: int) -> bool {
    0 <= id < vm_irqs.len() && vm_irqs[id]
}

/// Whether the VM has one of the interrupts `first` to `first + n - 1`.
pub open spec fn vm_has_any(vm_irqs: Seq<bool>, first: int, n: int) -> bool {
    exists|id: int| first <= id < first + n && #[trigger] has_irq(vm_irqs, id)
}

/// Whether the VM has one of the interrupts `first` to `first + n - 1`.
pub fn vm_has_interrupt_in(vm_irqs: &Vec<bool>, first: usize, n: usize) -> (r: bool)
    requires
        first + n <= usize::MAX,
    ensures
        r == vm_has_any(vm_irqs@, first as int, n as int),
{
    let mut i: usize = 0;
    while i < n
        invariant
            i <= n,
            first + n <= usize::MAX,
            forall|id: int| first <= id < first + i ==> !#[trigger] has_irq(vm_irqs@, id),
        decreases n - i,
    {
        let id = first + i;
        if id < vm_irqs.len() && vm_irqs[id] {
            assert(has_irq(vm_irqs@, id as int));
            return true;
        }
        i = i + 1;
    }
    false
}

impl Vgic {
    /// Whether the configuration requirement of `configured` carries over to
    /// a selection that agrees with `sel1`.
    proof fn lemma_configured_sel(
        &self,
        old: &Vgic,
        vcpu: VcpuRef,
        sel1: spec_fn(int) -> bool,
        sel2: spec_fn(int) -> bool,
        f: spec_fn(int, VgicInt) -> VgicInt,
    )
        requires
            self.configured(old, vcpu, sel1, f),
            forall|id2: int| 0 <= id2 < GIC_INTS_MAX ==> #[trigger] sel1(id2) == sel2(id2),
        ensures
            self.configured(old, vcpu, sel2, f),
    {
        assert forall|id2: int| #![trigger self.int_at(vcpu.id as int, id2)] 0 <= id2 < GIC_INTS_MAX implies {
            let o = old.int_at(vcpu.id as int, id2);
            let n = self.int_at(vcpu.id as int, id2);
            &&& (sel2(id2) && !foreign(o, vcpu) ==> same_config(n, f(id2, o)))
            &&& (!(sel2(id2) && !foreign(o, vcpu)) ==> same_config(n, o))
            &&& (foreign(n, vcpu) ==> n.owner == o.owner)
            &&& (foreign(o, vcpu) ==> n.owner == o.owner)
        } by {
            assert(sel1(id2) == sel2(id2));
        }
    }

    /// The enable bits of interrupts `first` to `first + n - 1` as `vcpu` sees them.
    fn enable_flags(&self, vcpu: VcpuRef, first: usize, n: usize) -> (r: Vec<bool>)
        requires
            self.wf(),
            self.is_vcpu(vcpu),
            first + n <= GIC_INTS_MAX,
        ensures
            r@.len() == n,
            forall|i: int| 0 <= i < n ==> r@[i] == self.int_at(vcpu.id as int, first + i).enabled,
    {
        let mut out: Vec<bool> = Vec::new();
        let mut i: usize = 0;
        while i < n
            invariant
                i <= n,
                first + n <= GIC_INTS_MAX,
                self.wf(),
                self.is_vcpu(vcpu),
                out@.len() == i,
                forall|j: int| 0 <= j < i ==> out@[j] == self.int_at(vcpu.id as int, first + j).enabled,
            decreases n - i,
        {
            out.push(self.get_enable(vcpu, first + i));
            i = i + 1;
        }
        out
    }

    /// The pending (`pend_bit`) or active bits, as the guest sees them, of
    /// interrupts `first` to `first + n - 1`.
    fn state_flags(&self, env: &VgicEnv, vcpu: VcpuRef, first: usize, n: usize, pend_bit: bool) -> (r: Vec<bool>)
        requires
            self.wf(),
            env.wf(),
            self.is_vcpu(vcpu),
            first + n <= GIC_INTS_MAX,
        ensures
            r@.len() == n,
            forall|i: int|
                0 <= i < n ==> r@[i] == ({
                    let s = vstate(env, self.int_at(vcpu.id as int, first + i));
                    if pend_bit { s % 2 == 1 } else { s >= 2 }
                }),
    {
        let mut out: Vec<bool> = Vec::new();
        let mut i: usize = 0;
        proof {
            lemma_state_bits();
        }
        while i < n
            invariant
                i <= n,
                first + n <= GIC_INTS_MAX,
                self.wf(),
                env.wf(),
                self.is_vcpu(vcpu),
                out@.len() == i,
                forall|j: int|
                    0 <= j < i ==> out@[j] == ({
                        let s = vstate(env, self.int_at(vcpu.id as int, first + j));
                        if pend_bit { s % 2 == 1 } else { s >= 2 }
                    }),
            decreases n - i,
        {
            let x = self.cpu_or_spi(vcpu, first + i);
            proof {
                assert(self.int_ok(vcpu.id as int, (first + i) as int));
                lemma_state_bits();
            }
            let s = vgic_get_state(env, &x);
            out.push(if pend_bit { s & 1 != 0 } else { s & 2 != 0 });
            i = i + 1;
        }
        out
    }
}


impl Vgic {
    /// Whether the state and the CPU it runs on are still well formed and
    /// consistent for `vcpu`.
    pub open spec fn sound_for(&self, env: &VgicEnv, vcpu: VcpuRef) -> bool {
        &&& self.wf()
        &&& env.wf()
        &&& self.runs_here(env, vcpu)
        &&& self.lr_consistent(env, vcpu)
        &&& self.routes_fit(env, vcpu)
    }

    /// An access to a set- (`set`) or clear-enable register: a write enables
    /// (disables) every interrupt whose bit is set, as `set_enable` does; a
    /// read gives the enable bits. Ignored (nothing read) when the register
    /// covers interrupts from 16 up of which the VM has none; for the
    /// clear-enable register only writes are checked that way, over 32
    /// interrupts.
    #[verifier::rlimit(30)]
    pub fn emu_enabler_access(
        &mut self,
        env: &mut VgicEnv,
        vcpu: VcpuRef,
        emu_ctx: &EmuContext,
        gpr: u64,
        vm_irqs: &Vec<bool>,
        set: bool,
    ) -> (r: Option<u64>)
        requires
            old(self).sound_for(old(env), vcpu),
            emu_ctx.width <= 8,
            gicd_offset(emu_ctx.address) >= if set { 0x100nat } else { 0x180nat },
            (gicd_offset(emu_ctx.address) - if set { 0x100int } else { 0x180int }) * 8 + 8 * emu_ctx.width <= GIC_INTS_MAX,
        ensures
            final(self).sound_for(final(env), vcpu),
            final(self).same_shape(old(self)),
            final(self).same_routing(old(self)),
            same_env_meta(final(env), old(env)),
            ({
                let first = (gicd_offset(emu_ctx.address) - if set { 0x100int } else { 0x180int }) * 8;
                let n = 8 * emu_ctx.width as int;
                let checked = if set { true } else { emu_ctx.write };
                let n_checked = if set { n } else { 32 };
                if checked && first >= 16 && !vm_has_any(vm_irqs@, first, n_checked) {
                    r is None && final(self).unchanged(old(self), final(env), old(env))
                } else if emu_ctx.write {
                    &&& r is None
                    &&& final(self).configured(
                        old(self),
                        vcpu,
                        |id2: int| first <= id2 < first + n && bit_of(gpr, id2 - first),
                        |id2: int, o: VgicInt| VgicInt { enabled: set, ..o },
                    )
                    &&& final(self).states_shown_kept(old(self), final(env), old(env), vcpu.id as int)
                } else {
                    &&& final(self).unchanged(old(self), final(env), old(env))
                    &&& r is Some
                    &&& forall|i: int| 0 <= i < n ==> bit_of(r->0, i) == old(self).int_at(vcpu.id as int, first + i).enabled
                    &&& forall|i: int| n <= i < 64 ==> !bit_of(r->0, i)
                }
            }),
    {
        let base: usize = if set { 0x100 } else { 0x180 };
        let first_int = emu_first_int(emu_ctx, base, 1);
        let n = emu_ctx.width * 8;
        if set || emu_ctx.write {
            let checked_n: usize = if set { n } else { 32 };
            if first_int >= 16 && !vm_has_interrupt_in(vm_irqs, first_int, checked_n) {
                return None;
            }
        }
        if emu_ctx.write {
            let ints = bit_register_write_ints(first_int, gpr, emu_ctx.width);
            self.set_enable_all(env, vcpu, &ints, set);
            proof {
                let f = |id2: int, o: VgicInt| VgicInt { enabled: set, ..o };
                let sel1 = |id2: int| in_prefix(ints@, ints@.len() as int, id2);
                let sel2 = |id2: int| first_int <= id2 < first_int + n && bit_of(gpr, id2 - first_int);
                assert forall|id2: int| 0 <= id2 < GIC_INTS_MAX implies #[trigger] sel1(id2) == sel2(id2) by {
                    if sel1(id2) {
                        let j = choose|j: int| 0 <= j < ints@.len() && #[trigger] ints@[j] as int == id2;
                        assert(first_int <= ints@[j] < first_int + 8 * emu_ctx.width);
                    }
                    if sel2(id2) {
                        assert(ints@.contains((first_int + (id2 - first_int)) as usize));
                        let j = choose|j: int| 0 <= j < ints@.len() && ints@[j] == (first_int + (id2 - first_int)) as usize;
                        assert(ints@[j] as int == id2);
                    }
                }
                self.lemma_configured_sel(old(self), vcpu, sel1, sel2, f);
            }
            None
        } else {
            let flags = self.enable_flags(vcpu, first_int, n);
            Some(bit_register_read(&flags))
        }
    }
}


impl Vgic {
    /// An access to a set- (`set`) or clear-pending register: a write sets
    /// (clears) the pending state of every interrupt whose bit is set, as
    /// `set_pend` does; a read gives the pending bits, as the guest sees
    /// them, of the 32 interrupts from the first one.
    #[verifier::rlimit(30)]
    pub fn emu_pendr_access(
        &mut self,
        env: &mut VgicEnv,
        vcpu: VcpuRef,
        emu_ctx: &EmuContext,
        gpr: u64,
        set: bool,
    ) -> (r: Option<u64>)
        requires
            old(self).sound_for(old(env), vcpu),
            emu_ctx.width <= 8,
            gicd_offset(emu_ctx.address) >= if set { 0x200nat } else { 0x280nat },
            (gicd_offset(emu_ctx.address) - if set { 0x200int } else { 0x280int }) * 8 + 8 * emu_ctx.width <= GIC_INTS_MAX,
            !emu_ctx.write ==> (gicd_offset(emu_ctx.address) - if set { 0x200int } else { 0x280int }) * 8 + 32 <= GIC_INTS_MAX,
        ensures
            final(self).sound_for(final(env), vcpu),
            final(self).same_shape(old(self)),
            final(self).same_routing(old(self)),
            same_env_meta(final(env), old(env)),
            ({
                let first = (gicd_offset(emu_ctx.address) - if set { 0x200int } else { 0x280int }) * 8;
                if emu_ctx.write {
                    &&& r is None
                    &&& final(self).configured(old(self), vcpu, |id2: int| false, |id2: int, o: VgicInt| o)
                    &&& forall|id2: int|
                        0 <= id2 < GIC_INTS_MAX && first <= id2 < first + 8 * emu_ctx.width && bit_of(gpr, id2 - first)
                            && !foreign(old(self).int_at(vcpu.id as int, id2), vcpu) ==> bit_shown(
                            #[trigger] vstate(final(env), final(self).int_at(vcpu.id as int, id2)),
                            old(self).int_at(vcpu.id as int, id2),
                            true,
                            set,
                        )
                    &&& forall|id2: int|
                        0 <= id2 < GIC_INTS_MAX && !(first <= id2 < first + 8 * emu_ctx.width && bit_of(gpr, id2 - first))
                            ==> #[trigger] vstate(final(env), final(self).int_at(vcpu.id as int, id2)) == vstate(
                            old(env),
                            old(self).int_at(vcpu.id as int, id2),
                        )
                } else {
                    &&& final(self).unchanged(old(self), final(env), old(env))
                    &&& r is Some
                    &&& forall|i: int| 0 <= i < 32 ==> bit_of(r->0, i) == (vstate(old(env), old(self).int_at(vcpu.id as int, first + i)) % 2 == 1)
                    &&& forall|i: int| 32 <= i < 64 ==> !bit_of(r->0, i)
                }
            }),
    {
        let base: usize = if set { 0x200 } else { 0x280 };
        let first_int = emu_first_int(emu_ctx, base, 1);
        if emu_ctx.write {
            let ints = bit_register_write_ints(first_int, gpr, emu_ctx.width);
            self.set_state_all(env, vcpu, &ints, true, set);
            proof {
                lemma_write_ints_prefix(ints@, first_int as int, gpr, 8 * emu_ctx.width as int);
            }
            None
        } else {
            let flags = self.state_flags(env, vcpu, first_int, 32, true);
            Some(bit_register_read(&flags))
        }
    }

    /// An access to a set- (`set`) or clear-active register: a write sets
    /// (clears) the active state of every interrupt whose bit is set, as
    /// `set_active` does; a read gives the active bits, as the guest sees
    /// them. Ignored (nothing read) when the register covers interrupts from
    /// 16 up of which the VM has none.
    #[verifier::rlimit(30)]
    pub fn emu_activer_access(
        &mut self,
        env: &mut VgicEnv,
        vcpu: VcpuRef,
        emu_ctx: &EmuContext,
        gpr: u64,
        vm_irqs: &Vec<bool>,
        set: bool,
    ) -> (r: Option<u64>)
        requires
            old(self).sound_for(old(env), vcpu),
            emu_ctx.width <= 8,
            gicd_offset(emu_ctx.address) >= if set { 0x300nat } else { 0x380nat },
            (gicd_offset(emu_ctx.address) - if set { 0x300int } else { 0x380int }) * 8 + 8 * emu_ctx.width <= GIC_INTS_MAX,
        ensures
            final(self).sound_for(final(env), vcpu),
            final(self).same_shape(old(self)),
            final(self).same_routing(old(self)),
            same_env_meta(final(env), old(env)),
            ({
                let first = (gicd_offset(emu_ctx.address) - if set { 0x300int } else { 0x380int }) * 8;
                let n = 8 * emu_ctx.width as int;
                if first >= 16 && !vm_has_any(vm_irqs@, first, n) {
                    r is None && final(self).unchanged(old(self), final(env), old(env))
                } else if emu_ctx.write {
                    &&& r is None
                    &&& final(self).configured(old(self), vcpu, |id2: int| false, |id2: int, o: VgicInt| o)
                    &&& forall|id2: int|
                        0 <= id2 < GIC_INTS_MAX && first <= id2 < first + 8 * emu_ctx.width && bit_of(gpr, id2 - first)
                            && !foreign(old(self).int_at(vcpu.id as int, id2), vcpu) ==> bit_shown(
                            #[trigger] vstate(final(env), final(self).int_at(vcpu.id as int, id2)),
                            old(self).int_at(vcpu.id as int, id2),
                            false,
                            set,
                        )
                    &&& forall|id2: int|
                        0 <= id2 < GIC_INTS_MAX && !(first <= id2 < first + 8 * emu_ctx.width && bit_of(gpr, id2 - first))
                            ==> #[trigger] vstate(final(env), final(self).int_at(vcpu.id as int, id2)) == vstate(
                            old(env),
                            old(self).int_at(vcpu.id as int, id2),
                        )
                } else {
                    &&& final(self).unchanged(old(self), final(env), old(env))
                    &&& r is Some
                    &&& forall|i: int| 0 <= i < n ==> bit_of(r->0, i) == (vstate(old(env), old(self).int_at(vcpu.id as int, first + i)) >= 2)
                    &&& forall|i: int| n <= i < 64 ==> !bit_of(r->0, i)
                }
            }),
    {
        let base: usize = if set { 0x300 } else { 0x380 };
        let first_int = emu_first_int(emu_ctx, base, 1);
        let n = emu_ctx.width * 8;
        if first_int >= 16 && !vm_has_interrupt_in(vm_irqs, first_int, n) {
            return None;
        }
        if emu_ctx.write {
            let ints = bit_register_write_ints(first_int, gpr, emu_ctx.width);
            self.set_state_all(env, vcpu, &ints, false, set);
            proof {
                lemma_write_ints_prefix(ints@, first_int as int, gpr, 8 * emu_ctx.width as int);
            }
            None
        } else {
            let flags = self.state_flags(env, vcpu, first_int, n, false);
            Some(bit_register_read(&flags))
        }
    }

    /// The configuration fields of interrupts `first` to `first + n - 1`.
    fn cfg_fields(&self, vcpu: VcpuRef, first: usize, n: usize, prio: bool) -> (r: Vec<u64>)
        requires
            self.wf(),
            self.is_vcpu(vcpu),
            first + n <= GIC_INTS_MAX,
        ensures
            r@.len() == n,
            forall|i: int|
                0 <= i < n ==> #[trigger] r@[i] == if prio {
                    self.int_at(vcpu.id as int, first + i).prio as u64
                } else {
                    self.int_at(vcpu.id as int, first + i).cfg as u64
                },
            forall|i: int| 0 <= i < n ==> #[trigger] r@[i] < if prio { 256u64 } else { 4u64 },
    {
        let mut out: Vec<u64> = Vec::new();
        let mut i: usize = 0;
        while i < n
            invariant
                i <= n,
                first + n <= GIC_INTS_MAX,
                self.wf(),
                self.is_vcpu(vcpu),
                out@.len() == i,
                forall|j: int|
                    0 <= j < i ==> #[trigger] out@[j] == if prio {
                        self.int_at(vcpu.id as int, first + j).prio as u64
                    } else {
                        self.int_at(vcpu.id as int, first + j).cfg as u64
                    },
                forall|j: int| 0 <= j < i ==> #[trigger] out@[j] < if prio { 256u64 } else { 4u64 },
            decreases n - i,
        {
            proof {
                assert(self.int_ok(vcpu.id as int, (first + i) as int));
            }
            let v = if prio { self.get_prio(vcpu, first + i) as u64 } else { self.get_icfgr(vcpu, first + i) as u64 };
            out.push(v);
            i = i + 1;
        }
        out
    }

    /// An access to a configuration (`prio` false, 2 bits per interrupt) or
    /// priority (8 bits) register: a write sets each field as `set_icfgr`
    /// or `set_prio` does; a read gives the fields. A write is ignored when
    /// the register covers interrupts from 16 up of which the VM has none
    /// (checked over `8 * width` interrupts for configuration registers and
    /// `width` for priority registers).
    #[verifier::rlimit(30)]
    pub fn emu_field_access(
        &mut self,
        env: &mut VgicEnv,
        vcpu: VcpuRef,
        emu_ctx: &EmuContext,
        gpr: u64,
        vm_irqs: &Vec<bool>,
        prio: bool,
    ) -> (r: Option<u64>)
        requires
            old(self).sound_for(old(env), vcpu),
            emu_ctx.width <= 8,
            gicd_offset(emu_ctx.address) >= if prio { 0x400nat } else { 0xc00nat },
            ((gicd_offset(emu_ctx.address) - if prio { 0x400int } else { 0xc00int }) * 8) / (if prio { 8int } else { 2int })
                + (8 * emu_ctx.width) / (if prio { 8int } else { 2int }) <= GIC_INTS_MAX,
        ensures
            final(self).sound_for(final(env), vcpu),
            final(self).same_shape(old(self)),
            final(self).same_routing(old(self)),
            same_env_meta(final(env), old(env)),
            ({
                let b: u64 = if prio { 8 } else { 2 };
                let first = ((gicd_offset(emu_ctx.address) - if prio { 0x400int } else { 0xc00int }) * 8) / (b as int);
                let n = (8 * emu_ctx.width) / (b as int);
                let n_checked = if prio { emu_ctx.width as int } else { 8 * emu_ctx.width as int };
                if emu_ctx.write && first >= 16 && !vm_has_any(vm_irqs@, first, n_checked) {
                    r is None && final(self).unchanged(old(self), final(env), old(env))
                } else if emu_ctx.write {
                    &&& r is None
                    &&& final(self).configured(
                        old(self),
                        vcpu,
                        |id2: int| first <= id2 < first + n,
                        |id2: int, o: VgicInt| field_config(first, gpr, b, id2, o),
                    )
                    &&& final(self).states_shown_kept(old(self), final(env), old(env), vcpu.id as int)
                } else {
                    &&& final(self).unchanged(old(self), final(env), old(env))
                    &&& r is Some
                    &&& forall|k: int| 0 <= k < n ==> field_of(r->0, k, b) == if prio {
                        old(self).int_at(vcpu.id as int, first + k).prio as u64
                    } else {
                        old(self).int_at(vcpu.id as int, first + k).cfg as u64
                    }
                }
            }),
    {
        let base: usize = if prio { 0x400 } else { 0xc00 };
        let b: u64 = if prio { 8 } else { 2 };
        let first_int = emu_first_int(emu_ctx, base, b as usize);
        let n = (emu_ctx.width * 8) / (b as usize);
        if emu_ctx.write {
            let checked_n: usize = if prio { emu_ctx.width } else { emu_ctx.width * 8 };
            if first_int >= 16 && !vm_has_interrupt_in(vm_irqs, first_int, checked_n) {
                return None;
            }
            self.set_fields(env, vcpu, first_int, gpr, emu_ctx.width, b);
            None
        } else {
            let fields = self.cfg_fields(vcpu, first_int, n, prio);
            proof {
                assert(fields@.len() * b <= 64) by (nonlinear_arith)
                    requires
                        fields@.len() == (8 * emu_ctx.width) / (b as int),
                        emu_ctx.width <= 8,
                        b == 2 || b == 8,
                ;
                assert forall|k: int| 0 <= k < fields@.len() implies #[trigger] fields@[k] < (1u64 << b) by {
                    lemma_shift_bound(b);
                }
            }
            Some(field_register_read(&fields, b))
        }
    }
}

proof fn lemma_shift_bound(b: u64)
    requires
        b == 2 || b == 8,
    ensures
        b == 2 ==> (1u64 << b) == 4,
        b == 8 ==> (1u64 << b) == 256,
{
    lemma_irm_kept(0);
}


pub const GICD_CTLR_ARE_NS_BIT: u32 = 0x10;

impl Vgic {
    /// An access to a routing register: a write sets the route of its shared
    /// interrupt as `vgicd_set_irouter` does; a read gives the route of a
    /// shared interrupt, 0 for a private one.
    pub fn emu_irouter_access(
        &mut self,
        env: &mut VgicEnv,
        vcpu: VcpuRef,
        emu_ctx: &EmuContext,
        gpr: u64,
        vcpu_mpidr: u64,
        target_mpidr: Option<u64>,
    ) -> (r: Option<u64>)
        requires
            old(self).sound_for(old(env), vcpu),
            0x6000 <= gicd_offset(emu_ctx.address) < 0x8000,
            emu_ctx.write ==> gicd_offset(emu_ctx.address) >= 0x6100,
            target_mpidr is Some ==> ((target_mpidr->0 & MPIDR_AFF_MSK) >> old(env).route_shift) < 64,
        ensures
            final(self).sound_for(final(env), vcpu),
            final(self).same_shape(old(self)),
            same_env_meta(final(env), old(env)),
            ({
                let first = (gicd_offset(emu_ctx.address) - 0x6000) / 8;
                let x = old(self).int_at(vcpu.id as int, first);
                if emu_ctx.write {
                    &&& r is None
                    &&& final(self).same_routing_except(old(self), first)
                    &&& (!foreign(x, vcpu) ==> same_config(
                        final(self).int_at(vcpu.id as int, first),
                        VgicInt {
                            route: gpr & GICD_IROUTER_RES0_MSK,
                            phys: VgicIntPhys::Route(phys_route_for(gpr, vcpu_mpidr, target_mpidr)),
                            ..x
                        },
                    ))
                    &&& (foreign(x, vcpu) ==> {
                        &&& final(self).same_ints(old(self))
                        &&& final(env).lrs@ == old(env).lrs@
                        &&& final(env).actions@ == old(env).actions@.push(forward(x, vcpu, InitcEvent::VgicdRoute, gpr as u8))
                    })
                } else {
                    &&& final(self).unchanged(old(self), final(env), old(env))
                    &&& r == Some(if first < GIC_PRIVINT_NUM { 0 } else { x.route })
                }
            }),
    {
        let first_int = emu_irouter_first_int(emu_ctx);
        if emu_ctx.write {
            self.vgicd_set_irouter(env, vcpu, first_int, gpr, vcpu_mpidr, target_mpidr);
            None
        } else {
            let val = if first_int >= GIC_PRIVINT_NUM { self.cpu_or_spi(vcpu, first_int).route } else { 0 };
            Some(val)
        }
    }

    /// An access to the distributor control register. A write keeps the
    /// group 1 enable bit of the value, with affinity routing always on;
    /// when that changes the register, the list-register interface is turned
    /// on or off here and every other CPU of the VM is asked to do the same.
    /// A read gives the register merged with the physical one (`gicd_ctlr`).
    pub fn emu_ctrl_access(
        &mut self,
        env: &mut VgicEnv,
        vcpu: VcpuRef,
        emu_ctx: &EmuContext,
        gpr: u64,
        gicd_ctlr: u32,
    ) -> (r: Option<u64>)
        requires
            old(env).wf(),
        ensures
            final(env).wf(),
            same_env_meta(final(env), old(env)),
            final(env).lrs@ == old(env).lrs@,
            final(self).vcpus@ == old(self).vcpus@,
            final(self).cpu_priv@ == old(self).cpu_priv@,
            final(self).vgicd.interrupts@ == old(self).vgicd.interrupts@,
            final(self).vgicd.typer == old(self).vgicd.typer,
            final(self).vgicd.iidr == old(self).vgicd.iidr,
            emu_ctx.write ==> ({
                let ctlr = ((gpr as u32) & 0x2) | GICD_CTLR_ARE_NS_BIT;
                let changed = ctlr != old(self).vgicd.ctlr;
                &&& r is None
                &&& final(self).vgicd.ctlr == ctlr
                &&& final(env).hcr == if changed { old(env).hcr | GICH_HCR_EN_BIT } else { old(env).hcr }
                &&& final(env).actions@ == if changed {
                    old(env).actions@.push(VgicAction::BroadcastIpi {
                        msg: IpiInitcMessage { event: InitcEvent::VgicdGichEn, vm_id: vcpu.vm_id, int_id: 0, val: 1 },
                    })
                } else {
                    old(env).actions@
                }
            }),
            !emu_ctx.write ==> ({
                &&& r == Some((old(self).vgicd.ctlr | gicd_ctlr) as u64)
                &&& final(self).vgicd.ctlr == old(self).vgicd.ctlr
                &&& final(env).hcr == old(env).hcr
                &&& final(env).actions@ == old(env).actions@
            }),
    {
        if emu_ctx.write {
            let prev = self.vgicd.ctlr;
            let ctlr = ((gpr as u32) & 0x2) | GICD_CTLR_ARE_NS_BIT;
            self.vgicd.ctlr = ctlr;
            if prev != ctlr {
                let enable = ctlr != 0;
                if enable {
                    env.hcr = env.hcr | GICH_HCR_EN_BIT;
                } else {
                    env.hcr = env.hcr & !GICH_HCR_EN_BIT;
                }
                proof {
                    assert(ctlr != 0) by (bit_vector)
                        requires
                            ctlr == ((gpr as u32) & 0x2) | 0x10u32,
                    ;
                }
                env.push_action(VgicAction::BroadcastIpi {
                    msg: IpiInitcMessage {
                        event: InitcEvent::VgicdGichEn,
                        vm_id: vcpu.vm_id,
                        int_id: 0,
                        val: if enable { 1 } else { 0 },
                    },
                });
            }
            None
        } else {
            Some((self.vgicd.ctlr | gicd_ctlr) as u64)
        }
    }

    /// A read of the distributor type register gives it; a write is refused.
    pub fn emu_typer_access(&self, emu_ctx: &EmuContext) -> (r: Option<u64>)
        ensures
            r == if emu_ctx.write { None } else { Some(self.vgicd.typer as u64) },
    {
        if !emu_ctx.write {
            Some(self.vgicd.typer as u64)
        } else {
            None
        }
    }

    /// A read of the distributor implementer register gives it; a write is refused.
    pub fn emu_iidr_access(&self, emu_ctx: &EmuContext) -> (r: Option<u64>)
        ensures
            r == if emu_ctx.write { None } else { Some(self.vgicd.iidr as u64) },
    {
        if !emu_ctx.write {
            Some(self.vgicd.iidr as u64)
        } else {
            None
        }
    }

    /// A register that reads as zero and ignores writes.
    pub fn emu_razwi(&self, emu_ctx: &EmuContext) -> (r: Option<u64>)
        ensures
            r == if emu_ctx.write { None } else { Some(0u64) },
    {
        if !emu_ctx.write {
            Some(0)
        } else {
            None
        }
    }

    /// A read of the type register of redistributor `vgicr_id` gives it; a write is ignored.
    pub fn vgicr_emul_typer_access(&self, emu_ctx: &EmuContext, vgicr_id: usize) -> (r: Option<u64>)
        requires
            vgicr_id < self.cpu_priv@.len(),
        ensures
            r == if emu_ctx.write { None } else { Some(self.cpu_priv@[vgicr_id as int].vigcr.typer) },
    {
        if !emu_ctx.write {
            Some(self.cpu_priv[vgicr_id].vigcr.typer)
        } else {
            None
        }
    }

    /// The distributor control register.
    pub fn vgicd_ctlr(&self) -> (r: u32)
        ensures
            r == self.vgicd.ctlr,
    {
        self.vgicd.ctlr
    }

    /// The distributor type register.
    pub fn vgicd_typer(&self) -> (r: u32)
        ensures
            r == self.vgicd.typer,
    {
        self.vgicd.typer
    }

    /// The distributor implementer register.
    pub fn vgicd_iidr(&self) -> (r: u32)
        ensures
            r == self.vgicd.iidr,
    {
        self.vgicd.iidr
    }
}

impl Vgicr {
    /// The redistributor type register.
    pub fn get_typer(&self) -> (r: u64)
        ensures
            r == self.typer,
    {
        self.typer
    }

    /// Sets the redistributor type register.
    pub fn set_typer(&mut self, typer: usize)
        ensures
            final(self).typer == typer as u64,
            final(self).cltr == old(self).cltr,
            final(self).iidr == old(self).iidr,
    {
        self.typer = typer as u64;
    }
}


/// The order in which spilled interrupts return: by priority, then by id.
pub open spec fn spill_key(x: VgicInt) -> int {
    x.prio as int * 1024 + x.id as int
}

impl Vgic {
    /// The interrupts `vcpu` keeps outside the list registers: the pending
    /// ones, then, unless only pending ones are asked for, the active ones.
    pub open spec fn spilled(&self, c: int, pending_only: bool) -> Seq<u16> {
        if pending_only {
            self.cpu_priv@[c].pend_list@
        } else {
            self.cpu_priv@[c].pend_list@ + self.cpu_priv@[c].act_list@
        }
    }

    /// Whether `v` is the first entry of `s` whose interrupt comes first in
    /// the return order.
    pub open spec fn first_most_urgent(&self, c: int, s: Seq<u16>, v: u16) -> bool {
        exists|k: int|
            0 <= k < s.len() && s[k] == v && (forall|j: int|
                0 <= j < s.len() ==> spill_key(#[trigger] self.int_at(c, s[j] as int)) >= spill_key(self.int_at(c, v as int)))
                && (forall|j: int|
                0 <= j < k ==> spill_key(#[trigger] self.int_at(c, s[j] as int)) > spill_key(self.int_at(c, v as int)))
    }

    /// The spilled interrupt of `vcpu` to return first (the pending ones
    /// only when `pending_only`), if any.
    pub fn vgic_highest_proi_spilled(&self, vcpu: VcpuRef, pending_only: bool) -> (r: Option<u16>)
        requires
            self.wf(),
            self.is_vcpu(vcpu),
        ensures
            r is None <==> self.spilled(vcpu.id as int, pending_only).len() == 0,
            r is Some ==> self.first_most_urgent(vcpu.id as int, self.spilled(vcpu.id as int, pending_only), r->0),
    {
        let c = vcpu.id;
        let ghost s = self.spilled(c as int, pending_only);
        let ghost pl = self.cpu_priv@[c as int].pend_list@;
        let mut best: Option<u16> = None;
        let mut best_key: u32 = 0;
        let mut i: usize = 0;
        let mut from_act = false;
        let mut j: usize = 0;
        loop
            invariant
                s == self.spilled(c as int, pending_only),
                pl == self.cpu_priv@[c as int].pend_list@,
                self.wf(),
                self.is_vcpu(vcpu),
                c == vcpu.id,
                !from_act ==> i <= pl.len() && j == 0,
                from_act ==> i == pl.len() && !pending_only && j <= self.cpu_priv@[c as int].act_list@.len(),
                best is None <==> i + j == 0,
                best is Some ==> {
                    &&& best_key == spill_key(self.int_at(c as int, best->0 as int))
                    &&& exists|k: int|
                        0 <= k < i + j && s[k] == best->0 && (forall|m: int|
                            0 <= m < i + j ==> spill_key(#[trigger] self.int_at(c as int, s[m] as int)) >= best_key) && (forall|m: int|
                            0 <= m < k ==> spill_key(#[trigger] self.int_at(c as int, s[m] as int)) > best_key)
                },
            ensures
                i + j == s.len(),
                best is None <==> i + j == 0,
                best is Some ==> {
                    &&& exists|k: int|
                        0 <= k < i + j && s[k] == best->0 && (forall|m: int|
                            0 <= m < i + j ==> spill_key(#[trigger] self.int_at(c as int, s[m] as int)) >= spill_key(self.int_at(c as int, best->0 as int))) && (forall|m: int|
                            0 <= m < k ==> spill_key(#[trigger] self.int_at(c as int, s[m] as int)) > spill_key(self.int_at(c as int, best->0 as int)))
                },
            decreases (if from_act { 0int } else { 1int }), (if from_act { self.cpu_priv@[c as int].act_list@.len() - j } else { pl.len() - i }),
        {
            let v: u16;
            if !from_act {
                if i < self.cpu_priv[c].pend_list.len() {
                    v = self.cpu_priv[c].pend_list[i];
                    proof {
                        assert(v == s[(i + j) as int]);
                    }
                } else if pending_only {
                    break;
                } else {
                    from_act = true;
                    continue;
                }
            } else {
                if j < self.cpu_priv[c].act_list.len() {
                    v = self.cpu_priv[c].act_list[j];
                    proof {
                        assert(v == s[(i + j) as int]);
                    }
                } else {
                    break;
                }
            }
            proof {
                assert(self.int_ok(c as int, v as int));
            }
            let x = self.cpu_or_spi(vcpu, v as usize);
            let key = (x.prio as u32) * 1024 + v as u32;
            if best.is_none() || key < best_key {
                best = Some(v);
                best_key = key;
            }
            if !from_act {
                i = i + 1;
            } else {
                j = j + 1;
            }
        }
        best
    }

    /// Whether the interrupts `vcpu` keeps outside the list registers are
    /// as the hypervisor keeps them: each on the pending (active) list is
    /// marked as such, is in no list register, and is owned by no other
    /// vCPU; and no list holds an interrupt twice.
    pub open spec fn lists_ready(&self, vcpu: VcpuRef) -> bool {
        let c = vcpu.id as int;
        let pl = self.cpu_priv@[c].pend_list@;
        let al = self.cpu_priv@[c].act_list@;
        &&& forall|k: int|
            0 <= k < pl.len() ==> {
                let x = #[trigger] self.int_at(c, pl[k] as int);
                x.in_pend && !x.in_lr && !foreign(x, vcpu)
            }
        &&& forall|k: int|
            0 <= k < al.len() ==> {
                let x = #[trigger] self.int_at(c, al[k] as int);
                x.in_act && !x.in_lr && !foreign(x, vcpu)
            }
        &&& forall|k1: int, k2: int| 0 <= k1 < k2 < pl.len() ==> pl[k1] != pl[k2]
        &&& forall|k1: int, k2: int| 0 <= k1 < k2 < al.len() ==> al[k1] != al[k2]
    }
}

/// The first free list register below `n`, if any.
pub fn first_empty_lr(env: &VgicEnv) -> (r: Option<usize>)
    requires
        env.wf(),
    ensures
        r is None <==> !some_lr_empty(env.lrs@, env.gic_lrs as int),
        r is Some ==> r->0 < env.gic_lrs && lr_empty(env.lrs@[r->0 as int]) && forall|j: int|
            0 <= j < r->0 ==> !#[trigger] lr_empty(env.lrs@[j]),
{
    let mut i: usize = 0;
    while i < env.gic_lrs
        invariant
            i <= env.gic_lrs,
            env.wf(),
            forall|j: int| 0 <= j < i ==> !#[trigger] lr_empty(env.lrs@[j]),
        decreases env.gic_lrs - i,
    {
        let lr = env.lrs[i];
        if (lr & GICH_LR_STATE_MSK) >> 62u64 == 0 && (lr & GICH_LR_HW_BIT != 0 || lr & GICH_LR_EOI_BIT == 0) {
            assert(lr_empty(env.lrs@[i as int]));
            return Some(i);
        }
        i = i + 1;
    }
    None
}


/// What removing the first `v` leaves of a list without repeated entries.
proof fn lemma_removed_first(s: Seq<u16>, v: u16, r: Seq<u16>)
    requires
        removed_first(s, v, r),
        forall|k1: int, k2: int| 0 <= k1 < k2 < s.len() ==> s[k1] != s[k2],
    ensures
        forall|k: int| 0 <= k < r.len() ==> r[k] != v && s.contains(#[trigger] r[k]),
        forall|k1: int, k2: int| 0 <= k1 < k2 < r.len() ==> r[k1] != r[k2],
        s.contains(v) ==> r.len() == s.len() - 1,
{
    if s.contains(v) {
        let i = choose|i: int|
            0 <= i < s.len() && s[i] == v && (forall|j: int| 0 <= j < i ==> s[j] != v) && r == s.remove(i);
        assert forall|k: int| 0 <= k < r.len() implies r[k] != v && s.contains(#[trigger] r[k]) by {
            if k < i {
                assert(r[k] == s[k]);
            } else {
                assert(r[k] == s[k + 1]);
            }
        }
        assert forall|k1: int, k2: int| 0 <= k1 < k2 < r.len() implies r[k1] != r[k2] by {
            let a = if k1 < i { k1 } else { k1 + 1 };
            let b = if k2 < i { k2 } else { k2 + 1 };
            assert(r[k1] == s[a]);
            assert(r[k2] == s[b]);
        }
    } else {
        assert forall|k: int| 0 <= k < r.len() implies r[k] != v && s.contains(#[trigger] r[k]) by {
            assert(r[k] == s[k]);
        }
    }
}

impl Vgic {
    /// Fills the free list registers of this CPU with the spilled interrupts
    /// of `vcpu` (the pending ones only, the first time, when
    /// `pending_only`), most urgent first. When none is left to place, the
    /// maintenance interrupts for an empty or underflowing list are turned off.
    #[verifier::rlimit(30)]
    pub fn refill_lrs(&mut self, env: &mut VgicEnv, vcpu: VcpuRef, pending_only: bool)
        requires
            old(self).sound_for(old(env), vcpu),
            old(self).lists_ready(vcpu),
        ensures
            final(self).sound_for(final(env), vcpu),
            final(self).lists_ready(vcpu),
            final(self).same_shape(old(self)),
            final(self).same_routing(old(self)),
            same_env_meta(final(env), old(env)),
            final(env).actions@ == old(env).actions@,
            final(env).hcr == old(env).hcr || final(env).hcr == old(env).hcr & !(GICH_HCR_NPIE_BIT | GICH_HCR_UIE_BIT),
            some_lr_empty(final(env).lrs@, final(env).gic_lrs as int) ==> final(self).cpu_priv@[vcpu.id as int].pend_list@.len()
                == 0,
            final(self).states_shown_kept(old(self), final(env), old(env), vcpu.id as int),
    {
        let c = vcpu.id;
        let mut lr_idx_opt = first_empty_lr(env);
        let mut new_flags = pending_only;
        loop
            invariant_except_break
                env.hcr == old(env).hcr,
            invariant
                self.sound_for(env, vcpu),
                self.lists_ready(vcpu),
                self.same_shape(old(self)),
                self.same_routing(old(self)),
                same_env_meta(env, old(env)),
                old(self).wf(),
                old(self).is_vcpu(vcpu),
                c == vcpu.id,
                env.actions@ == old(env).actions@,
                lr_idx_opt is None <==> !some_lr_empty(env.lrs@, env.gic_lrs as int),
                lr_idx_opt is Some ==> lr_idx_opt->0 < env.gic_lrs && lr_empty(env.lrs@[lr_idx_opt->0 as int]),
                self.states_shown_kept(old(self), env, old(env), c as int),
                forall|id2: int| 0 <= id2 < GIC_INTS_MAX ==> #[trigger] self.int_at(c as int, id2).hw == old(self).int_at(c as int, id2).hw,
            ensures
                self.sound_for(env, vcpu),
                self.lists_ready(vcpu),
                self.same_shape(old(self)),
                self.same_routing(old(self)),
                same_env_meta(env, old(env)),
                env.actions@ == old(env).actions@,
                env.hcr == old(env).hcr || env.hcr == old(env).hcr & !(GICH_HCR_NPIE_BIT | GICH_HCR_UIE_BIT),
                some_lr_empty(env.lrs@, env.gic_lrs as int) ==> self.cpu_priv@[c as int].pend_list@.len() == 0,
                self.states_shown_kept(old(self), env, old(env), c as int),
            decreases self.cpu_priv@[c as int].pend_list@.len() + self.cpu_priv@[c as int].act_list@.len(),
        {
            let lr_idx = match lr_idx_opt {
                Some(i) => i,
                None => {
                    break;
                },
            };
            match self.vgic_highest_proi_spilled(vcpu, new_flags) {
                Some(v) => {
                    let ghost s0 = *self;
                    let ghost pl0 = self.cpu_priv@[c as int].pend_list@;
                    let ghost al0 = self.cpu_priv@[c as int].act_list@;
                    let ghost sp = self.spilled(c as int, new_flags);
                    proof {
                        let k = choose|k: int|
                            0 <= k < sp.len() && sp[k] == v && (forall|j: int|
                                0 <= j < sp.len() ==> spill_key(#[trigger] self.int_at(c as int, sp[j] as int)) >= spill_key(self.int_at(c as int, v as int)))
                                && (forall|j: int|
                                0 <= j < k ==> spill_key(#[trigger] self.int_at(c as int, sp[j] as int)) > spill_key(self.int_at(c as int, v as int)));
                        if k < pl0.len() {
                            assert(pl0[k] == v);
                            assert(pl0.contains(v));
                        } else {
                            assert(al0[k - pl0.len()] == v);
                            assert(al0.contains(v));
                        }
                        assert(v < GIC_INTS_MAX);
                    }
                    let got = self.vgic_int_get_owner(vcpu, v as usize);
                    let ghost s1 = *self;
                    if !got {
                        proof {
                            assert(pl0.contains(v) || al0.contains(v));
                            if pl0.contains(v) {
                                let k = choose|k: int| 0 <= k < pl0.len() && pl0[k] == v;
                                assert(s0.int_at(c as int, pl0[k] as int) == s0.int_at(c as int, v as int));
                            } else {
                                let k = choose|k: int| 0 <= k < al0.len() && al0[k] == v;
                                assert(s0.int_at(c as int, al0[k] as int) == s0.int_at(c as int, v as int));
                            }
                            assert(false);
                        }
                        continue;
                    }
                    proof {
                        self.lemma_ready_after_owner(&s0, vcpu, v as int);
                    }
                    let ghost e1 = *env;
                    proof {
                        lemma_lr_state_bound(env.lrs@[lr_idx as int]);
                        assert(s0.int_ok(c as int, v as int));
                    }
                    self.write_lr(env, vcpu, v as usize, lr_idx);
                    proof {
                        self.lemma_ready_after_write(&s1, vcpu, v as int, lr_idx as int);
                        assert(slot_clear_for(e1.lrs@[lr_idx as int], v as int));
                        self.lemma_vstates_slot(&s1, env, &e1, c as int, v as int, lr_idx as int);
                        assert forall|id2: int| 0 <= id2 < GIC_INTS_MAX implies #[trigger] state_kept(
                            old(env),
                            old(self).int_at(c as int, id2),
                            env,
                            self.int_at(c as int, id2),
                        ) by {
                            let o = old(self).int_at(c as int, id2);
                            let p = s0.int_at(c as int, id2);
                            let q = s1.int_at(c as int, id2);
                            let n = self.int_at(c as int, id2);
                            assert(state_kept(old(env), o, &e1, p));
                            assert(s0.same_routing(old(self)));
                            if id2 == v as int {
                                assert(vstate(&e1, q) == vstate(&e1, p));
                                assert(state_kept(&e1, p, env, n));
                                assert(p.id == o.id) by {
                                    assert(old(self).int_ok(c as int, id2));
                                    assert(s0.int_ok(c as int, id2));
                                }
                                lemma_state_kept_trans(old(env), o, &e1, p, env, n);
                            } else {
                                assert(vstate(env, n) == vstate(&e1, q));
                                assert(q == p);
                            }
                        }
                        assert forall|id2: int| 0 <= id2 < GIC_INTS_MAX implies #[trigger] self.int_at(c as int, id2).hw
                            == old(self).int_at(c as int, id2).hw by {
                            assert(s0.int_at(c as int, id2).hw == old(self).int_at(c as int, id2).hw);
                            assert(s1.int_at(c as int, id2).hw == s0.int_at(c as int, id2).hw);
                        }
                    }
                },
                None => {
                    let ghost e2 = *env;
                    env.hcr = env.hcr & !(GICH_HCR_NPIE_BIT | GICH_HCR_UIE_BIT);
                    proof {
                        self.lemma_vstates_same_lrs(self, env, &e2, c as int, -1);
                        self.lemma_shown_kept_step(self, old(self), env, &e2, old(env), c as int);
                    }
                    break;
                },
            }
            new_flags = false;
            lr_idx_opt = first_empty_lr(env);
        }
    }

    /// Taking ownership of a spilled interrupt keeps the lists ready.
    proof fn lemma_ready_after_owner(&self, old: &Vgic, vcpu: VcpuRef, v: int)
        requires
            old.wf(),
            self.wf(),
            old.is_vcpu(vcpu),
            old.lists_ready(vcpu),
            0 <= v < GIC_INTS_MAX,
            self.same_but_ints(old),
            self.int_at(vcpu.id as int, v).owner == Some(vcpu),
            forall|id2: int|
                0 <= id2 < GIC_INTS_MAX && id2 != v ==> #[trigger] self.int_at(vcpu.id as int, id2) == old.int_at(
                    vcpu.id as int,
                    id2,
                ),
            self.int_at(vcpu.id as int, v) == (VgicInt { owner: Some(vcpu), ..old.int_at(vcpu.id as int, v) }),
        ensures
            self.lists_ready(vcpu),
    {
        let c = vcpu.id as int;
        assert(self.cpu_priv@[c].pend_list@ == old.cpu_priv@[c].pend_list@);
        assert(self.cpu_priv@[c].act_list@ == old.cpu_priv@[c].act_list@);
    }

    /// Writing spilled interrupt `v`, from a ready list, into a list register
    /// keeps the lists ready and takes `v` off them.
    proof fn lemma_ready_after_write(&self, old: &Vgic, vcpu: VcpuRef, v: int, lr_ind: int)
        requires
            old.wf(),
            self.wf(),
            old.is_vcpu(vcpu),
            old.lists_ready(vcpu),
            0 <= v < GIC_INTS_MAX,
            old.cpu_priv@[vcpu.id as int].pend_list@.contains(v as u16) || old.cpu_priv@[vcpu.id as int].act_list@.contains(
                v as u16,
            ),
            self.same_shape(old),
            self.lists_of_only(old, vcpu.id as int),
            ({
                let c = vcpu.id as int;
                let x = old.int_at(c, v);
                let p = old.cpu_priv@[c].curr_lrs@[lr_ind] as int;
                let pi = old.int_at(c, p);
                let evict = p != v && p >= GIC_PRIVINT_NUM && p < GIC_INTS_MAX && owns(vcpu, pi) && pi.in_lr && pi.lr
                    == lr_ind;
                &&& forall|id2: int|
                    0 <= id2 < GIC_INTS_MAX && id2 != v && !(evict && id2 == p) ==> #[trigger] self.int_at(c, id2)
                        == old.int_at(c, id2)
                &&& evict ==> !self.int_at(c, p).in_lr
                &&& self.int_at(c, v).in_lr
                &&& !self.int_at(c, v).in_pend
                &&& !self.int_at(c, v).in_act
                &&& list_after(old.cpu_priv@[c].pend_list@, v as u16, false, x.in_pend, self.cpu_priv@[c].pend_list@)
                &&& list_after(old.cpu_priv@[c].act_list@, v as u16, false, x.in_act, self.cpu_priv@[c].act_list@)
                &&& 0 <= lr_ind < GIC_LIST_REGS_NUM
            }),
        ensures
            self.lists_ready(vcpu),
            self.cpu_priv@[vcpu.id as int].pend_list@.len() + self.cpu_priv@[vcpu.id as int].act_list@.len()
                < old.cpu_priv@[vcpu.id as int].pend_list@.len() + old.cpu_priv@[vcpu.id as int].act_list@.len(),
    {
        let c = vcpu.id as int;
        let pl0 = old.cpu_priv@[c].pend_list@;
        let al0 = old.cpu_priv@[c].act_list@;
        let pl1 = self.cpu_priv@[c].pend_list@;
        let al1 = self.cpu_priv@[c].act_list@;
        let x = old.int_at(c, v);
        let p = old.cpu_priv@[c].curr_lrs@[lr_ind] as int;
        let pi = old.int_at(c, p);
        let evict = p != v && p >= GIC_PRIVINT_NUM && p < GIC_INTS_MAX && owns(vcpu, pi) && pi.in_lr && pi.lr == lr_ind;
        if pl0.contains(v as u16) {
            let k = choose|k: int| 0 <= k < pl0.len() && pl0[k] == v as u16;
            assert(old.int_at(c, pl0[k] as int).in_pend);
        }
        if al0.contains(v as u16) {
            let k = choose|k: int| 0 <= k < al0.len() && al0[k] == v as u16;
            assert(old.int_at(c, al0[k] as int).in_act);
        }
        if x.in_pend {
            lemma_removed_first(pl0, v as u16, pl1);
        } else {
            assert(pl1 == pl0);
        }
        if x.in_act {
            lemma_removed_first(al0, v as u16, al1);
        } else {
            assert(al1 == al0);
        }
        assert forall|k: int| 0 <= k < pl1.len() implies {
            let y = #[trigger] self.int_at(c, pl1[k] as int);
            y.in_pend && !y.in_lr && !foreign(y, vcpu)
        } by {
            assert(pl0.contains(pl1[k]));
            let k0 = choose|k0: int| 0 <= k0 < pl0.len() && pl0[k0] == pl1[k];
            assert(old.int_at(c, pl0[k0] as int).in_pend);
            if evict && pl1[k] as int == p {
                assert(false);
            }
        }
        assert forall|k: int| 0 <= k < al1.len() implies {
            let y = #[trigger] self.int_at(c, al1[k] as int);
            y.in_act && !y.in_lr && !foreign(y, vcpu)
        } by {
            assert(al0.contains(al1[k]));
            let k0 = choose|k0: int| 0 <= k0 < al0.len() && al0[k0] == al1[k];
            assert(old.int_at(c, al0[k0] as int).in_act);
            if evict && al1[k] as int == p {
                assert(false);
            }
        }
    }
}


/// Whether list register `i` (below `n`) holds an interrupt the guest ended
/// that the hypervisor asked to hear of, with id `id`.
pub open spec fn ended_in(lrs: Seq<u64>, lo: int, hi: int, id: int) -> bool {
    exists|i: int| lo <= i < hi && #[trigger] lr_eoi_done(lrs[i]) && lr_vid(lrs[i]) == id
}

/// The first list register below `env.gic_lrs` whose ended interrupt the
/// hypervisor asked to hear of, if any.
pub fn first_eoi_lr(env: &VgicEnv) -> (r: Option<usize>)
    requires
        env.wf(),
    ensures
        r is None ==> forall|j: int| 0 <= j < env.gic_lrs ==> !#[trigger] lr_eoi_done(env.lrs@[j]),
        r is Some ==> r->0 < env.gic_lrs && lr_eoi_done(env.lrs@[r->0 as int]) && forall|j: int|
            0 <= j < r->0 ==> !#[trigger] lr_eoi_done(env.lrs@[j]),
{
    let mut i: usize = 0;
    while i < env.gic_lrs
        invariant
            i <= env.gic_lrs,
            env.wf(),
            forall|j: int| 0 <= j < i ==> !#[trigger] lr_eoi_done(env.lrs@[j]),
        decreases env.gic_lrs - i,
    {
        let lr = env.lrs[i];
        if (lr & GICH_LR_STATE_MSK) >> 62u64 == 0 && lr & GICH_LR_HW_BIT == 0 && lr & GICH_LR_EOI_BIT != 0 {
            return Some(i);
        }
        i = i + 1;
    }
    None
}

impl Vgic {
    /// Takes out of the list registers of this CPU the shared interrupts the
    /// guest ended and the hypervisor asked to hear of: each register is
    /// cleared, and its interrupt leaves it and is yielded unless active.
    /// Such registers hold shared interrupts (the only ones written asking
    /// for it), and no interrupt the guest ended is presented again in
    /// another register.
    pub fn handle_trapped_eoir(&mut self, env: &mut VgicEnv, vcpu: VcpuRef)
        requires
            old(self).sound_for(old(env), vcpu),
            forall|i: int|
                0 <= i < old(env).gic_lrs && #[trigger] lr_eoi_done(old(env).lrs@[i]) ==> GIC_PRIVINT_NUM <= lr_vid(
                    old(env).lrs@[i],
                ) < GIC_INTS_MAX,
            forall|i: int, j: int|
                0 <= i < GICH_LR_SLOTS && 0 <= j < GICH_LR_SLOTS && #[trigger] lr_eoi_done(old(env).lrs@[i]) && lr_state(
                    #[trigger] old(env).lrs@[j],
                ) != 0 ==> lr_vid(old(env).lrs@[i]) != lr_vid(old(env).lrs@[j]),
        ensures
            final(self).sound_for(final(env), vcpu),
            final(self).same_shape(old(self)),
            final(self).same_routing(old(self)),
            final(self).same_lists(old(self)),
            final(self).same_curr_lrs(old(self)),
            same_env_meta(final(env), old(env)),
            final(env).hcr == old(env).hcr,
            final(env).actions@ == old(env).actions@,
            forall|i: int|
                0 <= i < GICH_LR_SLOTS ==> #[trigger] final(env).lrs@[i] == if i < old(env).gic_lrs && lr_eoi_done(
                    old(env).lrs@[i],
                ) {
                    0
                } else {
                    old(env).lrs@[i]
                },
            forall|id2: int|
                #![trigger final(self).int_at(vcpu.id as int, id2)]
                0 <= id2 < GIC_INTS_MAX ==> {
                    let o = old(self).int_at(vcpu.id as int, id2);
                    let n = final(self).int_at(vcpu.id as int, id2);
                    &&& same_config(n, o)
                    &&& if ended_in(old(env).lrs@, 0, old(env).gic_lrs as int, id2) {
                        !n.in_lr && n.state == o.state && (n.owner == o.owner || n.owner is None)
                    } else {
                        n == o
                    }
                },
    {
        let c = vcpu.id;
        let ghost lo: int = 0;
        let mut lr_idx_opt = first_eoi_lr(env);
        while lr_idx_opt.is_some()
            invariant
                self.sound_for(env, vcpu),
                self.same_shape(old(self)),
                self.same_routing(old(self)),
                self.same_lists(old(self)),
                self.same_curr_lrs(old(self)),
                same_env_meta(env, old(env)),
                old(self).wf(),
                old(self).is_vcpu(vcpu),
                c == vcpu.id,
                env.hcr == old(env).hcr,
                env.actions@ == old(env).actions@,
                0 <= lo <= env.gic_lrs,
                lr_idx_opt is None ==> forall|j: int| 0 <= j < env.gic_lrs ==> !#[trigger] lr_eoi_done(env.lrs@[j]),
                lr_idx_opt is Some ==> lo <= lr_idx_opt->0 < env.gic_lrs && lr_eoi_done(env.lrs@[lr_idx_opt->0 as int])
                    && forall|j: int| 0 <= j < lr_idx_opt->0 ==> !#[trigger] lr_eoi_done(env.lrs@[j]),
                forall|i: int|
                    0 <= i < GICH_LR_SLOTS ==> #[trigger] env.lrs@[i] == if i < lo && lr_eoi_done(old(env).lrs@[i]) {
                        0
                    } else {
                        old(env).lrs@[i]
                    },
                forall|i: int|
                    0 <= i < old(env).gic_lrs && #[trigger] lr_eoi_done(old(env).lrs@[i]) ==> GIC_PRIVINT_NUM <= lr_vid(
                        old(env).lrs@[i],
                    ) < GIC_INTS_MAX,
                forall|i: int, j: int|
                    0 <= i < GICH_LR_SLOTS && 0 <= j < GICH_LR_SLOTS && #[trigger] lr_eoi_done(old(env).lrs@[i])
                        && lr_state(#[trigger] old(env).lrs@[j]) != 0 ==> lr_vid(old(env).lrs@[i]) != lr_vid(old(env).lrs@[j]),
                forall|id2: int|
                    #![trigger self.int_at(c as int, id2)]
                    0 <= id2 < GIC_INTS_MAX ==> {
                        let o = old(self).int_at(c as int, id2);
                        let n = self.int_at(c as int, id2);
                        &&& same_config(n, o)
                        &&& if ended_in(old(env).lrs@, 0, lo, id2) {
                            !n.in_lr && n.state == o.state && (n.owner == o.owner || n.owner is None)
                        } else {
                            n == o
                        }
                    },
            decreases env.gic_lrs - lo,
        {
            let lr_idx = match lr_idx_opt {
                Some(i) => i,
                None => 0,
            };
            let lr_val = env.lrs[lr_idx];
            let ghost s0_env_lrs = env.lrs@;
            env.set_lr(lr_idx, 0);
            let v = (lr_val & GICH_LR_VID_MASK) as usize;
            proof {
                lemma_lr_state_bound(0);
                assert(lr_val == old(env).lrs@[lr_idx as int]);
                assert(lr_eoi_done(old(env).lrs@[lr_idx as int]));
            }
            let ghost s0 = *self;
            let x = self.cpu_or_spi(vcpu, v);
            proof {
                assert(self.int_ok(c as int, v as int));
            }
            self.set_int(c, VgicInt { in_lr: false, ..x });
            proof {
                assert forall|i: int|
                    0 <= i < GICH_LR_SLOTS && lr_state(#[trigger] env.lrs@[i]) != 0 && lr_vid(env.lrs@[i]) < GIC_INTS_MAX implies {
                        let y = self.int_at(c as int, lr_vid(env.lrs@[i]) as int);
                        y.in_lr && y.lr == i && y.owner == Some(vcpu)
                    } by {
                    if i != lr_idx {
                        assert(lr_state(old(env).lrs@[i]) != 0);
                        assert(lr_vid(old(env).lrs@[i]) != v);
                    }
                }
            }
            let ghost s1 = *self;
            self.vgic_int_yield_owner(env, vcpu, v);
            proof {
                assert forall|id2: int|
                    #![trigger self.int_at(c as int, id2)]
                    0 <= id2 < GIC_INTS_MAX implies {
                        let o = old(self).int_at(c as int, id2);
                        let n = self.int_at(c as int, id2);
                        &&& same_config(n, o)
                        &&& if ended_in(old(env).lrs@, 0, lr_idx + 1, id2) {
                            !n.in_lr && n.state == o.state && (n.owner == o.owner || n.owner is None)
                        } else {
                            n == o
                        }
                    } by {
                    assert(s0.int_at(c as int, id2) == s0.int_at(c as int, id2));
                    assert(s1.int_at(c as int, id2) == s1.int_at(c as int, id2));
                    if ended_in(old(env).lrs@, 0, lr_idx + 1, id2) && !ended_in(old(env).lrs@, 0, lo, id2) {
                        let i = choose|i: int| 0 <= i < lr_idx + 1 && #[trigger] lr_eoi_done(old(env).lrs@[i]) && lr_vid(old(env).lrs@[i]) == id2;
                        if i < lr_idx {
                            assert(lr_eoi_done(env.lrs@[i]) == lr_eoi_done(old(env).lrs@[i]) || i < lo);
                        }
                    }
                    if ended_in(old(env).lrs@, 0, lo, id2) {
                        let i = choose|i: int| 0 <= i < lo && #[trigger] lr_eoi_done(old(env).lrs@[i]) && lr_vid(old(env).lrs@[i]) == id2;
                        assert(ended_in(old(env).lrs@, 0, lr_idx + 1, id2));
                    }
                    if id2 == v {
                        assert(lr_eoi_done(old(env).lrs@[lr_idx as int]) && lr_vid(old(env).lrs@[lr_idx as int]) == id2);
                    }
                }
                lo = lr_idx + 1;
            }
            lr_idx_opt = first_eoi_lr(env);
            proof {
                assert(!lr_eoi_done(env.lrs@[lr_idx as int]));
                assert forall|j: int| 0 <= j < lr_idx implies !#[trigger] lr_eoi_done(env.lrs@[j]) by {
                    assert(env.lrs@[j] == s0_env_lrs[j]);
                }
            }
        }
        proof {
            assert forall|i: int|
                0 <= i < GICH_LR_SLOTS implies #[trigger] env.lrs@[i] == if i < old(env).gic_lrs && lr_eoi_done(old(env).lrs@[i]) {
                    0
                } else {
                    old(env).lrs@[i]
                } by {
                if lo <= i < old(env).gic_lrs && lr_eoi_done(old(env).lrs@[i]) {
                    assert(env.lrs@[i] == old(env).lrs@[i]);
                }
            }
            assert forall|id2: int|
                #![trigger self.int_at(c as int, id2)]
                0 <= id2 < GIC_INTS_MAX implies ended_in(old(env).lrs@, 0, lo, id2) == ended_in(old(env).lrs@, 0, old(env).gic_lrs as int, id2) by {
                if ended_in(old(env).lrs@, 0, old(env).gic_lrs as int, id2) {
                    let i = choose|i: int| 0 <= i < old(env).gic_lrs && #[trigger] lr_eoi_done(old(env).lrs@[i]) && lr_vid(old(env).lrs@[i]) == id2;
                    if i >= lo {
                        assert(env.lrs@[i] == old(env).lrs@[i]);
                    }
                }
            }
        }
    }
}


impl Vgic {
    /// The first entry of `s` whose interrupt (as `vcpu` sees it) comes
    /// first in the return order, if `s` has any.
    fn most_urgent(&self, vcpu: VcpuRef, s: &Vec<u16>) -> (r: Option<u16>)
        requires
            self.wf(),
            self.is_vcpu(vcpu),
            forall|k: int| 0 <= k < s@.len() ==> #[trigger] s@[k] < GIC_INTS_MAX,
        ensures
            r is None <==> s@.len() == 0,
            r is Some ==> self.first_most_urgent(vcpu.id as int, s@, r->0),
    {
        let c = vcpu.id;
        let mut best: Option<u16> = None;
        let mut best_key: u32 = 0;
        let mut i: usize = 0;
        while i < s.len()
            invariant
                i <= s@.len(),
                self.wf(),
                self.is_vcpu(vcpu),
                c == vcpu.id,
                forall|k: int| 0 <= k < s@.len() ==> #[trigger] s@[k] < GIC_INTS_MAX,
                best is None <==> i == 0,
                best is Some ==> {
                    &&& best_key == spill_key(self.int_at(c as int, best->0 as int))
                    &&& exists|k: int|
                        0 <= k < i && s@[k] == best->0 && (forall|m: int|
                            0 <= m < i ==> spill_key(#[trigger] self.int_at(c as int, s@[m] as int)) >= best_key) && (forall|m: int|
                            0 <= m < k ==> spill_key(#[trigger] self.int_at(c as int, s@[m] as int)) > best_key)
                },
            decreases s@.len() - i,
        {
            let v = s[i];
            proof {
                assert(self.int_ok(c as int, v as int));
            }
            let x = self.cpu_or_spi(vcpu, v as usize);
            let key = (x.prio as u32) * 1024 + v as u32;
            if best.is_none() || key < best_key {
                best = Some(v);
                best_key = key;
            }
            i = i + 1;
        }
        best
    }

    /// Handles an end of interrupt the guest made for an active interrupt
    /// that was spilled: the most urgent active spilled interrupt of `vcpu`
    /// stops being active; a hardware one is deactivated physically, another
    /// that is still pending is delivered into a list register.
    pub fn eoir_highest_spilled_active(&mut self, env: &mut VgicEnv, vcpu: VcpuRef)
        requires
            old(self).sound_for(old(env), vcpu),
            old(self).lists_ready(vcpu),
        ensures
            final(self).sound_for(final(env), vcpu),
            final(self).same_shape(old(self)),
            final(self).same_routing(old(self)),
            same_env_meta(final(env), old(env)),
            ({
                let c = vcpu.id as int;
                let al = old(self).cpu_priv@[c].act_list@;
                if al.len() == 0 {
                    final(self).unchanged(old(self), final(env), old(env))
                } else {
                    exists|v: u16|
                        #![trigger old(self).first_most_urgent(c, al, v)]
                        {
                        let x = old(self).int_at(c, v as int);
                        let xf = final(self).int_at(c, v as int);
                        let s = with_act(irq_state_num(x.state), false);
                        &&& old(self).first_most_urgent(c, al, v)
                        &&& same_config(xf, x)
                        &&& if v >= GIC_SGIS_NUM && x.hw {
                            &&& final(env).actions@ == old(env).actions@.push(VgicAction::HwSetAct {
                                int_id: v,
                                act: false,
                                redist: if v < GIC_PRIVINT_NUM { Some(old(env).cpu_id as u64) } else { None },
                            })
                            &&& irq_state_num(xf.state) == s
                            &&& !xf.in_lr
                        } else {
                            &&& final(env).actions@ == old(env).actions@
                            &&& vstate(final(env), xf) == s
                        }
                    }
                }
            }),
    {
        let c = vcpu.id;
        let best = self.most_urgent(vcpu, &self.cpu_priv[c].act_list);
        let v = match best {
            Some(v) => v,
            None => {
                return;
            },
        };
        let ghost al = self.cpu_priv@[c as int].act_list@;
        let ghost x0 = self.int_at(c as int, v as int);
        proof {
            let k = choose|k: int|
                0 <= k < al.len() && al[k] == v && (forall|j: int|
                    0 <= j < al.len() ==> spill_key(#[trigger] self.int_at(c as int, al[j] as int)) >= spill_key(self.int_at(c as int, v as int)))
                    && (forall|j: int|
                    0 <= j < k ==> spill_key(#[trigger] self.int_at(c as int, al[j] as int)) > spill_key(self.int_at(c as int, v as int)));
            assert(self.int_at(c as int, al[k] as int) == x0);
            assert(self.int_ok(c as int, v as int));
        }
        let ghost s0 = *self;
        self.vgic_int_get_owner(vcpu, v as usize);
        let x = self.cpu_or_spi(vcpu, v as usize);
        proof {
            assert(self.int_ok(c as int, v as int));
            lemma_state_bits();
        }
        let state = x.state.to_num() & !2usize;
        self.set_int(c, VgicInt { state: IrqState::num_to_state(state), ..x });
        let ghost s1 = *self;
        proof {
            assert(self.same_routing(&s0));
            self.lemma_routing_trans(&s0, old(self));
        }
        self.update_int_list(vcpu, v as usize);
        proof {
            self.lemma_routing_trans(&s1, old(self));
            assert(self.lr_consistent(env, vcpu)) by {
                assert forall|i: int|
                    0 <= i < GICH_LR_SLOTS && lr_state(#[trigger] env.lrs@[i]) != 0 && lr_vid(env.lrs@[i]) < GIC_INTS_MAX implies {
                        let y = self.int_at(c as int, lr_vid(env.lrs@[i]) as int);
                        y.in_lr && y.lr == i && y.owner == Some(vcpu)
                    } by {
                    assert(old(self).int_at(c as int, lr_vid(env.lrs@[i]) as int).in_lr);
                }
            }
        }
        if v as usize >= GIC_SGIS_NUM && x.hw {
            let redist = if (v as usize) < GIC_PRIVINT_NUM { Some(env.cpu_id as u64) } else { None };
            env.push_action(VgicAction::HwSetAct { int_id: v, act: false, redist });
        } else if state & 1 != 0 {
            let ghost s2 = *self;
            self.add_lr(env, vcpu, v as usize);
            proof {
                self.lemma_routing_trans(&s2, old(self));
            }
        }
    }
}


pub const GICD_TYPER_CPUNUM_OFF: u32 = 5;
pub const GICD_TYPER_CPUNUM_MSK: u32 = 0b11111;
pub const GICD_TYPER_LPIS: u32 = 1 << 17;
pub const GICR_TYPER_PRCNUM_OFF: u64 = 8;
pub const GICR_TYPER_AFFVAL_OFF: u64 = 32;
pub const GICR_TYPER_LAST_OFF: u64 = 4;

/// A shared interrupt as a new virtual distributor holds it: no owner, no
/// route, lowest priority, disabled and inactive.
pub open spec fn spi_init(id: u16) -> VgicInt {
    VgicInt {
        owner: None,
        route: GICD_IROUTER_INV,
        phys: VgicIntPhys::Route(GICD_IROUTER_INV),
        id,
        hw: false,
        in_lr: false,
        lr: 0,
        enabled: false,
        state: IrqState::IrqSInactive,
        prio: 0xff,
        targets: 0,
        cfg: 0,
        in_pend: false,
        in_act: false,
    }
}

/// A private interrupt of `vcpu` as a new virtual redistributor holds it:
/// owned by `vcpu`, targeting its CPU, lowest priority, inactive; SGIs are
/// enabled and edge-triggered.
pub open spec fn priv_init(vcpu: VcpuRef, id: u16) -> VgicInt {
    VgicInt {
        owner: Some(vcpu),
        route: GICD_IROUTER_INV,
        phys: VgicIntPhys::Redist(vcpu.phys_id as u64),
        id,
        hw: false,
        in_lr: false,
        lr: 0,
        enabled: id < GIC_SGIS_NUM,
        state: IrqState::IrqSInactive,
        prio: 0xff,
        targets: (1u64 << (vcpu.phys_id as u64)) as u8,
        cfg: if id < GIC_SGIS_NUM { 0b10 } else { 0 },
        in_pend: false,
        in_act: false,
    }
}

/// The type register of the redistributor of vCPU `i` of `n`, whose virtual
/// MPIDR is `vmpidr`.
pub open spec fn vgicr_typer(i: u64, n: u64, vmpidr: u64) -> u64 {
    (i << GICR_TYPER_PRCNUM_OFF) | ((vmpidr & MPIDR_AFF_MSK) << GICR_TYPER_AFFVAL_OFF) | ((if i as int == n - 1 {
        1u64
    } else {
        0u64
    }) << GICR_TYPER_LAST_OFF) | 0b10_0001
}

/// The distributor type register of a VM with `n` vCPUs, from the physical one.
///
/// The CPU-number mask is applied unshifted: it clears bits 4 to 0 (the
/// interrupt-lines field) of the physical value, while the vCPU count moved
/// up to bit 5 is masked by those same low bits and so adds nothing; bits 7 to
/// 5 keep the physical value. The LPI bit is cleared.
pub open spec fn vgicd_typer_of(gicd_typer: u32, n: u32) -> u32 {
    (gicd_typer & !(GICD_TYPER_CPUNUM_MSK | GICD_TYPER_LPIS)) | ((((n - 1) as u32) << GICD_TYPER_CPUNUM_OFF) & GICD_TYPER_CPUNUM_MSK)
}

impl Vgic {
    /// The virtual GIC of a new VM whose vCPUs are `vcpus` (vCPU `i` with
    /// virtual MPIDR `vmpidrs[i]`, running on a CPU whose redistributor has
    /// control register `gicr_ctrl[i]` and implementer register
    /// `gicr_iidr[i]`), on a distributor with type `gicd_typer` and
    /// implementer `gicd_iidr`.
    pub fn emu_intc_init(
        vcpus: &Vec<VcpuRef>,
        vmpidrs: &Vec<u64>,
        gicr_ctrl: &Vec<u32>,
        gicr_iidr: &Vec<u32>,
        gicd_typer: u32,
        gicd_iidr: u32,
    ) -> (r: Vgic)
        requires
            1 <= vcpus@.len() <= 64,
            vmpidrs@.len() == vcpus@.len(),
            gicr_ctrl@.len() == vcpus@.len(),
            gicr_iidr@.len() == vcpus@.len(),
            forall|i: int| 0 <= i < vcpus@.len() ==> (#[trigger] vcpus@[i]).id == i && vcpus@[i].vm_id == vcpus@[0].vm_id
                && vcpus@[i].phys_id < 64,
            forall|i: int, j: int|
                0 <= i < vcpus@.len() && 0 <= j < vcpus@.len() && i != j ==> #[trigger] vcpus@[i].phys_id
                    != #[trigger] vcpus@[j].phys_id,
        ensures
            r.wf(),
            r.vcpus@ == vcpus@,
            r.vgicd.ctlr == 0b10,
            r.vgicd.typer == vgicd_typer_of(gicd_typer, vcpus@.len() as u32),
            r.vgicd.iidr == gicd_iidr,
            forall|k: int| 0 <= k < GIC_SPI_MAX ==> #[trigger] r.vgicd.interrupts@[k] == spi_init((k + 32) as u16),
            forall|c: int|
                #![trigger r.cpu_priv@[c]]
                0 <= c < vcpus@.len() ==> {
                    &&& r.cpu_priv@[c].vigcr == Vgicr {
                        typer: vgicr_typer(c as u64, vcpus@.len() as u64, vmpidrs@[c]),
                        cltr: gicr_ctrl@[c],
                        iidr: gicr_iidr@[c],
                    }
                    &&& forall|j: int| 0 <= j < GIC_PRIVINT_NUM ==> #[trigger] r.cpu_priv@[c].interrupts@[j] == priv_init(vcpus@[c], j as u16)
                    &&& r.cpu_priv@[c].pend_list@.len() == 0
                    &&& r.cpu_priv@[c].act_list@.len() == 0
                    &&& forall|i: int| 0 <= i < GIC_LIST_REGS_NUM ==> #[trigger] r.cpu_priv@[c].curr_lrs@[i] == 0
                    &&& forall|i: int| 0 <= i < GIC_SGIS_NUM ==> #[trigger] r.cpu_priv@[c].sgis@[i] == (Sgis { pend: 0, act: 0 })
                },
    {
        let n = vcpus.len();
        let typer = (gicd_typer & !(GICD_TYPER_CPUNUM_MSK | GICD_TYPER_LPIS)) | ((((n - 1) as u32) << GICD_TYPER_CPUNUM_OFF)
            & GICD_TYPER_CPUNUM_MSK);
        let mut spis: Vec<VgicInt> = Vec::new();
        let mut k: usize = 0;
        while k < GIC_SPI_MAX
            invariant
                k <= GIC_SPI_MAX,
                spis@.len() == k,
                forall|j: int| 0 <= j < k ==> #[trigger] spis@[j] == spi_init((j + 32) as u16),
            decreases GIC_SPI_MAX - k,
        {
            spis.push(VgicInt {
                owner: None,
                route: GICD_IROUTER_INV,
                phys: VgicIntPhys::Route(GICD_IROUTER_INV),
                id: (k + GIC_PRIVINT_NUM) as u16,
                hw: false,
                in_lr: false,
                lr: 0,
                enabled: false,
                state: IrqState::IrqSInactive,
                prio: 0xff,
                targets: 0,
                cfg: 0,
                in_pend: false,
                in_act: false,
            });
            k = k + 1;
        }
        let mut cpu_priv: Vec<VgicCpuPriv> = Vec::new();
        let mut i: usize = 0;
        while i < n
            invariant
                i <= n,
                n == vcpus@.len(),
                1 <= n <= 64,
                vmpidrs@.len() == n,
                gicr_ctrl@.len() == n,
                gicr_iidr@.len() == n,
                forall|c: int| 0 <= c < vcpus@.len() ==> (#[trigger] vcpus@[c]).id == c && vcpus@[c].phys_id < 64,
                cpu_priv@.len() == i,
                forall|c: int|
                    #![trigger cpu_priv@[c]]
                    0 <= c < i ==> {
                        &&& cpu_priv@[c].vigcr == Vgicr {
                            typer: vgicr_typer(c as u64, n as u64, vmpidrs@[c]),
                            cltr: gicr_ctrl@[c],
                            iidr: gicr_iidr@[c],
                        }
                        &&& cpu_priv@[c].interrupts@.len() == GIC_PRIVINT_NUM
                        &&& forall|j: int| 0 <= j < GIC_PRIVINT_NUM ==> #[trigger] cpu_priv@[c].interrupts@[j] == priv_init(vcpus@[c], j as u16)
                        &&& cpu_priv@[c].pend_list@.len() == 0
                        &&& cpu_priv@[c].act_list@.len() == 0
                        &&& cpu_priv@[c].curr_lrs@.len() == GIC_LIST_REGS_NUM
                        &&& forall|m: int| 0 <= m < GIC_LIST_REGS_NUM ==> #[trigger] cpu_priv@[c].curr_lrs@[m] == 0
                        &&& cpu_priv@[c].sgis@.len() == GIC_SGIS_NUM
                        &&& forall|m: int| 0 <= m < GIC_SGIS_NUM ==> #[trigger] cpu_priv@[c].sgis@[m] == (Sgis { pend: 0, act: 0 })
                    },
            decreases n - i,
        {
            let vcpu = vcpus[i];
            let last: u64 = if i == n - 1 { 1 } else { 0 };
            let vt = ((i as u64) << GICR_TYPER_PRCNUM_OFF) | ((vmpidrs[i] & MPIDR_AFF_MSK) << GICR_TYPER_AFFVAL_OFF) | (last
                << GICR_TYPER_LAST_OFF) | 0b10_0001;
            let mut ints: Vec<VgicInt> = Vec::new();
            let mut j: usize = 0;
            while j < GIC_PRIVINT_NUM
                invariant
                    j <= GIC_PRIVINT_NUM,
                    vcpu == vcpus@[i as int],
                    vcpu.phys_id < 64,
                    ints@.len() == j,
                    forall|m: int| 0 <= m < j ==> #[trigger] ints@[m] == priv_init(vcpu, m as u16),
                decreases GIC_PRIVINT_NUM - j,
            {
                let sgi = j < GIC_SGIS_NUM;
                ints.push(VgicInt {
                    owner: Some(vcpu),
                    route: GICD_IROUTER_INV,
                    phys: VgicIntPhys::Redist(vcpu.phys_id as u64),
                    id: j as u16,
                    hw: false,
                    in_lr: false,
                    lr: 0,
                    enabled: sgi,
                    state: IrqState::IrqSInactive,
                    prio: 0xff,
                    targets: (1u64 << (vcpu.phys_id as u64)) as u8,
                    cfg: if sgi { 0b10 } else { 0 },
                    in_pend: false,
                    in_act: false,
                });
                j = j + 1;
            }
            let mut curr_lrs: Vec<u16> = Vec::new();
            let mut m: usize = 0;
            while m < GIC_LIST_REGS_NUM
                invariant
                    m <= GIC_LIST_REGS_NUM,
                    curr_lrs@.len() == m,
                    forall|q: int| 0 <= q < m ==> #[trigger] curr_lrs@[q] == 0,
                decreases GIC_LIST_REGS_NUM - m,
            {
                curr_lrs.push(0);
                m = m + 1;
            }
            let mut sgis: Vec<Sgis> = Vec::new();
            let mut m2: usize = 0;
            while m2 < GIC_SGIS_NUM
                invariant
                    m2 <= GIC_SGIS_NUM,
                    sgis@.len() == m2,
                    forall|q: int| 0 <= q < m2 ==> #[trigger] sgis@[q] == (Sgis { pend: 0, act: 0 }),
                decreases GIC_SGIS_NUM - m2,
            {
                sgis.push(Sgis::default());
                m2 = m2 + 1;
            }
            cpu_priv.push(VgicCpuPriv {
                vigcr: Vgicr { typer: vt, cltr: gicr_ctrl[i], iidr: gicr_iidr[i] },
                curr_lrs,
                sgis,
                interrupts: ints,
                pend_list: Vec::new(),
                act_list: Vec::new(),
            });
            i = i + 1;
        }
        let mut vcpu_list: Vec<VcpuRef> = Vec::new();
        let mut q: usize = 0;
        while q < n
            invariant
                q <= n,
                n == vcpus@.len(),
                vcpu_list@ == vcpus@.subrange(0, q as int),
            decreases n - q,
        {
            vcpu_list.push(vcpus[q]);
            q = q + 1;
        }
        proof {
            assert(vcpus@.subrange(0, n as int) == vcpus@);
        }
        let r = Vgic { vgicd: Vgicd { ctlr: 0b10, typer, iidr: gicd_iidr, interrupts: spis }, cpu_priv, vcpus: vcpu_list };
        proof {
            assert forall|c: int, id: int| 0 <= c < r.ncpu() && 0 <= id < GIC_INTS_MAX implies #[trigger] r.int_ok(c, id) by {
                if id < GIC_PRIVINT_NUM {
                    assert(r.cpu_priv@[c].interrupts@[id] == priv_init(vcpus@[c], id as u16));
                } else {
                    assert(r.vgicd.interrupts@[id - 32] == spi_init(id as u16));
                }
            }
        }
        r
    }

    /// Marks interrupt `int_id` as backed by a physical interrupt: a private
    /// one (not an SGI) for every vCPU, a shared one once. SGIs and ids past
    /// the last are left alone.
    pub fn vgic_set_hw_int(&mut self, int_id: usize)
        requires
            old(self).wf(),
        ensures
            final(self).wf(),
            final(self).same_but_ints(old(self)),
            forall|c: int, id2: int|
                #![trigger final(self).int_at(c, id2)]
                0 <= c < final(self).ncpu() && 0 <= id2 < GIC_INTS_MAX ==> final(self).int_at(c, id2) == if id2 == int_id
                    && int_id >= GIC_SGIS_NUM {
                    VgicInt { hw: true, ..old(self).int_at(c, id2) }
                } else {
                    old(self).int_at(c, id2)
                },
    {
        if int_id < GIC_SGIS_NUM || int_id >= GIC_INTS_MAX {
            return;
        }
        if int_id < GIC_PRIVINT_NUM {
            let n = self.vcpus.len();
            let mut c: usize = 0;
            while c < n
                invariant
                    c <= n,
                    n == self.ncpu(),
                    GIC_SGIS_NUM <= int_id < GIC_PRIVINT_NUM,
                    self.wf(),
                    self.same_but_ints(old(self)),
                    old(self).wf(),
                    forall|c2: int, id2: int|
                        #![trigger self.int_at(c2, id2)]
                        0 <= c2 < self.ncpu() && 0 <= id2 < GIC_INTS_MAX ==> self.int_at(c2, id2) == if id2 == int_id
                            && c2 < c {
                            VgicInt { hw: true, ..old(self).int_at(c2, id2) }
                        } else {
                            old(self).int_at(c2, id2)
                        },
                decreases n - c,
            {
                let x = self.cpu_priv[c].interrupts[int_id];
                proof {
                    assert(self.int_ok(c as int, int_id as int));
                }
                let ghost s0 = *self;
                self.set_int(c, VgicInt { hw: true, ..x });
                proof {
                    assert forall|c2: int, id2: int|
                        #![trigger self.int_at(c2, id2)]
                        0 <= c2 < self.ncpu() && 0 <= id2 < GIC_INTS_MAX implies self.int_at(c2, id2) == if id2 == int_id
                            && c2 < c + 1 {
                            VgicInt { hw: true, ..old(self).int_at(c2, id2) }
                        } else {
                            old(self).int_at(c2, id2)
                        } by {
                        assert(s0.int_at(c2, id2) == s0.int_at(c2, id2));
                    }
                }
                c = c + 1;
            }
        } else {
            let x = self.vgicd.interrupts[int_id - GIC_PRIVINT_NUM];
            proof {
                assert(self.int_ok(0, int_id as int));
            }
            self.set_int(0, VgicInt { hw: true, ..x });
        }
    }
}


impl Vgic {
    /// Carries out, for `vcpu` here, a request another CPU made about this
    /// VM's virtual GIC (as `vgic_ipi_handler` decided it). An injection is
    /// left to the caller: the result tells whether the request was handled.
    #[verifier::rlimit(30)]
    pub fn vgic_ipi_apply(&mut self, env: &mut VgicEnv, vcpu: VcpuRef, act: VgicIpiAction) -> (handled: bool)
        requires
            old(self).sound_for(old(env), vcpu),
            act matches VgicIpiAction::SetCfg { int_id, cfg } ==> int_id < GIC_INTS_MAX && cfg < 4,
        ensures
            final(self).sound_for(final(env), vcpu),
            final(self).same_shape(old(self)),
            same_env_meta(final(env), old(env)),
            final(self).vstates_kept(old(self), final(env), old(env), vcpu.id as int, ipi_subject(act)),
            handled == !(act is Inject),
            match act {
                VgicIpiAction::SetGichEn(en) => {
                    &&& final(self).unchanged(old(self), final(env), final(env))
                    &&& final(env).lrs@ == old(env).lrs@
                    &&& final(env).actions@ == old(env).actions@
                    &&& final(env).hcr == if en { old(env).hcr | GICH_HCR_EN_BIT } else { old(env).hcr & !GICH_HCR_EN_BIT }
                },
                VgicIpiAction::SetEnable { int_id, en } => int_id < GIC_INTS_MAX && !foreign(
                    old(self).int_at(vcpu.id as int, int_id as int),
                    vcpu,
                ) ==> final(self).int_at(vcpu.id as int, int_id as int).enabled == en,
                VgicIpiAction::SetPrio { int_id, prio } => int_id < GIC_INTS_MAX && !foreign(
                    old(self).int_at(vcpu.id as int, int_id as int),
                    vcpu,
                ) ==> final(self).int_at(vcpu.id as int, int_id as int).prio == prio & 0xf0,
                VgicIpiAction::SetCfg { int_id, cfg } => !foreign(old(self).int_at(vcpu.id as int, int_id as int), vcpu)
                    ==> final(self).int_at(vcpu.id as int, int_id as int).cfg == cfg,
                VgicIpiAction::SetPend { int_id, pend } => int_id < GIC_INTS_MAX && !foreign(
                    old(self).int_at(vcpu.id as int, int_id as int),
                    vcpu,
                ) ==> ({
                    let x = old(self).int_at(vcpu.id as int, int_id as int);
                    let s2 = with_pend(vstate(old(env), x), pend);
                    let v = vstate(final(env), final(self).int_at(vcpu.id as int, int_id as int));
                    v == s2 || v == shown_state(x, s2)
                }),
                VgicIpiAction::Route { int_id } => ({
                    let id = int_id % 1024;
                    let x = old(self).int_at(vcpu.id as int, id as int);
                    !foreign(x, vcpu) && is_target(old(env), vcpu, x) && x.enabled && !x.in_lr && some_lr_empty(
                        old(env).lrs@,
                        old(env).gic_lrs as int,
                    ) ==> final(self).int_at(vcpu.id as int, id as int).in_lr
                }),
                _ => final(self).unchanged(old(self), final(env), old(env)),
            },
    {
        match act {
            VgicIpiAction::SetGichEn(en) => {
                if en {
                    env.hcr = env.hcr | GICH_HCR_EN_BIT;
                } else {
                    env.hcr = env.hcr & !GICH_HCR_EN_BIT;
                }
                true
            },
            VgicIpiAction::SetEnable { int_id, en } => {
                self.set_enable(env, vcpu, int_id, en);
                true
            },
            VgicIpiAction::SetPend { int_id, pend } => {
                self.set_pend(env, vcpu, int_id, pend);
                true
            },
            VgicIpiAction::SetPrio { int_id, prio } => {
                self.set_prio(env, vcpu, int_id, prio);
                true
            },
            VgicIpiAction::SetCfg { int_id, cfg } => {
                self.set_icfgr(env, vcpu, int_id, cfg);
                true
            },
            VgicIpiAction::Route { int_id } => {
                self.ipi_route(env, vcpu, int_id % 1024);
                true
            },
            VgicIpiAction::Inject { .. } => false,
            _ => true,
        }
    }
}


/// The interrupt a request of another CPU is about; -1 for none.
pub open spec fn ipi_subject(act: VgicIpiAction) -> int {
    match act {
        VgicIpiAction::SetEnable { int_id, .. } => int_id as int,
        VgicIpiAction::SetPend { int_id, .. } => int_id as int,
        VgicIpiAction::SetPrio { int_id, .. } => int_id as int,
        VgicIpiAction::SetCfg { int_id, .. } => int_id as int,
        VgicIpiAction::Route { int_id } => (int_id % 1024) as int,
        _ => -1,
    }
}

impl Vgic {
    /// The route request of another CPU: when `vcpu` gets hold of interrupt
    /// `id` and is a target of it here, it is put in a list register; then
    /// `vcpu` yields it unless it is listed or active.
    #[verifier::rlimit(30)]
    fn ipi_route(&mut self, env: &mut VgicEnv, vcpu: VcpuRef, id: usize)
        requires
            old(self).sound_for(old(env), vcpu),
            id < GIC_INTS_MAX,
        ensures
            final(self).sound_for(final(env), vcpu),
            final(self).same_shape(old(self)),
            same_env_meta(final(env), old(env)),
            final(self).vstates_kept(old(self), final(env), old(env), vcpu.id as int, id as int),
            ({
                let x = old(self).int_at(vcpu.id as int, id as int);
                !foreign(x, vcpu) && is_target(old(env), vcpu, x) && x.enabled && !x.in_lr && some_lr_empty(
                    old(env).lrs@,
                    old(env).gic_lrs as int,
                ) ==> final(self).int_at(vcpu.id as int, id as int).in_lr
            }),
    {
        let x = self.cpu_or_spi(vcpu, id);
        proof {
            assert(self.int_ok(vcpu.id as int, id as int));
        }
        let ghost c = vcpu.id as int;
        if self.vgic_int_get_owner(vcpu, id) {
            proof {
                self.lemma_vstates_same_lrs(old(self), env, old(env), c, id as int);
            }
            if vgic_int_vcpu_is_target(env, vcpu, &x) {
                let ghost s0 = *self;
                self.add_lr(env, vcpu, id);
                proof {
                    self.lemma_routing_trans(&s0, old(self));
                    self.lemma_routes_fit_kept(old(self), env, old(env), vcpu);
                    self.lemma_vstates_trans(&s0, old(self), env, old(env), old(env), c, id as int);
                }
            }
            let ghost s1 = *self;
            let ghost e1 = *env;
            self.vgic_int_yield_owner(env, vcpu, id);
            proof {
                self.lemma_routing_trans(&s1, old(self));
                self.lemma_routes_fit_kept(old(self), env, old(env), vcpu);
                self.lemma_vstates_same_lrs(&s1, env, &e1, c, id as int);
                self.lemma_vstates_trans(&s1, old(self), env, &e1, old(env), c, id as int);
            }
        }
    }
}

} // verus!

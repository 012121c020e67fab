use shyper::arch::aarch64::vgic::{first_empty_lr, vm_has_interrupt_in, VcpuRef, Vgic, VgicAction, VgicEnv};
use shyper::arch::aarch64::vgicv3::{IrqState, VgicIpiAction};
use shyper::device::EmuContext;

fn two_vcpus() -> Vec<VcpuRef> {
    vec![VcpuRef { id: 0, phys_id: 0, vm_id: 1 }, VcpuRef { id: 1, phys_id: 1, vm_id: 1 }]
}

fn new_vgic() -> Vgic {
    let vcpus = two_vcpus();
    Vgic::emu_intc_init(&vcpus, &vec![0, 1], &vec![0, 0], &vec![0x43b, 0x43b], 0x3780_0000, 0x43b)
}

fn env_on_cpu0() -> VgicEnv {
    VgicEnv {
        lrs: vec![0; 16],
        hcr: 0,
        gic_lrs: 4,
        cpu_id: 0,
        mpidr_aff: 0,
        cpu_num: 4,
        vm_ncpu: 0b11,
        route_shift: 0,
        actions: vec![],
    }
}

fn read_ctx(address: usize, width: usize) -> EmuContext {
    EmuContext { address, width, write: false, sign_ext: false, reg: 0, reg_width: 8 }
}

fn write_ctx(address: usize, width: usize) -> EmuContext {
    EmuContext { address, width, write: true, sign_ext: false, reg: 0, reg_width: 8 }
}

#[test]
fn init_sets_distributor_and_redistributor_registers() {
    let vgic = new_vgic();
    assert_eq!(vgic.vgicd_ctlr(), 0b10);
    // The CPU number and LPI fields are cleared; the vCPU count shifted by the
    // field offset falls outside the field mask and adds nothing.
    assert_eq!(vgic.vgicd_typer(), 0x3780_0000);
    let other = Vgic::emu_intc_init(&two_vcpus(), &vec![0, 1], &vec![0, 0], &vec![0, 0], 0x3782_001f, 0);
    assert_eq!(other.vgicd_typer(), 0x3780_0000);
    assert_eq!(vgic.vgicd_iidr(), 0x43b);
    // vCPU 0 of 2: processor number 0, not last.
    assert_eq!(vgic.cpu_priv[0].vigcr.get_typer(), 0b10_0001);
    // vCPU 1 of 2: processor number 1, affinity 1, last.
    assert_eq!(vgic.cpu_priv[1].vigcr.get_typer(), (1u64 << 8) | (1u64 << 32) | (1u64 << 4) | 0b10_0001);
    assert_eq!(vgic.vgicd.interrupts.len(), 992);
    assert_eq!(vgic.cpu_priv[1].interrupts.len(), 32);
}

#[test]
fn init_enables_only_sgis() {
    let vgic = new_vgic();
    let v0 = two_vcpus()[0];
    assert!(vgic.get_enable(v0, 3));
    assert!(!vgic.get_enable(v0, 20));
    assert!(!vgic.get_enable(v0, 40));
    assert_eq!(vgic.get_icfgr(v0, 5), 0b10);
    assert_eq!(vgic.get_icfgr(v0, 20), 0);
    assert_eq!(vgic.get_prio(v0, 40), 0xff);
}

#[test]
fn enable_register_read_gives_enable_bits() {
    let mut vgic = new_vgic();
    let mut env = env_on_cpu0();
    let v0 = two_vcpus()[0];
    let r = vgic.emu_enabler_access(&mut env, v0, &read_ctx(0x0800_0100, 4), 0, &vec![], true);
    assert_eq!(r, Some(0xffff));
}

#[test]
fn enable_register_write_enables_selected() {
    let mut vgic = new_vgic();
    let mut env = env_on_cpu0();
    let v0 = two_vcpus()[0];
    let mut irqs = vec![false; 64];
    irqs[33] = true;
    // ISENABLER1 covers interrupts 32..63; bits 1 and 3 select 33 and 35.
    let r = vgic.emu_enabler_access(&mut env, v0, &write_ctx(0x0800_0104, 4), 0b1010, &irqs, true);
    assert_eq!(r, None);
    assert!(vgic.get_enable(v0, 33));
    assert!(vgic.get_enable(v0, 35));
    assert!(!vgic.get_enable(v0, 34));
    let r = vgic.emu_enabler_access(&mut env, v0, &read_ctx(0x0800_0104, 4), 0, &irqs, true);
    assert_eq!(r, Some(0b1010));
    // Clearing through ICENABLER1.
    let r = vgic.emu_enabler_access(&mut env, v0, &write_ctx(0x0800_0184, 4), 0b10, &irqs, false);
    assert_eq!(r, None);
    assert!(!vgic.get_enable(v0, 33));
    assert!(vgic.get_enable(v0, 35));
}

#[test]
fn enable_register_ignored_without_vm_interrupts() {
    let mut vgic = new_vgic();
    let mut env = env_on_cpu0();
    let v0 = two_vcpus()[0];
    let r = vgic.emu_enabler_access(&mut env, v0, &write_ctx(0x0800_0104, 4), 0b10, &vec![false; 64], true);
    assert_eq!(r, None);
    assert!(!vgic.get_enable(v0, 33));
}

#[test]
fn shared_interrupt_config_is_seen_by_every_vcpu() {
    let mut vgic = new_vgic();
    let mut env = env_on_cpu0();
    let vs = two_vcpus();
    vgic.set_enable(&mut env, vs[0], 40, true);
    vgic.set_prio(&mut env, vs[0], 40, 0xa7);
    vgic.set_icfgr(&mut env, vs[0], 40, 2);
    assert!(vgic.get_enable(vs[1], 40));
    assert_eq!(vgic.get_prio(vs[1], 40), 0xa0);
    assert_eq!(vgic.get_icfgr(vs[1], 40), 2);
    assert!(env.actions.is_empty());
    assert_eq!(env.lrs, vec![0; 16]);
}

#[test]
fn private_interrupts_are_per_vcpu() {
    let mut vgic = new_vgic();
    let mut env = env_on_cpu0();
    let vs = two_vcpus();
    vgic.set_enable(&mut env, vs[0], 20, true);
    assert!(vgic.get_enable(vs[0], 20));
    assert!(!vgic.get_enable(vs[1], 20));
}

#[test]
fn pending_sgi_goes_into_first_list_register() {
    let mut vgic = new_vgic();
    let mut env = env_on_cpu0();
    let v0 = two_vcpus()[0];
    vgic.set_pend(&mut env, v0, 1, true);
    // vINTID 1, priority 0xff, pending, group 1.
    assert_eq!(env.lrs[0], 0x50ff_0000_0000_0001);
    assert_eq!(env.lrs[1], 0);
    let x = vgic.get_int(v0, 1).unwrap();
    assert!(x.in_lr);
    assert_eq!(x.lr, 0);
    assert_eq!(x.state, IrqState::IrqSInactive);
    let r = vgic.emu_pendr_access(&mut env, v0, &read_ctx(0x0800_0200, 4), 0, true);
    assert_eq!(r, Some(0b10));
}

#[test]
fn clearing_pending_sgi_clears_its_list_register_state() {
    let mut vgic = new_vgic();
    let mut env = env_on_cpu0();
    let v0 = two_vcpus()[0];
    vgic.set_pend(&mut env, v0, 1, true);
    vgic.set_pend(&mut env, v0, 1, false);
    let r = vgic.emu_pendr_access(&mut env, v0, &read_ctx(0x0800_0200, 4), 0, true);
    assert_eq!(r, Some(0));
}

#[test]
fn routed_spi_is_presented_and_ended() {
    let mut vgic = new_vgic();
    let mut env = env_on_cpu0();
    let v0 = two_vcpus()[0];
    vgic.set_enable(&mut env, v0, 40, true);
    vgic.vgicd_set_irouter(&mut env, v0, 40, 0, 0x8000_0000, Some(0));
    vgic.set_pend(&mut env, v0, 40, true);
    // vINTID 40, priority 0xff, EOI maintenance, pending, group 1.
    assert_eq!(env.lrs[0], 0x50ff_0200_0000_0028);
    assert!(vgic.get_int(v0, 40).unwrap().in_lr);
    // The guest ends it: the state bits drop, the EOI bit stays.
    env.lrs[0] = 0x10ff_0200_0000_0028;
    vgic.handle_trapped_eoir(&mut env, v0);
    assert_eq!(env.lrs[0], 0);
    assert!(!vgic.get_int(v0, 40).unwrap().in_lr);
}

#[test]
fn ipi_action_sets_list_register_enable() {
    let mut vgic = new_vgic();
    let mut env = env_on_cpu0();
    let v0 = two_vcpus()[0];
    assert!(vgic.vgic_ipi_apply(&mut env, v0, VgicIpiAction::SetGichEn(true)));
    assert_eq!(env.hcr, 1);
    assert!(vgic.vgic_ipi_apply(&mut env, v0, VgicIpiAction::SetGichEn(false)));
    assert_eq!(env.hcr, 0);
}

#[test]
fn ipi_action_enables_interrupt() {
    let mut vgic = new_vgic();
    let mut env = env_on_cpu0();
    let v0 = two_vcpus()[0];
    assert!(vgic.vgic_ipi_apply(&mut env, v0, VgicIpiAction::SetEnable { int_id: 50, en: true }));
    assert!(vgic.get_enable(v0, 50));
    assert!(vgic.vgic_ipi_apply(&mut env, v0, VgicIpiAction::SetPrio { int_id: 50, prio: 0x37 }));
    assert_eq!(vgic.get_prio(v0, 50), 0x30);
}

#[test]
fn ipi_inject_is_left_to_caller() {
    let mut vgic = new_vgic();
    let mut env = env_on_cpu0();
    let v0 = two_vcpus()[0];
    assert!(!vgic.vgic_ipi_apply(&mut env, v0, VgicIpiAction::Inject { int_id: 40 }));
}

#[test]
fn register_reads() {
    let vgic = new_vgic();
    assert_eq!(vgic.emu_typer_access(&read_ctx(0x0800_0004, 4)), Some(vgic.vgicd.typer as u64));
    assert_eq!(vgic.emu_typer_access(&write_ctx(0x0800_0004, 4)), None);
    assert_eq!(vgic.emu_iidr_access(&read_ctx(0x0800_0008, 4)), Some(0x43b));
    assert_eq!(vgic.emu_razwi(&read_ctx(0x0800_0010, 4)), Some(0));
    assert_eq!(vgic.emu_razwi(&write_ctx(0x0800_0010, 4)), None);
    assert_eq!(vgic.vgicr_emul_typer_access(&read_ctx(0x080a_0008, 8), 0), Some(0b10_0001));
}

#[test]
fn redistributor_typer_setter() {
    let mut vgic = new_vgic();
    vgic.cpu_priv[0].vigcr.set_typer(0x1234);
    assert_eq!(vgic.cpu_priv[0].vigcr.get_typer(), 0x1234);
    assert_eq!(vgic.cpu_priv[0].vigcr.iidr, 0x43b);
}

#[test]
fn first_empty_list_register() {
    let mut env = env_on_cpu0();
    assert_eq!(first_empty_lr(&env), Some(0));
    env.lrs[0] = 1u64 << 62;
    env.lrs[1] = 1u64 << 62;
    assert_eq!(first_empty_lr(&env), Some(2));
    env.lrs[2] = 1u64 << 63;
    env.lrs[3] = 1u64 << 62;
    assert_eq!(first_empty_lr(&env), None);
}

#[test]
fn vm_interrupt_window() {
    let mut irqs = vec![false; 40];
    irqs[35] = true;
    assert!(vm_has_interrupt_in(&irqs, 32, 8));
    assert!(!vm_has_interrupt_in(&irqs, 0, 32));
    assert!(!vm_has_interrupt_in(&irqs, 36, 100));
}

#[test]
fn action_type_is_comparable() {
    let a = VgicAction::HwSetRoute { int_id: 40, route: 0 };
    assert_eq!(a, VgicAction::HwSetRoute { int_id: 40, route: 0 });
}

#[test]
fn pending_register_write_then_read() {
    let mut vgic = new_vgic();
    let mut env = env_on_cpu0();
    let v0 = two_vcpus()[0];
    // ISPENDR0: SGIs 1, 3 and 5 pending
    let r = vgic.emu_pendr_access(&mut env, v0, &write_ctx(0x0800_0200, 4), 0b10_1010, true);
    assert_eq!(r, None);
    let r = vgic.emu_pendr_access(&mut env, v0, &read_ctx(0x0800_0200, 4), 0, true);
    assert_eq!(r, Some(0b10_1010));
    // three list registers are used, lowest interrupt first
    assert_eq!(env.lrs[0] & 0xffff_ffff, 1);
    assert_eq!(env.lrs[1] & 0xffff_ffff, 3);
    assert_eq!(env.lrs[2] & 0xffff_ffff, 5);
    // ICPENDR0: clear SGI 3
    let r = vgic.emu_pendr_access(&mut env, v0, &write_ctx(0x0800_0280, 4), 0b1000, false);
    assert_eq!(r, None);
    let r = vgic.emu_pendr_access(&mut env, v0, &read_ctx(0x0800_0280, 4), 0, false);
    assert_eq!(r, Some(0b10_0010));
}

#[test]
fn active_register_write_then_read() {
    let mut vgic = new_vgic();
    let mut env = env_on_cpu0();
    let v0 = two_vcpus()[0];
    let r = vgic.emu_activer_access(&mut env, v0, &write_ctx(0x0800_0300, 4), 0b100, &vec![], true);
    assert_eq!(r, None);
    let r = vgic.emu_activer_access(&mut env, v0, &read_ctx(0x0800_0300, 4), 0, &vec![], true);
    assert_eq!(r, Some(0b100));
    let r = vgic.emu_activer_access(&mut env, v0, &write_ctx(0x0800_0380, 4), 0b100, &vec![], false);
    assert_eq!(r, None);
    let r = vgic.emu_activer_access(&mut env, v0, &read_ctx(0x0800_0380, 4), 0, &vec![], false);
    assert_eq!(r, Some(0));
}

#[test]
fn enable_write_keeps_pending_state() {
    let mut vgic = new_vgic();
    let mut env = env_on_cpu0();
    let v0 = two_vcpus()[0];
    vgic.set_pend(&mut env, v0, 20, true);
    // a disabled PPI stays out of the list registers
    assert_eq!(env.lrs[0], 0);
    vgic.emu_enabler_access(&mut env, v0, &write_ctx(0x0800_0100, 4), 1 << 20, &vec![], true);
    // enabling it delivers it, still pending
    assert_eq!(env.lrs[0] & 0xffff_ffff, 20);
    let r = vgic.emu_pendr_access(&mut env, v0, &read_ctx(0x0800_0200, 4), 0, true);
    assert_eq!(r, Some(1 << 20));
}

#[test]
fn spilled_interrupts_refill_free_registers() {
    let mut vgic = new_vgic();
    let mut env = env_on_cpu0();
    env.gic_lrs = 2;
    let v0 = two_vcpus()[0];
    vgic.set_pend(&mut env, v0, 1, true);
    vgic.set_pend(&mut env, v0, 2, true);
    assert_eq!(env.lrs[0] & 0xffff_ffff, 1);
    assert_eq!(env.lrs[1] & 0xffff_ffff, 2);
    // a more urgent SGI takes the register of the least urgent pending one
    vgic.set_prio(&mut env, v0, 3, 0x10);
    vgic.set_pend(&mut env, v0, 3, true);
    assert_eq!(env.lrs[1] & 0xffff_ffff, 3);
    assert_eq!(vgic.cpu_priv[0].pend_list, vec![2]);
    let before = vgic.emu_pendr_access(&mut env, v0, &read_ctx(0x0800_0200, 4), 0, true);
    assert_eq!(before, Some(0b1110));
    // the guest takes SGI 1 and ends it: its register goes inactive
    env.lrs[0] = 0;
    vgic.refill_lrs(&mut env, v0, false);
    assert_eq!(env.lrs[0] & 0xffff_ffff, 2);
    assert!(vgic.cpu_priv[0].pend_list.is_empty());
    let after = vgic.emu_pendr_access(&mut env, v0, &read_ctx(0x0800_0200, 4), 0, true);
    assert_eq!(after, Some(0b1100));
}

use shyper::arch::aarch64::vgicv3::{
    active_state, bit_register_read, bit_register_write_ints, emu_first_int, emu_intc_handler, emu_irouter_first_int,
    emul_vgicr_handler, field_register_read, field_register_writes, gic_is_priv, gich_lr_value, pend_state,
    vgic_icc_sgir_handler, vgic_ipi_handler, vgic_send_sgi_msg, vgic_target_translate, vgic_prio_mask, vgicd_emu_access_is_vaild, vgicr_get_id, InitcEvent,
    IpiInitcMessage, IrqState, VgicIpiAction, VgicReg,
};
use shyper::device::EmuContext;

fn ctx(address: usize, width: usize, write: bool) -> EmuContext {
    EmuContext { address, width, write, sign_ext: false, reg: 0, reg_width: 8 }
}

#[test]
fn irq_state_numbers_roundtrip() {
    for n in 0..4 {
        assert_eq!(IrqState::num_to_state(n).to_num(), n);
    }
    assert_eq!(IrqState::num_to_state(3), IrqState::IrqSPendActive);
    assert_eq!(IrqState::IrqSActive.to_num(), 2);
}

#[test]
fn state_bit_updates() {
    assert_eq!(pend_state(0, true), 1);
    assert_eq!(pend_state(3, false), 2);
    assert_eq!(pend_state(2, true), 3);
    assert_eq!(active_state(1, true), 3);
    assert_eq!(active_state(3, false), 1);
    assert_eq!(active_state(0, false), 0);
}

#[test]
fn priority_mask() {
    assert_eq!(vgic_prio_mask(0xa7), 0xa0);
    assert_eq!(vgic_prio_mask(0x0f), 0);
}

#[test]
fn distributor_register_decoding() {
    let base = 0x0800_0000;
    assert_eq!(emu_intc_handler(0, &ctx(base, 4, false)), VgicReg::Ctlr);
    assert_eq!(emu_intc_handler(0, &ctx(base + 4, 4, false)), VgicReg::Typer);
    assert_eq!(emu_intc_handler(0, &ctx(base + 8, 4, false)), VgicReg::Iidr);
    assert_eq!(emu_intc_handler(0, &ctx(base + 0x104, 4, false)), VgicReg::IsEnabler);
    assert_eq!(emu_intc_handler(0, &ctx(base + 0x184, 4, false)), VgicReg::IcEnabler);
    assert_eq!(emu_intc_handler(0, &ctx(base + 0x200, 4, false)), VgicReg::IsPendr);
    assert_eq!(emu_intc_handler(0, &ctx(base + 0x280, 4, false)), VgicReg::IcPendr);
    assert_eq!(emu_intc_handler(0, &ctx(base + 0x300, 4, false)), VgicReg::IsActiver);
    assert_eq!(emu_intc_handler(0, &ctx(base + 0x380, 4, false)), VgicReg::IcActiver);
    assert_eq!(emu_intc_handler(0, &ctx(base + 0x420, 4, false)), VgicReg::Ipriorityr);
    assert_eq!(emu_intc_handler(0, &ctx(base + 0x810, 4, false)), VgicReg::Razwi);
    assert_eq!(emu_intc_handler(0, &ctx(base + 0xc08, 4, false)), VgicReg::Icfgr);
    assert_eq!(emu_intc_handler(0, &ctx(base + 0x6100, 8, false)), VgicReg::Irouter);
    assert_eq!(emu_intc_handler(0, &ctx(base + 0xffe8, 4, false)), VgicReg::Pidr);
    assert_eq!(emu_intc_handler(0, &ctx(base + 0xf00, 4, false)), VgicReg::Razwi);
}

#[test]
fn distributor_access_validity() {
    let base = 0x0800_0000;
    assert!(vgicd_emu_access_is_vaild(&ctx(base + 0x104, 4, false)));
    assert!(!vgicd_emu_access_is_vaild(&ctx(base + 0x104, 1, false)));
    assert!(!vgicd_emu_access_is_vaild(&ctx(base + 0x106, 4, false)));
    assert!(vgicd_emu_access_is_vaild(&ctx(base + 0x401, 1, false)));
    assert!(!vgicd_emu_access_is_vaild(&ctx(base + 0x402, 4, false)));
    assert!(vgicd_emu_access_is_vaild(&ctx(base + 0x6100, 8, false)));
}

#[test]
fn redistributor_register_decoding() {
    let gicr = 0x080a_0000;
    assert_eq!(emul_vgicr_handler(0, &ctx(gicr + 0x8, 8, false), gicr), (VgicReg::Typer, 0));
    assert_eq!(emul_vgicr_handler(0, &ctx(gicr + 0x2_0000 + 0x1_0100, 4, true), gicr), (VgicReg::IsEnabler, 1));
    assert_eq!(emul_vgicr_handler(0, &ctx(gicr + 0x1_0400, 4, false), gicr), (VgicReg::Ipriorityr, 0));
    assert_eq!(emul_vgicr_handler(0, &ctx(gicr + 0x70, 8, false), gicr), (VgicReg::Propbaser, 0));
    assert_eq!(emul_vgicr_handler(0, &ctx(gicr + 0x1_0c04, 4, false), gicr), (VgicReg::Icfgr, 0));
    assert_eq!(emul_vgicr_handler(0, &ctx(gicr + 0x44, 4, false), gicr), (VgicReg::Razwi, 0));
    assert_eq!(vgicr_get_id(&ctx(gicr + 0x6_0000, 4, false), gicr), 3);
}

#[test]
fn first_interrupt_of_register() {
    let base = 0x0800_0000;
    assert_eq!(emu_first_int(&ctx(base + 0x108, 4, false), 0x100, 1), 64);
    assert_eq!(emu_first_int(&ctx(base + 0x420, 4, false), 0x400, 8), 32);
    assert_eq!(emu_first_int(&ctx(base + 0xc08, 4, false), 0xc00, 2), 32);
    assert_eq!(emu_irouter_first_int(&ctx(base + 0x6100, 8, false)), 32);
    assert!(gic_is_priv(31));
    assert!(!gic_is_priv(32));
}

#[test]
fn bit_registers() {
    assert_eq!(bit_register_write_ints(32, 0b1010_0001, 4), vec![32, 37, 39]);
    assert_eq!(bit_register_write_ints(0, 0, 4), Vec::<usize>::new());
    assert_eq!(bit_register_read(&vec![true, false, true, true]), 0b1101);
    assert_eq!(bit_register_read(&vec![]), 0);
}

#[test]
fn field_registers() {
    assert_eq!(field_register_writes(32, 0x1122_3344, 4, 8), vec![(32, 0x44), (33, 0x33), (34, 0x22), (35, 0x11)]);
    assert_eq!(field_register_writes(16, 0b10_00_11, 1, 2), vec![(16, 0b11), (17, 0), (18, 0b10), (19, 0)]);
    assert_eq!(field_register_read(&vec![0x44, 0x33], 8), 0x3344);
    assert_eq!(field_register_read(&vec![2, 0, 3], 2), 0b11_00_10);
}

#[test]
fn list_register_values() {
    // software SGI 1, pending
    assert_eq!(gich_lr_value(1, 0xff, 1, false), 0x50ff_0000_0000_0001);
    // software SPI 40, pending: asks for an EOI maintenance interrupt
    assert_eq!(gich_lr_value(40, 0xa0, 1, false), 0x50a0_0200_0000_0028);
    // hardware SPI 40, pending and active: shown active, with its physical id
    assert_eq!(gich_lr_value(40, 0xa0, 3, true), 0xb0a0_0028_0000_0028);
}

#[test]
fn sgi_register_write() {
    let w = ctx(0, 8, true);
    let phys = vec![2, 0, 3, 1];
    // Virtual CPUs 1 and 2 run on physical CPUs 0 and 3.
    assert_eq!(vgic_icc_sgir_handler(&w, (3u64 << 24) | 0b110, 0b1111, 0, &phys), Some((3, 0b1001)));
    assert_eq!(vgic_icc_sgir_handler(&w, (1u64 << 40) | (5u64 << 24), 0b1111, 1, &phys), Some((5, 0b1101)));
    assert_eq!(vgic_icc_sgir_handler(&ctx(0, 8, false), 0, 0b1111, 1, &phys), None);
    assert_eq!(vgic_icc_sgir_handler(&w, 1u64 << 40, 0b1111, 40, &phys), Some((0, 0b1111)));
}

#[test]
fn ipi_message_decoding() {
    let msg = IpiInitcMessage { event: InitcEvent::VgicdSetEn, vm_id: 2, int_id: 40, val: 1 };
    assert_eq!(vgic_ipi_handler(Some(msg), Some(2)), VgicIpiAction::SetEnable { int_id: 40, en: true });
    assert_eq!(vgic_ipi_handler(Some(msg), Some(3)), VgicIpiAction::ForeignVm);
    assert_eq!(vgic_ipi_handler(Some(msg), None), VgicIpiAction::UnknownVm);
    assert_eq!(vgic_ipi_handler(None, Some(2)), VgicIpiAction::IllegalIpi);
    let route = IpiInitcMessage { event: InitcEvent::VgicdRoute, vm_id: 2, int_id: 1064, val: 0 };
    assert_eq!(vgic_ipi_handler(Some(route), Some(2)), VgicIpiAction::Route { int_id: 40 });
    let other = IpiInitcMessage { event: InitcEvent::NoEvent, vm_id: 2, int_id: 0, val: 0 };
    assert_eq!(vgic_ipi_handler(Some(other), Some(2)), VgicIpiAction::UnknownEvent);
}

#[test]
fn sgi_targets_translate_per_byte() {
    let phys = vec![2, 0, 3, 1];
    assert_eq!(vgic_target_translate(&phys, 0b0001), 0b0100);
    assert_eq!(vgic_target_translate(&phys, 0b1111), 0b1111);
    // The second byte's virtual CPU 0 lands on physical CPU 2 of that byte.
    assert_eq!(vgic_target_translate(&phys, 0x100), 0x400);
    // Virtual CPUs without a physical CPU are dropped.
    assert_eq!(vgic_target_translate(&phys, 0b1_0000), 0);
}

#[test]
fn sgi_message_and_targets() {
    let (m, cpus) = vgic_send_sgi_msg(2, 0b1010, 7, 4);
    assert_eq!(m, IpiInitcMessage { event: InitcEvent::Vgicdinject, vm_id: 2, int_id: 7, val: 1 });
    assert_eq!(cpus, vec![1, 3]);
    let (_, cpus) = vgic_send_sgi_msg(2, 0b1010, 7, 2);
    assert_eq!(cpus, vec![1]);
}

use shyper::arch::riscv64::aplic::{SourceModes, APLIC};
use shyper::arch::riscv64::plic::{MmioWrite, PLICMode};
use shyper::arch::riscv64::vaplic::{vaplic_word_offset, vm_has_interrupt, VAPlicInner};
use shyper::arch::riscv64::vplic::{decode_vplic_reg, emu_intc_init, InjectAction, PlicForward, VPlicInner, VplicReg};

const BASE: usize = 0x0c00_0000;

fn no_passthrough() -> Vec<bool> {
    vec![false; 512]
}

#[test]
fn vplic_register_decoding() {
    assert_eq!(decode_vplic_reg(0x28), VplicReg::Priority(10));
    assert_eq!(decode_vplic_reg(0x1004), VplicReg::Pending(1));
    assert_eq!(decode_vplic_reg(0x2080), VplicReg::Enable { index: 0, mode: PLICMode::Machine, hart: 0 });
    assert_eq!(decode_vplic_reg(0x2104), VplicReg::Enable { index: 1, mode: PLICMode::Supervisor, hart: 0 });
    assert_eq!(decode_vplic_reg(0x20_0000), VplicReg::Threshold { mode: PLICMode::Machine, hart: 0 });
    assert_eq!(decode_vplic_reg(0x20_2004), VplicReg::Claim { mode: PLICMode::Supervisor, hart: 1 });
    assert_eq!(decode_vplic_reg(0x20_0008), VplicReg::Ignored);
}

#[test]
fn vplic_starts_empty() {
    let v = emu_intc_init(BASE);
    assert_eq!(v.get_emulated_base_addr(), BASE);
    assert_eq!(v.get_priority(10), 0);
    assert!(!v.get_pending(10));
    assert!(!v.get_enable(10, PLICMode::Machine, 0));
    assert_eq!(v.get_threshold(PLICMode::Machine, 0), 0);
    assert_eq!(v.get_pending_irq(PLICMode::Machine, 0), 0);
}

#[test]
fn vplic_inject_then_claim() {
    let mut v = VPlicInner::new(BASE);
    let pcpus = vec![Some(0usize)];
    // priority of source 10, enable it for hart 0 in machine mode
    assert!(v.vm_write_register(BASE + 0x28, 1, &no_passthrough(), &pcpus).is_empty());
    assert!(v.vm_write_register(BASE + 0x2080, 1 << 10, &no_passthrough(), &pcpus).is_empty());
    assert_eq!(v.vm_read_register(BASE + 0x2080), 1 << 10);
    assert!(v.inject_external_intr(10, 0));
    assert_eq!(v.vm_read_register(BASE + 0x1000), 1 << 10);
    assert_eq!(v.vm_read_register(BASE + 0x20_0004), 10);
    // the one pending injection is taken
    assert_eq!(v.vm_read_register(BASE + 0x1000), 0);
    assert_eq!(v.vm_read_register(BASE + 0x20_0004), 0);
}

#[test]
fn vplic_threshold_masks_low_priority() {
    let mut v = VPlicInner::new(BASE);
    v.set_priority(10, 1, false);
    v.update_enable(10, PLICMode::Machine, 0, true, false, None);
    v.set_threshold(PLICMode::Machine, 0, 2);
    assert!(!v.inject_external_intr(10, 0));
    assert_eq!(v.get_claim(PLICMode::Machine, 0), 0);
    v.set_threshold(PLICMode::Machine, 0, 1);
    assert_eq!(v.get_pending_irq(PLICMode::Machine, 0), 10);
    assert_eq!(v.get_claim(PLICMode::Machine, 0), 10);
}

#[test]
fn vplic_lowest_ready_source_first() {
    let mut v = VPlicInner::new(BASE);
    for irq in [3usize, 7] {
        v.set_priority(irq, 1, false);
        v.update_enable(irq, PLICMode::Machine, 0, true, false, None);
    }
    v.inject_external_intr(7, 0);
    v.inject_external_intr(3, 0);
    assert_eq!(v.get_claim(PLICMode::Machine, 0), 3);
    assert_eq!(v.get_claim(PLICMode::Machine, 0), 7);
    assert_eq!(v.get_claim(PLICMode::Machine, 0), 0);
}

#[test]
fn vplic_passthrough_forwards() {
    let mut v = VPlicInner::new(BASE);
    assert_eq!(v.set_priority(5, 3, true), Some(PlicForward::SetPriorityOne(5)));
    assert_eq!(v.get_priority(5), 3);
    assert_eq!(
        v.update_enable(5, PLICMode::Supervisor, 1, true, true, Some(2)),
        Some(PlicForward::SetEnable { irq: 5, mode: PLICMode::Supervisor, pcpu: 2 })
    );
    assert_eq!(
        v.update_enable(5, PLICMode::Supervisor, 1, false, true, Some(2)),
        Some(PlicForward::ClearEnable { irq: 5, mode: PLICMode::Supervisor, pcpu: 2 })
    );
    assert_eq!(v.set_priority(0, 3, true), None);
    // hart 0 has no supervisor context
    assert_eq!(v.update_enable(5, PLICMode::Supervisor, 0, true, true, Some(2)), None);
    assert!(!v.get_enable(5, PLICMode::Supervisor, 0));
}

#[test]
fn vplic_timer_and_software_injection() {
    let mut v = VPlicInner::new(BASE);
    assert_eq!(v.inject_intr(62, 0), InjectAction::Timer);
    assert_eq!(v.inject_intr(60, 0), InjectAction::Software);
    assert_eq!(v.inject_intr(10, 0), InjectAction::External(false));
    assert!(v.get_pending(10));
}

#[test]
fn vaplic_domaincfg_write_and_read() {
    let global = APLIC::new(0x0d00_0000, 0x8000);
    let mut v = VAPlicInner::new(0x0c00_0000);
    let w = v.vm_write_register(&global, 0x0c00_0000, 0x104, &vec![]);
    assert_eq!(w, vec![MmioWrite { addr: 0x0d00_0000, value: 0x104 }]);
    assert_eq!(v.vm_read_register(0x0c00_0000), 0x104);
    assert!(v.get_msimode());
}

#[test]
fn vaplic_target_in_msi_mode() {
    let global = APLIC::new(0x0d00_0000, 0x8000);
    let mut v = VAPlicInner::new(0x0c00_0000);
    v.vm_write_register(&global, 0x0c00_0000, 0x104, &vec![]);
    let irqs = vec![false, true];
    let w = v.vm_write_register(&global, 0x0c00_3004, (1 << 18) | (2 << 12) | 5, &irqs);
    assert_eq!(w, vec![MmioWrite { addr: 0x0d00_3004, value: (1 << 18) | (3 << 12) | 5 }]);
    // a source the VM does not have is only configured virtually
    let w = v.vm_write_register(&global, 0x0c00_3008, (1 << 18) | 5, &irqs);
    assert!(w.is_empty());
}

#[test]
fn vaplic_target_in_direct_mode() {
    let global = APLIC::new(0x0d00_0000, 0x8000);
    let mut v = VAPlicInner::new(0x0c00_0000);
    let w = v.vm_write_register(&global, 0x0c00_3004, (2 << 18) | 0x1ff, &vec![false, true]);
    assert_eq!(w, vec![MmioWrite { addr: 0x0d00_3004, value: (2 << 18) | 0xff }]);
}

#[test]
fn vaplic_sourcecfg() {
    let global = APLIC::new(0x0d00_0000, 0x8000);
    let mut v = VAPlicInner::new(0x0c00_0000);
    let w = v.vm_write_register(&global, 0x0c00_0004, 6, &vec![false, true]);
    assert_eq!(w, vec![MmioWrite { addr: 0x0d00_0004, value: 6 }]);
    assert_eq!(v.get_sourcecfg(1), 6);
    let w = v.vm_write_register(&global, 0x0c00_0008, (1 << 10) | 3, &vec![false, true, true]);
    assert_eq!(w, vec![MmioWrite { addr: 0x0d00_0008, value: (1 << 10) | 3 }]);
    assert_eq!(v.set_sourcecfg(&global, 3, SourceModes::Detached, false), None);
    assert_eq!(v.get_sourcecfg(3), 1);
}

#[test]
fn vaplic_pending_words() {
    let global = APLIC::new(0x0d00_0000, 0x8000);
    let mut v = VAPlicInner::new(0x0c00_0000);
    assert_eq!(v.set_pending(&global, 1, 0xff, false), MmioWrite { addr: 0x0d00_1d04, value: 0xff });
    assert_eq!(v.get_in_clrip(1), 0xff);
    assert_eq!(v.vm_read_register(0x0c00_1d04), 0xff);
    assert_eq!(v.set_pending(&global, 1, 0xf, true), MmioWrite { addr: 0x0d00_1c04, value: 0xf });
    assert_eq!(v.get_pending(1), 0xf);
    assert_eq!(v.set_enable(&global, 2, 3, true), MmioWrite { addr: 0x0d00_1e08, value: 3 });
    assert_eq!(v.get_enable(2), 3);
}

#[test]
fn vaplic_helpers() {
    assert_eq!(vaplic_word_offset(0x1000, 0x1007), 4);
    assert!(vm_has_interrupt(&vec![false, true], 1));
    assert!(!vm_has_interrupt(&vec![false, true], 2));
    let v = VAPlicInner::new(0);
    assert_eq!(v.inject_intr(62), Some(InjectAction::Timer));
    assert_eq!(v.inject_intr(10), None);
}

use shyper::arch::riscv64::aplic::{msimode_of, APLICTrait, SourceModes, APLIC};
use shyper::arch::riscv64::plic::{get_pending_list, MmioBit, MmioWrite, PLICMode, PLICTrait, PLIC};

#[test]
fn plic_priority_registers() {
    let p = PLIC::new(0x0c00_0000);
    assert_eq!(p.get_base_addr(), 0x0c00_0000);
    assert_eq!(p.get_priority(10), Some(0x0c00_0028));
    assert_eq!(p.get_priority(0), None);
    assert_eq!(p.get_priority(512), None);
    assert_eq!(p.set_priority(1, 7), Some(MmioWrite { addr: 0x0c00_0004, value: 7 }));
}

#[test]
fn plic_pending_and_enable_bits() {
    let p = PLIC::new(0x0c00_0000);
    assert_eq!(p.get_pending(33), Some(MmioBit { addr: 0x0c00_1004, mask: 1 << 1 }));
    assert_eq!(
        p.get_enable(33, PLICMode::Supervisor, 1),
        Some(MmioBit { addr: 0x0c00_2204, mask: 1 << 1 })
    );
    assert_eq!(p.set_enable(5, PLICMode::Machine, 0), Some(MmioBit { addr: 0x0c00_2080, mask: 1 << 5 }));
    assert_eq!(p.clear_enable(0, PLICMode::Machine, 0), None);
    assert_eq!(p.get_enable_array_addr(64, PLICMode::Supervisor, 0), Some(0x0c00_2108));
}

#[test]
fn plic_threshold_and_claim() {
    let p = PLIC::new(0x0c00_0000);
    assert_eq!(p.get_threshold(PLICMode::Supervisor, 1), Some(0x0c20_4000));
    assert_eq!(p.get_prio_claim_baseaddr(PLICMode::Machine, 0), Some(0x0c20_1000));
    assert_eq!(p.get_claim(PLICMode::Supervisor, 0), Some(0x0c20_2004));
    assert_eq!(
        p.set_threshold(PLICMode::Supervisor, 0, 3),
        Some(MmioWrite { addr: 0x0c20_2000, value: 3 })
    );
    assert_eq!(
        p.set_complete(PLICMode::Supervisor, 0, 10),
        Some(MmioWrite { addr: 0x0c20_2004, value: 10 })
    );
}

#[test]
fn plic_pending_list_in_order() {
    let mut words = vec![0u32; 16];
    words[0] = 0b101; // sources 0 (not a source) and 2
    words[1] = 1 << 3; // source 35
    words[15] = 1 << 31; // source 511
    assert_eq!(get_pending_list(&words), vec![2, 35, 511]);
    assert_eq!(get_pending_list(&vec![0u32; 16]), Vec::<usize>::new());
}

#[test]
fn aplic_domain_configuration() {
    let a = APLIC::new(0x0d00_0000, 0x8000);
    assert_eq!(a.get_base_addr(), 0x0d00_0000);
    assert_eq!(a.set_domaincfg(false, true, true), MmioWrite { addr: 0x0d00_0000, value: 0x104 });
    assert_eq!(a.get_domaincfg(), 0x0d00_0000);
    assert!(msimode_of(0x104));
    assert!(!msimode_of(0x100));
}

#[test]
fn aplic_sources() {
    let a = APLIC::new(0x0d00_0000, 0x8000);
    assert_eq!(SourceModes::LevelHigh.code(), 6);
    assert_eq!(a.set_sourcecfg(1, SourceModes::RisingEdge), MmioWrite { addr: 0x0d00_0004, value: 4 });
    assert_eq!(a.set_sourcecfg_delegate(3, 2), MmioWrite { addr: 0x0d00_000c, value: (1 << 10) | 2 });
    assert_eq!(a.get_sourcecfg(3), 0x0d00_000c);
}

#[test]
fn aplic_pending_and_enable() {
    let a = APLIC::new(0x0d00_0000, 0x8000);
    assert_eq!(a.set_pending(1, 0xf0, true), MmioWrite { addr: 0x0d00_1c04, value: 0xf0 });
    assert_eq!(a.set_pending(1, 0xf0, false), MmioWrite { addr: 0x0d00_1d04, value: 0xf0 });
    assert_eq!(a.get_pending(2), 0x0d00_1c08);
    assert_eq!(a.get_in_clrip(2), 0x0d00_1d08);
    assert_eq!(a.set_enable(0, 1, true), MmioWrite { addr: 0x0d00_1e00, value: 1 });
    assert_eq!(a.set_enable(0, 1, false), MmioWrite { addr: 0x0d00_1f00, value: 1 });
    assert_eq!(a.get_enable(3), 0x0d00_1e0c);
    assert_eq!(a.get_clr_enable(3), 0x0d00_1f0c);
    assert_eq!(a.set_enable_num(9), MmioWrite { addr: 0x0d00_1edc, value: 9 });
    assert_eq!(a.clr_enable_num(9), MmioWrite { addr: 0x0d00_1fdc, value: 9 });
    assert_eq!(a.set_pending_num(9), MmioWrite { addr: 0x0d00_1cdc, value: 9 });
    assert_eq!(a.setipnum_le(9), MmioWrite { addr: 0x0d00_2000, value: 9 });
}

#[test]
fn aplic_targets() {
    let a = APLIC::new(0x0d00_0000, 0x8000);
    let (lo, hi) = a.set_msiaddr(0x2800_0000);
    assert_eq!(lo, MmioWrite { addr: 0x0d00_1bc8, value: 0x28000 });
    assert_eq!(hi, MmioWrite { addr: 0x0d00_1bcc, value: 0 });
    assert_eq!(a.set_target_msi(2, 1, 3, 7), MmioWrite { addr: 0x0d00_3008, value: (1 << 18) | (3 << 12) | 7 });
}

#[test]
fn aplic_direct_target() {
    let a = APLIC::new(0x0d00_0000, 0x8000);
    assert_eq!(a.set_target_direct(1, 2, 0x1ff), MmioWrite { addr: 0x0d00_3004, value: (2 << 18) | 0xff });
}

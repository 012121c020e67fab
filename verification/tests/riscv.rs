use shyper::arch::riscv64::context_frame::{Riscv64ContextFrame, VmContext};
use shyper::arch::riscv64::imsic::{imsic_num_bits, imsic_trigger_addr, imsic_vs};
use shyper::arch::riscv64::interrupt::{riscv_get_pending_irqs, IRQ_HYPERVISOR_TIMER, IRQ_IPI};
use shyper::arch::riscv64::page_fault::{
    get_ins_size, inst_ldst_decode, inst_width, is_compressed, is_pseudo_ins, ldst_guest_page_fault_handler,
    read_inst_halves, transformed_inst_size,
};
use shyper::arch::aarch64::page_table::{FramePool, PageFrame};
use shyper::arch::riscv64::page_table::{
    pt_lvl0_idx, pt_lvl1_idx, pt_lvl2_idx, PageTable as RvPageTable, Riscv64PTEntry, PTE_S2_NORMAL, PTE_V,
};
use shyper::arch::riscv64::regs::{get_index_by_regname, riscv_reg_name};
use shyper::arch::riscv64::start::{boot_core, is_boot_core};
use shyper::arch::riscv64::timer::timer_arch_get_frequency;
use shyper::arch::traits::ArchPageTableEntryTrait;
use shyper::device::EmuContext;

#[test]
fn sv39x4_indices() {
    let va: usize = 0x1_4060_3000;
    assert_eq!(pt_lvl0_idx(va), 5);
    assert_eq!(pt_lvl1_idx(va), 3);
    assert_eq!(pt_lvl2_idx(va), 3);
}

#[test]
fn pte_address_roundtrip() {
    let e = Riscv64PTEntry::from_pa(0x8020_3000);
    assert_eq!(e.to_pte(), 0x8020_3000 >> 2);
    assert_eq!(e.to_pa(), 0x8020_3000);
    assert!(!e.valid());
    let t = Riscv64PTEntry::make_table(0x8000_1000);
    assert_eq!(t.to_pte(), (0x8000_1000 >> 2) | PTE_V);
    assert!(t.valid());
    assert_eq!(t.to_pa(), 0x8000_1000);
}

#[test]
fn decode_standard_load() {
    // lw a0, 8(a1)
    assert_eq!(
        inst_ldst_decode(0x0085_a503),
        Some(EmuContext { address: 0, width: 4, write: false, sign_ext: true, reg: 10, reg_width: 8 })
    );
    // lbu a0, 0(a1)
    assert_eq!(
        inst_ldst_decode(0x0005_c503),
        Some(EmuContext { address: 0, width: 1, write: false, sign_ext: false, reg: 10, reg_width: 8 })
    );
}

#[test]
fn decode_standard_store() {
    // sd a1, 0(a0)
    assert_eq!(
        inst_ldst_decode(0x00b5_3023),
        Some(EmuContext { address: 0, width: 8, write: true, sign_ext: true, reg: 11, reg_width: 8 })
    );
}

#[test]
fn decode_compressed() {
    // c.lw a0, 0(a1)
    assert_eq!(
        inst_ldst_decode(0x4188),
        Some(EmuContext { address: 0, width: 4, write: false, sign_ext: true, reg: 10, reg_width: 8 })
    );
    // c.sw a0, 0(a1)
    assert_eq!(
        inst_ldst_decode(0xc188),
        Some(EmuContext { address: 0, width: 4, write: true, sign_ext: true, reg: 10, reg_width: 8 })
    );
    // c.addi is no load or store
    assert_eq!(inst_ldst_decode(0x0505), None);
}

#[test]
fn decode_other() {
    // addi a0, a0, 1
    assert_eq!(inst_ldst_decode(0x0015_0513), None);
}

#[test]
fn instruction_sizes() {
    assert_eq!(get_ins_size(0x4188), 2);
    assert_eq!(get_ins_size(0x0085_a503), 4);
    assert!(is_compressed(0x4188));
    assert!(!is_compressed(0x0085_a503));
    assert_eq!(transformed_inst_size(0x0000_2000), 2);
    assert_eq!(transformed_inst_size(0x0000_2003), 4);
    assert!(is_pseudo_ins(0x3000));
    assert!(is_pseudo_ins(0x3020));
    assert!(!is_pseudo_ins(0x3003));
    assert_eq!(inst_width(0), 1);
    assert_eq!(inst_width(1), 2);
    assert_eq!(inst_width(2), 4);
    assert_eq!(inst_width(3), 8);
    assert_eq!(inst_width(6), 4);
}

#[test]
fn instruction_halves() {
    assert_eq!(read_inst_halves(0x4188, 0xffff), 0x4188);
    assert_eq!(read_inst_halves(0xa503, 0x0085), 0x0085_a503);
}

#[test]
fn page_fault_from_transformed_instruction() {
    // htinst holds the transformed lw with bit 1 clear: a compressed original.
    let (ctx, pc) = ldst_guest_page_fault_handler(0x0400_0001, 0x2, 0x0000_a501, 0, 0x8000_0000);
    assert_eq!(ctx, EmuContext { address: 0x1000_0006, width: 4, write: false, sign_ext: true, reg: 10, reg_width: 8 });
    assert_eq!(pc, 0x8000_0002);
}

#[test]
fn page_fault_from_guest_instruction() {
    let (ctx, pc) = ldst_guest_page_fault_handler(0x0400_0000, 0x1, 0, 0x00b5_3023, 0x8000_0000);
    assert_eq!(ctx, EmuContext { address: 0x1000_0001, width: 8, write: true, sign_ext: true, reg: 11, reg_width: 8 });
    assert_eq!(pc, 0x8000_0004);
}

#[test]
fn pending_irq_by_cause() {
    assert_eq!(riscv_get_pending_irqs(1, 0), Some(IRQ_IPI));
    assert_eq!(riscv_get_pending_irqs(5, 7), Some(IRQ_HYPERVISOR_TIMER));
    assert_eq!(riscv_get_pending_irqs(9, 0), None);
    assert_eq!(riscv_get_pending_irqs(9, 33), Some(33));
}

#[test]
fn imsic_addresses() {
    assert_eq!(imsic_vs(2), 0x2800_8000);
    assert_eq!(imsic_num_bits(1), 0);
    assert_eq!(imsic_num_bits(4), 2);
    assert_eq!(imsic_num_bits(5), 3);
    assert_eq!(imsic_trigger_addr(3, 1, 2), 0x2800_6000);
    assert_eq!(imsic_trigger_addr(3, 0, 0), 0x2800_0000);
}

#[test]
fn register_names() {
    assert_eq!(riscv_reg_name(0), "zero");
    assert_eq!(riscv_reg_name(10), "a0");
    assert_eq!(riscv_reg_name(31), "t6");
    assert_eq!(get_index_by_regname("sp"), 2);
    assert_eq!(get_index_by_regname("s11"), 27);
}

#[test]
fn boot_and_timer() {
    assert_eq!(boot_core(), 0);
    assert!(is_boot_core(0));
    assert!(!is_boot_core(3));
    assert_eq!(timer_arch_get_frequency(), 10_000_000);
}

#[test]
fn context_defaults() {
    let f = Riscv64ContextFrame::default();
    assert_eq!(f.gpr, [0u64; 32]);
    assert_eq!(f.sepc, 0);
    let mut c = VmContext::default_with_hstatus(0x2_0000_0000);
    assert_eq!(c.hstatus, 0x2_0000_0080);
    c.hvip = 5;
    c.reset(0x80);
    assert_eq!(c.hstatus, 0x80);
    assert_eq!(c.hvip, 0);
}

fn rv_pool(n: usize) -> FramePool {
    let mut frames = Vec::new();
    for i in 0..n {
        frames.push(PageFrame { pa: 0x9000_0000 + i * 0x1000 });
    }
    FramePool::new(frames)
}

/// The raw leaf entry for the page holding `ipa`, where its tables exist.
fn rv_entry(pt: &RvPageTable, ipa: usize) -> Option<usize> {
    let i0 = (ipa >> 30) & 2047;
    let i1 = (ipa >> 21) & 511;
    let i2 = (ipa >> 12) & 511;
    match &pt.root[i0] {
        None => None,
        Some(m) => match &m.entries[i1] {
            None => None,
            Some(t) => Some(t.entries[i2]),
        },
    }
}

#[test]
fn riscv_map_then_unmap_frees_tables() {
    let mut pool = rv_pool(4);
    let mut pt = RvPageTable::new(PageFrame { pa: 0x8000_0000 });
    assert_eq!(pt.base_pa(), 0x8000_0000);
    pt.map(&mut pool, 0x8020_3000, 0x1_0000_0000, PTE_S2_NORMAL);
    assert_eq!(rv_entry(&pt, 0x8020_3000), Some((0x1_0000_0000 >> 2) | PTE_S2_NORMAL));
    assert_eq!(pool.frames.len(), 2);
    assert_eq!(pt.pages.len(), 2);
    // A valid entry is kept.
    pt.map(&mut pool, 0x8020_3000, 0x2_0000_0000, PTE_S2_NORMAL);
    assert_eq!(rv_entry(&pt, 0x8020_3000), Some((0x1_0000_0000 >> 2) | PTE_S2_NORMAL));
    pt.unmap(&mut pool, 0x8020_3000);
    assert_eq!(rv_entry(&pt, 0x8020_3000), None);
    assert_eq!(pool.frames.len(), 4);
    assert_eq!(pt.pages.len(), 0);
}

#[test]
fn riscv_map_range_maps_each_page() {
    let mut pool = rv_pool(8);
    let mut pt = RvPageTable::new(PageFrame { pa: 0x8000_0000 });
    pt.pt_map_range(&mut pool, 0x4000_0000, 0x3000, 0x1000_0000, PTE_S2_NORMAL, true);
    for k in 0..3 {
        assert_eq!(rv_entry(&pt, 0x4000_0000 + k * 0x1000), Some(((0x1000_0000 + k * 0x1000) >> 2) | PTE_S2_NORMAL));
    }
    assert_eq!(rv_entry(&pt, 0x4000_3000), Some(0));
    pt.pt_unmap_range(&mut pool, 0x4000_0000, 0x2000, false);
    assert_eq!(rv_entry(&pt, 0x4000_0000), Some(0));
    assert_eq!(rv_entry(&pt, 0x4000_2000), Some((0x1000_2000 >> 2) | PTE_S2_NORMAL));
    pt.unmap_range(&mut pool, 0x4000_2000, 0x1000);
    assert_eq!(rv_entry(&pt, 0x4000_2000), None);
    assert_eq!(pool.frames.len(), 8);
}

use shyper::arch::aarch64::page_table::{
    empty_page, pt_lvl0_idx, pt_lvl1_idx, pt_lvl2_idx, pt_lvl3_idx, pte_s1_field_attr_indx, round_up, FramePool,
    L2Entry, PageFrame, PageTable, PTE_S2_NORMAL,
};

fn pool(n: usize) -> FramePool {
    let mut frames = Vec::new();
    for i in 0..n {
        frames.push(PageFrame { pa: 0x8000_0000 + i * 0x1000 });
    }
    FramePool::new(frames)
}

/// The descriptor that maps the page holding `ipa`, if any.
fn lookup(pt: &PageTable, ipa: usize) -> Option<usize> {
    let i1 = (ipa >> 30) & 511;
    let i2 = (ipa >> 21) & 511;
    let i3 = (ipa >> 12) & 511;
    match &pt.l1[i1] {
        None => None,
        Some(t2) => match &t2.entries[i2] {
            L2Entry::Invalid => None,
            L2Entry::Block(raw) => Some(*raw),
            L2Entry::Table(t3) => {
                if t3.entries[i3] & 3 != 0 {
                    Some(t3.entries[i3])
                } else {
                    None
                }
            }
        },
    }
}

#[test]
fn level_indices() {
    let va: usize = 0x0000_0081_4060_3000;
    assert_eq!(pt_lvl0_idx(va), 1);
    assert_eq!(pt_lvl1_idx(va), 5);
    assert_eq!(pt_lvl2_idx(va), 3);
    assert_eq!(pt_lvl3_idx(va), 3);
}

#[test]
fn attr_index_field() {
    assert_eq!(pte_s1_field_attr_indx(3), 12);
}

#[test]
fn round_up_to_page() {
    assert_eq!(round_up(0x1001, 0x1000), 0x2000);
    assert_eq!(round_up(0x2000, 0x1000), 0x2000);
    assert_eq!(round_up(0, 0x1000), 0);
}

#[test]
fn empty_page_check() {
    assert!(empty_page(&vec![0; 512]));
    let mut v = vec![0; 512];
    v[511] = 1;
    assert!(!empty_page(&v));
}

#[test]
fn new_table_maps_nothing() {
    let pt = PageTable::new(PageFrame { pa: 0x4000_0000 });
    assert_eq!(pt.base_pa(), 0x4000_0000);
    assert_eq!(lookup(&pt, 0x1000), None);
}

#[test]
fn map_then_read_back() {
    let mut pt = PageTable::new(PageFrame { pa: 0x4000_0000 });
    let mut p = pool(4);
    pt.map(&mut p, 0x4000_1000, 0x9000_0000, PTE_S2_NORMAL);
    assert_eq!(lookup(&pt, 0x4000_1000), Some(0x9000_0000 | 3 | PTE_S2_NORMAL));
    assert_eq!(lookup(&pt, 0x4000_2000), None);
    // One level-2 and one level-3 table page, taken from the end of the pool.
    assert_eq!(p.frames.len(), 2);
}

#[test]
fn map_without_frames_maps_nothing() {
    let mut pt = PageTable::new(PageFrame { pa: 0x4000_0000 });
    let mut p = pool(0);
    pt.map(&mut p, 0x4000_1000, 0x9000_0000, PTE_S2_NORMAL);
    assert_eq!(lookup(&pt, 0x4000_1000), None);
}

#[test]
fn unmap_removes_only_that_page() {
    let mut pt = PageTable::new(PageFrame { pa: 0x4000_0000 });
    let mut p = pool(4);
    pt.map(&mut p, 0x4000_1000, 0x9000_0000, PTE_S2_NORMAL);
    pt.map(&mut p, 0x4000_2000, 0x9000_1000, PTE_S2_NORMAL);
    pt.unmap(&mut p, 0x4000_1000);
    assert_eq!(lookup(&pt, 0x4000_1000), None);
    assert_eq!(lookup(&pt, 0x4000_2000), Some(0x9000_1000 | 3 | PTE_S2_NORMAL));
}

#[test]
fn map_range_pages() {
    let mut pt = PageTable::new(PageFrame { pa: 0x4000_0000 });
    let mut p = pool(8);
    pt.pt_map_range(&mut p, 0x1000_0000, 0x3000, 0x8800_0000, PTE_S2_NORMAL, false);
    for k in 0..3 {
        assert_eq!(lookup(&pt, 0x1000_0000 + k * 0x1000), Some((0x8800_0000 + k * 0x1000) | 3 | PTE_S2_NORMAL));
    }
    assert_eq!(lookup(&pt, 0x1000_3000), None);
    pt.pt_unmap_range(&mut p, 0x1000_0000, 0x3000, false);
    for k in 0..3 {
        assert_eq!(lookup(&pt, 0x1000_0000 + k * 0x1000), None);
    }
}

#[test]
fn map_range_blocks() {
    let mut pt = PageTable::new(PageFrame { pa: 0x4000_0000 });
    let mut p = pool(8);
    pt.pt_map_range(&mut p, 0x4000_0000, 0x40_0000, 0x8000_0000, PTE_S2_NORMAL, true);
    assert_eq!(lookup(&pt, 0x4000_0000), Some(0x8000_0000 | PTE_S2_NORMAL | 1));
    assert_eq!(lookup(&pt, 0x4020_5000), Some(0x8020_0000 | PTE_S2_NORMAL | 1));
    pt.pt_unmap_range(&mut p, 0x4000_0000, 0x40_0000, true);
    assert_eq!(lookup(&pt, 0x4000_0000), None);
    assert_eq!(lookup(&pt, 0x4020_5000), None);
}

#[test]
fn frame_pool_is_last_in_first_out() {
    let mut p = pool(2);
    assert_eq!(p.alloc_frame().map(|f| f.pa()), Ok(0x8000_1000));
    p.free_frame(PageFrame { pa: 0x1234_0000 });
    assert_eq!(p.alloc_frame().map(|f| f.pa()), Ok(0x1234_0000));
    assert_eq!(p.alloc_frame().map(|f| f.pa()), Ok(0x8000_0000));
    assert!(p.alloc_frame().is_err());
}

#[test]
fn page_calls_under_a_block_change_nothing() {
    let mut p = pool(4);
    let mut pt = PageTable::new(PageFrame { pa: 0x9000_0000 });
    pt.map_2mb(&mut p, 0x4000_0000, 0x8000_0000, PTE_S2_NORMAL);
    let block = lookup(&pt, 0x4000_3000);
    assert!(block.is_some());
    let frames = p.frames.len();
    pt.map(&mut p, 0x4000_3000, 0x1234_5000, PTE_S2_NORMAL);
    assert_eq!(lookup(&pt, 0x4000_3000), block);
    pt.unmap(&mut p, 0x4000_3000);
    assert_eq!(lookup(&pt, 0x4000_3000), block);
    pt.unmap_range(&mut p, 0x4000_0000, 0x4000);
    assert_eq!(lookup(&pt, 0x4000_1000), block);
    assert_eq!(p.frames.len(), frames);
}

#[test]
fn indices_recompose_the_address() {
    let va: usize = 0x0000_8143_6060_3abc;
    let back = (pt_lvl0_idx(va) << 39) | (pt_lvl1_idx(va) << 30) | (pt_lvl2_idx(va) << 21) | (pt_lvl3_idx(va) << 12) | (va & 0xfff);
    assert_eq!(back, va);
}

#[test]
fn map_records_the_frames_it_takes() {
    let mut p = pool(3);
    let mut pt = PageTable::new(PageFrame { pa: 0x9000_0000 });
    pt.map(&mut p, 0x4000_3000, 0x1234_5000, PTE_S2_NORMAL);
    let taken: Vec<usize> = pt.pages.iter().map(|f| f.pa).collect();
    assert_eq!(taken, vec![0x8000_2000, 0x8000_1000]);
    assert_eq!(p.frames.len(), 1);
    pt.map(&mut p, 0x4000_4000, 0x1234_6000, PTE_S2_NORMAL);
    assert_eq!(pt.pages.len(), 2);
}

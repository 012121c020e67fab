//! Entries and indexes of the RISC-V Sv39x4 guest page table.
use vstd::prelude::*;

use crate::arch::aarch64::page_table::{
    all_zero, empty_page, frames_taken, nth_page, retain_other_frames, round_up, without_frame, zeroed_entries, FramePool,
    PageFrame,
};
use crate::arch::aarch64::vgicv3::lemma_low_bits;
use crate::arch::traits::ArchPageTableEntryTrait;

verus! {

pub const PAGE_SIZE: usize = 4096;
pub const PTE_PER_PAGE: usize = 512;

pub const LVL0_SHIFT: usize = 30;
pub const LVL1_SHIFT: usize = 21;
pub const LVL2_SHIFT: usize = 12;

pub const PTE_V: usize = 1;
pub const PTE_R: usize = 2;
pub const PTE_W: usize = 4;
pub const PTE_X: usize = 8;
pub const PTE_U: usize = 16;
pub const PTE_G: usize = 32;
pub const PTE_A: usize = 64;
pub const PTE_D: usize = 128;
pub const PTE_RSW: usize = 0x300;

pub const PTE_S2_NORMAL: usize = 0xdf;
pub const PTE_S2_DEVICE: usize = 0xdf;
pub const PTE_S2_NORMALNOCACHE: usize = 0xdf;
pub const PTE_S2_RO: usize = 0xd3;
pub const PTE_S2_FIELD_AP_RO: usize = 2;

/// The root-level index of a guest-physical address: bits 30 to 40 (the root
/// table of Sv39x4 has 2048 entries).
pub open spec fn lvl0_index(va: nat) -> nat {
    (va / 0x4000_0000) % 2048
}

/// The middle-level index of an address: bits 21 to 29.
pub open spec fn lvl1_index(va: nat) -> nat {
    (va / 0x20_0000) % 512
}

/// The leaf-level index of an address: bits 12 to 20.
pub open spec fn lvl2_index(va: nat) -> nat {
    (va / 0x1000) % 512
}

/// The bit facts behind the index functions.
proof fn lemma_index_bits()
    by (bit_vector)
    ensures
        forall|va: usize| #[trigger] ((va >> 30usize) & 2047usize) == (va / 0x4000_0000usize) % 2048,
        forall|va: usize| #[trigger] ((va >> 21usize) & 511usize) == (va / 0x20_0000usize) % 512,
        forall|va: usize| #[trigger] ((va >> 12usize) & 511usize) == (va / 0x1000usize) % 512,
{
}

/// The root-level index of a virtual address.
pub fn pt_lvl0_idx(va: usize) -> (r: usize)
    ensures
        r == lvl0_index(va as nat),
        r < 2048,
{
    let r = (va >> LVL0_SHIFT) & (PTE_PER_PAGE * 4 - 1);
    proof {
        lemma_index_bits();
        assert(r == (va / 0x4000_0000usize) % 2048);
    }
    r
}

/// The middle-level index of a virtual address.
pub fn pt_lvl1_idx(va: usize) -> (r: usize)
    ensures
        r == lvl1_index(va as nat),
        r < 512,
{
    let r = (va >> LVL1_SHIFT) & (PTE_PER_PAGE - 1);
    proof {
        lemma_index_bits();
    }
    r
}

/// The leaf-level index of a virtual address.
pub fn pt_lvl2_idx(va: usize) -> (r: usize)
    ensures
        r == lvl2_index(va as nat),
        r < 512,
{
    let r = (va >> LVL2_SHIFT) & (PTE_PER_PAGE - 1);
    proof {
        lemma_index_bits();
    }
    r
}

/// The page-number field of an entry for physical address `pa`: bits 12 to 53
/// of the address, moved down to bit 10.
pub open spec fn pte_of_pa(pa: usize) -> usize {
    (((pa as u64) & 0x003F_FFFF_FFFF_F000u64) >> 2u64) as usize
}

/// The physical address an entry points to: its bits 10 to 63, moved up to bit 12.
pub open spec fn pa_of_pte(pte: usize) -> usize {
    (((pte as u64) & 0xFFFF_FFFF_FFFF_FC00u64) << 2u64) as usize
}

/// A RISC-V page table entry.
#[derive(Clone, Copy, PartialEq, Eq, Structural, Debug)]
pub struct Riscv64PTEntry(pub usize);

impl ArchPageTableEntryTrait for Riscv64PTEntry {
    fn from_pte(value: usize) -> (e: Self)
        ensures
            e.0 == value,
    {
        Riscv64PTEntry(value)
    }

    fn from_pa(pa: usize) -> (e: Self)
        ensures
            e.0 == pte_of_pa(pa),
    {
        Riscv64PTEntry((((pa as u64) & 0x003F_FFFF_FFFF_F000u64) >> 2u64) as usize)
    }

    fn to_pte(&self) -> (r: usize)
        ensures
            r == self.0,
    {
        self.0
    }

    fn to_pa(&self) -> (r: usize)
        ensures
            r == pa_of_pte(self.0),
    {
        (((self.0 as u64) & 0xFFFF_FFFF_FFFF_FC00u64) << 2u64) as usize
    }

    fn valid(&self) -> (r: bool)
        ensures
            r == (self.0 & PTE_V != 0),
    {
        (self.0 & PTE_V) != 0
    }

    fn make_table(frame_pa: usize) -> (e: Self)
        ensures
            e.0 == (frame_pa >> 2usize) | PTE_V,
    {
        Riscv64PTEntry((frame_pa >> 2) | PTE_V)
    }
}


/// A leaf table: 512 raw entries.
pub struct LeafTable {
    pub frame: PageFrame,
    pub entries: Vec<usize>,
}

/// A middle table: 512 slots, each empty or holding a leaf table.
pub struct MidTable {
    pub frame: PageFrame,
    pub entries: Vec<Option<LeafTable>>,
}

impl MidTable {
    /// 512 slots, each leaf table of 512 entries.
    pub open spec fn wf(&self) -> bool {
        &&& self.entries@.len() == 512
        &&& forall|i: int|
            0 <= i < 512 ==> match #[trigger] self.entries@[i] {
                Some(t) => t.entries@.len() == 512,
                None => true,
            }
    }
}

/// Whether every slot of a middle table is empty.
pub open spec fn all_empty(s: Seq<Option<LeafTable>>) -> bool {
    forall|i: int| 0 <= i < s.len() ==> s[i] is None
}

fn empty_slots() -> (v: Vec<Option<LeafTable>>)
    ensures
        v@.len() == 512,
        all_empty(v@),
{
    let mut v: Vec<Option<LeafTable>> = Vec::new();
    let mut i: usize = 0;
    while i < 512
        invariant
            i <= 512,
            v@.len() == i,
            all_empty(v@),
        decreases 512 - i,
    {
        v.push(None);
        i = i + 1;
    }
    v
}

fn empty_mid_page(entries: &Vec<Option<LeafTable>>) -> (r: bool)
    ensures
        r == all_empty(entries@),
{
    let mut i: usize = 0;
    while i < entries.len()
        invariant
            i <= entries@.len(),
            forall|j: int| 0 <= j < i ==> entries@[j] is None,
        decreases entries@.len() - i,
    {
        if entries[i].is_some() {
            return false;
        }
        i = i + 1;
    }
    true
}

/// The G-stage page table of a VM: every mapping is a 4 KiB page in a leaf table.
pub struct PageTable {
    pub directory: PageFrame,
    /// The frames of the table pages below the root.
    pub pages: Vec<PageFrame>,
    /// The root table's 2048 slots.
    pub root: Vec<Option<MidTable>>,
}

/// Whether `(i0, i1, i2)` are indexes of the three levels.
pub open spec fn rv_in_range(i0: int, i1: int, i2: int) -> bool {
    0 <= i0 < 2048 && 0 <= i1 < 512 && 0 <= i2 < 512
}

/// The entry a page table holds for `pa` with the permission bits `pte`.
pub open spec fn leaf_entry(pa: usize, pte: usize) -> usize {
    (pa >> 2usize) | pte
}

impl PageTable {
    /// A root of 2048 slots whose middle tables are well formed.
    pub open spec fn wf(&self) -> bool {
        &&& self.root@.len() == 2048
        &&& forall|i: int|
            0 <= i < 2048 ==> match #[trigger] self.root@[i] {
                Some(t) => t.wf(),
                None => true,
            }
    }

    /// The raw leaf entry at `(i0, i1, i2)`, where its leaf table exists.
    pub open spec fn entry(&self, i0: int, i1: int, i2: int) -> Option<usize> {
        match self.root@[i0] {
            None => None,
            Some(m) => match m.entries@[i1] {
                None => None,
                Some(t) => Some(t.entries@[i2]),
            },
        }
    }

    /// The valid entry that maps `(i0, i1, i2)`, if any.
    pub open spec fn leaf(&self, i0: int, i1: int, i2: int) -> Option<usize> {
        match self.entry(i0, i1, i2) {
            Some(e) => if e % 2 == 1 {
                Some(e)
            } else {
                None
            },
            None => None,
        }
    }

    /// The valid entry that maps the page holding `ipa`, if any.
    pub open spec fn translate(&self, ipa: nat) -> Option<usize> {
        self.leaf(lvl0_index(ipa) as int, lvl1_index(ipa) as int, lvl2_index(ipa) as int)
    }

    /// The raw entry for the page holding `ipa`, where its leaf table exists.
    pub open spec fn entry_at(&self, ipa: nat) -> Option<usize> {
        self.entry(lvl0_index(ipa) as int, lvl1_index(ipa) as int, lvl2_index(ipa) as int)
    }

    /// The root slot for `ipa` holds a middle table.
    pub open spec fn root_used(&self, ipa: nat) -> bool {
        self.root@[lvl0_index(ipa) as int] is Some
    }

    /// The middle slot for `ipa` holds a leaf table.
    pub open spec fn mid_used(&self, ipa: nat) -> bool {
        match self.root@[lvl0_index(ipa) as int] {
            None => false,
            Some(m) => m.entries@[lvl1_index(ipa) as int] is Some,
        }
    }

    /// An empty page table under `directory`.
    pub fn new(directory: PageFrame) -> (pt: PageTable)
        ensures
            pt.wf(),
            pt.directory == directory,
            pt.pages@.len() == 0,
            forall|i0: int, i1: int, i2: int| rv_in_range(i0, i1, i2) ==> #[trigger] pt.entry(i0, i1, i2) is None,
    {
        let mut root: Vec<Option<MidTable>> = Vec::new();
        let mut i: usize = 0;
        while i < 2048
            invariant
                i <= 2048,
                root@.len() == i,
                forall|j: int| 0 <= j < i ==> root@[j] is None,
            decreases 2048 - i,
        {
            root.push(None);
            i = i + 1;
        }
        PageTable { directory, pages: Vec::new(), root }
    }

    /// The physical address of the root table.
    pub fn base_pa(&self) -> (r: usize)
        ensures
            r == self.directory.pa,
    {
        self.directory.pa()
    }

    /// Maps the 4 KiB page holding `ipa` to `pa` with the permission bits `pte`.
    ///
    /// Missing table pages are taken from `pool`; a missing middle table needs a
    /// frame (the caller provides one), and when no frame is left for a missing
    /// leaf table the page is left unmapped. A page with a valid entry keeps it.
    pub fn map(&mut self, pool: &mut FramePool, ipa: usize, pa: usize, pte: usize)
        requires
            old(self).wf(),
            old(self).root_used(ipa as nat) || old(pool).frames@.len() > 0,
        ensures
            final(self).wf(),
            final(self).directory == old(self).directory,
            forall|i0: int, i1: int, i2: int|
                rv_in_range(i0, i1, i2) && !(i0 == lvl0_index(ipa as nat) && i1 == lvl1_index(ipa as nat)
                    && i2 == lvl2_index(ipa as nat)) ==> #[trigger] final(self).leaf(i0, i1, i2) == old(self).leaf(
                    i0,
                    i1,
                    i2,
                ),
            forall|i0: int, i1: int, i2: int|
                rv_in_range(i0, i1, i2) && !(i0 == lvl0_index(ipa as nat) && i1 == lvl1_index(ipa as nat)
                    && i2 == lvl2_index(ipa as nat)) && old(self).entry(i0, i1, i2) is Some ==> #[trigger] final(self).entry(i0, i1, i2)
                    == old(self).entry(i0, i1, i2),
            forall|i0: int| 0 <= i0 < 2048 && old(self).root@[i0] is Some ==> #[trigger] final(self).root@[i0] is Some,
            final(self).root_used(ipa as nat),
            old(self).translate(ipa as nat) is Some ==> final(self).entry_at(ipa as nat) == old(self).entry_at(ipa as nat),
            old(self).translate(ipa as nat) is None && (old(self).mid_used(ipa as nat) || old(pool).frames@.len()
                >= (if old(self).root_used(ipa as nat) { 1nat } else { 2nat })) ==> final(self).entry_at(ipa as nat)
                == Some(leaf_entry(pa, pte)),
            old(self).translate(ipa as nat) is None ==> final(self).entry_at(ipa as nat) is None || final(self).entry_at(
                ipa as nat,
            ) == Some(leaf_entry(pa, pte)),
            final(pool).frames@.len() <= old(pool).frames@.len(),
            final(pool).frames@.len() + 2 >= old(pool).frames@.len(),
            final(pool).frames@ == old(pool).frames@.take(final(pool).frames@.len() as int),
            final(self).pages@ == old(self).pages@ + frames_taken(old(pool).frames@, final(pool).frames@.len()),
    {
        let i0 = pt_lvl0_idx(ipa);
        let i1 = pt_lvl1_idx(ipa);
        let i2 = pt_lvl2_idx(ipa);
        let desc = (pa >> 2) | pte;
        let ghost old_t = *self;
        let mut slot: Option<MidTable> = None;
        std::mem::swap(&mut slot, &mut self.root[i0]);
        let mut mid = match slot {
            Some(t) => t,
            None => match pool.alloc_frame() {
                Ok(frame) => {
                    self.pages.push(frame);
                    MidTable { frame, entries: empty_slots() }
                },
                Err(_) => {
                    assert(false);
                    return ;
                },
            },
        };
        let ghost mid_before = mid;
        let mut e1: Option<LeafTable> = None;
        std::mem::swap(&mut e1, &mut mid.entries[i1]);
        let mut leaf = match e1 {
            Some(t) => t,
            None => match pool.alloc_frame() {
                Ok(frame) => {
                    self.pages.push(frame);
                    LeafTable { frame, entries: zeroed_entries() }
                },
                Err(_) => {
                    self.root.set(i0, Some(mid));
                    proof {
                        assert forall|j: int| 0 <= j < 2048 implies match #[trigger] self.root@[j] {
                            Some(t) => t.wf(),
                            None => true,
                        } by {
                            if j != i0 {
                                assert(self.root@[j] == old_t.root@[j]);
                            } else {
                                let nm = self.root@[j]->Some_0;
                                assert forall|k: int| 0 <= k < 512 implies match #[trigger] nm.entries@[k] {
                                    Some(t) => t.entries@.len() == 512,
                                    None => true,
                                } by {
                                    if k != i1 {
                                        assert(nm.entries@[k] == mid_before.entries@[k]);
                                    }
                                }
                            }
                        }
                        assert forall|a: int, b: int, c: int|
                            rv_in_range(a, b, c) && !(a == i0 && b == i1 && c == i2) implies #[trigger] self.leaf(a, b, c)
                            == old_t.leaf(a, b, c) by {
                            if a != i0 {
                                assert(self.root@[a] == old_t.root@[a]);
                            } else if b != i1 {
                                assert(self.root@[a]->Some_0.entries@[b] == mid_before.entries@[b]);
                            }
                        }
                        assert forall|a: int, b: int, c: int|
                            rv_in_range(a, b, c) && !(a == i0 && b == i1 && c == i2) && old_t.entry(a, b, c) is Some implies #[trigger] self.entry(a, b, c)
                            == old_t.entry(a, b, c) by {
                            if a != i0 {
                                assert(self.root@[a] == old_t.root@[a]);
                            } else if b != i1 {
                                assert(self.root@[a]->Some_0.entries@[b] == mid_before.entries@[b]);
                            }
                        }
                    }
                    return ;
                },
            },
        };
        let ghost leaf_before = leaf;
        let cur = leaf.entries[i2];
        proof {
            lemma_low_bits(cur);
        }
        if cur & PTE_V == 0 {
            leaf.entries.set(i2, desc);
        }
        mid.entries.set(i1, Some(leaf));
        self.root.set(i0, Some(mid));
        proof {
            assert forall|j: int| 0 <= j < 2048 implies match #[trigger] self.root@[j] {
                Some(t) => t.wf(),
                None => true,
            } by {
                if j != i0 {
                    assert(self.root@[j] == old_t.root@[j]);
                } else {
                    let nm = self.root@[j]->Some_0;
                    assert forall|k: int| 0 <= k < 512 implies match #[trigger] nm.entries@[k] {
                        Some(t) => t.entries@.len() == 512,
                        None => true,
                    } by {
                        if k != i1 {
                            assert(nm.entries@[k] == mid_before.entries@[k]);
                        }
                    }
                }
            }
            assert forall|a: int, b: int, c: int|
                rv_in_range(a, b, c) && !(a == i0 && b == i1 && c == i2) implies #[trigger] self.leaf(a, b, c)
                == old_t.leaf(a, b, c) by {
                if a != i0 {
                    assert(self.root@[a] == old_t.root@[a]);
                } else if b != i1 {
                    assert(self.root@[a]->Some_0.entries@[b] == mid_before.entries@[b]);
                } else {
                    assert(self.root@[a]->Some_0.entries@[b]->Some_0.entries@[c] == leaf_before.entries@[c]);
                }
            }
            assert forall|a: int, b: int, c: int|
                rv_in_range(a, b, c) && !(a == i0 && b == i1 && c == i2) && old_t.entry(a, b, c) is Some implies #[trigger] self.entry(a, b, c)
                == old_t.entry(a, b, c) by {
                if a != i0 {
                    assert(self.root@[a] == old_t.root@[a]);
                } else if b != i1 {
                    assert(self.root@[a]->Some_0.entries@[b] == mid_before.entries@[b]);
                } else {
                    assert(self.root@[a]->Some_0.entries@[b]->Some_0.entries@[c] == leaf_before.entries@[c]);
                }
            }
            assert forall|j: int| 0 <= j < 2048 && old_t.root@[j] is Some implies #[trigger] self.root@[j] is Some by {
                if j != i0 {
                    assert(self.root@[j] == old_t.root@[j]);
                }
            }
        }
    }
}


impl PageTable {
    /// Removes the frame at `frame.pa` from the list of table pages and gives it back to the pool.
    fn release_table_frame(&mut self, pool: &mut FramePool, frame: PageFrame)
        ensures
            final(self).root@ == old(self).root@,
            final(self).directory == old(self).directory,
            final(self).pages@ == without_frame(old(self).pages@, frame.pa),
            final(pool).frames@ == old(pool).frames@.push(frame),
    {
        self.pages = retain_other_frames(&self.pages, frame.pa);
        pool.free_frame(frame);
    }

    /// The table pages that unmapping the page holding `ipa` gives back: the
    /// leaf table page if the page was mapped and was the last entry in it, and
    /// then the middle table page if that leaf table was the last one in it.
    pub open spec fn unmap_released(&self, ipa: nat) -> Seq<PageFrame> {
        match self.root@[lvl0_index(ipa) as int] {
            None => Seq::empty(),
            Some(m) => match m.entries@[lvl1_index(ipa) as int] {
                None => Seq::empty(),
                Some(t) => if t.entries@[lvl2_index(ipa) as int] % 2 == 0 || !all_zero(
                    t.entries@.update(lvl2_index(ipa) as int, 0),
                ) {
                    Seq::empty()
                } else if all_empty(m.entries@.update(lvl1_index(ipa) as int, None)) {
                    seq![t.frame, m.frame]
                } else {
                    seq![t.frame]
                },
            },
        }
    }

    /// Unmaps the 4 KiB page holding `ipa`: clears its valid entry, gives an
    /// emptied leaf table page back to `pool`, and then an emptied middle table
    /// page too.
    pub fn unmap(&mut self, pool: &mut FramePool, ipa: usize)
        requires
            old(self).wf(),
        ensures
            final(self).wf(),
            final(self).directory == old(self).directory,
            final(self).translate(ipa as nat) is None,
            forall|i0: int, i1: int, i2: int|
                rv_in_range(i0, i1, i2) && !(i0 == lvl0_index(ipa as nat) && i1 == lvl1_index(ipa as nat)
                    && i2 == lvl2_index(ipa as nat)) ==> #[trigger] final(self).leaf(i0, i1, i2) == old(self).leaf(
                    i0,
                    i1,
                    i2,
                ),
            final(pool).frames@ == old(pool).frames@ + old(self).unmap_released(ipa as nat),
    {
        let i0 = pt_lvl0_idx(ipa);
        let i1 = pt_lvl1_idx(ipa);
        let i2 = pt_lvl2_idx(ipa);
        let ghost old_t = *self;
        let ghost old_pool = pool.frames@;
        let mut slot: Option<MidTable> = None;
        std::mem::swap(&mut slot, &mut self.root[i0]);
        let mut mid = match slot {
            Some(t) => t,
            None => {
                assert(self.root@ =~= old_t.root@);
                assert(pool.frames@ =~= old_pool + Seq::<PageFrame>::empty());
                return ;
            },
        };
        let ghost mid_before = mid;
        let mut e1: Option<LeafTable> = None;
        std::mem::swap(&mut e1, &mut mid.entries[i1]);
        let mut leaf = match e1 {
            Some(t) => t,
            None => {
                self.root.set(i0, Some(mid));
                proof {
                    assert forall|j: int| 0 <= j < 2048 implies match #[trigger] self.root@[j] {
                        Some(t) => t.wf(),
                        None => true,
                    } by {
                        if j != i0 {
                            assert(self.root@[j] == old_t.root@[j]);
                        } else {
                            let nm = self.root@[j]->Some_0;
                            assert forall|k: int| 0 <= k < 512 implies match #[trigger] nm.entries@[k] {
                                Some(t) => t.entries@.len() == 512,
                                None => true,
                            } by {
                                if k != i1 {
                                    assert(nm.entries@[k] == mid_before.entries@[k]);
                                }
                            }
                        }
                    }
                    assert forall|a: int, b: int, c: int|
                        rv_in_range(a, b, c) && !(a == i0 && b == i1 && c == i2) implies #[trigger] self.leaf(a, b, c)
                        == old_t.leaf(a, b, c) by {
                        if a != i0 {
                            assert(self.root@[a] == old_t.root@[a]);
                        } else if b != i1 {
                            assert(self.root@[a]->Some_0.entries@[b] == mid_before.entries@[b]);
                        }
                    }
                    assert(pool.frames@ =~= old_pool + Seq::<PageFrame>::empty());
                }
                return ;
            },
        };
        let ghost leaf_before = leaf;
        let cur = leaf.entries[i2];
        proof {
            lemma_low_bits(cur);
        }
        let ghost mid_mid = mid;
        if cur & PTE_V == 0 {
            mid.entries.set(i1, Some(leaf));
            self.root.set(i0, Some(mid));
            proof {
                assert(mid.entries@ =~= mid_before.entries@);
                assert forall|j: int| 0 <= j < 2048 implies match #[trigger] self.root@[j] {
                    Some(t) => t.wf(),
                    None => true,
                } by {
                    if j != i0 {
                        assert(self.root@[j] == old_t.root@[j]);
                    }
                }
                assert forall|a: int, b: int, c: int|
                    rv_in_range(a, b, c) && !(a == i0 && b == i1 && c == i2) implies #[trigger] self.leaf(a, b, c)
                    == old_t.leaf(a, b, c) by {
                    if a != i0 {
                        assert(self.root@[a] == old_t.root@[a]);
                    }
                }
                assert(pool.frames@ =~= old_pool + Seq::<PageFrame>::empty());
            }
            return ;
        }
        leaf.entries.set(i2, 0);
        let ghost leaf_after = leaf;
        assert(leaf_after.entries@ =~= leaf_before.entries@.update(i2 as int, 0));
        assert(mid_mid.entries@ =~= mid_before.entries@.update(i1 as int, None));
        if empty_page(&leaf.entries) {
            let f3 = leaf.frame;
            self.release_table_frame(pool, f3);
            if empty_mid_page(&mid.entries) {
                let f2 = mid.frame;
                self.release_table_frame(pool, f2);
                assert(self.root@[i0 as int] is None);
            } else {
                self.root.set(i0, Some(mid));
            }
        } else {
            mid.entries.set(i1, Some(leaf));
            self.root.set(i0, Some(mid));
        }
        proof {
            assert forall|j: int| 0 <= j < 2048 implies match #[trigger] self.root@[j] {
                Some(t) => t.wf(),
                None => true,
            } by {
                if j != i0 {
                    assert(self.root@[j] == old_t.root@[j]);
                } else if self.root@[j] is Some {
                    let nm = self.root@[j]->Some_0;
                    assert forall|k: int| 0 <= k < 512 implies match #[trigger] nm.entries@[k] {
                        Some(t) => t.entries@.len() == 512,
                        None => true,
                    } by {
                        if k != i1 {
                            assert(nm.entries@[k] == mid_before.entries@[k]);
                        }
                    }
                }
            }
            assert forall|a: int, b: int, c: int|
                rv_in_range(a, b, c) && !(a == i0 && b == i1 && c == i2) implies #[trigger] self.leaf(a, b, c)
                == old_t.leaf(a, b, c) by {
                if a != i0 {
                    assert(self.root@[a] == old_t.root@[a]);
                } else if b != i1 {
                    assert(mid_before.entries@[b] == mid_mid.entries@[b]);
                    if self.root@[a] is None {
                        assert(mid_mid.entries@[b] is None);
                    }
                } else {
                    assert(leaf_after.entries@[c] == leaf_before.entries@[c]);
                    if !(self.root@[a] is Some && self.root@[a]->Some_0.entries@[b] is Some) {
                        assert(leaf_after.entries@[c] == 0);
                    }
                }
            }
        }
    }
}


/// Whether one of the first `n` 4 KiB pages from `ipa` has the indices `(i0, i1, i2)`.
pub open spec fn rv_range_hits(ipa: usize, n: int, i0: int, i1: int, i2: int) -> bool {
    exists|k: int|
        0 <= k < n && lvl0_index(#[trigger] nth_page(ipa, k, 4096)) == i0 && lvl1_index(nth_page(ipa, k, 4096))
            == i1 && lvl2_index(nth_page(ipa, k, 4096)) == i2
}

/// Addresses below 2 TiB with the same indices at every level lie in the same page.
proof fn lemma_rv_indices_determine_page(a: nat, b: nat)
    requires
        a < 0x200_0000_0000,
        b < 0x200_0000_0000,
        lvl0_index(a) == lvl0_index(b),
        lvl1_index(a) == lvl1_index(b),
        lvl2_index(a) == lvl2_index(b),
    ensures
        a / 4096 == b / 4096,
{
    let p = a / 4096;
    let q = b / 4096;
    vstd::arithmetic::div_mod::lemma_div_denominator(a as int, 4096, 512);
    vstd::arithmetic::div_mod::lemma_div_denominator(b as int, 4096, 512);
    vstd::arithmetic::div_mod::lemma_div_denominator(a as int, 4096, 262144);
    vstd::arithmetic::div_mod::lemma_div_denominator(b as int, 4096, 262144);
    assert(p < 0x2000_0000 && q < 0x2000_0000);
    assert(p == (p / 262144) * 262144 + ((p / 512) % 512) * 512 + p % 512) by (nonlinear_arith)
        requires
            p < 0x2000_0000,
    ;
    assert(q == (q / 262144) * 262144 + ((q / 512) % 512) * 512 + q % 512) by (nonlinear_arith)
        requires
            q < 0x2000_0000,
    ;
    assert(p / 262144 == (p / 262144) % 2048);
    assert(q / 262144 == (q / 262144) % 2048);
}

/// Distinct pages of one range below 2 TiB differ in some index.
proof fn lemma_rv_range_pages_distinct(ipa: usize, j: int, k: int)
    requires
        0 <= j < k,
        ipa + k * 4096 < 0x200_0000_0000,
    ensures
        !(lvl0_index(nth_page(ipa, j, 4096)) == lvl0_index(nth_page(ipa, k, 4096)) && lvl1_index(
            nth_page(ipa, j, 4096),
        ) == lvl1_index(nth_page(ipa, k, 4096)) && lvl2_index(nth_page(ipa, j, 4096)) == lvl2_index(
            nth_page(ipa, k, 4096),
        )),
{
    let a = nth_page(ipa, j, 4096);
    let b = nth_page(ipa, k, 4096);
    assert(b >= a + 4096) by (nonlinear_arith)
        requires
            j < k,
            a == ipa + j * 4096,
            b == ipa + k * 4096,
    ;
    if lvl0_index(a) == lvl0_index(b) && lvl1_index(a) == lvl1_index(b) && lvl2_index(a) == lvl2_index(b) {
        lemma_rv_indices_determine_page(a, b);
        assert(b / 4096 >= a / 4096 + 1) by (nonlinear_arith)
            requires
                b >= a + 4096,
        ;
    }
}


/// What mapping the 4 KiB pages of a range does to a page table: pages that
/// had a valid entry keep it; with enough frames every page gets a leaf
/// entry, and below 2 TiB page `k` gets the entry for `pa + k * 4096`.
pub open spec fn rv_map_range_post(
    old: PageTable,
    new: PageTable,
    old_pool_len: nat,
    ipa: usize,
    len: usize,
    pa: usize,
    pte: usize,
) -> bool {
    let n = (len + 4095) / 4096;
    &&& new.wf()
    &&& new.directory == old.directory
    &&& forall|i0: int, i1: int, i2: int|
        rv_in_range(i0, i1, i2) && !rv_range_hits(ipa, n, i0, i1, i2) ==> #[trigger] new.leaf(i0, i1, i2) == old.leaf(
            i0,
            i1,
            i2,
        )
    &&& forall|k: int|
        0 <= k < n && old.translate(#[trigger] nth_page(ipa, k, 4096)) is Some ==> new.entry_at(nth_page(ipa, k, 4096))
            == old.entry_at(nth_page(ipa, k, 4096))
    &&& old_pool_len >= 2 * n ==> forall|k: int| 0 <= k < n ==> new.entry_at(#[trigger] nth_page(ipa, k, 4096)) is Some
    &&& old_pool_len >= 2 * n && ipa + n * 4096 <= 0x200_0000_0000 ==> forall|k: int|
        0 <= k < n && old.translate(#[trigger] nth_page(ipa, k, 4096)) is None ==> new.entry_at(nth_page(ipa, k, 4096))
            == Some(leaf_entry((pa + k * 4096) as usize, pte))
}

/// What unmapping the 4 KiB pages of a range does to a page table.
pub open spec fn rv_unmap_range_post(old: PageTable, new: PageTable, ipa: usize, len: usize) -> bool {
    let n = (len + 4095) / 4096;
    &&& new.wf()
    &&& new.directory == old.directory
    &&& forall|i0: int, i1: int, i2: int|
        rv_in_range(i0, i1, i2) && !rv_range_hits(ipa, n, i0, i1, i2) ==> #[trigger] new.leaf(i0, i1, i2) == old.leaf(
            i0,
            i1,
            i2,
        )
    &&& forall|k: int| 0 <= k < n ==> new.translate(#[trigger] nth_page(ipa, k, 4096)) is None
}

impl PageTable {
    /// Maps the `round_up(len, 4 KiB) / 4 KiB` pages from `ipa` to the pages
    /// from `pa`, one 4 KiB page at a time. Each missing middle table needs a
    /// frame: the pool holds two frames a page, or every page's root slot is in use.
    pub fn map_range(&mut self, pool: &mut FramePool, ipa: usize, len: usize, pa: usize, pte: usize)
        requires
            old(self).wf(),
            len + 4095 <= usize::MAX,
            ipa + len + 4095 <= usize::MAX,
            pa + len + 4095 <= usize::MAX,
            old(pool).frames@.len() >= 2 * ((len + 4095) / 4096) || forall|k: int|
                0 <= k < (len + 4095) / 4096 ==> old(self).root_used(#[trigger] nth_page(ipa, k, 4096)),
        ensures
            rv_map_range_post(*old(self), *final(self), old(pool).frames@.len(), ipa, len, pa, pte),
    {
        let page_num = round_up(len, PAGE_SIZE) / PAGE_SIZE;
        let ghost n = (len + 4095) / 4096;
        assert(page_num == n) by (nonlinear_arith)
            requires
                page_num == (((len + 4095) / 4096) * 4096) / 4096,
                n == (len + 4095) / 4096,
        ;
        assert(n * 4096 <= len + 4095) by (nonlinear_arith)
            requires
                n == (len + 4095) / 4096,
        ;
        let ghost start = *self;
        let ghost start_pool = pool.frames@.len();
        let mut i: usize = 0;
        while i < page_num
            invariant
                i <= page_num,
                page_num == n,
                n * 4096 <= len + 4095,
                ipa + len + 4095 <= usize::MAX,
                pa + len + 4095 <= usize::MAX,
                self.wf(),
                self.directory == start.directory,
                pool.frames@.len() + 2 * i >= start_pool,
                start_pool >= 2 * n || forall|k: int| 0 <= k < n ==> start.root_used(#[trigger] nth_page(ipa, k, 4096)),
                forall|j: int| 0 <= j < 2048 && start.root@[j] is Some ==> #[trigger] self.root@[j] is Some,
                forall|i0: int, i1: int, i2: int|
                    rv_in_range(i0, i1, i2) && !rv_range_hits(ipa, i as int, i0, i1, i2) ==> #[trigger] self.leaf(
                        i0,
                        i1,
                        i2,
                    ) == start.leaf(i0, i1, i2),
                forall|k: int|
                    0 <= k < i && start.translate(#[trigger] nth_page(ipa, k, 4096)) is Some ==> self.entry_at(
                        nth_page(ipa, k, 4096),
                    ) == start.entry_at(nth_page(ipa, k, 4096)),
                start_pool >= 2 * n ==> forall|k: int| 0 <= k < i ==> self.entry_at(#[trigger] nth_page(ipa, k, 4096)) is Some,
                start_pool >= 2 * n && ipa + n * 4096 <= 0x200_0000_0000 ==> forall|k: int|
                    0 <= k < i && start.translate(#[trigger] nth_page(ipa, k, 4096)) is None ==> self.entry_at(
                        nth_page(ipa, k, 4096),
                    ) == Some(leaf_entry((pa + k * 4096) as usize, pte)),
            decreases page_num - i,
        {
            assert(i * 4096 + 4096 <= n * 4096) by (nonlinear_arith)
                requires
                    i < n,
            ;
            let va = ipa + i * PAGE_SIZE;
            let pa_i = pa + i * PAGE_SIZE;
            let ghost before = *self;
            let ghost ii = i as int;
            assert(va as nat == nth_page(ipa, ii, 4096));
            assert(self.root_used(va as nat) || pool.frames@.len() > 0) by {
                if start_pool < 2 * n {
                    assert(start.root_used(nth_page(ipa, ii, 4096)));
                    assert(self.root@[lvl0_index(va as nat) as int] is Some);
                } else {
                    assert(pool.frames@.len() >= 2);
                }
            }
            self.map(pool, va, pa_i, pte);
            proof {
                let t0 = lvl0_index(va as nat) as int;
                let t1 = lvl1_index(va as nat) as int;
                let t2 = lvl2_index(va as nat) as int;
                assert forall|i0: int, i1: int, i2: int|
                    rv_in_range(i0, i1, i2) && !rv_range_hits(ipa, ii + 1, i0, i1, i2) implies #[trigger] self.leaf(
                    i0,
                    i1,
                    i2,
                ) == start.leaf(i0, i1, i2) by {
                    if rv_range_hits(ipa, ii, i0, i1, i2) {
                        let k = choose|k: int|
                            0 <= k < ii && lvl0_index(#[trigger] nth_page(ipa, k, 4096)) == i0 && lvl1_index(
                                nth_page(ipa, k, 4096),
                            ) == i1 && lvl2_index(nth_page(ipa, k, 4096)) == i2;
                        assert(rv_range_hits(ipa, ii + 1, i0, i1, i2));
                    }
                    if i0 == t0 && i1 == t1 && i2 == t2 {
                        assert(rv_range_hits(ipa, ii + 1, i0, i1, i2));
                    }
                    assert(before.leaf(i0, i1, i2) == start.leaf(i0, i1, i2));
                }
                assert forall|k: int|
                    0 <= k <= ii && start.translate(#[trigger] nth_page(ipa, k, 4096)) is Some implies self.entry_at(
                    nth_page(ipa, k, 4096),
                ) == start.entry_at(nth_page(ipa, k, 4096)) by {
                    let p = nth_page(ipa, k, 4096);
                    if k == ii {
                        if rv_range_hits(ipa, ii, t0, t1, t2) {
                            let j = choose|j: int|
                                0 <= j < ii && lvl0_index(#[trigger] nth_page(ipa, j, 4096)) == t0 && lvl1_index(
                                    nth_page(ipa, j, 4096),
                                ) == t1 && lvl2_index(nth_page(ipa, j, 4096)) == t2;
                            assert(before.entry_at(nth_page(ipa, j, 4096)) == start.entry_at(nth_page(ipa, j, 4096)));
                        } else {
                            assert(before.leaf(t0, t1, t2) == start.leaf(t0, t1, t2));
                        }
                    } else {
                        assert(before.entry_at(p) == start.entry_at(p));
                        if lvl0_index(p) == t0 && lvl1_index(p) == t1 && lvl2_index(p) == t2 {
                            assert(before.translate(va as nat) is Some);
                        }
                    }
                }
                if start_pool >= 2 * n {
                    assert forall|k: int| 0 <= k <= ii implies self.entry_at(#[trigger] nth_page(ipa, k, 4096)) is Some by {
                        let p = nth_page(ipa, k, 4096);
                        if k < ii {
                            assert(before.entry_at(p) is Some);
                            let a = lvl0_index(p) as int;
                            let b = lvl1_index(p) as int;
                            let c = lvl2_index(p) as int;
                            assert(before.entry(a, b, c) is Some);
                        }
                    }
                }
                if start_pool >= 2 * n && ipa + n * 4096 <= 0x200_0000_0000 {
                    assert forall|k: int|
                        0 <= k <= ii && start.translate(#[trigger] nth_page(ipa, k, 4096)) is None implies self.entry_at(
                        nth_page(ipa, k, 4096),
                    ) == Some(leaf_entry((pa + k * 4096) as usize, pte)) by {
                        let p = nth_page(ipa, k, 4096);
                        if k < ii {
                            lemma_rv_range_pages_distinct(ipa, k, ii);
                            assert(before.entry_at(p) is Some);
                            let a = lvl0_index(p) as int;
                            let b = lvl1_index(p) as int;
                            let c = lvl2_index(p) as int;
                            assert(before.entry(a, b, c) is Some);
                        } else {
                            if rv_range_hits(ipa, ii, t0, t1, t2) {
                                let j = choose|j: int|
                                    0 <= j < ii && lvl0_index(#[trigger] nth_page(ipa, j, 4096)) == t0 && lvl1_index(
                                        nth_page(ipa, j, 4096),
                                    ) == t1 && lvl2_index(nth_page(ipa, j, 4096)) == t2;
                                lemma_rv_range_pages_distinct(ipa, j, ii);
                            }
                            assert(before.leaf(t0, t1, t2) == start.leaf(t0, t1, t2));
                            assert(before.translate(va as nat) is None);
                            assert(pa_i == pa + k * 4096);
                        }
                    }
                }
                assert forall|j: int| 0 <= j < 2048 && start.root@[j] is Some implies #[trigger] self.root@[j] is Some by {
                    assert(before.root@[j] is Some);
                }
            }
            i = i + 1;
        }
    }

    /// Unmaps the `round_up(len, 4 KiB) / 4 KiB` pages from `ipa`, one 4 KiB page at a time.
    pub fn unmap_range(&mut self, pool: &mut FramePool, ipa: usize, len: usize)
        requires
            old(self).wf(),
            len + 4095 <= usize::MAX,
            ipa + len + 4095 <= usize::MAX,
        ensures
            rv_unmap_range_post(*old(self), *final(self), ipa, len),
    {
        let page_num = round_up(len, PAGE_SIZE) / PAGE_SIZE;
        let ghost n = (len + 4095) / 4096;
        assert(page_num == n) by (nonlinear_arith)
            requires
                page_num == (((len + 4095) / 4096) * 4096) / 4096,
                n == (len + 4095) / 4096,
        ;
        assert(n * 4096 <= len + 4095) by (nonlinear_arith)
            requires
                n == (len + 4095) / 4096,
        ;
        let ghost start = *self;
        let mut i: usize = 0;
        while i < page_num
            invariant
                i <= page_num,
                page_num == n,
                n * 4096 <= len + 4095,
                ipa + len + 4095 <= usize::MAX,
                self.wf(),
                self.directory == start.directory,
                forall|i0: int, i1: int, i2: int|
                    rv_in_range(i0, i1, i2) && !rv_range_hits(ipa, i as int, i0, i1, i2) ==> #[trigger] self.leaf(
                        i0,
                        i1,
                        i2,
                    ) == start.leaf(i0, i1, i2),
                forall|k: int| 0 <= k < i ==> self.translate(#[trigger] nth_page(ipa, k, 4096)) is None,
            decreases page_num - i,
        {
            assert(i * 4096 + 4096 <= n * 4096) by (nonlinear_arith)
                requires
                    i < n,
            ;
            let va = ipa + i * PAGE_SIZE;
            let ghost before = *self;
            let ghost ii = i as int;
            assert(va as nat == nth_page(ipa, ii, 4096));
            self.unmap(pool, va);
            proof {
                let t0 = lvl0_index(va as nat) as int;
                let t1 = lvl1_index(va as nat) as int;
                let t2 = lvl2_index(va as nat) as int;
                assert forall|i0: int, i1: int, i2: int|
                    rv_in_range(i0, i1, i2) && !rv_range_hits(ipa, ii + 1, i0, i1, i2) implies #[trigger] self.leaf(
                    i0,
                    i1,
                    i2,
                ) == start.leaf(i0, i1, i2) by {
                    if rv_range_hits(ipa, ii, i0, i1, i2) {
                        let k = choose|k: int|
                            0 <= k < ii && lvl0_index(#[trigger] nth_page(ipa, k, 4096)) == i0 && lvl1_index(
                                nth_page(ipa, k, 4096),
                            ) == i1 && lvl2_index(nth_page(ipa, k, 4096)) == i2;
                        assert(rv_range_hits(ipa, ii + 1, i0, i1, i2));
                    }
                    if i0 == t0 && i1 == t1 && i2 == t2 {
                        assert(rv_range_hits(ipa, ii + 1, i0, i1, i2));
                    }
                }
                assert forall|k: int| 0 <= k <= ii implies self.translate(#[trigger] nth_page(ipa, k, 4096)) is None by {
                    let p = nth_page(ipa, k, 4096);
                    if k < ii {
                        assert(before.translate(p) is None);
                    }
                }
            }
            i = i + 1;
        }
    }

    /// Maps a range page by page: this table has no block mappings, so `map_block` changes nothing.
    pub fn pt_map_range(&mut self, pool: &mut FramePool, ipa: usize, len: usize, pa: usize, pte: usize, map_block: bool)
        requires
            old(self).wf(),
            len + 4095 <= usize::MAX,
            ipa + len + 4095 <= usize::MAX,
            pa + len + 4095 <= usize::MAX,
            old(pool).frames@.len() >= 2 * ((len + 4095) / 4096) || forall|k: int|
                0 <= k < (len + 4095) / 4096 ==> old(self).root_used(#[trigger] nth_page(ipa, k, 4096)),
        ensures
            rv_map_range_post(*old(self), *final(self), old(pool).frames@.len(), ipa, len, pa, pte),
    {
        self.map_range(pool, ipa, len, pa, pte)
    }

    /// Unmaps a range page by page: this table has no block mappings, so `map_block` changes nothing.
    pub fn pt_unmap_range(&mut self, pool: &mut FramePool, ipa: usize, len: usize, map_block: bool)
        requires
            old(self).wf(),
            len + 4095 <= usize::MAX,
            ipa + len + 4095 <= usize::MAX,
        ensures
            rv_unmap_range_post(*old(self), *final(self), ipa, len),
    {
        self.unmap_range(pool, ipa, len)
    }
}

/// Building an entry from a page-aligned address below 2^54 and reading its
/// address back gives the address again.
pub proof fn law_riscv_pte_pa_roundtrip(pa: u64)
    by (bit_vector)
    requires
        pa % 4096 == 0,
        pa < 0x0040_0000_0000_0000u64,
    ensures
        (((pa & 0x003F_FFFF_FFFF_F000u64) >> 2u64) & 0xFFFF_FFFF_FFFF_FC00u64) << 2u64 == pa,
{
}

} // verus!

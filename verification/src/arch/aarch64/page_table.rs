//! The stage-2 page table of an aarch64 VM (three levels, 4 KiB granule).
//!
//! The table pages are held as values: the directory has 512 slots, each
//! either empty or holding a level-2 table; a level-2 slot is empty, a 2 MiB
//! block descriptor, or a level-3 table of 512 raw page descriptors. Frames
//! for new table pages come from a [`FramePool`]; frames of table pages that
//! become empty go back to it.
use vstd::prelude::*;

use crate::arch::traits::ArchPageTableEntryTrait;

verus! {

pub const PAGE_SIZE: usize = 4096;
pub const WORD_SIZE: usize = 8;
/// The number of page table entries in a page.
pub const PTE_PER_PAGE: usize = 512;

pub const LVL0_SHIFT: usize = 39;
pub const LVL1_SHIFT: usize = 30;
pub const LVL2_SHIFT: usize = 21;
pub const LVL3_SHIFT: usize = 12;

pub const PTE_TABLE: usize = 0b11;
pub const PTE_PAGE: usize = 0b11;
pub const PTE_BLOCK: usize = 0b01;

pub const PTE_S1_FIELD_AP_RW_EL0_NONE: usize = 0b00 << 6;
pub const PTE_S1_FIELD_AP_RW_EL0_RW: usize = 0b01 << 6;
pub const PTE_S1_FIELD_AP_R0_EL0_NONE: usize = 0b10 << 6;
pub const PTE_S1_FIELD_AP_R0_EL0_RW: usize = 0b11 << 6;

pub const PTE_S1_FIELD_SH_NON_SHAREABLE: usize = 0b00 << 8;
pub const PTE_S1_FIELD_SH_RESERVED: usize = 0b01 << 8;
pub const PTE_S1_FIELD_SH_OUTER_SHAREABLE: usize = 0b10 << 8;
pub const PTE_S1_FIELD_SH_INNER_SHAREABLE: usize = 0b11 << 8;

pub const PTE_S1_FIELD_AF: usize = 1 << 10;

pub const PTE_S2_FIELD_MEM_ATTR_DEVICE_NGNRNE: usize = 0;
pub const PTE_S2_FIELD_MEM_ATTR_NORMAL_OUTER_WRITE_BACK_CACHEABLE: usize = 0b11 << 4;
pub const PTE_S2_FIELD_MEM_ATTR_NORMAL_OUTER_WRITE_BACK_NOCACHEABLE: usize = 0b1 << 4;
pub const PTE_S2_FIELD_MEM_ATTR_NORMAL_INNER_WRITE_BACK_CACHEABLE: usize = 0b11 << 2;

pub const PTE_S2_FIELD_AP_NONE: usize = 0b00 << 6;
pub const PTE_S2_FIELD_AP_RO: usize = 0b01 << 6;
pub const PTE_S2_FIELD_AP_WO: usize = 0b10 << 6;
pub const PTE_S2_FIELD_AP_RW: usize = 0b11 << 6;

pub const PTE_S2_FIELD_SH_NON_SHAREABLE: usize = 0b00 << 8;
pub const PTE_S2_FIELD_SH_RESERVED: usize = 0b01 << 8;
pub const PTE_S2_FIELD_SH_OUTER_SHAREABLE: usize = 0b10 << 8;
pub const PTE_S2_FIELD_SH_INNER_SHAREABLE: usize = 0b11 << 8;

pub const PTE_S2_FIELD_AF: usize = 1 << 10;

/// Normal memory at stage 1: attribute index 1, EL0 no access, outer shareable, accessed.
pub const PTE_S1_NORMAL: usize = (1 << 2) | PTE_S1_FIELD_AP_RW_EL0_NONE | PTE_S1_FIELD_SH_OUTER_SHAREABLE
    | PTE_S1_FIELD_AF;

pub const PTE_S2_DEVICE: usize = PTE_S2_FIELD_MEM_ATTR_DEVICE_NGNRNE | PTE_S2_FIELD_AP_RW
    | PTE_S2_FIELD_SH_OUTER_SHAREABLE | PTE_S2_FIELD_AF;

pub const PTE_S2_NORMAL: usize = PTE_S2_FIELD_MEM_ATTR_NORMAL_INNER_WRITE_BACK_CACHEABLE
    | PTE_S2_FIELD_MEM_ATTR_NORMAL_OUTER_WRITE_BACK_CACHEABLE | PTE_S2_FIELD_AP_RW
    | PTE_S2_FIELD_SH_OUTER_SHAREABLE | PTE_S2_FIELD_AF;

pub const PTE_S2_NORMALNOCACHE: usize = PTE_S2_FIELD_MEM_ATTR_NORMAL_INNER_WRITE_BACK_CACHEABLE
    | PTE_S2_FIELD_MEM_ATTR_NORMAL_OUTER_WRITE_BACK_NOCACHEABLE | PTE_S2_FIELD_AP_RW
    | PTE_S2_FIELD_SH_OUTER_SHAREABLE | PTE_S2_FIELD_AF;

pub const PTE_S2_RO: usize = PTE_S2_FIELD_MEM_ATTR_NORMAL_INNER_WRITE_BACK_CACHEABLE
    | PTE_S2_FIELD_MEM_ATTR_NORMAL_OUTER_WRITE_BACK_CACHEABLE | PTE_S2_FIELD_AP_RO
    | PTE_S2_FIELD_SH_OUTER_SHAREABLE | PTE_S2_FIELD_AF;

/// The stage-1 attribute index field for memory attribute `idx`.
pub fn pte_s1_field_attr_indx(idx: usize) -> (r: usize)
    ensures
        r == idx << 2usize,
        idx < 0x4000_0000 ==> r == idx * 4,
{
    let r = idx << 2;
    if idx < 0x4000_0000 {
        proof {
            lemma_usize_bits();
        }
        assert(r == idx * 4);
    }
    r
}

/// The bit facts about `usize` words that the page table code rests on.
proof fn lemma_usize_bits()
    by (bit_vector)
    ensures
        forall|x: usize| #[trigger] (x & 3usize) == x % 4,
        forall|x: usize| x < 0x4000_0000 ==> #[trigger] (x << 2usize) == x * 4,
        forall|va: usize| #[trigger] ((va >> 30usize) & 511usize) == ((va / 4096) / 262144) % 512,
        forall|va: usize| #[trigger] ((va >> 21usize) & 511usize) == ((va / 4096) / 512) % 512,
        forall|va: usize| #[trigger] ((va >> 12usize) & 511usize) == (va / 4096) % 512,
        forall|f: usize| f % 4 == 0 ==> #[trigger] (f | 3usize) == f + 3,
        forall|a: usize, b: usize| a % 4 == 0 && b % 4 == 0 ==> #[trigger] ((a | 3usize) | b) % 4 == 3,
        forall|a: usize, b: usize| a % 4 == 0 && b % 4 == 0 ==> #[trigger] ((a | b) | 1usize) % 4 == 1,
        1usize << 21usize == 0x20_0000,
{
}

/// The bit fact behind the level-0 index.
proof fn lemma_u64_lvl0_bits()
    by (bit_vector)
    ensures
        forall|v: u64| #[trigger] ((v >> 39u64) & 511u64) == (v / 0x80_0000_0000u64) % 512,
{
}

/// The page number of an address.
pub open spec fn page_number(va: nat) -> nat {
    va / 4096
}

/// The level-0 index of an address (bits 39 to 47).
pub open spec fn lvl0_index(va: nat) -> nat {
    (va / 0x80_0000_0000) % 512
}

/// The level-1 index of an address (bits 30 to 38).
pub open spec fn lvl1_index(va: nat) -> nat {
    (page_number(va) / 262144) % 512
}

/// The level-2 index of an address (bits 21 to 29).
pub open spec fn lvl2_index(va: nat) -> nat {
    (page_number(va) / 512) % 512
}

/// The level-3 index of an address (bits 12 to 20).
pub open spec fn lvl3_index(va: nat) -> nat {
    page_number(va) % 512
}

/// An address below 2^48 is its four table indices, each 9 bits wide from
/// bit 39, 30, 21 and 12 down, and its offset within the 4 KiB page.
pub proof fn law_indices_recompose(va: nat)
    requires
        va < 0x1_0000_0000_0000,
    ensures
        lvl0_index(va) < 512,
        va == lvl0_index(va) * 0x80_0000_0000 + lvl1_index(va) * 0x4000_0000 + lvl2_index(va) * 0x20_0000
            + lvl3_index(va) * 4096 + va % 4096,
{
    let p = va / 4096;
    let q1 = p / 512;
    let q2 = p / 262144;
    let q3 = p / 0x800_0000;
    vstd::arithmetic::div_mod::lemma_fundamental_div_mod(va as int, 4096);
    vstd::arithmetic::div_mod::lemma_fundamental_div_mod(p as int, 512);
    vstd::arithmetic::div_mod::lemma_fundamental_div_mod(q1 as int, 512);
    vstd::arithmetic::div_mod::lemma_fundamental_div_mod(q2 as int, 512);
    vstd::arithmetic::div_mod::lemma_div_denominator(p as int, 512, 512);
    vstd::arithmetic::div_mod::lemma_div_denominator(p as int, 262144, 512);
    vstd::arithmetic::div_mod::lemma_div_denominator(va as int, 4096, 0x800_0000);
    assert(q1 / 512 == q2);
    assert(q2 / 512 == q3);
    assert(va / 0x80_0000_0000 == q3);
    assert(va / 0x80_0000_0000 < 512) by (nonlinear_arith)
        requires
            va < 0x1_0000_0000_0000,
    ;
    assert(q3 % 512 == q3);
}

/// The level-0 index of a virtual address.
pub fn pt_lvl0_idx(va: usize) -> (r: usize)
    ensures
        r == lvl0_index(va as nat),
        r < 512,
{
    let v = va as u64;
    let r = (v >> 39u64) & 511u64;
    proof {
        lemma_u64_lvl0_bits();
    }
    assert(r == (v / 0x80_0000_0000u64) % 512);
    r as usize
}

/// The level-1 index of a virtual address.
pub fn pt_lvl1_idx(va: usize) -> (r: usize)
    ensures
        r == lvl1_index(va as nat),
        r < 512,
{
    let r = (va >> LVL1_SHIFT) & (PTE_PER_PAGE - 1);
    proof {
        lemma_usize_bits();
    }
    assert(r == ((va / 4096) / 262144) % 512);
    r
}

/// The level-2 index of a virtual address.
pub fn pt_lvl2_idx(va: usize) -> (r: usize)
    ensures
        r == lvl2_index(va as nat),
        r < 512,
{
    let r = (va >> LVL2_SHIFT) & (PTE_PER_PAGE - 1);
    proof {
        lemma_usize_bits();
    }
    assert(r == ((va / 4096) / 512) % 512);
    r
}

/// The level-3 index of a virtual address.
pub fn pt_lvl3_idx(va: usize) -> (r: usize)
    ensures
        r == lvl3_index(va as nat),
        r < 512,
{
    let r = (va >> LVL3_SHIFT) & (PTE_PER_PAGE - 1);
    proof {
        lemma_usize_bits();
    }
    assert(r == (va / 4096) % 512);
    r
}

/// Whether a raw descriptor is valid (one of its two low bits set).
pub open spec fn desc_valid(raw: usize) -> bool {
    raw % 4 != 0
}

/// The output address field of a descriptor (bits 12 to 47).
pub open spec fn desc_addr(raw: usize) -> usize {
    ((raw as u64) & 0x0000_FFFF_FFFF_F000u64) as usize
}

/// A raw aarch64 page table entry.
#[derive(Clone, Copy)]
pub struct Aarch64PageTableEntry(pub usize);

impl ArchPageTableEntryTrait for Aarch64PageTableEntry {
    fn from_pte(value: usize) -> (e: Self)
        ensures
            e.0 == value,
    {
        Aarch64PageTableEntry(value)
    }

    fn from_pa(pa: usize) -> (e: Self)
        ensures
            e.0 == pa,
    {
        Aarch64PageTableEntry(pa)
    }

    fn to_pte(&self) -> (r: usize)
        ensures
            r == self.0,
    {
        self.0
    }

    fn to_pa(&self) -> (r: usize)
        ensures
            r == desc_addr(self.0),
    {
        ((self.0 as u64) & 0x0000_FFFF_FFFF_F000u64) as usize
    }

    fn valid(&self) -> (r: bool)
        ensures
            r == desc_valid(self.0),
    {
        let raw = self.0;
        let v = raw & 0b11;
        proof {
            lemma_usize_bits();
        }
        assert(v == raw % 4);
        v != 0
    }

    fn make_table(frame_pa: usize) -> (e: Self)
        ensures
            e.0 == frame_pa | 3usize,
            frame_pa % 4 == 0 ==> e.0 == frame_pa + 3,
    {
        let v = frame_pa | PTE_TABLE;
        if frame_pa % 4 == 0 {
            proof {
                lemma_usize_bits();
            }
            assert(v == frame_pa + 3);
        }
        Aarch64PageTableEntry(v)
    }
}

/// A physical page frame.
#[derive(Clone, Copy, PartialEq, Eq, Structural)]
pub struct PageFrame {
    pub pa: usize,
}

impl PageFrame {
    /// The physical address of the frame.
    pub fn pa(&self) -> (r: usize)
        ensures
            r == self.pa,
    {
        self.pa
    }
}

/// The free page frames that page tables take their table pages from.
pub struct FramePool {
    pub frames: Vec<PageFrame>,
}

impl FramePool {
    /// A pool holding the given frames; the last one is handed out first.
    pub fn new(frames: Vec<PageFrame>) -> (p: FramePool)
        ensures
            p.frames@ == frames@,
    {
        FramePool { frames }
    }

    /// Takes a frame from the pool, or fails when the pool is empty.
    pub fn alloc_frame(&mut self) -> (r: Result<PageFrame, ()>)
        ensures
            old(self).frames@.len() == 0 ==> r is Err && final(self).frames@ == old(self).frames@,
            old(self).frames@.len() > 0 ==> r == Ok::<PageFrame, ()>(old(self).frames@.last())
                && final(self).frames@ == old(self).frames@.drop_last(),
    {
        match self.frames.pop() {
            Some(f) => Ok(f),
            None => Err(()),
        }
    }

    /// Gives a frame back to the pool.
    pub fn free_frame(&mut self, frame: PageFrame)
        ensures
            final(self).frames@ == old(self).frames@.push(frame),
    {
        self.frames.push(frame);
    }
}

/// The frames a pool handed out, in the order it handed them out, when it
/// held `before` and has `left` of them left: the last ones, last first.
pub open spec fn frames_taken(before: Seq<PageFrame>, left: nat) -> Seq<PageFrame> {
    Seq::new((before.len() - left) as nat, |j: int| before[before.len() - 1 - j])
}

/// A level-3 table: 512 raw page descriptors.
pub struct L3Table {
    pub frame: PageFrame,
    pub entries: Vec<usize>,
}

/// A slot of a level-2 table.
pub enum L2Entry {
    Invalid,
    /// A 2 MiB block descriptor.
    Block(usize),
    /// A descriptor of a level-3 table.
    Table(L3Table),
}

/// A level-2 table: 512 slots.
pub struct L2Table {
    pub frame: PageFrame,
    pub entries: Vec<L2Entry>,
}

/// A table page of 512 zero entries.
pub(crate) fn zeroed_entries() -> (v: Vec<usize>)
    ensures
        v@.len() == 512,
        forall|i: int| 0 <= i < 512 ==> v@[i] == 0,
{
    let mut v: Vec<usize> = Vec::new();
    let mut i: usize = 0;
    while i < 512
        invariant
            i <= 512,
            v@.len() == i,
            forall|j: int| 0 <= j < i ==> v@[j] == 0,
        decreases 512 - i,
    {
        v.push(0);
        i = i + 1;
    }
    v
}

/// A level-2 table page of 512 empty slots.
fn invalid_l2_entries() -> (v: Vec<L2Entry>)
    ensures
        v@.len() == 512,
        forall|i: int| 0 <= i < 512 ==> v@[i] is Invalid,
{
    let mut v: Vec<L2Entry> = Vec::new();
    let mut i: usize = 0;
    while i < 512
        invariant
            i <= 512,
            v@.len() == i,
            forall|j: int| 0 <= j < i ==> v@[j] is Invalid,
        decreases 512 - i,
    {
        v.push(L2Entry::Invalid);
        i = i + 1;
    }
    v
}

impl L2Table {
    /// The table's shape: 512 slots, each level-3 table of 512 entries, each
    /// block descriptor with block type.
    pub open spec fn wf(&self) -> bool {
        &&& self.entries@.len() == 512
        &&& forall|i: int|
            0 <= i < 512 ==> match #[trigger] self.entries@[i] {
                L2Entry::Table(t3) => t3.entries@.len() == 512,
                L2Entry::Block(raw) => raw % 4 == 1,
                L2Entry::Invalid => true,
            }
    }
}

/// The descriptor that maps index `i3` under level-2 slot `e`, if any.
pub open spec fn l2_leaf(e: L2Entry, i3: int) -> Option<usize> {
    match e {
        L2Entry::Invalid => None,
        L2Entry::Block(raw) => Some(raw),
        L2Entry::Table(t3) => if desc_valid(t3.entries@[i3]) {
            Some(t3.entries@[i3])
        } else {
            None
        },
    }
}

/// Whether a raw page table page is all zero.
pub open spec fn all_zero(s: Seq<usize>) -> bool {
    forall|i: int| 0 <= i < s.len() ==> s[i] == 0
}

/// Whether every slot of a level-2 table is empty.
pub open spec fn all_invalid(s: Seq<L2Entry>) -> bool {
    forall|i: int| 0 <= i < s.len() ==> s[i] is Invalid
}

/// The stage-2 page table of a VM.
pub struct PageTable {
    pub directory: PageFrame,
    /// The frames of the table pages below the directory.
    pub pages: Vec<PageFrame>,
    /// The directory's 512 slots.
    pub l1: Vec<Option<L2Table>>,
}

/// The frame list `pages` without the frames at `pa`.
pub open spec fn without_frame(pages: Seq<PageFrame>, pa: usize) -> Seq<PageFrame> {
    pages.filter(frame_elsewhere(pa))
}

/// Whether a frame lies elsewhere than `pa`.
pub open spec fn frame_elsewhere(pa: usize) -> spec_fn(PageFrame) -> bool {
    |f: PageFrame| f.pa != pa
}

/// The list `pages` without the frames at `pa`.
pub(crate) fn retain_other_frames(pages: &Vec<PageFrame>, pa: usize) -> (r: Vec<PageFrame>)
    ensures
        r@ == without_frame(pages@, pa),
{
    let mut out: Vec<PageFrame> = Vec::new();
    let mut i: usize = 0;
    while i < pages.len()
        invariant
            i <= pages@.len(),
            out@ == without_frame(pages@.take(i as int), pa),
        decreases pages@.len() - i,
    {
        let ghost s = pages@.take(i + 1);
        assert(s.drop_last() =~= pages@.take(i as int));
        assert(s.last() == pages@[i as int]);
        if pages[i].pa != pa {
            out.push(pages[i]);
        }
        proof {
            reveal(Seq::filter);
        }
        assert(out@ == without_frame(s, pa));
        i = i + 1;
    }
    assert(pages@.take(i as int) =~= pages@);
    proof {
        reveal(Seq::filter);
    }
    out
}

impl PageTable {
    /// The shape of the table: a directory of 512 slots whose level-2 tables are well formed.
    pub open spec fn wf(&self) -> bool {
        &&& self.l1@.len() == 512
        &&& forall|i: int| 0 <= i < 512 ==> match #[trigger] self.l1@[i] {
            Some(t2) => t2.wf(),
            None => true,
        }
    }

    /// The descriptor that maps the page at indices `(i1, i2, i3)`, if any.
    pub open spec fn leaf(&self, i1: int, i2: int, i3: int) -> Option<usize> {
        match self.l1@[i1] {
            None => None,
            Some(t2) => l2_leaf(t2.entries@[i2], i3),
        }
    }

    /// The descriptor that maps the page holding `ipa`, if any.
    pub open spec fn translate(&self, ipa: nat) -> Option<usize> {
        self.leaf(lvl1_index(ipa) as int, lvl2_index(ipa) as int, lvl3_index(ipa) as int)
    }

    /// Whether the level-2 slot for `ipa` holds a 2 MiB block.
    pub open spec fn is_block_at(&self, ipa: nat) -> bool {
        match self.l1@[lvl1_index(ipa) as int] {
            None => false,
            Some(t2) => t2.entries@[lvl2_index(ipa) as int] is Block,
        }
    }

    /// Whether the level-2 slot for `ipa` is in use (a block or a level-3 table).
    pub open spec fn l2_slot_used(&self, ipa: nat) -> bool {
        match self.l1@[lvl1_index(ipa) as int] {
            None => false,
            Some(t2) => !(t2.entries@[lvl2_index(ipa) as int] is Invalid),
        }
    }

    /// The level-1 slot for `ipa` holds a level-2 table.
    pub open spec fn l1_slot_used(&self, ipa: nat) -> bool {
        self.l1@[lvl1_index(ipa) as int] is Some
    }

    /// A page table with the given directory and no mappings.
    pub fn new(directory: PageFrame) -> (pt: PageTable)
        ensures
            pt.wf(),
            pt.directory == directory,
            pt.pages@.len() == 0,
            forall|i1: int, i2: int, i3: int| 0 <= i1 < 512 ==> pt.leaf(i1, i2, i3) is None,
    {
        let mut l1: Vec<Option<L2Table>> = Vec::new();
        let mut i: usize = 0;
        while i < 512
            invariant
                i <= 512,
                l1@.len() == i,
                forall|j: int| 0 <= j < i ==> l1@[j] is None,
            decreases 512 - i,
        {
            l1.push(None);
            i = i + 1;
        }
        PageTable { directory, pages: Vec::new(), l1 }
    }

    /// The physical address of the directory.
    pub fn base_pa(&self) -> (r: usize)
        ensures
            r == self.directory.pa,
    {
        self.directory.pa
    }
}

/// Whether the page table page `entries` is all zero.
pub fn empty_page(entries: &Vec<usize>) -> (r: bool)
    ensures
        r == all_zero(entries@),
{
    let mut i: usize = 0;
    while i < entries.len()
        invariant
            i <= entries@.len(),
            forall|j: int| 0 <= j < i ==> entries@[j] == 0,
        decreases entries@.len() - i,
    {
        if entries[i] != 0 {
            return false;
        }
        i = i + 1;
    }
    true
}

/// Whether every slot of a level-2 table page is empty.
fn empty_l2_page(entries: &Vec<L2Entry>) -> (r: bool)
    ensures
        r == all_invalid(entries@),
{
    let mut i: usize = 0;
    while i < entries.len()
        invariant
            i <= entries@.len(),
            forall|j: int| 0 <= j < i ==> entries@[j] is Invalid,
        decreases entries@.len() - i,
    {
        match &entries[i] {
            L2Entry::Invalid => {},
            _ => {
                return false;
            },
        }
        i = i + 1;
    }
    true
}

/// The page descriptor for `pa` with attributes `pte`.
pub open spec fn page_desc(pa: usize, pte: usize) -> usize {
    (pa | 3usize) | pte
}

/// The 2 MiB block descriptor for `pa` with attributes `pte`.
pub open spec fn block_desc(pa: usize, pte: usize) -> usize {
    (pa | pte) | 1usize
}

proof fn lemma_page_desc_valid(pa: usize, pte: usize)
    requires
        pa % 4 == 0,
        pte % 4 == 0,
    ensures
        page_desc(pa, pte) % 4 == 3,
{
    let d = page_desc(pa, pte);
    lemma_usize_bits();
    assert(d % 4 == 3);
}

proof fn lemma_block_desc_type(pa: usize, pte: usize)
    requires
        pa % 4 == 0,
        pte % 4 == 0,
    ensures
        block_desc(pa, pte) % 4 == 1,
{
    let d = block_desc(pa, pte);
    lemma_usize_bits();
    assert(d % 4 == 1);
}

/// Indices of a page in each of the three table levels.
pub open spec fn in_range(i1: int, i2: int, i3: int) -> bool {
    0 <= i1 < 512 && 0 <= i2 < 512 && 0 <= i3 < 512
}

impl PageTable {
    /// Whether the level-2 slot `(i1, i2)` holds a 2 MiB block.
    pub open spec fn block_at(&self, i1: int, i2: int) -> bool {
        match self.l1@[i1] {
            None => false,
            Some(t2) => t2.entries@[i2] is Block,
        }
    }

    /// Whether the level-2 slot `(i1, i2)` is in use (a block or a level-3 table).
    pub open spec fn slot_used_at(&self, i1: int, i2: int) -> bool {
        match self.l1@[i1] {
            None => false,
            Some(t2) => !(t2.entries@[i2] is Invalid),
        }
    }

    /// The number of table pages that mapping a 4 KiB page at `ipa` has to create.
    pub open spec fn frames_needed(&self, ipa: nat) -> nat {
        (if self.l1_slot_used(ipa) {
            0nat
        } else {
            1nat
        }) + (if self.l2_slot_used(ipa) {
            0nat
        } else {
            1nat
        })
    }

    /// Maps the 4 KiB page holding `ipa` to the page at `pa` with attributes `pte`.
    ///
    /// Missing table pages are taken from `pool`; when the pool runs dry the
    /// page is left unmapped. A page that is already mapped keeps its mapping,
    /// and a page inside a 2 MiB block is left as the block maps it.
    pub fn map(&mut self, pool: &mut FramePool, ipa: usize, pa: usize, pte: usize)
        requires
            old(self).wf(),
            pa % 4 == 0,
            pte % 4 == 0,
        ensures
            final(self).wf(),
            final(self).directory == old(self).directory,
            old(self).is_block_at(ipa as nat) ==> final(self).pages@ == old(self).pages@ && final(pool).frames@ == old(
                pool,
            ).frames@ && final(self).translate(ipa as nat) == old(self).translate(ipa as nat),
            forall|i1: int, i2: int, i3: int|
                in_range(i1, i2, i3) && !(i1 == lvl1_index(ipa as nat) && i2 == lvl2_index(
                    ipa as nat,
                ) && i3 == lvl3_index(ipa as nat)) ==> #[trigger] final(self).leaf(i1, i2, i3)
                    == old(self).leaf(i1, i2, i3),
            forall|i1: int, i2: int|
                0 <= i1 < 512 && 0 <= i2 < 512 ==> #[trigger] final(self).block_at(i1, i2)
                    == old(self).block_at(i1, i2),
            old(self).translate(ipa as nat) is Some ==> final(self).translate(ipa as nat) == old(
                self,
            ).translate(ipa as nat),
            old(self).translate(ipa as nat) is None ==> final(self).translate(ipa as nat) is None
                || final(self).translate(ipa as nat) == Some(page_desc(pa, pte)),
            old(self).translate(ipa as nat) is None && old(pool).frames@.len() >= old(
                self,
            ).frames_needed(ipa as nat) ==> final(self).translate(ipa as nat) == Some(
                page_desc(pa, pte),
            ),
            final(pool).frames@.len() <= old(pool).frames@.len(),
            final(pool).frames@.len() + 2 >= old(pool).frames@.len(),
            final(pool).frames@ == old(pool).frames@.take(final(pool).frames@.len() as int),
            final(self).pages@ == old(self).pages@ + frames_taken(old(pool).frames@, final(pool).frames@.len()),
    {
        let i1 = pt_lvl1_idx(ipa);
        let i2 = pt_lvl2_idx(ipa);
        let i3 = pt_lvl3_idx(ipa);
        let desc = pa | PTE_TABLE | pte;
        let ghost old_pages = self.pages@;
        let ghost old_pool = pool.frames@;
        proof {
            lemma_page_desc_valid(pa, pte);
        }
        let ghost old_t = *self;
        let mut slot: Option<L2Table> = None;
        std::mem::swap(&mut slot, &mut self.l1[i1]);
        let mut t2 = match slot {
            Some(t) => t,
            None => match pool.alloc_frame() {
                Ok(frame) => {
                    self.pages.push(frame);
                    L2Table { frame, entries: invalid_l2_entries() }
                },
                Err(_) => {
                    assert(self.l1@ =~= old_t.l1@);
                    return ;
                },
            },
        };
        let ghost t2_before = t2;
        let mut e2 = L2Entry::Invalid;
        std::mem::swap(&mut e2, &mut t2.entries[i2]);
        let mut t3 = match e2 {
            L2Entry::Table(t) => t,
            L2Entry::Invalid => match pool.alloc_frame() {
                Ok(frame) => {
                    self.pages.push(frame);
                    L3Table { frame, entries: zeroed_entries() }
                },
                Err(_) => {
                    assert(t2.entries@ =~= t2_before.entries@.update(i2 as int, L2Entry::Invalid));
                    self.l1.set(i1, Some(t2));
                    return ;
                },
            },
            L2Entry::Block(raw) => {
                t2.entries.set(i2, L2Entry::Block(raw));
                assert(t2.entries@ =~= t2_before.entries@);
                self.l1.set(i1, Some(t2));
                return ;
            },
        };
        let ghost t3_before = t3;
        let cur = t3.entries[i3];
        let cur_low = cur & 0b11;
        proof {
            lemma_usize_bits();
        }
        assert(cur_low == cur % 4);
        if cur_low == 0 {
            t3.entries.set(i3, desc);
        }
        t2.entries.set(i2, L2Entry::Table(t3));
        self.l1.set(i1, Some(t2));
        proof {
            let nt2 = self.l1@[i1 as int]->Some_0;
            assert forall|j: int| 0 <= j < 512 implies match #[trigger] nt2.entries@[j] {
                L2Entry::Table(t) => t.entries@.len() == 512,
                L2Entry::Block(raw) => raw % 4 == 1,
                L2Entry::Invalid => true,
            } by {
                if j != i2 {
                    assert(nt2.entries@[j] == t2_before.entries@[j]);
                }
            }
            assert forall|j: int| 0 <= j < 512 implies match #[trigger] self.l1@[j] {
                Some(t) => t.wf(),
                None => true,
            } by {
                if j != i1 {
                    assert(self.l1@[j] == old_t.l1@[j]);
                }
            }
        }
    }
}

impl PageTable {
    /// Removes the frames at `pa` from the list of table pages and gives the frame back to the pool.
    fn release_table_frame(&mut self, pool: &mut FramePool, frame: PageFrame)
        ensures
            final(self).l1@ == old(self).l1@,
            final(self).directory == old(self).directory,
            final(self).pages@ == without_frame(old(self).pages@, frame.pa),
            final(pool).frames@ == old(pool).frames@.push(frame),
    {
        self.pages = retain_other_frames(&self.pages, frame.pa);
        pool.free_frame(frame);
    }

    /// The table pages that unmapping the page holding `ipa` gives back: the
    /// level-3 table page if the page was mapped and was the last mapping in it,
    /// and then the level-2 table page if that table was the last entry in it.
    pub open spec fn unmap_released(&self, ipa: nat) -> Seq<PageFrame> {
        match self.l1@[lvl1_index(ipa) as int] {
            None => Seq::empty(),
            Some(t2) => match t2.entries@[lvl2_index(ipa) as int] {
                L2Entry::Table(t3) => if t3.entries@[lvl3_index(ipa) as int] % 4 == 0 || !all_zero(
                    t3.entries@.update(lvl3_index(ipa) as int, 0),
                ) {
                    Seq::empty()
                } else if all_invalid(t2.entries@.update(lvl2_index(ipa) as int, L2Entry::Invalid)) {
                    seq![t3.frame, t2.frame]
                } else {
                    seq![t3.frame]
                },
                _ => Seq::empty(),
            },
        }
    }

    /// Unmaps the 4 KiB page holding `ipa`.
    ///
    /// A level-3 table page left without mappings is released to `pool`, and
    /// then a level-2 table page left without mappings is released too. A page
    /// inside a 2 MiB block is left as the block maps it.
    pub fn unmap(&mut self, pool: &mut FramePool, ipa: usize)
        requires
            old(self).wf(),
        ensures
            final(self).wf(),
            final(self).directory == old(self).directory,
            old(self).is_block_at(ipa as nat) ==> final(self).pages@ == old(self).pages@ && final(pool).frames@ == old(
                pool,
            ).frames@ && final(self).translate(ipa as nat) == old(self).translate(ipa as nat),
            !old(self).is_block_at(ipa as nat) ==> final(self).translate(ipa as nat) is None,
            final(pool).frames@ == old(pool).frames@ + old(self).unmap_released(ipa as nat),
            forall|i1: int, i2: int, i3: int|
                in_range(i1, i2, i3) && !(i1 == lvl1_index(ipa as nat) && i2 == lvl2_index(
                    ipa as nat,
                ) && i3 == lvl3_index(ipa as nat)) ==> #[trigger] final(self).leaf(i1, i2, i3)
                    == old(self).leaf(i1, i2, i3),
            forall|i1: int, i2: int|
                0 <= i1 < 512 && 0 <= i2 < 512 ==> #[trigger] final(self).block_at(i1, i2)
                    == old(self).block_at(i1, i2),
            final(pool).frames@.len() <= old(pool).frames@.len() + 2,
            final(pool).frames@.take(old(pool).frames@.len() as int) == old(pool).frames@,
    {
        let i1 = pt_lvl1_idx(ipa);
        let i2 = pt_lvl2_idx(ipa);
        let i3 = pt_lvl3_idx(ipa);
        let ghost old_t = *self;
        let ghost old_pool = pool.frames@;
        let mut slot: Option<L2Table> = None;
        std::mem::swap(&mut slot, &mut self.l1[i1]);
        let mut t2 = match slot {
            Some(t) => t,
            None => {
                assert(self.l1@ =~= old_t.l1@);
                assert(pool.frames@.take(old_pool.len() as int) =~= old_pool);
                return ;
            },
        };
        let ghost t2_before = t2;
        let mut e2 = L2Entry::Invalid;
        std::mem::swap(&mut e2, &mut t2.entries[i2]);
        let mut t3 = match e2 {
            L2Entry::Table(t) => t,
            L2Entry::Invalid => {
                self.l1.set(i1, Some(t2));
                assert(pool.frames@.take(old_pool.len() as int) =~= old_pool);
                return ;
            },
            L2Entry::Block(raw) => {
                t2.entries.set(i2, L2Entry::Block(raw));
                assert(t2.entries@ =~= t2_before.entries@);
                self.l1.set(i1, Some(t2));
                assert(pool.frames@.take(old_pool.len() as int) =~= old_pool);
                return ;
            },
        };
        let ghost t3_before = t3;
        let cur = t3.entries[i3];
        let cur_low = cur & 0b11;
        proof {
            lemma_usize_bits();
        }
        assert(cur_low == cur % 4);
        if cur_low == 0 {
            t2.entries.set(i2, L2Entry::Table(t3));
            self.l1.set(i1, Some(t2));
            assert(pool.frames@.take(old_pool.len() as int) =~= old_pool);
            proof {
                assert forall|j: int| 0 <= j < 512 implies match #[trigger] self.l1@[j] {
                    Some(t) => t.wf(),
                    None => true,
                } by {
                    if j != i1 {
                        assert(self.l1@[j] == old_t.l1@[j]);
                    } else {
                        let nt2 = self.l1@[i1 as int]->Some_0;
                        assert forall|k: int| 0 <= k < 512 implies match #[trigger] nt2.entries@[k] {
                            L2Entry::Table(t) => t.entries@.len() == 512,
                            L2Entry::Block(raw) => raw % 4 == 1,
                            L2Entry::Invalid => true,
                        } by {
                            if k != i2 {
                                assert(nt2.entries@[k] == t2_before.entries@[k]);
                            }
                        }
                    }
                }
            }
            return ;
        }
        t3.entries.set(i3, 0);
        let ghost t3_after = t3;
        let ghost t2_mid = t2;
        if empty_page(&t3.entries) {
            let f3 = t3.frame;
            self.release_table_frame(pool, f3);
            if empty_l2_page(&t2.entries) {
                let f2 = t2.frame;
                self.release_table_frame(pool, f2);
                assert(self.l1@[i1 as int] is None);
            } else {
                self.l1.set(i1, Some(t2));
            }
        } else {
            t2.entries.set(i2, L2Entry::Table(t3));
            self.l1.set(i1, Some(t2));
        }
        assert(pool.frames@.take(old_pool.len() as int) =~= old_pool);
        proof {
            assert forall|a: int, b: int, c: int|
                in_range(a, b, c) && !(a == i1 && b == i2 && c == i3) implies #[trigger] self.leaf(a, b, c)
                == old_t.leaf(a, b, c) by {
                if a != i1 {
                    assert(self.l1@[a] == old_t.l1@[a]);
                } else if b != i2 {
                    assert(t2_before.entries@[b] == t2_mid.entries@[b]);
                    if self.l1@[a] is None {
                        assert(t2_mid.entries@[b] is Invalid);
                    }
                } else {
                    assert(t3_after.entries@[c] == t3_before.entries@[c]);
                    if !(self.l1@[a] is Some && self.l1@[a]->Some_0.entries@[b] is Table) {
                        assert(t3_after.entries@[c] == 0);
                    }
                }
            }
            assert forall|a: int, b: int| 0 <= a < 512 && 0 <= b < 512 implies #[trigger] self.block_at(a, b)
                == old_t.block_at(a, b) by {
                if a != i1 {
                    assert(self.l1@[a] == old_t.l1@[a]);
                } else if b != i2 {
                    assert(t2_before.entries@[b] == t2_mid.entries@[b]);
                    if self.l1@[a] is None {
                        assert(t2_mid.entries@[b] is Invalid);
                    }
                }
            }
        }
        proof {
            assert forall|j: int| 0 <= j < 512 implies match #[trigger] self.l1@[j] {
                Some(t) => t.wf(),
                None => true,
            } by {
                if j != i1 {
                    assert(self.l1@[j] == old_t.l1@[j]);
                } else if self.l1@[j] is Some {
                    let nt2 = self.l1@[i1 as int]->Some_0;
                    assert forall|k: int| 0 <= k < 512 implies match #[trigger] nt2.entries@[k] {
                        L2Entry::Table(t) => t.entries@.len() == 512,
                        L2Entry::Block(raw) => raw % 4 == 1,
                        L2Entry::Invalid => true,
                    } by {
                        if k != i2 {
                            assert(nt2.entries@[k] == t2_before.entries@[k]);
                        }
                    }
                }
            }
        }
    }

    /// Maps the 2 MiB block holding `ipa` to the block at `pa` with attributes `pte`.
    ///
    /// A missing level-2 table page is taken from `pool`; when the pool is
    /// empty the block is left unmapped. A level-2 slot already in use keeps
    /// its contents.
    pub fn map_2mb(&mut self, pool: &mut FramePool, ipa: usize, pa: usize, pte: usize)
        requires
            old(self).wf(),
            pa % 4 == 0,
            pte % 4 == 0,
        ensures
            final(self).wf(),
            final(self).directory == old(self).directory,
            forall|i1: int, i2: int, i3: int|
                in_range(i1, i2, i3) && !(i1 == lvl1_index(ipa as nat) && i2 == lvl2_index(
                    ipa as nat,
                )) ==> #[trigger] final(self).leaf(i1, i2, i3) == old(self).leaf(i1, i2, i3),
            forall|i1: int, i2: int|
                0 <= i1 < 512 && 0 <= i2 < 512 && !(i1 == lvl1_index(ipa as nat) && i2
                    == lvl2_index(ipa as nat)) ==> #[trigger] final(self).block_at(i1, i2) == old(
                    self,
                ).block_at(i1, i2),
            old(self).l2_slot_used(ipa as nat) ==> forall|i3: int|
                0 <= i3 < 512 ==> #[trigger] final(self).leaf(
                    lvl1_index(ipa as nat) as int,
                    lvl2_index(ipa as nat) as int,
                    i3,
                ) == old(self).leaf(lvl1_index(ipa as nat) as int, lvl2_index(ipa as nat) as int, i3),
            old(self).l2_slot_used(ipa as nat) ==> final(self).block_at(
                lvl1_index(ipa as nat) as int,
                lvl2_index(ipa as nat) as int,
            ) == old(self).block_at(lvl1_index(ipa as nat) as int, lvl2_index(ipa as nat) as int),
            !old(self).l2_slot_used(ipa as nat) && (old(self).l1_slot_used(ipa as nat) || old(
                pool,
            ).frames@.len() > 0) ==> final(self).block_at(
                lvl1_index(ipa as nat) as int,
                lvl2_index(ipa as nat) as int,
            ) && forall|i3: int|
                0 <= i3 < 512 ==> #[trigger] final(self).leaf(
                    lvl1_index(ipa as nat) as int,
                    lvl2_index(ipa as nat) as int,
                    i3,
                ) == Some(block_desc(pa, pte)),
            forall|i1: int, i2: int|
                0 <= i1 < 512 && 0 <= i2 < 512 && !(i1 == lvl1_index(ipa as nat) && i2
                    == lvl2_index(ipa as nat)) ==> #[trigger] final(self).slot_used_at(i1, i2)
                    == old(self).slot_used_at(i1, i2),
            old(self).l1_slot_used(ipa as nat) || old(pool).frames@.len() > 0 ==> final(self).l2_slot_used(ipa as nat),
            final(pool).frames@.len() <= old(pool).frames@.len(),
            final(pool).frames@.len() + 1 >= old(pool).frames@.len(),
            final(pool).frames@ == old(pool).frames@.take(final(pool).frames@.len() as int),
    {
        let i1 = pt_lvl1_idx(ipa);
        let i2 = pt_lvl2_idx(ipa);
        let desc = pa | pte | PTE_BLOCK;
        proof {
            lemma_block_desc_type(pa, pte);
        }
        let ghost old_t = *self;
        let mut slot: Option<L2Table> = None;
        std::mem::swap(&mut slot, &mut self.l1[i1]);
        let mut t2 = match slot {
            Some(t) => t,
            None => match pool.alloc_frame() {
                Ok(frame) => {
                    self.pages.push(frame);
                    L2Table { frame, entries: invalid_l2_entries() }
                },
                Err(_) => {
                    assert(self.l1@ =~= old_t.l1@);
                    return ;
                },
            },
        };
        let ghost t2_before = t2;
        let used = match &t2.entries[i2] {
            L2Entry::Invalid => false,
            _ => true,
        };
        if !used {
            t2.entries.set(i2, L2Entry::Block(desc));
        }
        self.l1.set(i1, Some(t2));
        proof {
            assert forall|j: int| 0 <= j < 512 implies match #[trigger] self.l1@[j] {
                Some(t) => t.wf(),
                None => true,
            } by {
                if j != i1 {
                    assert(self.l1@[j] == old_t.l1@[j]);
                } else {
                    let nt2 = self.l1@[i1 as int]->Some_0;
                    assert forall|k: int| 0 <= k < 512 implies match #[trigger] nt2.entries@[k] {
                        L2Entry::Table(t) => t.entries@.len() == 512,
                        L2Entry::Block(raw) => raw % 4 == 1,
                        L2Entry::Invalid => true,
                    } by {
                        if k != i2 {
                            assert(nt2.entries@[k] == t2_before.entries@[k]);
                        }
                    }
                }
            }
        }
    }

    /// Unmaps the 2 MiB region holding `ipa`: its level-2 slot is emptied,
    /// whether it held a block or a level-3 table (whose page stays in the
    /// list of table pages). A level-2 table page left without mappings is
    /// released to `pool`.
    pub fn unmap_2mb(&mut self, pool: &mut FramePool, ipa: usize)
        requires
            old(self).wf(),
        ensures
            final(self).wf(),
            final(self).directory == old(self).directory,
            forall|i1: int, i2: int, i3: int|
                in_range(i1, i2, i3) && !(i1 == lvl1_index(ipa as nat) && i2 == lvl2_index(
                    ipa as nat,
                )) ==> #[trigger] final(self).leaf(i1, i2, i3) == old(self).leaf(i1, i2, i3),
            forall|i3: int|
                0 <= i3 < 512 ==> #[trigger] final(self).leaf(
                    lvl1_index(ipa as nat) as int,
                    lvl2_index(ipa as nat) as int,
                    i3,
                ) is None,
            forall|i1: int, i2: int|
                0 <= i1 < 512 && 0 <= i2 < 512 && !(i1 == lvl1_index(ipa as nat) && i2
                    == lvl2_index(ipa as nat)) ==> #[trigger] final(self).block_at(i1, i2) == old(
                    self,
                ).block_at(i1, i2),
            !final(self).block_at(lvl1_index(ipa as nat) as int, lvl2_index(ipa as nat) as int),
            final(pool).frames@.len() <= old(pool).frames@.len() + 1,
            final(pool).frames@.take(old(pool).frames@.len() as int) == old(pool).frames@,
    {
        let i1 = pt_lvl1_idx(ipa);
        let i2 = pt_lvl2_idx(ipa);
        let ghost old_t = *self;
        let ghost old_pool = pool.frames@;
        let mut slot: Option<L2Table> = None;
        std::mem::swap(&mut slot, &mut self.l1[i1]);
        let mut t2 = match slot {
            Some(t) => t,
            None => {
                assert(self.l1@ =~= old_t.l1@);
                assert(pool.frames@.take(old_pool.len() as int) =~= old_pool);
                return ;
            },
        };
        let ghost t2_before = t2;
        let used = match &t2.entries[i2] {
            L2Entry::Invalid => false,
            _ => true,
        };
        if !used {
            self.l1.set(i1, Some(t2));
            assert(self.l1@ =~= old_t.l1@);
            assert(pool.frames@.take(old_pool.len() as int) =~= old_pool);
            return ;
        }
        t2.entries.set(i2, L2Entry::Invalid);
        let ghost t2_mid = t2;
        if empty_l2_page(&t2.entries) {
            let f2 = t2.frame;
            self.release_table_frame(pool, f2);
        } else {
            self.l1.set(i1, Some(t2));
        }
        assert(pool.frames@.take(old_pool.len() as int) =~= old_pool);
        proof {
            assert forall|a: int, b: int, c: int|
                in_range(a, b, c) && !(a == i1 && b == i2) implies #[trigger] self.leaf(a, b, c)
                == old_t.leaf(a, b, c) by {
                if a != i1 {
                    assert(self.l1@[a] == old_t.l1@[a]);
                } else {
                    assert(t2_before.entries@[b] == t2_mid.entries@[b]);
                    if self.l1@[a] is None {
                        assert(t2_mid.entries@[b] is Invalid);
                    }
                }
            }
            assert forall|a: int, b: int|
                0 <= a < 512 && 0 <= b < 512 && !(a == i1 && b == i2) implies #[trigger] self.block_at(a, b)
                == old_t.block_at(a, b) by {
                if a != i1 {
                    assert(self.l1@[a] == old_t.l1@[a]);
                } else {
                    assert(t2_before.entries@[b] == t2_mid.entries@[b]);
                    if self.l1@[a] is None {
                        assert(t2_mid.entries@[b] is Invalid);
                    }
                }
            }
        }
        proof {
            assert forall|j: int| 0 <= j < 512 implies match #[trigger] self.l1@[j] {
                Some(t) => t.wf(),
                None => true,
            } by {
                if j != i1 {
                    assert(self.l1@[j] == old_t.l1@[j]);
                } else if self.l1@[j] is Some {
                    let nt2 = self.l1@[i1 as int]->Some_0;
                    assert forall|k: int| 0 <= k < 512 implies match #[trigger] nt2.entries@[k] {
                        L2Entry::Table(t) => t.entries@.len() == 512,
                        L2Entry::Block(raw) => raw % 4 == 1,
                        L2Entry::Invalid => true,
                    } by {
                        if k != i2 {
                            assert(nt2.entries@[k] == t2_before.entries@[k]);
                        }
                    }
                }
            }
        }
    }
}

/// `value` rounded up to a multiple of `to`.
pub fn round_up(value: usize, to: usize) -> (r: usize)
    requires
        to > 0,
        value + to - 1 <= usize::MAX,
    ensures
        r == ((value + to - 1) / to as int) * to,
        r >= value,
        r % to == 0,
{
    let q = (value + (to - 1)) / to;
    assert(q * to <= value + to - 1) by (nonlinear_arith)
        requires
            q == (value + to - 1) / to as int,
            to > 0,
    ;
    assert(q * to >= value && (q * to) % (to as int) == 0) by (nonlinear_arith)
        requires
            q == (value + to - 1) / to as int,
            to > 0,
    ;
    q * to
}

/// The address of the `k`-th page of size `size` from `base`.
pub open spec fn nth_page(base: usize, k: int, size: int) -> nat {
    (base + k * size) as nat
}

/// Whether one of the first `n` 4 KiB pages from `ipa` has the indices `(i1, i2, i3)`.
pub open spec fn range_hits(ipa: usize, n: int, i1: int, i2: int, i3: int) -> bool {
    exists|k: int|
        0 <= k < n && lvl1_index(#[trigger] nth_page(ipa, k, 4096)) == i1 && lvl2_index(
            nth_page(ipa, k, 4096),
        ) == i2 && lvl3_index(nth_page(ipa, k, 4096)) == i3
}

/// Whether one of the first `n` 2 MiB blocks from `ipa` has the level-1 and level-2 indices `(i1, i2)`.
pub open spec fn range_hits_2mb(ipa: usize, n: int, i1: int, i2: int) -> bool {
    exists|k: int|
        0 <= k < n && lvl1_index(#[trigger] nth_page(ipa, k, 0x20_0000)) == i1 && lvl2_index(
            nth_page(ipa, k, 0x20_0000),
        ) == i2
}

/// What mapping the 4 KiB pages of a range does to a page table.
pub open spec fn map_range_post(old: PageTable, new: PageTable, old_pool_len: nat, ipa: usize, len: usize, pa: usize, pte: usize) -> bool {
    let n = (len + 4095) / 4096;
    &&& new.wf()
    &&& new.directory == old.directory
    &&& forall|i1: int, i2: int, i3: int|
        in_range(i1, i2, i3) && !range_hits(ipa, n, i1, i2, i3)
            ==> #[trigger] new.leaf(i1, i2, i3) == old.leaf(i1, i2, i3)
    &&& forall|i1: int, i2: int|
        0 <= i1 < 512 && 0 <= i2 < 512 ==> #[trigger] new.block_at(i1, i2)
            == old.block_at(i1, i2)
    &&& forall|k: int|
        0 <= k < n && old.translate(#[trigger] nth_page(ipa, k, 4096)) is Some
            ==> new.translate(nth_page(ipa, k, 4096)) == old.translate(
            nth_page(ipa, k, 4096),
        )
    &&& old_pool_len >= 2 * n ==> forall|k: int|
        0 <= k < n ==> new.translate(#[trigger] nth_page(ipa, k, 4096)) is Some
    &&& old_pool_len >= 2 * n && ipa + n * 4096 <= 0x80_0000_0000
        ==> forall|k: int|
        0 <= k < n && old.translate(#[trigger] nth_page(ipa, k, 4096)) is None
            ==> new.translate(nth_page(ipa, k, 4096)) == Some(
            page_desc((pa + k * 4096) as usize, pte),
        )

}

/// What unmapping the 4 KiB pages of a range does to a page table.
pub open spec fn unmap_range_post(old: PageTable, new: PageTable, ipa: usize, len: usize) -> bool {
    let n = (len + 4095) / 4096;
    &&& new.wf()
    &&& new.directory == old.directory
    &&& forall|i1: int, i2: int, i3: int|
        in_range(i1, i2, i3) && !range_hits(ipa, n, i1, i2, i3)
            ==> #[trigger] new.leaf(i1, i2, i3) == old.leaf(i1, i2, i3)
    &&& forall|i1: int, i2: int|
        0 <= i1 < 512 && 0 <= i2 < 512 ==> #[trigger] new.block_at(i1, i2)
            == old.block_at(i1, i2)
    &&& forall|k: int|
        0 <= k < n && !old.is_block_at(#[trigger] nth_page(ipa, k, 4096)) ==> new.translate(
            nth_page(ipa, k, 4096),
        ) is None
    &&& forall|k: int|
        0 <= k < n && old.is_block_at(#[trigger] nth_page(ipa, k, 4096)) ==> new.translate(
            nth_page(ipa, k, 4096),
        ) == old.translate(nth_page(ipa, k, 4096))
}

/// What mapping the 2 MiB blocks of a range does to a page table.
pub open spec fn map_range_2mb_post(old: PageTable, new: PageTable, old_pool_len: nat, ipa: usize, len: usize, pa: usize, pte: usize) -> bool {
    let n = (len + 0x1f_ffff) / 0x20_0000;
    &&& new.wf()
    &&& new.directory == old.directory
    &&& forall|i1: int, i2: int, i3: int|
        in_range(i1, i2, i3) && !range_hits_2mb(ipa, n, i1, i2)
            ==> #[trigger] new.leaf(i1, i2, i3) == old.leaf(i1, i2, i3)
    &&& forall|i1: int, i2: int|
        0 <= i1 < 512 && 0 <= i2 < 512 && !range_hits_2mb(ipa, n, i1, i2)
            ==> #[trigger] new.block_at(i1, i2) == old.block_at(i1, i2)
    &&& old_pool_len >= n ==> forall|k: int|
        0 <= k < n ==> new.l2_slot_used(#[trigger] nth_page(ipa, k, 0x20_0000))
    &&& old_pool_len >= n && ipa + n * 0x20_0000 <= 0x80_0000_0000
        ==> forall|k: int|
        0 <= k < n && !old.l2_slot_used(#[trigger] nth_page(ipa, k, 0x20_0000))
            ==> new.is_block_at(nth_page(ipa, k, 0x20_0000))
            && new.translate(nth_page(ipa, k, 0x20_0000)) == Some(
            block_desc((pa + k * 0x20_0000) as usize, pte),
        )

}

/// Pages below 512 GiB with the same indices at every level are the same page.
pub proof fn lemma_indices_determine_page(a: nat, b: nat)
    requires
        a < 0x80_0000_0000,
        b < 0x80_0000_0000,
        lvl1_index(a) == lvl1_index(b),
        lvl2_index(a) == lvl2_index(b),
        lvl3_index(a) == lvl3_index(b),
    ensures
        page_number(a) == page_number(b),
{
    let p = page_number(a);
    let q = page_number(b);
    assert(p < 0x800_0000 && q < 0x800_0000);
    assert(p == (p / 262144) * 262144 + ((p / 512) % 512) * 512 + p % 512) by (nonlinear_arith)
        requires
            p < 0x800_0000,
    ;
    assert(q == (q / 262144) * 262144 + ((q / 512) % 512) * 512 + q % 512) by (nonlinear_arith)
        requires
            q < 0x800_0000,
    ;
    assert(p / 262144 == (p / 262144) % 512);
    assert(q / 262144 == (q / 262144) % 512);
}

/// 2 MiB blocks below 512 GiB with the same level-1 and level-2 indices are the same block.
pub proof fn lemma_indices_determine_block(a: nat, b: nat)
    requires
        a < 0x80_0000_0000,
        b < 0x80_0000_0000,
        lvl1_index(a) == lvl1_index(b),
        lvl2_index(a) == lvl2_index(b),
    ensures
        page_number(a) / 512 == page_number(b) / 512,
{
    let p = page_number(a) / 512;
    let q = page_number(b) / 512;
    assert(p < 262144 && q < 262144);
    assert(p == (p / 512) * 512 + p % 512) by (nonlinear_arith);
    assert(q == (q / 512) * 512 + q % 512) by (nonlinear_arith);
    assert(page_number(a) / 262144 == p / 512);
    assert(page_number(b) / 262144 == q / 512);
}

/// Distinct 4 KiB pages of one range below 512 GiB differ in some index.
proof fn lemma_range_pages_distinct(ipa: usize, j: int, k: int)
    requires
        0 <= j < k,
        ipa + k * 4096 < 0x80_0000_0000,
    ensures
        !(lvl1_index(nth_page(ipa, j, 4096)) == lvl1_index(nth_page(ipa, k, 4096)) && lvl2_index(
            nth_page(ipa, j, 4096),
        ) == lvl2_index(nth_page(ipa, k, 4096)) && lvl3_index(nth_page(ipa, j, 4096))
            == lvl3_index(nth_page(ipa, k, 4096))),
{
    let a = nth_page(ipa, j, 4096);
    let b = nth_page(ipa, k, 4096);
    assert(b >= a + 4096) by (nonlinear_arith)
        requires
            j < k,
            a == ipa + j * 4096,
            b == ipa + k * 4096,
    ;
    if lvl1_index(a) == lvl1_index(b) && lvl2_index(a) == lvl2_index(b) && lvl3_index(a)
        == lvl3_index(b) {
        lemma_indices_determine_page(a, b);
    }
}

/// Distinct 2 MiB blocks of one range below 512 GiB differ in some index.
proof fn lemma_range_blocks_distinct(ipa: usize, j: int, k: int)
    requires
        0 <= j < k,
        ipa + k * 0x20_0000 < 0x80_0000_0000,
    ensures
        !(lvl1_index(nth_page(ipa, j, 0x20_0000)) == lvl1_index(nth_page(ipa, k, 0x20_0000))
            && lvl2_index(nth_page(ipa, j, 0x20_0000)) == lvl2_index(nth_page(ipa, k, 0x20_0000))),
{
    let a = nth_page(ipa, j, 0x20_0000);
    let b = nth_page(ipa, k, 0x20_0000);
    assert(b >= a + 0x20_0000) by (nonlinear_arith)
        requires
            j < k,
            a == ipa + j * 0x20_0000,
            b == ipa + k * 0x20_0000,
    ;
    if lvl1_index(a) == lvl1_index(b) && lvl2_index(a) == lvl2_index(b) {
        lemma_indices_determine_block(a, b);
    }
}

impl PageTable {
    /// Maps the `round_up(len, 4 KiB) / 4 KiB` pages from `ipa` to the pages
    /// from `pa`, one 4 KiB page at a time.
    pub fn map_range(&mut self, pool: &mut FramePool, ipa: usize, len: usize, pa: usize, pte: usize)
        requires
            old(self).wf(),
            pa % 4 == 0,
            pte % 4 == 0,
            len + 4095 <= usize::MAX,
            ipa + len + 4095 <= usize::MAX,
            pa + len + 4095 <= usize::MAX,
        ensures
            map_range_post(*old(self), *final(self), old(pool).frames@.len(), ipa, len, pa, pte),
    {
        let page_num = round_up(len, PAGE_SIZE) / PAGE_SIZE;
        let ghost n = (len + 4095) / 4096;
        assert(page_num == n) by (nonlinear_arith)
            requires
                page_num == (((len + 4095) / 4096) * 4096) / 4096,
                n == (len + 4095) / 4096,
        ;
        assert(n * 4096 <= len + 4095) by (nonlinear_arith)
            requires
                n == (len + 4095) / 4096,
        ;
        let ghost start = *self;
        let ghost start_pool = pool.frames@.len();
        let mut i: usize = 0;
        while i < page_num
            invariant
                i <= page_num,
                page_num == n,
                n * 4096 <= len + 4095,
                ipa + len + 4095 <= usize::MAX,
                pa + len + 4095 <= usize::MAX,
                pa % 4 == 0,
                pte % 4 == 0,
                self.wf(),
                self.directory == start.directory,
                pool.frames@.len() + 2 * i >= start_pool,
                forall|i1: int, i2: int|
                    0 <= i1 < 512 && 0 <= i2 < 512 ==> #[trigger] self.block_at(i1, i2)
                        == start.block_at(i1, i2),
                forall|i1: int, i2: int, i3: int|
                    in_range(i1, i2, i3) && !range_hits(ipa, i as int, i1, i2, i3)
                        ==> #[trigger] self.leaf(i1, i2, i3) == start.leaf(i1, i2, i3),
                forall|k: int|
                    0 <= k < i && start.translate(#[trigger] nth_page(ipa, k, 4096)) is Some
                        ==> self.translate(nth_page(ipa, k, 4096)) == start.translate(
                        nth_page(ipa, k, 4096),
                    ),
                start_pool >= 2 * n ==> forall|k: int|
                    0 <= k < i ==> self.translate(#[trigger] nth_page(ipa, k, 4096)) is Some,
                start_pool >= 2 * n && ipa + n * 4096 <= 0x80_0000_0000 ==> forall|k: int|
                    0 <= k < i && start.translate(#[trigger] nth_page(ipa, k, 4096)) is None
                        ==> self.translate(nth_page(ipa, k, 4096)) == Some(
                        page_desc((pa + k * 4096) as usize, pte),
                    ),
            decreases page_num - i,
        {
            assert(i * 4096 + 4096 <= n * 4096) by (nonlinear_arith)
                requires
                    i < n,
            ;
            let va = ipa + i * PAGE_SIZE;
            let pa_i = pa + i * PAGE_SIZE;
            let ghost before = *self;
            let ghost ii = i as int;
            assert(va as nat == nth_page(ipa, ii, 4096));
            assert(pa_i % 4 == 0) by (nonlinear_arith)
                requires
                    pa % 4 == 0,
                    pa_i == pa + i * 4096,
            ;
            self.map(pool, va, pa_i, pte);
            proof {
                let t1 = lvl1_index(va as nat) as int;
                let t2 = lvl2_index(va as nat) as int;
                let t3 = lvl3_index(va as nat) as int;
                assert forall|i1: int, i2: int, i3: int|
                    in_range(i1, i2, i3) && !range_hits(ipa, ii + 1, i1, i2, i3) implies #[trigger] self.leaf(
                    i1,
                    i2,
                    i3,
                ) == start.leaf(i1, i2, i3) by {
                    if range_hits(ipa, ii, i1, i2, i3) {
                        let k = choose|k: int|
                            0 <= k < ii && lvl1_index(#[trigger] nth_page(ipa, k, 4096)) == i1
                                && lvl2_index(nth_page(ipa, k, 4096)) == i2 && lvl3_index(
                                nth_page(ipa, k, 4096),
                            ) == i3;
                        assert(range_hits(ipa, ii + 1, i1, i2, i3));
                    }
                    if i1 == t1 && i2 == t2 && i3 == t3 {
                        assert(range_hits(ipa, ii + 1, i1, i2, i3));
                    }
                    assert(before.leaf(i1, i2, i3) == start.leaf(i1, i2, i3));
                }
                assert forall|k: int|
                    0 <= k <= ii && start.translate(#[trigger] nth_page(ipa, k, 4096)) is Some
                        implies self.translate(nth_page(ipa, k, 4096)) == start.translate(
                    nth_page(ipa, k, 4096),
                ) by {
                    let p = nth_page(ipa, k, 4096);
                    if k == ii {
                        assert(!range_hits(ipa, ii, t1, t2, t3) ==> before.leaf(t1, t2, t3)
                            == start.leaf(t1, t2, t3));
                        if range_hits(ipa, ii, t1, t2, t3) {
                            let j = choose|j: int|
                                0 <= j < ii && lvl1_index(#[trigger] nth_page(ipa, j, 4096)) == t1
                                    && lvl2_index(nth_page(ipa, j, 4096)) == t2 && lvl3_index(
                                    nth_page(ipa, j, 4096),
                                ) == t3;
                            assert(before.translate(nth_page(ipa, j, 4096)) == start.translate(
                                nth_page(ipa, j, 4096),
                            ));
                        }
                    } else {
                        if lvl1_index(p) == t1 && lvl2_index(p) == t2 && lvl3_index(p) == t3 {
                            assert(before.translate(va as nat) is Some);
                        }
                    }
                }
                if start_pool >= 2 * n {
                    assert forall|k: int| 0 <= k <= ii implies self.translate(
                        #[trigger] nth_page(ipa, k, 4096),
                    ) is Some by {
                        let p = nth_page(ipa, k, 4096);
                        if k < ii {
                            assert(before.translate(p) is Some);
                        }
                    }
                }
                if start_pool >= 2 * n && ipa + n * 4096 <= 0x80_0000_0000 {
                    assert forall|k: int|
                        0 <= k <= ii && start.translate(#[trigger] nth_page(ipa, k, 4096)) is None
                            implies self.translate(nth_page(ipa, k, 4096)) == Some(
                        page_desc((pa + k * 4096) as usize, pte),
                    ) by {
                        let p = nth_page(ipa, k, 4096);
                        if k < ii {
                            lemma_range_pages_distinct(ipa, k, ii);
                        } else {
                            if range_hits(ipa, ii, t1, t2, t3) {
                                let j = choose|j: int|
                                    0 <= j < ii && lvl1_index(#[trigger] nth_page(ipa, j, 4096))
                                        == t1 && lvl2_index(nth_page(ipa, j, 4096)) == t2
                                        && lvl3_index(nth_page(ipa, j, 4096)) == t3;
                                lemma_range_pages_distinct(ipa, j, ii);
                            }
                            assert(before.translate(va as nat) is None);
                        }
                    }
                }
            }
            i = i + 1;
        }
    }
}

impl PageTable {
    /// Unmaps the `round_up(len, 4 KiB) / 4 KiB` pages from `ipa`, one 4 KiB page at a time.
    pub fn unmap_range(&mut self, pool: &mut FramePool, ipa: usize, len: usize)
        requires
            old(self).wf(),
            len + 4095 <= usize::MAX,
            ipa + len + 4095 <= usize::MAX,
        ensures
            unmap_range_post(*old(self), *final(self), ipa, len),
    {
        let page_num = round_up(len, PAGE_SIZE) / PAGE_SIZE;
        let ghost n = (len + 4095) / 4096;
        assert(page_num == n) by (nonlinear_arith)
            requires
                page_num == (((len + 4095) / 4096) * 4096) / 4096,
                n == (len + 4095) / 4096,
        ;
        assert(n * 4096 <= len + 4095) by (nonlinear_arith)
            requires
                n == (len + 4095) / 4096,
        ;
        let ghost start = *self;
        let mut i: usize = 0;
        while i < page_num
            invariant
                i <= page_num,
                page_num == n,
                n * 4096 <= len + 4095,
                ipa + len + 4095 <= usize::MAX,
                self.wf(),
                self.directory == start.directory,
                forall|i1: int, i2: int|
                    0 <= i1 < 512 && 0 <= i2 < 512 ==> #[trigger] self.block_at(i1, i2)
                        == start.block_at(i1, i2),
                forall|i1: int, i2: int, i3: int|
                    in_range(i1, i2, i3) && !range_hits(ipa, i as int, i1, i2, i3)
                        ==> #[trigger] self.leaf(i1, i2, i3) == start.leaf(i1, i2, i3),
                forall|k: int|
                    0 <= k < i && !start.is_block_at(#[trigger] nth_page(ipa, k, 4096)) ==> self.translate(
                        nth_page(ipa, k, 4096),
                    ) is None,
                forall|k: int|
                    0 <= k < i && start.is_block_at(#[trigger] nth_page(ipa, k, 4096)) ==> self.translate(
                        nth_page(ipa, k, 4096),
                    ) == start.translate(nth_page(ipa, k, 4096)),
            decreases page_num - i,
        {
            assert(i * 4096 + 4096 <= n * 4096) by (nonlinear_arith)
                requires
                    i < n,
            ;
            let va = ipa + i * PAGE_SIZE;
            let ghost before = *self;
            let ghost ii = i as int;
            assert(va as nat == nth_page(ipa, ii, 4096));
            assert(self.is_block_at(va as nat) == start.is_block_at(va as nat)) by {
                assert(self.block_at(lvl1_index(va as nat) as int, lvl2_index(va as nat) as int)
                    == start.block_at(lvl1_index(va as nat) as int, lvl2_index(va as nat) as int));
            }
            self.unmap(pool, va);
            proof {
                let t1 = lvl1_index(va as nat) as int;
                let t2 = lvl2_index(va as nat) as int;
                let t3 = lvl3_index(va as nat) as int;
                assert forall|i1: int, i2: int, i3: int|
                    in_range(i1, i2, i3) && !range_hits(ipa, ii + 1, i1, i2, i3) implies #[trigger] self.leaf(
                    i1,
                    i2,
                    i3,
                ) == start.leaf(i1, i2, i3) by {
                    if range_hits(ipa, ii, i1, i2, i3) {
                        let k = choose|k: int|
                            0 <= k < ii && lvl1_index(#[trigger] nth_page(ipa, k, 4096)) == i1
                                && lvl2_index(nth_page(ipa, k, 4096)) == i2 && lvl3_index(
                                nth_page(ipa, k, 4096),
                            ) == i3;
                        assert(range_hits(ipa, ii + 1, i1, i2, i3));
                    }
                    if i1 == t1 && i2 == t2 && i3 == t3 {
                        assert(range_hits(ipa, ii + 1, i1, i2, i3));
                    }
                }
                assert forall|k: int| 0 <= k <= ii && !start.is_block_at(#[trigger] nth_page(ipa, k, 4096)) implies self.translate(
                    nth_page(ipa, k, 4096),
                ) is None by {
                    let p = nth_page(ipa, k, 4096);
                    if k < ii {
                        assert(before.translate(p) is None);
                    }
                }
                assert forall|k: int| 0 <= k <= ii && start.is_block_at(#[trigger] nth_page(ipa, k, 4096)) implies self.translate(
                    nth_page(ipa, k, 4096),
                ) == start.translate(nth_page(ipa, k, 4096)) by {
                    let p = nth_page(ipa, k, 4096);
                    if k < ii {
                        assert(before.translate(p) == start.translate(p));
                    }
                }
            }
            i = i + 1;
        }
    }

    /// Maps the `round_up(len, 2 MiB) / 2 MiB` blocks from `ipa` to the
    /// blocks from `pa`, one 2 MiB block at a time.
    #[verifier::rlimit(40)]
    pub fn map_range_2mb(&mut self, pool: &mut FramePool, ipa: usize, len: usize, pa: usize, pte: usize)
        requires
            old(self).wf(),
            pa % 4 == 0,
            pte % 4 == 0,
            len + 0x1f_ffff <= usize::MAX,
            ipa + len + 0x1f_ffff <= usize::MAX,
            pa + len + 0x1f_ffff <= usize::MAX,
        ensures
            map_range_2mb_post(*old(self), *final(self), old(pool).frames@.len(), ipa, len, pa, pte),
    {
        let size_2mb: usize = 1 << LVL2_SHIFT;
        proof {
            lemma_usize_bits();
        }
        assert(size_2mb == 0x20_0000);
        let page_num = round_up(len, size_2mb) / size_2mb;
        let ghost n = (len + 0x1f_ffff) / 0x20_0000;
        assert(page_num == n) by (nonlinear_arith)
            requires
                page_num == (((len + 0x1f_ffff) / 0x20_0000) * 0x20_0000) / 0x20_0000,
                n == (len + 0x1f_ffff) / 0x20_0000,
        ;
        assert(n * 0x20_0000 <= len + 0x1f_ffff) by (nonlinear_arith)
            requires
                n == (len + 0x1f_ffff) / 0x20_0000,
        ;
        let ghost start = *self;
        let ghost start_pool = pool.frames@.len();
        let mut i: usize = 0;
        while i < page_num
            invariant
                i <= page_num,
                page_num == n,
                size_2mb == 0x20_0000,
                n * 0x20_0000 <= len + 0x1f_ffff,
                ipa + len + 0x1f_ffff <= usize::MAX,
                pa + len + 0x1f_ffff <= usize::MAX,
                pa % 4 == 0,
                pte % 4 == 0,
                self.wf(),
                self.directory == start.directory,
                pool.frames@.len() + i >= start_pool,
                forall|i1: int, i2: int|
                    0 <= i1 < 512 && 0 <= i2 < 512 && !range_hits_2mb(ipa, i as int, i1, i2)
                        ==> #[trigger] self.block_at(i1, i2) == start.block_at(i1, i2),
                forall|i1: int, i2: int, i3: int|
                    in_range(i1, i2, i3) && !range_hits_2mb(ipa, i as int, i1, i2)
                        ==> #[trigger] self.leaf(i1, i2, i3) == start.leaf(i1, i2, i3),
                forall|i1: int, i2: int|
                    0 <= i1 < 512 && 0 <= i2 < 512 && !range_hits_2mb(ipa, i as int, i1, i2)
                        ==> #[trigger] self.slot_used_at(i1, i2) == start.slot_used_at(i1, i2),
                start_pool >= n ==> forall|k: int|
                    0 <= k < i ==> self.l2_slot_used(#[trigger] nth_page(ipa, k, 0x20_0000)),
                start_pool >= n && ipa + n * 0x20_0000 <= 0x80_0000_0000 ==> forall|k: int|
                    0 <= k < i && !start.l2_slot_used(#[trigger] nth_page(ipa, k, 0x20_0000))
                        ==> self.is_block_at(nth_page(ipa, k, 0x20_0000)) && self.translate(
                        nth_page(ipa, k, 0x20_0000),
                    ) == Some(block_desc((pa + k * 0x20_0000) as usize, pte)),
            decreases page_num - i,
        {
            assert(i * 0x20_0000 + 0x20_0000 <= n * 0x20_0000) by (nonlinear_arith)
                requires
                    i < n,
            ;
            let va = ipa + i * size_2mb;
            let pa_i = pa + i * size_2mb;
            let ghost before = *self;
            let ghost before_pool = pool.frames@.len();
            let ghost ii = i as int;
            assert(va as nat == nth_page(ipa, ii, 0x20_0000));
            assert(pa_i % 4 == 0) by (nonlinear_arith)
                requires
                    pa % 4 == 0,
                    pa_i == pa + i * 0x20_0000,
            ;
            self.map_2mb(pool, va, pa_i, pte);
            proof {
                let t1 = lvl1_index(va as nat) as int;
                let t2 = lvl2_index(va as nat) as int;
                assert forall|i1: int, i2: int, i3: int|
                    in_range(i1, i2, i3) && !range_hits_2mb(ipa, ii + 1, i1, i2) implies #[trigger] self.leaf(
                    i1,
                    i2,
                    i3,
                ) == start.leaf(i1, i2, i3) by {
                    if range_hits_2mb(ipa, ii, i1, i2) {
                        let k = choose|k: int|
                            0 <= k < ii && lvl1_index(#[trigger] nth_page(ipa, k, 0x20_0000)) == i1
                                && lvl2_index(nth_page(ipa, k, 0x20_0000)) == i2;
                        assert(range_hits_2mb(ipa, ii + 1, i1, i2));
                    }
                    if i1 == t1 && i2 == t2 {
                        assert(range_hits_2mb(ipa, ii + 1, i1, i2));
                    }
                }
                assert forall|i1: int, i2: int|
                    0 <= i1 < 512 && 0 <= i2 < 512 && !range_hits_2mb(ipa, ii + 1, i1, i2) implies #[trigger] self.block_at(
                    i1,
                    i2,
                ) == start.block_at(i1, i2) by {
                    if range_hits_2mb(ipa, ii, i1, i2) {
                        let k = choose|k: int|
                            0 <= k < ii && lvl1_index(#[trigger] nth_page(ipa, k, 0x20_0000)) == i1
                                && lvl2_index(nth_page(ipa, k, 0x20_0000)) == i2;
                        assert(range_hits_2mb(ipa, ii + 1, i1, i2));
                    }
                    if i1 == t1 && i2 == t2 {
                        assert(range_hits_2mb(ipa, ii + 1, i1, i2));
                    }
                }
                assert forall|i1: int, i2: int|
                    0 <= i1 < 512 && 0 <= i2 < 512 && !range_hits_2mb(ipa, ii + 1, i1, i2) implies #[trigger] self.slot_used_at(
                    i1,
                    i2,
                ) == start.slot_used_at(i1, i2) by {
                    if range_hits_2mb(ipa, ii, i1, i2) {
                        let k = choose|k: int|
                            0 <= k < ii && lvl1_index(#[trigger] nth_page(ipa, k, 0x20_0000)) == i1
                                && lvl2_index(nth_page(ipa, k, 0x20_0000)) == i2;
                        assert(range_hits_2mb(ipa, ii + 1, i1, i2));
                    }
                    if i1 == t1 && i2 == t2 {
                        assert(range_hits_2mb(ipa, ii + 1, i1, i2));
                    }
                }
                if start_pool >= n {
                    assert forall|k: int| 0 <= k <= ii implies self.l2_slot_used(
                        #[trigger] nth_page(ipa, k, 0x20_0000),
                    ) by {
                        let p = nth_page(ipa, k, 0x20_0000);
                        if k < ii {
                            assert(before.l2_slot_used(p));
                            if lvl1_index(p) == t1 && lvl2_index(p) == t2 {
                            } else {
                                assert(self.slot_used_at(lvl1_index(p) as int, lvl2_index(p) as int)
                                    == before.slot_used_at(lvl1_index(p) as int, lvl2_index(p) as int));
                            }
                        }
                    }
                }
                if start_pool >= n && ipa + n * 0x20_0000 <= 0x80_0000_0000 {
                    assert forall|k: int|
                        0 <= k <= ii && !start.l2_slot_used(#[trigger] nth_page(ipa, k, 0x20_0000))
                            implies self.is_block_at(nth_page(ipa, k, 0x20_0000)) && self.translate(
                        nth_page(ipa, k, 0x20_0000),
                    ) == Some(block_desc((pa + k * 0x20_0000) as usize, pte)) by {
                        let p = nth_page(ipa, k, 0x20_0000);
                        if k < ii {
                            lemma_range_blocks_distinct(ipa, k, ii);
                            assert(self.leaf(lvl1_index(p) as int, lvl2_index(p) as int, lvl3_index(p) as int)
                                == before.leaf(lvl1_index(p) as int, lvl2_index(p) as int, lvl3_index(p) as int));
                            assert(self.block_at(lvl1_index(p) as int, lvl2_index(p) as int)
                                == before.block_at(lvl1_index(p) as int, lvl2_index(p) as int));
                        } else {
                            assert(start_pool >= n ==> before_pool > 0);
                            if range_hits_2mb(ipa, ii, t1, t2) {
                                let j = choose|j: int|
                                    0 <= j < ii && lvl1_index(#[trigger] nth_page(ipa, j, 0x20_0000))
                                        == t1 && lvl2_index(nth_page(ipa, j, 0x20_0000)) == t2;
                                lemma_range_blocks_distinct(ipa, j, ii);
                            }
                            assert(!before.l2_slot_used(va as nat)) by {
                                assert(before.slot_used_at(t1, t2) == start.slot_used_at(t1, t2));
                            }
                            assert(pa_i == (pa + k * 0x20_0000) as usize);
                            assert(self.leaf(t1, t2, lvl3_index(va as nat) as int) == Some(block_desc(pa_i, pte)));
                        }
                    }
                }
            }
            i = i + 1;
        }
    }
}

/// What unmapping the 2 MiB blocks of a range does to a page table.
pub open spec fn unmap_range_2mb_post(old: PageTable, new: PageTable, ipa: usize, len: usize) -> bool {
    let n = (len + 0x1f_ffff) / 0x20_0000;
    &&& new.wf()
    &&& new.directory == old.directory
    &&& forall|i1: int, i2: int, i3: int|
        in_range(i1, i2, i3) && !range_hits_2mb(ipa, n, i1, i2) ==> #[trigger] new.leaf(i1, i2, i3)
            == old.leaf(i1, i2, i3)
    &&& forall|i1: int, i2: int|
        0 <= i1 < 512 && 0 <= i2 < 512 && !range_hits_2mb(ipa, n, i1, i2) ==> #[trigger] new.block_at(i1, i2)
            == old.block_at(i1, i2)
    &&& forall|i1: int, i2: int, i3: int|
        in_range(i1, i2, i3) && range_hits_2mb(ipa, n, i1, i2) ==> #[trigger] new.leaf(i1, i2, i3) is None
}

/// Whether a range of `len` bytes mapping `ipa` to `pa` is mapped with 2 MiB blocks.
pub open spec fn uses_blocks(ipa: usize, len: usize, pa: usize, map_block: bool) -> bool {
    ipa % 0x20_0000 == 0 && len % 0x20_0000 == 0 && pa % 0x20_0000 == 0 && map_block
}

impl PageTable {
    /// Unmaps the `round_up(len, 2 MiB) / 2 MiB` level-2 slots from `ipa`, one at a time.
    pub fn unmap_range_2mb(&mut self, pool: &mut FramePool, ipa: usize, len: usize)
        requires
            old(self).wf(),
            len + 0x1f_ffff <= usize::MAX,
            ipa + len + 0x1f_ffff <= usize::MAX,
        ensures
            unmap_range_2mb_post(*old(self), *final(self), ipa, len),
    {
        let size_2mb: usize = 1 << LVL2_SHIFT;
        proof {
            lemma_usize_bits();
        }
        assert(size_2mb == 0x20_0000);
        let page_num = round_up(len, size_2mb) / size_2mb;
        let ghost n = (len + 0x1f_ffff) / 0x20_0000;
        assert(page_num == n) by (nonlinear_arith)
            requires
                page_num == (((len + 0x1f_ffff) / 0x20_0000) * 0x20_0000) / 0x20_0000,
                n == (len + 0x1f_ffff) / 0x20_0000,
        ;
        assert(n * 0x20_0000 <= len + 0x1f_ffff) by (nonlinear_arith)
            requires
                n == (len + 0x1f_ffff) / 0x20_0000,
        ;
        let ghost start = *self;
        let mut i: usize = 0;
        while i < page_num
            invariant
                i <= page_num,
                page_num == n,
                size_2mb == 0x20_0000,
                n * 0x20_0000 <= len + 0x1f_ffff,
                ipa + len + 0x1f_ffff <= usize::MAX,
                self.wf(),
                self.directory == start.directory,
                forall|i1: int, i2: int|
                    0 <= i1 < 512 && 0 <= i2 < 512 && !range_hits_2mb(ipa, i as int, i1, i2)
                        ==> #[trigger] self.block_at(i1, i2) == start.block_at(i1, i2),
                forall|i1: int, i2: int, i3: int|
                    in_range(i1, i2, i3) && !range_hits_2mb(ipa, i as int, i1, i2)
                        ==> #[trigger] self.leaf(i1, i2, i3) == start.leaf(i1, i2, i3),
                forall|i1: int, i2: int, i3: int|
                    in_range(i1, i2, i3) && range_hits_2mb(ipa, i as int, i1, i2)
                        ==> #[trigger] self.leaf(i1, i2, i3) is None,
            decreases page_num - i,
        {
            assert(i * 0x20_0000 + 0x20_0000 <= n * 0x20_0000) by (nonlinear_arith)
                requires
                    i < n,
            ;
            let va = ipa + i * size_2mb;
            let ghost before = *self;
            let ghost ii = i as int;
            assert(va as nat == nth_page(ipa, ii, 0x20_0000));
            self.unmap_2mb(pool, va);
            proof {
                let t1 = lvl1_index(va as nat) as int;
                let t2 = lvl2_index(va as nat) as int;
                assert forall|i1: int, i2: int, i3: int|
                    in_range(i1, i2, i3) && !range_hits_2mb(ipa, ii + 1, i1, i2) implies #[trigger] self.leaf(
                    i1,
                    i2,
                    i3,
                ) == start.leaf(i1, i2, i3) by {
                    if range_hits_2mb(ipa, ii, i1, i2) {
                        let k = choose|k: int|
                            0 <= k < ii && lvl1_index(#[trigger] nth_page(ipa, k, 0x20_0000)) == i1
                                && lvl2_index(nth_page(ipa, k, 0x20_0000)) == i2;
                        assert(range_hits_2mb(ipa, ii + 1, i1, i2));
                    }
                    if i1 == t1 && i2 == t2 {
                        assert(range_hits_2mb(ipa, ii + 1, i1, i2));
                    }
                }
                assert forall|i1: int, i2: int|
                    0 <= i1 < 512 && 0 <= i2 < 512 && !range_hits_2mb(ipa, ii + 1, i1, i2) implies #[trigger] self.block_at(
                    i1,
                    i2,
                ) == start.block_at(i1, i2) by {
                    if range_hits_2mb(ipa, ii, i1, i2) {
                        let k = choose|k: int|
                            0 <= k < ii && lvl1_index(#[trigger] nth_page(ipa, k, 0x20_0000)) == i1
                                && lvl2_index(nth_page(ipa, k, 0x20_0000)) == i2;
                        assert(range_hits_2mb(ipa, ii + 1, i1, i2));
                    }
                    if i1 == t1 && i2 == t2 {
                        assert(range_hits_2mb(ipa, ii + 1, i1, i2));
                    }
                }
                assert forall|i1: int, i2: int, i3: int|
                    in_range(i1, i2, i3) && range_hits_2mb(ipa, ii + 1, i1, i2) implies #[trigger] self.leaf(
                    i1,
                    i2,
                    i3,
                ) is None by {
                    if !(i1 == t1 && i2 == t2) {
                        let k = choose|k: int|
                            0 <= k < ii + 1 && lvl1_index(#[trigger] nth_page(ipa, k, 0x20_0000)) == i1
                                && lvl2_index(nth_page(ipa, k, 0x20_0000)) == i2;
                        assert(range_hits_2mb(ipa, ii, i1, i2));
                    }
                }
            }
            i = i + 1;
        }
    }

    /// Maps a range with 2 MiB blocks when `ipa`, `len` and `pa` are all
    /// 2 MiB aligned and `map_block` asks for blocks, and with 4 KiB pages otherwise.
    pub fn pt_map_range(
        &mut self,
        pool: &mut FramePool,
        ipa: usize,
        len: usize,
        pa: usize,
        pte: usize,
        map_block: bool,
    )
        requires
            old(self).wf(),
            pa % 4 == 0,
            pte % 4 == 0,
            len + 0x1f_ffff <= usize::MAX,
            ipa + len + 0x1f_ffff <= usize::MAX,
            pa + len + 0x1f_ffff <= usize::MAX,
        ensures
            uses_blocks(ipa, len, pa, map_block) ==> map_range_2mb_post(
                *old(self),
                *final(self),
                old(pool).frames@.len(),
                ipa,
                len,
                pa,
                pte,
            ),
            !uses_blocks(ipa, len, pa, map_block) ==> map_range_post(
                *old(self),
                *final(self),
                old(pool).frames@.len(),
                ipa,
                len,
                pa,
                pte,
            ),
    {
        let size_2mb: usize = 1 << LVL2_SHIFT;
        proof {
            lemma_usize_bits();
        }
        assert(size_2mb == 0x20_0000);
        if ipa % size_2mb == 0 && len % size_2mb == 0 && pa % size_2mb == 0 && map_block {
            self.map_range_2mb(pool, ipa, len, pa, pte);
        } else {
            self.map_range(pool, ipa, len, pa, pte);
        }
    }

    /// Unmaps a range with 2 MiB steps when `ipa` and `len` are 2 MiB aligned
    /// and `map_block` says it was mapped with blocks, and with 4 KiB pages otherwise.
    pub fn pt_unmap_range(&mut self, pool: &mut FramePool, ipa: usize, len: usize, map_block: bool)
        requires
            old(self).wf(),
            len + 0x1f_ffff <= usize::MAX,
            ipa + len + 0x1f_ffff <= usize::MAX,
        ensures
            ipa % 0x20_0000 == 0 && len % 0x20_0000 == 0 && map_block ==> unmap_range_2mb_post(
                *old(self),
                *final(self),
                ipa,
                len,
            ),
            !(ipa % 0x20_0000 == 0 && len % 0x20_0000 == 0 && map_block) ==> unmap_range_post(
                *old(self),
                *final(self),
                ipa,
                len,
            ),
    {
        let size_2mb: usize = 1 << LVL2_SHIFT;
        proof {
            lemma_usize_bits();
        }
        assert(size_2mb == 0x20_0000);
        if ipa % size_2mb == 0 && len % size_2mb == 0 && map_block {
            self.unmap_range_2mb(pool, ipa, len);
        } else {
            self.unmap_range(pool, ipa, len);
        }
    }
}

} // verus!

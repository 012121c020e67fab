//! Decoding of the guest load or store that faulted on a stage-2 page, so
//! that the device it touches can be emulated.
use vstd::prelude::*;

use crate::device::EmuContext;

verus! {

pub const TINST_PSEUDO_STORE: u32 = 0x3020;
pub const TINST_PSEUDO_LOAD: u32 = 0x3000;
pub const MATCH_LOAD: u32 = 0x03;
pub const MATCH_STORE: u32 = 0x23;

/// The bit facts that instruction decoding rests on.
proof fn lemma_inst_bits()
    by (bit_vector)
    ensures
        forall|x: u32| #[trigger] (x & 3u32) == x % 4,
        forall|x: u32| #[trigger] ((x >> 2u32) & 7u32) < 8,
        forall|l: u32, h: u32| l < 0x10000 && h < 0x10000 ==> #[trigger] (l | (h << 16u32)) == l + h * 0x10000,
        forall|x: u32| #[trigger] (x & 0x7fu32) == x % 128,
        forall|x: u32| #[trigger] (x & 0xe003u32) == (x % 4) + ((x / 0x2000) % 8) * 0x2000,
        forall|x: u32| #[trigger] (((x >> 12u32) & 7u32) & 4u32) == ((x / 0x4000) % 2) * 4,
        forall|x: u32| #[trigger] (((x >> 12u32) & 7u32) % 4) == (x / 0x1000) % 4,
        forall|x: u32| #[trigger] ((x >> 7u32) & 0x1fu32) == (x / 0x80) % 32,
        forall|x: u32| #[trigger] ((x >> 20u32) & 0x1fu32) == (x / 0x100000) % 32,
        forall|x: u32| #[trigger] ((x >> 2u32) & 7u32) == (x / 4) % 8,
{
}

/// The bit facts that the faulting address rests on.
proof fn lemma_fault_addr_bits()
    by (bit_vector)
    ensures
        forall|a: u64, b: u64| #![trigger (a << 2u64), (b & 3u64)] (a << 2u64) % 4 == 0 && (b & 3u64) < 4 && (a << 2u64) + (b & 3u64) <= u64::MAX,
{
}

/// The access width in bytes that `funct3` encodes: 1, 2, 4 or 8.
pub open spec fn inst_width_spec(funct3: u32) -> usize {
    let w = funct3 % 4;
    if w == 0 {
        1
    } else if w == 1 {
        2
    } else if w == 2 {
        4
    } else {
        8
    }
}

/// The access width of a load or store with function field `funct3`.
pub fn inst_width(funct3: u32) -> (r: usize)
    ensures
        r == inst_width_spec(funct3),
{
    let w = funct3 & 3;
    proof {
        lemma_inst_bits();
    }
    if w == 0 {
        1
    } else if w == 1 {
        2
    } else if w == 2 {
        4
    } else {
        8
    }
}

/// Whether an instruction is a 16-bit compressed one: its two low bits are not both set.
pub open spec fn compressed(inst: u32) -> bool {
    inst % 4 != 3
}

/// The full instruction at a guest address, given its first and second
/// halfword: the second belongs to it unless the first is a compressed one.
pub fn read_inst_halves(lo: u16, hi: u16) -> (r: u32)
    ensures
        compressed(lo as u32) ==> r == lo as u32,
        !compressed(lo as u32) ==> r == lo as u32 + (hi as u32) * 0x10000,
{
    let mut inst: u32 = lo as u32;
    let low2 = inst & 0b11;
    proof {
        lemma_inst_bits();
    }
    if low2 == 0b11 {
        let l = lo as u32;
        let h = hi as u32;
        inst = l | (h << 16u32);
        proof {
        lemma_inst_bits();
    }
    }
    inst
}

/// The size in bytes of an instruction read from guest memory.
pub fn get_ins_size(inst: u32) -> (r: usize)
    ensures
        r == (if compressed(inst) { 2usize } else { 4usize }),
{
    let low2 = inst & 0b11;
    proof {
        lemma_inst_bits();
    }
    if low2 == 0b11 {
        4
    } else {
        2
    }
}

/// Whether an instruction is a 16-bit compressed one.
pub fn is_compressed(inst: u32) -> (r: bool)
    ensures
        r == compressed(inst),
{
    let low2 = inst & 0b11;
    proof {
        lemma_inst_bits();
    }
    low2 != 0b11
}

/// Whether the transformed instruction is one of the pseudo-instructions that
/// report a fault of the guest's own (VS-stage) page table walk.
pub fn is_pseudo_ins(inst: u32) -> (r: bool)
    ensures
        r == (inst == TINST_PSEUDO_LOAD || inst == TINST_PSEUDO_STORE),
{
    inst == TINST_PSEUDO_LOAD || inst == TINST_PSEUDO_STORE
}

/// The size of the trapped instruction that a transformed instruction stands
/// for: 2 when its bit 1 is clear, 4 otherwise.
pub fn transformed_inst_size(inst: u32) -> (r: usize)
    ensures
        r == (if inst & 2 == 0 { 2usize } else { 4usize }),
{
    if (inst & 0x2) == 0 {
        2
    } else {
        4
    }
}

/// Whether a compressed instruction is `c.lw` or `c.sw`.
pub open spec fn compressed_ldst(inst: u32) -> bool {
    inst & 0xe003 == 0x4000 || inst & 0xe003 == 0xc000
}

/// Whether a compressed instruction is `c.sw`.
pub open spec fn compressed_st(inst: u32) -> bool {
    inst & 0xe003 == 0xc000
}

/// Whether an instruction is a load or a store (major opcode LOAD or STORE).
pub open spec fn normal_ldst(inst: u32) -> bool {
    inst & 0x7f == 0x03 || inst & 0x7f == 0x23
}

/// Whether an instruction is a store.
pub open spec fn normal_st(inst: u32) -> bool {
    inst & 0x7f == 0x23
}

pub fn is_compressed_ldst(inst: u32) -> (r: bool)
    ensures
        r == compressed_ldst(inst),
{
    (inst & 0xe003) == 0x4000 || (inst & 0xe003) == 0xc000
}

pub fn is_compressed_st(inst: u32) -> (r: bool)
    ensures
        r == compressed_st(inst),
{
    (inst & 0xe003) == 0xc000
}

pub fn is_normal_ldst(inst: u32) -> (r: bool)
    ensures
        r == normal_ldst(inst),
{
    (inst & 0x7f) == 0x03 || (inst & 0x7f) == 0x23
}

pub fn is_normal_st(inst: u32) -> (r: bool)
    ensures
        r == normal_st(inst),
{
    (inst & 0x7f) == 0x23
}

/// The 3-bit register field (bits 2 to 4) of a compressed load or store.
pub fn ins_compressed_rd_rs2(inst: u32) -> (r: u32)
    ensures
        r == (inst >> 2u32) & 7,
        r < 8,
{
    let r = (inst >> 2) & 0x7;
    proof {
        lemma_inst_bits();
    }
    r
}

/// What a load or store instruction accesses: for `c.lw`/`c.sw`, a 4-byte
/// sign-extended access of register x8 + rd'/rs2'; for a standard load or
/// store, the width that funct3 encodes, sign-extended unless funct3 bit 2 is
/// set, with register rs2 for a store and rd for a load. The address is left 0.
pub open spec fn ldst_decode(inst: u32) -> Option<EmuContext> {
    if compressed(inst) {
        if !compressed_ldst(inst) {
            None
        } else {
            Some(
                EmuContext {
                    address: 0,
                    width: 4,
                    write: compressed_st(inst),
                    sign_ext: true,
                    reg: (((inst >> 2u32) & 7) + 8) as usize,
                    reg_width: 8,
                },
            )
        }
    } else if !normal_ldst(inst) {
        None
    } else {
        let func3 = (inst >> 12u32) & 7;
        Some(
            EmuContext {
                address: 0,
                width: inst_width_spec(func3),
                write: normal_st(inst),
                sign_ext: func3 & 4 == 0,
                reg: (if normal_st(inst) {
                    (inst >> 20u32) & 0x1f
                } else {
                    (inst >> 7u32) & 0x1f
                }) as usize,
                reg_width: 8,
            },
        )
    }
}

/// What the decoded access is, read off the instruction's fields as the
/// RISC-V base encoding lays them out: a 32-bit instruction (two low bits set)
/// with major opcode LOAD (0x03) is a read into register `rd` (bits 7 to 11),
/// one with opcode STORE (0x23) a write from register `rs2` (bits 20 to 24);
/// funct3 (bits 12 to 14) gives the width, 1 << (its two low bits) bytes, and
/// its bit 2 (instruction bit 14) marks the unsigned loads `lbu`, `lhu` and
/// `lwu`, which are zero-extended, every other access being sign-extended.
/// `c.lw` (quadrant 0, funct3 2) and `c.sw` (quadrant 0, funct3 6) move a
/// sign-extended word from or to register 8 plus bits 2 to 4. Any other
/// instruction has no access.
pub proof fn law_ldst_decode_fields(inst: u32)
    ensures
        inst % 4 == 3 && inst % 128 == 0x03 ==> ldst_decode(inst) is Some && !ldst_decode(inst)->0.write
            && ldst_decode(inst)->0.reg == (inst / 0x80) % 32,
        inst % 4 == 3 && inst % 128 == 0x23 ==> ldst_decode(inst) is Some && ldst_decode(inst)->0.write
            && ldst_decode(inst)->0.reg == (inst / 0x100000) % 32,
        inst % 4 == 3 && (inst % 128 == 0x03 || inst % 128 == 0x23) ==> ldst_decode(inst) is Some
            && ldst_decode(inst)->0.sign_ext == ((inst / 0x4000) % 2 == 0) && ldst_decode(inst)->0.reg_width == 8 && ldst_decode(inst)->0.address == 0
            && ((inst / 0x1000) % 4 == 0 ==> ldst_decode(inst)->0.width == 1)
            && ((inst / 0x1000) % 4 == 1 ==> ldst_decode(inst)->0.width == 2)
            && ((inst / 0x1000) % 4 == 2 ==> ldst_decode(inst)->0.width == 4)
            && ((inst / 0x1000) % 4 == 3 ==> ldst_decode(inst)->0.width == 8),
        inst % 4 == 3 && inst % 128 != 0x03 && inst % 128 != 0x23 ==> ldst_decode(inst) is None,
        inst % 4 == 0 && ((inst / 0x2000) % 8 == 2 || (inst / 0x2000) % 8 == 6) ==> ldst_decode(inst) is Some && ldst_decode(inst)->0.width == 4 && ldst_decode(inst)->0.sign_ext && ldst_decode(inst)->0.write == ((inst / 0x2000) % 8 == 6) && ldst_decode(inst)->0.reg == 8 + (inst / 4)
            % 8,
        inst % 4 != 3 && !(inst % 4 == 0 && ((inst / 0x2000) % 8 == 2 || (inst / 0x2000) % 8 == 6)) ==> ldst_decode(
            inst,
        ) is None,
{
    lemma_inst_bits();
    let f = (inst >> 12u32) & 7;
    assert((f & 4) == ((inst / 0x4000) % 2) * 4);
    assert(f % 4 == (inst / 0x1000) % 4);
    assert((inst >> 7u32) & 0x1f == (inst / 0x80) % 32);
    assert((inst >> 20u32) & 0x1f == (inst / 0x100000) % 32);
    assert((inst >> 2u32) & 7 == (inst / 4) % 8);
    assert(inst & 0x7f == inst % 128);
    assert(inst & 0xe003 == (inst % 4) + ((inst / 0x2000) % 8) * 0x2000);
}

/// Decodes the load or store that faulted.
pub fn inst_ldst_decode(inst: u32) -> (r: Option<EmuContext>)
    ensures
        r == ldst_decode(inst),
{
    if is_compressed(inst) {
        if !is_compressed_ldst(inst) {
            None
        } else {
            Some(
                EmuContext {
                    address: 0,
                    width: 4,
                    write: is_compressed_st(inst),
                    sign_ext: true,
                    reg: (ins_compressed_rd_rs2(inst) + 8) as usize,
                    reg_width: 8,
                },
            )
        }
    } else if !is_normal_ldst(inst) {
        None
    } else {
        let func3 = (inst >> 12) & 0x7;
        let reg = if is_normal_st(inst) {
            (inst >> 20) & 0x1f
        } else {
            (inst >> 7) & 0x1f
        };
        Some(
            EmuContext {
                address: 0,
                width: inst_width(func3),
                write: is_normal_st(inst),
                sign_ext: (func3 & 0x4) == 0,
                reg: reg as usize,
                reg_width: 8,
            },
        )
    }
}

/// The faulting guest-physical address: `htval` holds it shifted right by two,
/// and its two low bits are those of `stval`.
pub open spec fn fault_address(htval: u64, stval: u64) -> u64 {
    ((htval << 2u64) + (stval & 3u64)) as u64
}

/// The instruction to decode and its size: the transformed instruction in
/// `htinst` with bit 1 set, or, when `htinst` is 0, the instruction read from
/// guest memory.
pub open spec fn fault_instruction(htinst: u32, guest_inst: u32) -> (u32, usize) {
    if htinst == 0 {
        (guest_inst, if compressed(guest_inst) { 2usize } else { 4usize })
    } else {
        (htinst | 2, if htinst & 2 == 0 { 2usize } else { 4usize })
    }
}

/// Handles a load or store guest page fault: the emulated access (the decoded
/// instruction at the faulting address) and the guest pc to resume at, after
/// the instruction. `guest_inst` is the instruction read at `sepc`, used only
/// when `htinst` is 0. A fault of the guest's own page table walk, or an
/// instruction that is not a load or store, has no emulation.
pub fn ldst_guest_page_fault_handler(htval: u64, stval: u64, htinst: u32, guest_inst: u32, sepc: u64) -> (r: (
    EmuContext,
    u64,
))
    requires
        htinst != TINST_PSEUDO_LOAD && htinst != TINST_PSEUDO_STORE,
        ldst_decode(fault_instruction(htinst, guest_inst).0) is Some,
        sepc + fault_instruction(htinst, guest_inst).1 <= u64::MAX,
    ensures
        r.0 == (EmuContext {
            address: fault_address(htval, stval) as usize,
            ..ldst_decode(fault_instruction(htinst, guest_inst).0)->0
        }),
        r.1 == sepc + fault_instruction(htinst, guest_inst).1,
{
    let shifted = htval << 2u64;
    let low = stval & 3u64;
    proof {
        lemma_fault_addr_bits();
    }
    let addr = shifted + low;
    let inst: u32;
    let inst_size: usize;
    if htinst == 0 {
        inst = guest_inst;
        inst_size = get_ins_size(inst);
    } else {
        inst_size = transformed_inst_size(htinst);
        inst = htinst | 0b10;
    }
    let decoded = inst_ldst_decode(inst);
    let mut emu_ctx = decoded.unwrap();
    emu_ctx.address = addr as usize;
    (emu_ctx, sepc + inst_size as u64)
}

} // verus!

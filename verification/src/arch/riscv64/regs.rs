//! The names of the general-purpose registers, and their indexes.
use vstd::prelude::*;
use vstd::string::*;

verus! {

pub const A0_NUM: usize = 10;
pub const A1_NUM: usize = 11;
pub const A2_NUM: usize = 12;
pub const A3_NUM: usize = 13;
pub const A4_NUM: usize = 14;
pub const A5_NUM: usize = 15;
pub const A6_NUM: usize = 16;
pub const A7_NUM: usize = 17;
pub const SP_NUM: usize = 2;
pub const TP_NUM: usize = 4;

pub const SSTATUS_SUM: u64 = 0x40000;
pub const SSTATUS_FS: u64 = 0x00006000;
pub const SSTATUS_VS: u64 = 0x600;
pub const SSTATUS_SD: u64 = 0x8000_0000_0000_0000;
pub const SSTATUS_SPP: u64 = 0x100;
pub const SSTATUS_SPIE: u64 = 0x20;
pub const SSTATUS_SIE: u64 = 0x2;

/// The ABI name of general-purpose register `i`.
pub open spec fn reg_name_spec(i: int) -> Seq<char> {
    if i == 0 { "zero"@ } else if i == 1 { "ra"@ } else if i == 2 { "sp"@ } else if i == 3 { "gp"@ }
    else if i == 4 { "tp"@ } else if i == 5 { "t0"@ } else if i == 6 { "t1"@ } else if i == 7 { "t2"@ }
    else if i == 8 { "fp"@ } else if i == 9 { "s1"@ } else if i == 10 { "a0"@ } else if i == 11 { "a1"@ }
    else if i == 12 { "a2"@ } else if i == 13 { "a3"@ } else if i == 14 { "a4"@ } else if i == 15 { "a5"@ }
    else if i == 16 { "a6"@ } else if i == 17 { "a7"@ } else if i == 18 { "s2"@ } else if i == 19 { "s3"@ }
    else if i == 20 { "s4"@ } else if i == 21 { "s5"@ } else if i == 22 { "s6"@ } else if i == 23 { "s7"@ }
    else if i == 24 { "s8"@ } else if i == 25 { "s9"@ } else if i == 26 { "s10"@ } else if i == 27 { "s11"@ }
    else if i == 28 { "t3"@ } else if i == 29 { "t4"@ } else if i == 30 { "t5"@ } else { "t6"@ }
}

/// The ABI name of general-purpose register `i`.
pub fn riscv_reg_name(i: usize) -> (r: &'static str)
    requires
        i < 32,
    ensures
        r@ == reg_name_spec(i as int),
{
    if i == 0 { "zero" } else if i == 1 { "ra" } else if i == 2 { "sp" } else if i == 3 { "gp" }
    else if i == 4 { "tp" } else if i == 5 { "t0" } else if i == 6 { "t1" } else if i == 7 { "t2" }
    else if i == 8 { "fp" } else if i == 9 { "s1" } else if i == 10 { "a0" } else if i == 11 { "a1" }
    else if i == 12 { "a2" } else if i == 13 { "a3" } else if i == 14 { "a4" } else if i == 15 { "a5" }
    else if i == 16 { "a6" } else if i == 17 { "a7" } else if i == 18 { "s2" } else if i == 19 { "s3" }
    else if i == 20 { "s4" } else if i == 21 { "s5" } else if i == 22 { "s6" } else if i == 23 { "s7" }
    else if i == 24 { "s8" } else if i == 25 { "s9" } else if i == 26 { "s10" } else if i == 27 { "s11" }
    else if i == 28 { "t3" } else if i == 29 { "t4" } else if i == 30 { "t5" } else { "t6" }
}

/// Whether two strings hold the same characters.
fn str_eq(a: &str, b: &str) -> (r: bool)
    ensures
        r == (a@ == b@),
{
    let n = a.unicode_len();
    if n != b.unicode_len() {
        return false;
    }
    let mut i: usize = 0;
    while i < n
        invariant
            i <= n,
            n == a@.len(),
            n == b@.len(),
            forall|j: int| 0 <= j < i ==> a@[j] == b@[j],
        decreases n - i,
    {
        if a.get_char(i) != b.get_char(i) {
            return false;
        }
        i = i + 1;
    }
    assert(a@ =~= b@);
    true
}

/// The index of the register named `reg_name`: the first whose ABI name it is.
pub fn get_index_by_regname(reg_name: &str) -> (r: usize)
    requires
        exists|i: int| 0 <= i < 32 && #[trigger] reg_name_spec(i) == reg_name@,
    ensures
        r < 32,
        reg_name_spec(r as int) == reg_name@,
        forall|j: int| 0 <= j < r ==> #[trigger] reg_name_spec(j) != reg_name@,
{
    let mut i: usize = 0;
    while i < 32
        invariant
            i <= 32,
            forall|j: int| 0 <= j < i ==> #[trigger] reg_name_spec(j) != reg_name@,
        decreases 32 - i,
    {
        if str_eq(riscv_reg_name(i), reg_name) {
            return i;
        }
        i = i + 1;
    }
    proof {
        let k = choose|k: int| 0 <= k < 32 && #[trigger] reg_name_spec(k) == reg_name@;
        assert(reg_name_spec(k) != reg_name@);
    }
    0
}

} // verus!

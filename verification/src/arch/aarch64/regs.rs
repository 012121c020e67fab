//! The encoding of AArch64 system register numbers as trapped accesses carry them.
use vstd::prelude::*;

verus! {

/// The system register number a trapped `MRS`/`MSR` reports for the register
/// named by `op0`, `op1`, `CRn`, `CRm` and `op2`: `op0` at bit 20, `op2` at
/// bit 17, `op1` at bit 14, `CRn` at bit 10 and `CRm` at bit 1, each cut to
/// its field width.
pub fn sysreg_enc_addr(op0: usize, op1: usize, crn: usize, crm: usize, op2: usize) -> (r: usize)
    ensures
        r == ((op0 & 0x3) << 20usize) | ((op2 & 0x7) << 17usize) | ((op1 & 0x7) << 14usize) | ((crn & 0xf) << 10usize)
            | ((crm & 0xf) << 1usize),
{
    ((op0 & 0x3) << 20) | ((op2 & 0x7) << 17) | ((op1 & 0x7) << 14) | ((crn & 0xf) << 10) | ((crm & 0xf) << 1)
}

} // verus!

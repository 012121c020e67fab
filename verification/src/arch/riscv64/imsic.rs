//! Where the incoming MSI controllers of the harts and their guests lie.
use vstd::prelude::*;

verus! {

pub const CSR_VSISELECT: usize = 0x250;
pub const CSR_VSIREG: usize = 0x251;
pub const CSR_VSTOPI: usize = 0xEB0;
pub const CSR_VSTOPEI: usize = 0x25C;

pub const IMSIC_VS: usize = 0x2800_0000;
pub const IMSIC_VS_HART_STRIDE: usize = 0x4000;
pub const IMSIC_MMIO_PAGE_SIZE: usize = 0x1000;

/// The number of guests per hart assumed when none is configured.
pub const AIA_GUESTS_DEFAULT: u32 = 3;

/// Two to the power `n`.
pub open spec fn pow2n(n: nat) -> nat
    decreases n,
{
    if n == 0 {
        1
    } else {
        2 * pow2n((n - 1) as nat)
    }
}

/// The supervisor-level interrupt file of hart `hart`.
pub fn imsic_vs(hart: usize) -> (r: usize)
    requires
        IMSIC_VS + IMSIC_VS_HART_STRIDE * hart <= usize::MAX,
    ensures
        r == IMSIC_VS + IMSIC_VS_HART_STRIDE * hart,
{
    IMSIC_VS + IMSIC_VS_HART_STRIDE * hart
}

/// The number of bits that index `count` things: the least `r` with `2^r >= count`.
pub fn imsic_num_bits(count: u32) -> (r: u32)
    requires
        count <= 0x8000_0000,
    ensures
        r <= 31,
        pow2n(r as nat) >= count,
        r == 0 || pow2n((r - 1) as nat) < count,
{
    let mut ret: u32 = 0;
    proof {
        lemma_u32_shl_one();
    }
    while (1u32 << ret) < count
        invariant
            ret <= 31,
            count <= 0x8000_0000,
            (1u32 << ret) as nat == pow2n(ret as nat),
            ret == 0 || pow2n((ret - 1) as nat) < count,
        decreases 32 - ret,
    {
        proof {
            lemma_u32_shl_one();
        }
        assert(ret < 31);
        assert((1u32 << ((ret + 1) as u32)) == 2 * (1u32 << ret));
        ret = ret + 1;
    }
    ret
}

/// Whether `b` is the least number of bits with `2^b >= count`.
pub open spec fn least_bits(count: nat, b: nat) -> bool {
    pow2n(b) >= count && (b == 0 || pow2n((b - 1) as nat) < count)
}

/// The address of the interrupt file of guest `guest` of hart `hart` when each
/// hart has `2^guest_bits` guest pages.
pub open spec fn imsic_guest_file(hart: u32, guest: u32, guest_bits: nat) -> int {
    IMSIC_VS + hart * (pow2n(guest_bits) * IMSIC_MMIO_PAGE_SIZE) + 0x1000 * guest
}

/// The address that a trigger of guest `guest` of hart `hart` writes the
/// interrupt identity to, with `aia_guests` guests per hart: each hart has
/// `2^b` guest pages, `b` the least number of bits that numbers
/// `aia_guests + 1` interrupt files.
pub fn imsic_trigger_addr(aia_guests: u32, hart: u32, guest: u32) -> (r: u32)
    requires
        aia_guests < 0x8000_0000,
        forall|b: nat| #[trigger] least_bits(aia_guests as nat + 1, b) ==> pow2n(b) * IMSIC_MMIO_PAGE_SIZE <= u32::MAX
            && imsic_guest_file(hart, guest, b) <= u32::MAX,
    ensures
        exists|b: nat| #[trigger] least_bits(aia_guests as nat + 1, b) && r == imsic_guest_file(hart, guest, b),
{
    let guest_bits = imsic_num_bits(aia_guests + 1);
    let ghost b = guest_bits as nat;
    assert(least_bits(aia_guests as nat + 1, b));
    let pages: u32 = 1u32 << guest_bits;
    proof {
        lemma_shl_pow2n(guest_bits);
    }
    let hart_stride = pages * (IMSIC_MMIO_PAGE_SIZE as u32);
    assert(hart * hart_stride <= imsic_guest_file(hart, guest, b)) by (nonlinear_arith)
        requires
            hart_stride == pow2n(b) * IMSIC_MMIO_PAGE_SIZE,
            imsic_guest_file(hart, guest, b) == IMSIC_VS + hart * (pow2n(b) * IMSIC_MMIO_PAGE_SIZE) + 0x1000 * guest,
            guest >= 0,
    ;
    let addr_base = (IMSIC_VS as u32) + hart * hart_stride;
    addr_base + 0x1000 * guest
}

/// Facts about shifting 1 left within 32 bits.
proof fn lemma_u32_shl_one()
    by (bit_vector)
    ensures
        1u32 << 0u32 == 1,
        1u32 << 31u32 == 0x8000_0000u32,
        forall|r: u32| r < 31 ==> #[trigger] (1u32 << ((r + 1) as u32)) == 2 * (1u32 << r),
{
}

proof fn lemma_shl_pow2n(b: u32)
    requires
        b <= 31,
    ensures
        (1u32 << b) as nat == pow2n(b as nat),
    decreases b,
{
    lemma_u32_shl_one();
    if b > 0 {
        lemma_shl_pow2n((b - 1) as u32);
        assert((1u32 << (((b - 1) as u32) + 1) as u32) == 2 * (1u32 << ((b - 1) as u32)));
        assert(((b - 1) as u32 + 1) as u32 == b);
    }
}

} // verus!

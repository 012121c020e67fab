//! Facts about single bits of a 16-bit bitmap.
use vstd::prelude::*;

verus! {

/// Whether bit `i` of `bm` is set.
pub open spec fn bit16_is_set(bm: u16, i: u16) -> bool {
    bm & (1u16 << i) != 0
}

/// Setting bit `i` sets it and leaves the other bits as they were.
pub proof fn lemma_bit16_set(bm: u16, i: u16, j: u16)
    requires
        i < 16,
        j < 16,
    ensures
        bit16_is_set(bm | (1u16 << i), j) == (i == j || bit16_is_set(bm, j)),
{
    assert(((bm | (1u16 << i)) & (1u16 << j) != 0) == (i == j || bm & (1u16 << j) != 0))
        by (bit_vector)
        requires
            i < 16,
            j < 16,
    ;
}

/// Clearing bit `i` clears it and leaves the other bits as they were.
pub proof fn lemma_bit16_clear(bm: u16, i: u16, j: u16)
    requires
        i < 16,
        j < 16,
    ensures
        bit16_is_set(bm & !(1u16 << i), j) == (i != j && bit16_is_set(bm, j)),
{
    assert(((bm & !(1u16 << i)) & (1u16 << j) != 0) == (i != j && bm & (1u16 << j) != 0))
        by (bit_vector)
        requires
            i < 16,
            j < 16,
    ;
}

/// Testing a bit with a mask is the same as reading it.
pub proof fn lemma_bit16_test(bm: u16, i: u16)
    requires
        i < 16,
    ensures
        (bm & (1u16 << i) == 0) == !bit16_is_set(bm, i),
{
}

} // verus!

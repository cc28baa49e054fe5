//! Single bits of a byte.

use vstd::prelude::*;

verus! {

/// Whether bit `index` of `value` is set, bit 0 being the least significant.
pub open spec fn bit_of(value: u8, index: u8) -> bool {
    (value >> index) & 1 == 1
}

/// The byte with bit `index` set and every other bit clear.
pub open spec fn single_bit(index: u8) -> u8 {
    1u8 << index
}

/// The zero byte has no bit set.
pub proof fn lemma_zero_has_no_bit(index: u8)
    requires
        index < 8,
    ensures
        !bit_of(0, index),
{
    assert(!bit_of(0, index)) by (bit_vector)
        requires
            index < 8,
    ;
}

/// A one-bit byte has exactly its own bit set.
pub proof fn lemma_single_bit(set: u8, index: u8)
    requires
        set < 8,
        index < 8,
    ensures
        bit_of(single_bit(set), index) <==> set == index,
{
    assert(bit_of(single_bit(set), index) <==> set == index) by (bit_vector)
        requires
            set < 8,
            index < 8,
    ;
}

/// A bit is set in `a | b` exactly when it is set in `a` or in `b`.
pub proof fn lemma_or_bits(a: u8, b: u8, index: u8)
    requires
        index < 8,
    ensures
        bit_of(a | b, index) <==> bit_of(a, index) || bit_of(b, index),
{
    assert(bit_of(a | b, index) <==> bit_of(a, index) || bit_of(b, index)) by (bit_vector)
        requires
            index < 8,
    ;
}

/// Two bytes that agree on all eight bits are equal.
pub proof fn lemma_bits_determine_byte(a: u8, b: u8)
    requires
        forall|index: u8| index < 8 ==> bit_of(a, index) == bit_of(b, index),
    ensures
        a == b,
{
    assert(bit_of(a, 0) == bit_of(b, 0));
    assert(bit_of(a, 1) == bit_of(b, 1));
    assert(bit_of(a, 2) == bit_of(b, 2));
    assert(bit_of(a, 3) == bit_of(b, 3));
    assert(bit_of(a, 4) == bit_of(b, 4));
    assert(bit_of(a, 5) == bit_of(b, 5));
    assert(bit_of(a, 6) == bit_of(b, 6));
    assert(bit_of(a, 7) == bit_of(b, 7));
    assert(a == b) by (bit_vector)
        requires
            bit_of(a, 0) == bit_of(b, 0),
            bit_of(a, 1) == bit_of(b, 1),
            bit_of(a, 2) == bit_of(b, 2),
            bit_of(a, 3) == bit_of(b, 3),
            bit_of(a, 4) == bit_of(b, 4),
            bit_of(a, 5) == bit_of(b, 5),
            bit_of(a, 6) == bit_of(b, 6),
            bit_of(a, 7) == bit_of(b, 7),
    ;
}

} // verus!

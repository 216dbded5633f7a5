//! Sets of small numbers, held in the bits of an integer.
use vstd::prelude::*;

verus! {

/// The numbers of the bits that are set in a machine word.
pub open spec fn word_bits(mask: usize) -> Set<int> {
    Set::new(|i: int| 0 <= i < usize::BITS && mask & (1usize << (i as usize)) != 0)
}

/// The numbers of the bits that are set in a 32-bit mask.
pub open spec fn mask_bits(mask: u32) -> Set<int> {
    Set::new(|i: int| 0 <= i < 32 && mask & (1u32 << (i as u32)) != 0)
}

/// No bit of 0 is set.
pub(crate) proof fn lemma_word_bits_zero()
    ensures
        word_bits(0) == Set::<int>::empty(),
{
    assert forall|i: int| !word_bits(0).contains(i) by {
        let k = i as usize;
        assert(0usize & (1usize << k) == 0) by (bit_vector);
    }
    assert(word_bits(0) =~= Set::<int>::empty());
}

/// Setting a bit puts its number into the set.
pub(crate) proof fn lemma_word_bits_insert(mask: usize, index: usize)
    requires
        index < usize::BITS,
    ensures
        word_bits(mask | (1usize << index)) == word_bits(mask).insert(index as int),
{
    assert forall|i: int|
        word_bits(mask | (1usize << index)).contains(i) == word_bits(mask).insert(
            index as int,
        ).contains(i) by {
        if 0 <= i < usize::BITS {
            let k = i as usize;
            assert((mask | (1usize << index)) & (1usize << k) != 0 <==> (mask & (1usize << k) != 0
                || k == index)) by (bit_vector)
                requires
                    index < usize::BITS,
                    k < usize::BITS,
            ;
        }
    }
    assert(word_bits(mask | (1usize << index)) =~= word_bits(mask).insert(index as int));
}

/// A word that is not 0 has a bit.
pub(crate) proof fn lemma_word_bits_nonzero(mask: usize)
    requires
        mask != 0,
    ensures
        exists|i: int| word_bits(mask).contains(i),
{
    assert(mask >> 0usize == mask) by (bit_vector);
    let index = lemma_find_bit(mask, 0);
    assert(word_bits(mask).contains(index as int));
}

/// The first bit from `from` on, where no lower bit is set.
proof fn lemma_find_bit(mask: usize, from: usize) -> (index: usize)
    requires
        from < usize::BITS,
        mask >> from != 0,
    ensures
        index < usize::BITS,
        mask & (1usize << index) != 0,
    decreases usize::BITS - from,
{
    if mask & (1usize << from) != 0 {
        from
    } else {
        let next = (from + 1) as usize;
        assert(next < usize::BITS && mask >> next != 0) by (bit_vector)
            requires
                from < usize::BITS,
                mask >> from != 0,
                mask & (1usize << from) == 0,
                next == from + 1,
        ;
        lemma_find_bit(mask, next)
    }
}

/// No bit of 0 is set.
pub(crate) proof fn lemma_mask_bits_zero()
    ensures
        mask_bits(0) == Set::<int>::empty(),
{
    assert forall|i: int| !mask_bits(0).contains(i) by {
        let k = i as u32;
        assert(0u32 & (1u32 << k) == 0) by (bit_vector);
    }
    assert(mask_bits(0) =~= Set::<int>::empty());
}

/// Setting a bit puts its number into the set.
pub(crate) proof fn lemma_mask_bits_insert(mask: u32, index: u32)
    requires
        index < 32,
    ensures
        mask_bits(mask | (1u32 << index)) == mask_bits(mask).insert(index as int),
{
    assert forall|i: int|
        mask_bits(mask | (1u32 << index)).contains(i) == mask_bits(mask).insert(
            index as int,
        ).contains(i) by {
        if 0 <= i < 32 {
            let k = i as u32;
            assert((mask | (1u32 << index)) & (1u32 << k) != 0 <==> (mask & (1u32 << k) != 0 || k
                == index)) by (bit_vector)
                requires
                    index < 32,
                    k < 32,
            ;
        }
    }
    assert(mask_bits(mask | (1u32 << index)) =~= mask_bits(mask).insert(index as int));
}

/// Whether a bit of a word is set.
pub(crate) fn word_has(mask: usize, index: usize) -> (yes: bool)
    requires
        index < usize::BITS,
    ensures
        yes == word_bits(mask).contains(index as int),
{
    mask & (1usize << index) != 0
}

/// Sets a bit of a word.
pub(crate) fn word_with(mask: usize, index: usize) -> (wider: usize)
    requires
        index < usize::BITS,
    ensures
        word_bits(wider) == word_bits(mask).insert(index as int),
{
    proof {
        lemma_word_bits_insert(mask, index);
    }
    mask | (1usize << index)
}

/// Whether a bit of a mask is set.
pub(crate) fn mask_has(mask: u32, index: u32) -> (yes: bool)
    requires
        index < 32,
    ensures
        yes == mask_bits(mask).contains(index as int),
{
    mask & (1u32 << index) != 0
}

/// Sets a bit of a mask.
pub(crate) fn mask_with(mask: u32, index: u32) -> (wider: u32)
    requires
        index < 32,
    ensures
        mask_bits(wider) == mask_bits(mask).insert(index as int),
{
    proof {
        lemma_mask_bits_insert(mask, index);
    }
    mask | (1u32 << index)
}

} // verus!

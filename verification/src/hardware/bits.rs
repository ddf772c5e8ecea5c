use vstd::prelude::*;

verus! {

/// Whether bit `index` of `value` is set.
pub open spec fn bit_set(value: u64, index: u64) -> bool {
    (value >> index) & 1u64 == 1u64
}

/// The basic facts about single bits of `&`, `|`, `!` and one-bit masks.
pub proof fn lemma_bit_facts(a: u64, b: u64, k: u64, j: u64)
    by (bit_vector)
    requires
        k < 64,
        j < 64,
    ensures
        ((a | b) >> j) & 1u64 == 1u64 <==> (((a >> j) & 1u64 == 1u64) || ((b >> j) & 1u64 == 1u64)),
        ((a & b) >> j) & 1u64 == 1u64 <==> (((a >> j) & 1u64 == 1u64) && ((b >> j) & 1u64 == 1u64)),
        ((!a) >> j) & 1u64 == 1u64 <==> !((a >> j) & 1u64 == 1u64),
        ((1u64 << k) >> j) & 1u64 == 1u64 <==> j == k,
        (0u64 >> j) & 1u64 != 1u64,
        ((a >> j) & 1u64 != 0u64) <==> ((a >> j) & 1u64 == 1u64),
{
}

} // verus!

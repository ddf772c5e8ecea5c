pub mod active_layers;
pub mod bits;
pub mod clock;
pub mod debounce;
pub mod state;

pub use self::active_layers::{ActiveLayer, ActiveLayers};
pub use self::debounce::DebouncedKey;

use vstd::prelude::*;
use self::bits::{bit_set, lemma_bit_facts};

verus! {

/// Single-bit operations on key states, where bit `i` stands for key `i`.
pub trait TestBit: Sized {
    fn test_bit(self, offset: usize) -> bool
        requires
            offset < 64,
    ;

    fn clear_bit(&mut self, offset: usize)
        requires
            offset < 64,
    ;

    fn set_bit(&mut self, offset: usize)
        requires
            offset < 64,
    ;
}

impl TestBit for u64 {
    fn test_bit(self, offset: usize) -> (set: bool)
        ensures
            set == bit_set(self, offset as u64),
    {
        proof {
            lemma_bit_facts(self, 0, 0, offset as u64);
        }
        (self >> (offset as u64)) & 0b1 != 0
    }

    fn clear_bit(&mut self, offset: usize)
        ensures
            *final(self) == *old(self) & !(1u64 << (offset as u64)),
    {
        *self = *self & !(1u64 << (offset as u64));
    }

    fn set_bit(&mut self, offset: usize)
        ensures
            *final(self) == *old(self) | (1u64 << (offset as u64)),
    {
        *self = *self | (1u64 << (offset as u64));
    }
}

} // verus!

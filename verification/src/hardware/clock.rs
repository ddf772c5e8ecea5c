use vstd::prelude::*;

verus! {

/// Reads the tick counter of `embassy_time::Instant::now`. The count depends on
/// the moment of the call, so nothing is stated of it.
#[verifier::external_body]
pub(crate) fn now() -> u64 {
    embassy_time::Instant::now().as_ticks()
}

/// Ticks elapsed from `earlier` to `later` on a counter that wraps around.
pub open spec fn elapsed_ticks(later: u64, earlier: u64) -> u64 {
    if later >= earlier {
        (later - earlier) as u64
    } else {
        (later - earlier + 0x1_0000_0000_0000_0000) as u64
    }
}

/// `later.wrapping_sub(earlier)`, with the result stated.
pub fn ticks_since(later: u64, earlier: u64) -> (ticks: u64)
    ensures
        ticks == elapsed_ticks(later, earlier),
{
    if later >= earlier {
        later - earlier
    } else {
        let gap: u64 = earlier - later;
        u64::MAX - gap + 1
    }
}

} // verus!

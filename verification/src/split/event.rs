use vstd::prelude::*;

use crate::side::{route, spec_route, Destination, Half, Side};

verus! {

/// Routes a keyboard event, aimed at `side`, from `half` to this half and to
/// the other half.
pub fn trigger_event<E: Copy>(side: Side, event: E, half: Half) -> (routed: Vec<(Destination, E)>)
    ensures
        routed@ == spec_route(side, half, event),
{
    route(side, half, event)
}

} // verus!

use vstd::prelude::*;

verus! {

/// A battery charge, in percent, as measured by the battery task and
/// notified to the host.
#[derive(Clone, Copy, Debug, PartialEq, Eq, Structural)]
pub struct BatteryLevel(pub u8);

} // verus!

pub mod determine;
pub mod event;
pub mod master;
pub mod slave;
pub mod common;

use vstd::prelude::*;

verus! {

/// The link between the two halves was lost.
#[derive(Clone, Copy, Debug, PartialEq, Eq, Structural)]
pub struct HalfDisconnected;

} // verus!

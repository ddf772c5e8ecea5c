use vstd::prelude::*;

verus! {

/// How a write to a client of the other half went.
#[derive(Clone, Copy, Debug, PartialEq, Eq, Structural)]
pub enum WriteOutcome {
    Written,
    /// The radio was busy.
    Busy,
    /// Any other error.
    Failed,
}

/// Milliseconds to wait before writing again after the radio was busy.
pub const BUSY_RETRY_MILLIS: u64 = 1;

/// What a client does after a write.
#[derive(Clone, Copy, Debug, PartialEq, Eq, Structural)]
pub enum ClientStep {
    /// The write is done; take the next item.
    Next,
    /// Write the same item again after this many milliseconds.
    RetryAfter(u64),
}

/// A client's decision after writing an item to the other half: a written
/// item is done, and a busy radio means the same item is written again a
/// millisecond later. Any other error is fatal to the firmware, so it is
/// left out.
pub fn after_write(outcome: WriteOutcome) -> (step: ClientStep)
    requires
        outcome != WriteOutcome::Failed,
    ensures
        step == if outcome == WriteOutcome::Written {
            ClientStep::Next
        } else {
            ClientStep::RetryAfter(BUSY_RETRY_MILLIS)
        },
{
    match outcome {
        WriteOutcome::Written => ClientStep::Next,
        _ => ClientStep::RetryAfter(BUSY_RETRY_MILLIS),
    }
}

} // verus!

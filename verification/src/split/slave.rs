use vstd::prelude::*;

use crate::flash::FlashOperation;

verus! {

/// What happens to the slave while it is connected to the master.
#[derive(Clone, Copy, Debug)]
pub enum SlaveEvent<B> {
    /// The scan loop produced a new key state.
    Scanned(u64),
    /// Writing the key state to the master failed.
    WriteFailed,
    /// The master wrote a settings operation.
    FlashOperationWrite(FlashOperation<B>),
    /// The connection to the master ended.
    MasterLost,
}

/// What the slave does next.
#[derive(Clone, Copy, Debug)]
pub enum SlaveAction<B> {
    /// Writes the key state to the master's key state service.
    WriteKeyState(u64),
    /// Hands the operation to the settings task.
    Flash(FlashOperation<B>),
    /// Stops: the halves are disconnected.
    Stop,
}

/// The slave's decisions: key states go to the master, settings
/// operations from the master go to the settings task, and a failed write
/// or a lost connection means the halves are disconnected.
pub fn slave_step<B: Copy>(event: SlaveEvent<B>) -> (action: SlaveAction<B>)
    ensures
        action == match event {
            SlaveEvent::Scanned(key_state) => SlaveAction::<B>::WriteKeyState(key_state),
            SlaveEvent::FlashOperationWrite(operation) => SlaveAction::Flash(operation),
            SlaveEvent::WriteFailed => SlaveAction::<B>::Stop,
            SlaveEvent::MasterLost => SlaveAction::<B>::Stop,
        },
{
    match event {
        SlaveEvent::Scanned(key_state) => SlaveAction::WriteKeyState(key_state),
        SlaveEvent::FlashOperationWrite(operation) => SlaveAction::Flash(operation),
        SlaveEvent::WriteFailed => SlaveAction::Stop,
        SlaveEvent::MasterLost => SlaveAction::Stop,
    }
}

} // verus!

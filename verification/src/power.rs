use vstd::prelude::*;

use crate::side::{route, spec_route, Destination, Half, Side};

verus! {

/// Whether the power rail of the peripherals is switched on.
#[derive(Debug, Clone, Copy, PartialEq, Eq, Structural, Hash)]
pub enum PowerState {
    Off,
    On,
}

impl PowerState {
    pub open spec fn spec_not(self) -> PowerState {
        match self {
            PowerState::Off => PowerState::On,
            PowerState::On => PowerState::Off,
        }
    }

    /// The opposite state.
    pub fn not(self) -> (toggled: PowerState)
        ensures
            toggled == self.spec_not(),
    {
        match self {
            PowerState::Off => PowerState::On,
            PowerState::On => PowerState::Off,
        }
    }
}

/// Toggling twice gives back the state.
pub proof fn lemma_toggle_twice(state: PowerState)
    ensures
        state.spec_not().spec_not() == state,
        state.spec_not() != state,
{
}

/// A request to the power task.
#[derive(Debug, Clone, Copy, PartialEq, Eq, Structural)]
pub enum PowerOperation {
    SetPower { state: PowerState },
}

/// Routes a request to switch the power to `state` on `side`, from `half`.
pub fn set_power_state(side: Side, state: PowerState, half: Half) -> (routed: Vec<(Destination, PowerOperation)>)
    ensures
        routed@ == spec_route(side, half, PowerOperation::SetPower { state }),
{
    route(side, half, PowerOperation::SetPower { state })
}

/// The level the power pin is driven to for a request: high for on.
pub fn power_pin_level(operation: PowerOperation) -> (high: bool)
    ensures
        high == (operation == PowerOperation::SetPower { state: PowerState::On }),
{
    match operation {
        PowerOperation::SetPower { state } => match state {
            PowerState::On => true,
            PowerState::Off => false,
        },
    }
}

} // verus!

verus! {

/// The byte sent to the other half for a power request: 1 to switch on,
/// 0 to switch off.
pub open spec fn power_operation_byte(operation: PowerOperation) -> u8 {
    match operation {
        PowerOperation::SetPower { state: PowerState::On } => 1,
        PowerOperation::SetPower { state: PowerState::Off } => 0,
    }
}

impl PowerOperation {
    /// The bytes sent to the other half for this request.
    pub fn to_gatt(&self) -> (bytes: [u8; 1])
        ensures
            bytes@ == seq![power_operation_byte(*self)],
    {
        let byte: u8 = match self {
            PowerOperation::SetPower { state: PowerState::On } => 1,
            PowerOperation::SetPower { state: PowerState::Off } => 0,
        };
        let bytes = [byte];
        assert(bytes@ =~= seq![power_operation_byte(*self)]);
        bytes
    }

    /// The request received from the other half in `data`; `None` for a
    /// byte that names no state.
    pub fn from_gatt(data: &[u8]) -> (operation: Option<Self>)
        requires
            data@.len() == 1,
        ensures
            operation is Some <==> data@[0] <= 1,
            forall|other: Self| #[trigger] power_operation_byte(other) == data@[0] ==> operation == Some(other),
    {
        if data[0] == 1 {
            Some(PowerOperation::SetPower { state: PowerState::On })
        } else if data[0] == 0 {
            Some(PowerOperation::SetPower { state: PowerState::Off })
        } else {
            None
        }
    }
}

} // verus!

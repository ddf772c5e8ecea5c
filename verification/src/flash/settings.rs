use vstd::prelude::*;

use super::storage::{bond_fits, settings_fit, BoardFlash};
use super::{is_zeroed, Bond, FlashOperation, Settings};
use crate::ble::types::is_no_address;

verus! {

/// Proof that the settings were loaded from the flash; it carries the
/// address of the flash page that holds them.
#[derive(Clone, Copy, Debug)]
pub struct FlashToken {
    pub address: u32,
}

/// What the flash task has to do after handling an operation.
#[derive(Clone, Copy, Debug, PartialEq, Eq, Structural)]
pub enum FlashAction {
    Nothing,
    /// Switch the running animation to the one with this index.
    SendAnimation(usize),
    /// Write the settings to the flash, erasing the page first if `erase`.
    Commit { erase: bool },
}

/// The settings held by the flash task, with the flash work that its pending
/// changes need.
pub struct FlashState<B> {
    pub settings: Settings<B>,
    /// A change may set bits that are 0 in the flash: the page must be erased
    /// before it is written.
    pub erase: bool,
    /// There are changes to write.
    pub write: bool,
}

/// Every bond other than the one in `slot` is unchanged.
pub open spec fn others_unchanged(before: Seq<Bond>, after: Seq<Bond>, slot: int) -> bool {
    &&& after.len() == before.len()
    &&& forall|i: int| 0 <= i < before.len() && i != slot ==> #[trigger] after[i] == before[i]
}

/// An operation whose data can be stored in the flash.
pub open spec fn operation_fits<B: BoardFlash>(operation: FlashOperation<B>) -> bool {
    match operation {
        FlashOperation::StoreSystemAttributes { system_attributes, .. } => system_attributes.length <= u32::MAX,
        FlashOperation::SwitchAnimation(animation) => animation <= u32::MAX,
        FlashOperation::StoreBoardFlash(board_flash) => board_flash.fits_flash(),
        _ => true,
    }
}

impl<B: BoardFlash> FlashState<B> {
    /// Erasing only ever comes with writing.
    pub open spec fn flags_wf(&self) -> bool {
        self.erase ==> self.write
    }

    /// Whether `operation` names a slot of the bond table, when it names one.
    pub open spec fn accepts(&self, operation: FlashOperation<B>) -> bool {
        match operation {
            FlashOperation::StorePeer { slot, .. } => slot.0 < self.settings.bonds@.len(),
            FlashOperation::StoreSystemAttributes { slot, .. } => slot.0 < self.settings.bonds@.len(),
            FlashOperation::RemoveBond(slot) => slot.0 < self.settings.bonds@.len(),
            _ => true,
        }
    }

    /// Settings loaded from the flash, with nothing pending.
    pub fn new(settings: Settings<B>) -> (state: Self)
        ensures
            state.settings == settings,
            !state.erase,
            !state.write,
    {
        FlashState { settings, erase: false, write: false }
    }

    /// Handles one operation of the flash task.
    pub fn handle(&mut self, operation: FlashOperation<B>) -> (action: FlashAction)
        requires
            old(self).accepts(operation),
        ensures
            old(self).flags_wf() ==> final(self).flags_wf(),
            settings_fit(&old(self).settings) && operation_fits(operation) ==> settings_fit(&final(self).settings),
            operation matches FlashOperation::StorePeer { slot, peer } ==> {
                &&& final(self).settings.bonds@[slot.0 as int] == (Bond {
                    peer,
                    ..old(self).settings.bonds@[slot.0 as int]
                })
                &&& others_unchanged(old(self).settings.bonds@, final(self).settings.bonds@, slot.0 as int)
                &&& final(self).settings.animation == old(self).settings.animation
                &&& final(self).settings.board_flash == old(self).settings.board_flash
                &&& final(self).erase && final(self).write
                &&& action == FlashAction::Nothing
            },
            operation matches FlashOperation::StoreSystemAttributes { slot, system_attributes } ==> {
                &&& final(self).settings.bonds@[slot.0 as int] == (Bond {
                    system_attributes,
                    ..old(self).settings.bonds@[slot.0 as int]
                })
                &&& others_unchanged(old(self).settings.bonds@, final(self).settings.bonds@, slot.0 as int)
                &&& final(self).settings.animation == old(self).settings.animation
                &&& final(self).settings.board_flash == old(self).settings.board_flash
                &&& final(self).erase && final(self).write
                &&& action == FlashAction::Nothing
            },
            operation matches FlashOperation::RemoveBond(slot) ==> {
                &&& others_unchanged(old(self).settings.bonds@, final(self).settings.bonds@, slot.0 as int)
                &&& final(self).settings.animation == old(self).settings.animation
                &&& final(self).settings.board_flash == old(self).settings.board_flash
                &&& action == FlashAction::Nothing
                &&& if is_no_address(old(self).settings.bonds@[slot.0 as int].peer.peer_id.addr) {
                    &&& final(self).settings.bonds@ == old(self).settings.bonds@
                    &&& final(self).erase == old(self).erase
                    &&& final(self).write == old(self).write
                } else {
                    &&& is_zeroed(final(self).settings.bonds@[slot.0 as int])
                    &&& final(self).erase == old(self).erase
                    &&& final(self).write
                }
            },
            operation matches FlashOperation::SwitchAnimation(animation) ==> {
                &&& final(self).settings.bonds@ == old(self).settings.bonds@
                &&& final(self).settings.board_flash == old(self).settings.board_flash
                &&& final(self).settings.animation == animation
                &&& if animation != old(self).settings.animation {
                    &&& final(self).erase && final(self).write
                    &&& action == FlashAction::SendAnimation(animation)
                } else {
                    &&& final(self).erase == old(self).erase
                    &&& final(self).write == old(self).write
                    &&& action == FlashAction::Nothing
                }
            },
            operation matches FlashOperation::StoreBoardFlash(board_flash) ==> {
                &&& final(self).settings.bonds@ == old(self).settings.bonds@
                &&& final(self).settings.animation == old(self).settings.animation
                &&& final(self).settings.board_flash == board_flash
                &&& final(self).erase && final(self).write
                &&& action == FlashAction::Nothing
            },
            operation matches FlashOperation::ResetPersistentData ==> {
                &&& final(self).settings.bonds@ == old(self).settings.bonds@
                &&& final(self).settings.animation == old(self).settings.animation
                &&& final(self).settings.board_flash == old(self).settings.board_flash
                &&& final(self).erase == old(self).erase
                &&& final(self).write == old(self).write
                &&& action == FlashAction::Nothing
            },
            operation matches FlashOperation::Apply ==> {
                &&& final(self).settings.bonds@ == old(self).settings.bonds@
                &&& final(self).settings.animation == old(self).settings.animation
                &&& final(self).settings.board_flash == old(self).settings.board_flash
                &&& !final(self).erase && !final(self).write
                &&& action == if old(self).write {
                    FlashAction::Commit { erase: old(self).erase }
                } else {
                    FlashAction::Nothing
                }
            },

    {
        match operation {
            FlashOperation::StorePeer { slot, peer } => {
                let mut bond = self.settings.bonds[slot.0];
                bond.peer = peer;
                self.settings.bonds.set(slot.0, bond);
                // A change may set bits that are 0: erase before writing.
                self.erase = true;
                self.write = true;
                FlashAction::Nothing
            },
            FlashOperation::StoreSystemAttributes { slot, system_attributes } => {
                let mut bond = self.settings.bonds[slot.0];
                bond.system_attributes = system_attributes;
                self.settings.bonds.set(slot.0, bond);
                self.erase = true;
                self.write = true;
                FlashAction::Nothing
            },
            FlashOperation::RemoveBond(slot) => {
                let occupied = !self.settings.bonds[slot.0].peer.peer_id.addr.is_none();
                if occupied {
                    self.settings.bonds.set(slot.0, Bond::zeroed());
                    // Only bits are cleared: no erase needed.
                    self.write = true;
                }
                FlashAction::Nothing
            },
            FlashOperation::SwitchAnimation(animation) => {
                if self.settings.animation != animation {
                    self.settings.animation = animation;
                    self.erase = true;
                    self.write = true;
                    FlashAction::SendAnimation(animation)
                } else {
                    FlashAction::Nothing
                }
            },
            FlashOperation::StoreBoardFlash(board_flash) => {
                self.settings.board_flash = board_flash;
                self.erase = true;
                self.write = true;
                FlashAction::Nothing
            },
            FlashOperation::ResetPersistentData => FlashAction::Nothing,
            FlashOperation::Apply => {
                let action = if self.write {
                    FlashAction::Commit { erase: self.erase }
                } else {
                    FlashAction::Nothing
                };
                self.erase = false;
                self.write = false;
                action
            },
        }
    }
}

} // verus!

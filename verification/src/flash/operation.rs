use vstd::prelude::*;

use super::bytes::{lemma_u32_le, push_u32, read_u32, u32_le};
use super::storage::{
    attributes_bytes, attributes_fit, lemma_attributes_bytes_injective, lemma_peer_bytes_injective, peer_bytes, read_attributes,
    read_peer, write_attributes, write_peer, BoardFlash, ATTRIBUTES_SIZE, PEER_SIZE,
};
use super::{BondSlot, Peer, SystemAttributes};
use crate::side::{route, spec_route, Destination, Half, Side};

verus! {

/// A change of the persistent settings.
#[derive(Clone, Copy, Debug)]
pub enum FlashOperation<B> {
    StorePeer { slot: BondSlot, peer: Peer },
    StoreSystemAttributes { slot: BondSlot, system_attributes: SystemAttributes },
    RemoveBond(BondSlot),
    /// Switches to the animation with this index.
    SwitchAnimation(usize),
    StoreBoardFlash(B),
    ResetPersistentData,
    /// Writes the changes made since the last `Apply` to the flash.
    Apply,
}

/// Routes `operation`, aimed at `side`, from `half` to this half's flash task
/// and to the other half.
pub fn queue_inner<B: Copy>(side: Side, operation: FlashOperation<B>, half: Half) -> (routed: Vec<(Destination, FlashOperation<B>)>)
    ensures
        routed@ == spec_route(side, half, operation),
{
    route(side, half, operation)
}

/// Removes the bond in `slot` on `side`.
pub fn remove_bond<B: Copy>(side: Side, slot: BondSlot, half: Half) -> (routed: Vec<(Destination, FlashOperation<B>)>)
    ensures
        routed@ == spec_route(side, half, FlashOperation::<B>::RemoveBond(slot)),
{
    queue_inner(side, FlashOperation::RemoveBond(slot), half)
}

/// Stores the board's own data on `side`.
pub fn store_board_flash<B: Copy>(side: Side, board_flash: B, half: Half) -> (routed: Vec<(Destination, FlashOperation<B>)>)
    ensures
        routed@ == spec_route(side, half, FlashOperation::StoreBoardFlash(board_flash)),
{
    queue_inner(side, FlashOperation::StoreBoardFlash(board_flash), half)
}

/// Resets the persistent data on `side`.
pub fn reset_persistent_data<B: Copy>(side: Side, half: Half) -> (routed: Vec<(Destination, FlashOperation<B>)>)
    ensures
        routed@ == spec_route(side, half, FlashOperation::<B>::ResetPersistentData),
{
    queue_inner(side, FlashOperation::ResetPersistentData, half)
}

/// Stores `peer` in `slot` on `side`.
pub fn try_store_peer<B: Copy>(side: Side, slot: BondSlot, peer: Peer, half: Half) -> (routed: Vec<(Destination, FlashOperation<B>)>)
    ensures
        routed@ == spec_route(side, half, FlashOperation::<B>::StorePeer { slot, peer }),
{
    queue_inner(side, FlashOperation::StorePeer { slot, peer }, half)
}

/// Stores the system attributes of the peer in `slot` on `side`.
pub fn try_store_system_attributes<B: Copy>(
    side: Side,
    slot: BondSlot,
    system_attributes: SystemAttributes,
    half: Half,
) -> (routed: Vec<(Destination, FlashOperation<B>)>)
    ensures
        routed@ == spec_route(side, half, FlashOperation::<B>::StoreSystemAttributes { slot, system_attributes }),
{
    queue_inner(side, FlashOperation::StoreSystemAttributes { slot, system_attributes }, half)
}

/// Number of bytes of a settings operation sent between the halves: a tag
/// byte and the largest payload.
pub open spec fn spec_gatt_size<B: BoardFlash>() -> nat {
    1 + if B::spec_flash_size() > 72 {
        B::spec_flash_size()
    } else {
        72
    }
}

/// The payload of an operation: slots and animation indices are
/// little-endian 32-bit values, followed by the peer, attributes or board
/// data they carry.
pub open spec fn gatt_payload<B: BoardFlash>(operation: FlashOperation<B>) -> Seq<u8> {
    match operation {
        FlashOperation::StorePeer { slot, peer } => u32_le(slot.0 as u32) + peer_bytes(peer),
        FlashOperation::StoreSystemAttributes { slot, system_attributes } => u32_le(slot.0 as u32) + attributes_bytes(
            system_attributes,
        ),
        FlashOperation::RemoveBond(slot) => u32_le(slot.0 as u32),
        FlashOperation::SwitchAnimation(animation) => u32_le(animation as u32),
        FlashOperation::StoreBoardFlash(board_flash) => board_flash.flash_bytes(),
        FlashOperation::ResetPersistentData => Seq::empty(),
        FlashOperation::Apply => Seq::empty(),
    }
}

/// The tag byte of an operation.
pub open spec fn gatt_tag<B>(operation: FlashOperation<B>) -> u8 {
    match operation {
        FlashOperation::StorePeer { .. } => 0,
        FlashOperation::StoreSystemAttributes { .. } => 1,
        FlashOperation::RemoveBond(..) => 2,
        FlashOperation::SwitchAnimation(..) => 3,
        FlashOperation::StoreBoardFlash(..) => 4,
        FlashOperation::ResetPersistentData => 5,
        FlashOperation::Apply => 6,
    }
}

/// The bytes of an operation sent between the halves: its tag, its payload
/// and zeros up to `spec_gatt_size`.
pub open spec fn gatt_bytes<B: BoardFlash>(operation: FlashOperation<B>) -> Seq<u8> {
    let payload = gatt_payload(operation);
    seq![gatt_tag(operation)] + payload + Seq::new((spec_gatt_size::<B>() - 1 - payload.len()) as nat, |i: int| 0u8)
}

/// An operation whose numbers fit the 32 bits sent for them and whose data
/// can be stored.
pub open spec fn gatt_fits<B: BoardFlash>(operation: FlashOperation<B>) -> bool {
    match operation {
        FlashOperation::StorePeer { slot, .. } => slot.0 <= u32::MAX,
        FlashOperation::StoreSystemAttributes { slot, system_attributes } => slot.0 <= u32::MAX && attributes_fit(
            system_attributes,
        ),
        FlashOperation::RemoveBond(slot) => slot.0 <= u32::MAX,
        FlashOperation::SwitchAnimation(animation) => animation <= u32::MAX,
        FlashOperation::StoreBoardFlash(board_flash) => board_flash.fits_flash(),
        _ => true,
    }
}

/// Number of bytes of a settings operation sent between the halves.
pub fn gatt_size<B: BoardFlash>() -> (size: usize)
    ensures
        size == spec_gatt_size::<B>(),
{
    proof {
        B::lemma_flash_size();
    }
    let board = B::flash_size();
    1 + if board > 72 {
        board
    } else {
        72
    }
}

impl<B: BoardFlash> FlashOperation<B> {
    /// The bytes sent to the other half for this operation.
    pub fn to_gatt(&self) -> (bytes: Vec<u8>)
        requires
            gatt_fits(*self),
        ensures
            bytes@ == gatt_bytes(*self),
            bytes@.len() == spec_gatt_size::<B>(),
    {
        proof {
            B::lemma_flash_size();
            match *self {
                FlashOperation::StorePeer { peer, .. } => lemma_peer_bytes_injective(peer, peer),
                FlashOperation::StoreSystemAttributes { system_attributes, .. } => lemma_attributes_bytes_injective(
                    system_attributes,
                    system_attributes,
                ),
                FlashOperation::StoreBoardFlash(board_flash) => B::lemma_flash_bytes(board_flash, board_flash),
                _ => {},
            }
        }
        let mut bytes: Vec<u8> = Vec::new();
        match self {
            FlashOperation::StorePeer { slot, peer } => {
                bytes.push(0);
                push_u32(&mut bytes, slot.0 as u32);
                write_peer(&mut bytes, peer);
            },
            FlashOperation::StoreSystemAttributes { slot, system_attributes } => {
                bytes.push(1);
                push_u32(&mut bytes, slot.0 as u32);
                write_attributes(&mut bytes, system_attributes);
            },
            FlashOperation::RemoveBond(slot) => {
                bytes.push(2);
                push_u32(&mut bytes, slot.0 as u32);
            },
            FlashOperation::SwitchAnimation(animation) => {
                bytes.push(3);
                push_u32(&mut bytes, *animation as u32);
            },
            FlashOperation::StoreBoardFlash(board_flash) => {
                bytes.push(4);
                board_flash.write_flash(&mut bytes);
            },
            FlashOperation::ResetPersistentData => {
                bytes.push(5);
            },
            FlashOperation::Apply => {
                bytes.push(6);
            },
        }
        let size = gatt_size::<B>();
        let ghost unpadded = bytes@;
        assert(unpadded == seq![gatt_tag(*self)] + gatt_payload(*self));
        while bytes.len() < size
            invariant
                bytes@.len() <= size,
                size == spec_gatt_size::<B>(),
                unpadded.len() <= bytes@.len(),
                bytes@.subrange(0, unpadded.len() as int) == unpadded,
                forall|j: int| unpadded.len() <= j < bytes@.len() ==> bytes@[j] == 0u8,
            decreases size - bytes@.len(),
        {
            bytes.push(0);
        }
        assert(bytes@ =~= gatt_bytes(*self));
        bytes
    }

    /// The operation received from the other half in `data`: the operation
    /// whose bytes `data` are, if any; `None` for an unknown tag.
    pub fn from_gatt(data: &[u8]) -> (operation: Option<Self>)
        requires
            data@.len() == spec_gatt_size::<B>(),
        ensures
            operation is Some <==> data@[0] <= 6,
            forall|other: Self| gatt_fits(other) && #[trigger] gatt_bytes(other) == data@ ==> operation == Some(other),
    {
        proof {
            B::lemma_flash_size();
        }
        let count = data.len();
        let tag = data[0];
        let operation = if tag == 0 {
            Some(FlashOperation::StorePeer { slot: BondSlot(read_u32(data, 1) as usize), peer: read_peer(data, 5) })
        } else if tag == 1 {
            Some(
                FlashOperation::StoreSystemAttributes {
                    slot: BondSlot(read_u32(data, 1) as usize),
                    system_attributes: read_attributes(data, 5),
                },
            )
        } else if tag == 2 {
            Some(FlashOperation::RemoveBond(BondSlot(read_u32(data, 1) as usize)))
        } else if tag == 3 {
            Some(FlashOperation::SwitchAnimation(read_u32(data, 1) as usize))
        } else if tag == 4 {
            Some(FlashOperation::StoreBoardFlash(B::read_flash(data, 1)))
        } else if tag == 5 {
            Some(FlashOperation::ResetPersistentData)
        } else if tag == 6 {
            Some(FlashOperation::Apply)
        } else {
            None
        };
        proof {
            assert forall|other: Self| gatt_fits(other) && #[trigger] gatt_bytes(other) == data@ implies operation == Some(
                other,
            ) by {
                let bytes = gatt_bytes(other);
                assert(bytes[0] == gatt_tag(other));
                match other {
                    FlashOperation::StorePeer { slot, peer } => {
                        assert(bytes.subrange(1, 5) =~= u32_le(slot.0 as u32));
                        lemma_u32_le(slot.0 as u32, 0, bytes.subrange(1, 5));
                        lemma_peer_bytes_injective(peer, operation->0->peer);
                        assert(bytes.subrange(5, 5 + PEER_SIZE) =~= peer_bytes(peer));
                    },
                    FlashOperation::StoreSystemAttributes { slot, system_attributes } => {
                        assert(bytes.subrange(1, 5) =~= u32_le(slot.0 as u32));
                        lemma_u32_le(slot.0 as u32, 0, bytes.subrange(1, 5));
                        lemma_attributes_bytes_injective(system_attributes, operation->0->system_attributes);
                        assert(bytes.subrange(5, 5 + ATTRIBUTES_SIZE) =~= attributes_bytes(system_attributes));
                    },
                    FlashOperation::RemoveBond(slot) => {
                        assert(bytes.subrange(1, 5) =~= u32_le(slot.0 as u32));
                        lemma_u32_le(slot.0 as u32, 0, bytes.subrange(1, 5));
                    },
                    FlashOperation::SwitchAnimation(animation) => {
                        assert(bytes.subrange(1, 5) =~= u32_le(animation as u32));
                        lemma_u32_le(animation as u32, 0, bytes.subrange(1, 5));
                    },
                    FlashOperation::StoreBoardFlash(board_flash) => {
                        B::lemma_flash_bytes(board_flash, board_flash);
                        assert(bytes.subrange(1, (1 + B::spec_flash_size()) as int) =~= board_flash.flash_bytes());
                    },
                    _ => {},
                }
            }
        }
        operation
    }
}

/// An operation sent to the other half is received as it was sent.
pub proof fn lemma_gatt_round_trip<B: BoardFlash>(sent: FlashOperation<B>, received: Option<FlashOperation<B>>)
    requires
        gatt_fits(sent),
        forall|other: FlashOperation<B>| gatt_fits(other) && #[trigger] gatt_bytes(other) == gatt_bytes(sent) ==> received == Some(other),
    ensures
        received == Some(sent),
{
    assert(gatt_bytes(sent) == gatt_bytes(sent));
}

} // verus!

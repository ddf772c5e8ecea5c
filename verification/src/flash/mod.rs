pub mod bytes;
pub mod operation;
pub mod settings;
pub mod storage;
pub mod transaction;

pub use self::operation::FlashOperation;
pub use self::settings::{FlashState, FlashToken};
pub use self::transaction::FlashTransaction;

use vstd::prelude::*;

use crate::ble::types::{Address, EncryptionInfo, IdentityKey, IdentityResolutionKey, MasterId};

verus! {

/// Index of a bond in the persistent bond table.
#[derive(Clone, Copy, Debug, PartialEq, Eq, Structural)]
pub struct BondSlot(pub usize);

/// The GATT system attributes stored for a bonded peer: `length` bytes of
/// `data` are in use.
#[derive(Clone, Copy, Debug)]
pub struct SystemAttributes {
    pub length: usize,
    pub data: [u8; 64],
}

/// Whether every byte of `bytes` is zero.
pub open spec fn all_zero(bytes: Seq<u8>) -> bool {
    forall|i: int| 0 <= i < bytes.len() ==> bytes[i] == 0u8
}

impl SystemAttributes {
    /// No attributes.
    pub fn new() -> (attributes: Self)
        ensures
            attributes.length == 0,
            all_zero(attributes.data@),
    {
        SystemAttributes { length: 0, data: [0u8; 64] }
    }
}

/// A bonded peer.
#[derive(Clone, Copy, Debug)]
pub struct Peer {
    pub master_id: MasterId,
    pub key: EncryptionInfo,
    pub peer_id: IdentityKey,
}

/// An entry of the bond table.
#[derive(Clone, Copy, Debug)]
pub struct Bond {
    pub peer: Peer,
    pub system_attributes: SystemAttributes,
}

/// Whether every field of `bond` is zero, as in an erased slot.
pub open spec fn is_zeroed(bond: Bond) -> bool {
    &&& bond.peer.master_id.ediv == 0
    &&& all_zero(bond.peer.master_id.rand@)
    &&& all_zero(bond.peer.key.ltk@)
    &&& bond.peer.key.flags == 0
    &&& all_zero(bond.peer.peer_id.irk.irk@)
    &&& bond.peer.peer_id.addr.flags == 0
    &&& all_zero(bond.peer.peer_id.addr.bytes@)
    &&& bond.system_attributes.length == 0
    &&& all_zero(bond.system_attributes.data@)
}

impl Bond {
    /// A bond whose every field is zero.
    pub fn zeroed() -> (bond: Bond)
        ensures
            is_zeroed(bond),
    {
        Bond {
            peer: Peer {
                master_id: MasterId { ediv: 0, rand: [0u8; 8] },
                key: EncryptionInfo { ltk: [0u8; 16], flags: 0 },
                peer_id: IdentityKey {
                    irk: IdentityResolutionKey { irk: [0u8; 16] },
                    addr: Address { flags: 0, bytes: [0u8; 6] },
                },
            },
            system_attributes: SystemAttributes::new(),
        }
    }
}

/// The persistent settings: the bond table, the animation in use (by its
/// index in the keyboard's animation table) and the board's own data.
pub struct Settings<B> {
    pub bonds: Vec<Bond>,
    pub animation: usize,
    pub board_flash: B,
}

} // verus!

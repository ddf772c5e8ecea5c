use vstd::prelude::*;

use crate::ble::types::{is_no_address, Address, EncryptionInfo, IdentityKey, MasterId};
use crate::flash::{Bond, BondSlot, FlashOperation, Peer, SystemAttributes};

verus! {

/// The first index, from `start` on, of an element of `items` that satisfies
/// `matches`.
pub open spec fn first_index_from<T>(items: Seq<T>, matches: spec_fn(T) -> bool, start: nat) -> Option<nat>
    decreases items.len() - start,
{
    if start >= items.len() {
        None
    } else if matches(items[start as int]) {
        Some(start)
    } else {
        first_index_from(items, matches, start + 1)
    }
}

/// The first index of an element of `items` that satisfies `matches`.
pub open spec fn first_index<T>(items: Seq<T>, matches: spec_fn(T) -> bool) -> Option<nat> {
    first_index_from(items, matches, 0)
}

/// A found index is in range and satisfies the predicate, and no earlier
/// element does.
pub proof fn lemma_first_index<T>(items: Seq<T>, matches: spec_fn(T) -> bool, start: nat)
    ensures
        first_index_from(items, matches, start) matches Some(i) ==> start <= i < items.len() && matches(items[i as int])
            && forall|j: int| start <= j < i ==> !matches(#[trigger] items[j]),
        first_index_from(items, matches, start) is None ==> forall|j: int| start <= j < items.len() ==> !matches(#[trigger] items[j]),
    decreases items.len() - start,
{
    if start < items.len() {
        lemma_first_index(items, matches, start + 1);
    }
}

/// A bond whose peer address is not the address of zeros.
pub open spec fn bond_in_use(bond: Bond) -> bool {
    !is_no_address(bond.peer.peer_id.addr)
}

/// A bond with the central `master_id`.
pub open spec fn bond_of_master(master_id: MasterId) -> spec_fn(Bond) -> bool {
    |bond: Bond| bond.peer.master_id == master_id
}

/// A bond with the peer at `address`.
pub open spec fn bond_at_address(address: Address) -> spec_fn(Bond) -> bool {
    |bond: Bond| bond.peer.peer_id.addr == address
}

/// The slot in which a newly bonded peer is stored: the first slot whose
/// peer address is not the address of zeros.
pub fn bond_slot_for_new_peer(bonds: &Vec<Bond>) -> (slot: Option<usize>)
    ensures
        match first_index(bonds@, |bond: Bond| bond_in_use(bond)) {
            Some(i) => slot == Some(i as usize),
            None => slot is None,
        },
{
    let mut i: usize = 0;
    while i < bonds.len()
        invariant
            i <= bonds@.len(),
            first_index(bonds@, |bond: Bond| bond_in_use(bond)) == first_index_from(
                bonds@,
                |bond: Bond| bond_in_use(bond),
                i as nat,
            ),
        decreases bonds@.len() - i,
    {
        if !bonds[i].peer.peer_id.addr.is_none() {
            return Some(i);
        }
        i = i + 1;
    }
    None
}

/// The operation that stores a newly bonded peer, if a slot is found for it.
pub fn on_bonded<B: Copy>(bonds: &Vec<Bond>, master_id: MasterId, key: EncryptionInfo, peer_id: IdentityKey) -> (operation: Option<FlashOperation<B>>)
    ensures
        match first_index(bonds@, |bond: Bond| bond_in_use(bond)) {
            Some(i) => operation == Some(FlashOperation::<B>::StorePeer {
                slot: BondSlot(i as usize),
                peer: Peer { master_id, key, peer_id },
            }),
            None => operation is None,
        },
{
    match bond_slot_for_new_peer(bonds) {
        Some(free_slot) => Some(FlashOperation::StorePeer {
            slot: BondSlot(free_slot),
            peer: Peer { master_id, key, peer_id },
        }),
        None => None,
    }
}

/// The key stored for the central `master_id`, from the first bond with it.
pub fn get_key(bonds: &Vec<Bond>, master_id: &MasterId) -> (key: Option<EncryptionInfo>)
    ensures
        match first_index(bonds@, bond_of_master(*master_id)) {
            Some(i) => key == Some(bonds@[i as int].peer.key),
            None => key is None,
        },
{
    let mut i: usize = 0;
    while i < bonds.len()
        invariant
            i <= bonds@.len(),
            first_index(bonds@, bond_of_master(*master_id)) == first_index_from(
                bonds@,
                bond_of_master(*master_id),
                i as nat,
            ),
        decreases bonds@.len() - i,
    {
        if bonds[i].peer.master_id.same(master_id) {
            return Some(bonds[i].peer.key);
        }
        i = i + 1;
    }
    None
}

/// The slot of the first bond with the peer at `address`.
pub fn bond_slot_of_peer(bonds: &Vec<Bond>, address: &Address) -> (slot: Option<usize>)
    ensures
        match first_index(bonds@, bond_at_address(*address)) {
            Some(i) => slot == Some(i as usize),
            None => slot is None,
        },
{
    let mut i: usize = 0;
    while i < bonds.len()
        invariant
            i <= bonds@.len(),
            first_index(bonds@, bond_at_address(*address)) == first_index_from(
                bonds@,
                bond_at_address(*address),
                i as nat,
            ),
        decreases bonds@.len() - i,
    {
        if bonds[i].peer.peer_id.addr.same(address) {
            return Some(i);
        }
        i = i + 1;
    }
    None
}

/// The operation that stores the system attributes read for the peer at
/// `address`, in the slot of its bond, if it has one.
pub fn save_sys_attrs<B: Copy>(bonds: &Vec<Bond>, address: &Address, system_attributes: SystemAttributes) -> (operation: Option<
    FlashOperation<B>,
>)
    ensures
        match first_index(bonds@, bond_at_address(*address)) {
            Some(i) => operation == Some(FlashOperation::<B>::StoreSystemAttributes { slot: BondSlot(i as usize), system_attributes }),
            None => operation is None,
        },
{
    match bond_slot_of_peer(bonds, address) {
        Some(slot) => Some(FlashOperation::StoreSystemAttributes { slot: BondSlot(slot), system_attributes }),
        None => None,
    }
}

/// The stored system attributes of the peer at `address` can be read: its
/// bond, if any, records a length within the attribute buffer.
pub open spec fn loadable(bonds: Seq<Bond>, address: Address) -> bool {
    first_index(bonds, bond_at_address(address)) matches Some(i) ==> bonds[i as int].system_attributes.length <= 64
}

/// The system attributes stored for the peer at `address`: the used part of
/// the buffer of its first bond, unless there is no bond or it is empty.
pub fn load_sys_attrs(bonds: &Vec<Bond>, address: &Address) -> (attributes: Option<Vec<u8>>)
    requires
        loadable(bonds@, *address),
    ensures
        match first_index(bonds@, bond_at_address(*address)) {
            Some(i) => {
                let stored = bonds@[i as int].system_attributes;
                if stored.length == 0 {
                    attributes is None
                } else {
                    attributes matches Some(bytes) && bytes@ == stored.data@.take(stored.length as int)
                }
            },
            None => attributes is None,
        },
{
    proof {
        lemma_first_index(bonds@, bond_at_address(*address), 0);
    }
    match bond_slot_of_peer(bonds, address) {
        Some(slot) => {
            let stored = bonds[slot].system_attributes;
            let count = bonds.len();
            assert(first_index(bonds@, bond_at_address(*address)) == Some(slot as nat));
            if stored.length == 0 {
                None
            } else {
                let used = vstd::slice::slice_subrange(stored.data.as_slice(), 0, stored.length);
                let bytes = vstd::slice::slice_to_vec(used);
                assert(bytes@ =~= stored.data@.take(stored.length as int));
                Some(bytes)
            }
        },
        None => None,
    }
}

/// A peer stored in a slot is found again by its central id, unless an
/// earlier slot holds a bond with the same central.
pub proof fn lemma_stored_key_is_found(bonds: Seq<Bond>, slot: nat, peer: Peer)
    requires
        slot < bonds.len(),
        forall|j: int| 0 <= j < slot ==> (#[trigger] bonds[j]).peer.master_id != peer.master_id,
    ensures
        ({
            let stored = bonds.update(slot as int, Bond { peer, ..bonds[slot as int] });
            first_index(stored, bond_of_master(peer.master_id)) == Some(slot)
                && stored[slot as int].peer.key == peer.key
        }),
{
    let stored = bonds.update(slot as int, Bond { peer, ..bonds[slot as int] });
    lemma_first_index_at(stored, bond_of_master(peer.master_id), 0, slot);
}

/// System attributes stored in the slot of a peer are loaded again for its
/// address, unless an earlier slot holds a bond with the same address.
pub proof fn lemma_stored_attributes_are_loaded(bonds: Seq<Bond>, slot: nat, system_attributes: SystemAttributes)
    requires
        slot < bonds.len(),
        forall|j: int| 0 <= j < slot ==> (#[trigger] bonds[j]).peer.peer_id.addr != bonds[slot as int].peer.peer_id.addr,
    ensures
        ({
            let stored = bonds.update(slot as int, Bond { system_attributes, ..bonds[slot as int] });
            let address = bonds[slot as int].peer.peer_id.addr;
            first_index(stored, bond_at_address(address)) == Some(slot)
                && stored[slot as int].system_attributes == system_attributes
        }),
{
    let stored = bonds.update(slot as int, Bond { system_attributes, ..bonds[slot as int] });
    lemma_first_index_at(stored, bond_at_address(bonds[slot as int].peer.peer_id.addr), 0, slot);
}

/// The first match is at `at` when the element there matches and none from
/// `start` before it does.
proof fn lemma_first_index_at<T>(items: Seq<T>, matches: spec_fn(T) -> bool, start: nat, at: nat)
    requires
        start <= at < items.len(),
        matches(items[at as int]),
        forall|j: int| start <= j < at ==> !matches(#[trigger] items[j]),
    ensures
        first_index_from(items, matches, start) == Some(at),
    decreases at - start,
{
    if start < at {
        lemma_first_index_at(items, matches, start + 1, at);
    }
}

} // verus!

use butterware::ble::types::{Address, EncryptionInfo, IdentityKey, IdentityResolutionKey, MasterId};
use butterware::flash::operation::{gatt_size, queue_inner, remove_bond, try_store_peer};
use butterware::flash::settings::FlashAction;
use butterware::flash::storage::{settings_from_flash, settings_to_flash, NoBoardFlash, BOND_SIZE};
use butterware::flash::{Bond, BondSlot, FlashOperation, FlashState, FlashTransaction, Peer, Settings, SystemAttributes};
use butterware::interface::MAXIMUM_BONDS;
use butterware::keyboards::butterboard::PersistentData;
use butterware::led::LightingOperation;
use butterware::power::{PowerOperation, PowerState};
use butterware::side::{Destination, Half, Side};

fn peer(tag: u8) -> Peer {
    Peer {
        master_id: MasterId { ediv: 0x1234, rand: [tag; 8] },
        key: EncryptionInfo { ltk: [tag.wrapping_add(1); 16], flags: 3 },
        peer_id: IdentityKey {
            irk: IdentityResolutionKey { irk: [tag.wrapping_add(2); 16] },
            addr: Address { flags: 1, bytes: [tag, 2, 3, 4, 5, 6] },
        },
    }
}

fn attributes(length: usize, fill: u8) -> SystemAttributes {
    let mut data = [0u8; 64];
    for byte in data.iter_mut().take(length) {
        *byte = fill;
    }
    SystemAttributes { length, data }
}

fn empty_settings<B>(board_flash: B) -> Settings<B> {
    Settings { bonds: (0..MAXIMUM_BONDS).map(|_| Bond::zeroed()).collect(), animation: 0, board_flash }
}

fn same_peer(a: &Peer, b: &Peer) -> bool {
    a.master_id.ediv == b.master_id.ediv
        && a.master_id.rand == b.master_id.rand
        && a.key.ltk == b.key.ltk
        && a.key.flags == b.key.flags
        && a.peer_id.irk.irk == b.peer_id.irk.irk
        && a.peer_id.addr.flags == b.peer_id.addr.flags
        && a.peer_id.addr.bytes == b.peer_id.addr.bytes
}

#[test]
fn storing_a_peer_needs_an_erase_and_a_write() {
    let mut state = FlashState::new(empty_settings(NoBoardFlash));
    let action = state.handle(FlashOperation::StorePeer { slot: BondSlot(2), peer: peer(9) });
    assert_eq!(action, FlashAction::Nothing);
    assert!(state.erase && state.write);
    assert!(same_peer(&state.settings.bonds[2].peer, &peer(9)));
    assert!(state.settings.bonds[1].peer.peer_id.addr.is_none());
    assert_eq!(state.handle(FlashOperation::Apply), FlashAction::Commit { erase: true });
    assert!(!state.erase && !state.write);
    assert_eq!(state.handle(FlashOperation::Apply), FlashAction::Nothing);
}

#[test]
fn removing_a_bond_only_writes() {
    let mut settings = empty_settings(NoBoardFlash);
    settings.bonds[4].peer = peer(7);
    let mut state = FlashState::new(settings);
    assert_eq!(state.handle(FlashOperation::RemoveBond(BondSlot(4))), FlashAction::Nothing);
    assert!(state.write && !state.erase);
    assert!(state.settings.bonds[4].peer.peer_id.addr.is_none());
    assert_eq!(state.handle(FlashOperation::Apply), FlashAction::Commit { erase: false });
}

#[test]
fn removing_an_empty_bond_changes_nothing() {
    let mut state = FlashState::new(empty_settings(NoBoardFlash));
    state.handle(FlashOperation::RemoveBond(BondSlot(0)));
    assert!(!state.write && !state.erase);
    assert_eq!(state.handle(FlashOperation::Apply), FlashAction::Nothing);
}

#[test]
fn switching_animation_sends_it_once() {
    let mut state = FlashState::new(empty_settings(NoBoardFlash));
    assert_eq!(state.handle(FlashOperation::SwitchAnimation(3)), FlashAction::SendAnimation(3));
    assert_eq!(state.settings.animation, 3);
    assert_eq!(state.handle(FlashOperation::Apply), FlashAction::Commit { erase: true });
    assert_eq!(state.handle(FlashOperation::SwitchAnimation(3)), FlashAction::Nothing);
    assert_eq!(state.handle(FlashOperation::Apply), FlashAction::Nothing);
}

#[test]
fn storing_system_attributes_and_board_data() {
    let data = PersistentData { keys_animation: 1, wings_animation: 2, status_animation: 3, lighting_state: PowerState::On };
    let mut state = FlashState::new(empty_settings(data));
    state.handle(FlashOperation::StoreSystemAttributes { slot: BondSlot(1), system_attributes: attributes(5, 0xaa) });
    assert_eq!(state.settings.bonds[1].system_attributes.length, 5);
    assert_eq!(state.settings.bonds[1].system_attributes.data[4], 0xaa);
    let other = PersistentData { keys_animation: 5, ..data };
    state.handle(FlashOperation::StoreBoardFlash(other));
    assert_eq!(state.settings.board_flash, other);
    assert_eq!(state.handle(FlashOperation::ResetPersistentData), FlashAction::Nothing);
    assert_eq!(state.handle(FlashOperation::Apply), FlashAction::Commit { erase: true });
}

#[test]
fn settings_are_read_back_as_written() {
    let data = PersistentData { keys_animation: 4, wings_animation: 0, status_animation: 5, lighting_state: PowerState::Off };
    let mut settings = empty_settings(data);
    settings.bonds[0].peer = peer(1);
    settings.bonds[9].peer = peer(200);
    settings.bonds[9].system_attributes = attributes(62, 0x5a);
    settings.animation = 77_000;
    let bytes = settings_to_flash(&settings);
    assert_eq!(bytes.len() % 4, 0);
    assert_eq!(bytes.len(), (MAXIMUM_BONDS * BOND_SIZE + 4 + 13 + 3) / 4 * 4);
    let read: Settings<PersistentData> = settings_from_flash(&bytes);
    assert_eq!(read.animation, 77_000);
    assert_eq!(read.board_flash, data);
    assert!(same_peer(&read.bonds[0].peer, &peer(1)));
    assert!(same_peer(&read.bonds[9].peer, &peer(200)));
    assert_eq!(read.bonds[9].system_attributes.length, 62);
    assert_eq!(read.bonds[9].system_attributes.data, settings.bonds[9].system_attributes.data);
    assert!(read.bonds[5].peer.peer_id.addr.is_none());
}

#[test]
fn settings_without_board_data_are_padded_to_words() {
    let settings = empty_settings(NoBoardFlash);
    let bytes = settings_to_flash(&settings);
    assert_eq!(bytes.len(), MAXIMUM_BONDS * BOND_SIZE + 4);
    assert!(bytes.iter().all(|&byte| byte == 0));
}

#[test]
fn transaction_ends_with_apply_on_both_halves() {
    let transaction = FlashTransaction::<NoBoardFlash>::new()
        .remove_bond(Side::Other, BondSlot(3))
        .switch_animation(Side::This, 2);
    let routed = transaction.routes(Half::Left);
    assert_eq!(routed.len(), 4);
    assert!(matches!(routed[0], (Destination::OtherHalf, FlashOperation::RemoveBond(BondSlot(3)))));
    assert!(matches!(routed[1], (Destination::ThisHalf, FlashOperation::SwitchAnimation(2))));
    assert!(matches!(routed[2], (Destination::ThisHalf, FlashOperation::Apply)));
    assert!(matches!(routed[3], (Destination::OtherHalf, FlashOperation::Apply)));
}

#[test]
fn empty_transaction_still_applies() {
    let routed = FlashTransaction::<NoBoardFlash>::new().routes(Half::Right);
    assert_eq!(routed.len(), 2);
    assert!(matches!(routed[0], (Destination::ThisHalf, FlashOperation::Apply)));
    assert!(matches!(routed[1], (Destination::OtherHalf, FlashOperation::Apply)));
}

#[test]
fn named_half_operations_are_routed_by_build() {
    let left: Vec<(Destination, FlashOperation<NoBoardFlash>)> = remove_bond(Side::Left, BondSlot(1), Half::Right);
    assert_eq!(left.len(), 1);
    assert!(matches!(left[0], (Destination::OtherHalf, FlashOperation::RemoveBond(BondSlot(1)))));
    let both: Vec<(Destination, FlashOperation<NoBoardFlash>)> = try_store_peer(Side::Both, BondSlot(0), peer(3), Half::Left);
    assert_eq!(both.len(), 2);
    let this: Vec<(Destination, FlashOperation<NoBoardFlash>)> = queue_inner(Side::This, FlashOperation::Apply, Half::Left);
    assert!(matches!(this[..], [(Destination::ThisHalf, FlashOperation::Apply)]));
}

#[test]
fn operations_cross_to_the_other_half_unchanged() {
    let size = gatt_size::<PersistentData>();
    assert_eq!(size, 73);
    let data = PersistentData { keys_animation: 2, wings_animation: 3, status_animation: 1, lighting_state: PowerState::On };
    let operations = [
        FlashOperation::StorePeer { slot: BondSlot(6), peer: peer(42) },
        FlashOperation::StoreSystemAttributes { slot: BondSlot(2), system_attributes: attributes(8, 1) },
        FlashOperation::RemoveBond(BondSlot(9)),
        FlashOperation::SwitchAnimation(5),
        FlashOperation::StoreBoardFlash(data),
        FlashOperation::ResetPersistentData,
        FlashOperation::Apply,
    ];
    for (tag, operation) in operations.iter().enumerate() {
        let bytes = operation.to_gatt();
        assert_eq!(bytes.len(), size);
        assert_eq!(bytes[0] as usize, tag);
        let received = FlashOperation::<PersistentData>::from_gatt(&bytes).unwrap();
        assert_eq!(received.to_gatt(), bytes);
    }
    let received = FlashOperation::<PersistentData>::from_gatt(&FlashOperation::StoreBoardFlash(data).to_gatt()).unwrap();
    assert!(matches!(received, FlashOperation::StoreBoardFlash(d) if d == data));
}

#[test]
fn unknown_operation_tag_is_refused() {
    let mut bytes = FlashOperation::<NoBoardFlash>::Apply.to_gatt();
    bytes[0] = 7;
    assert!(FlashOperation::<NoBoardFlash>::from_gatt(&bytes).is_none());
}

#[test]
fn power_and_lighting_requests_cross_unchanged() {
    let on = PowerOperation::SetPower { state: PowerState::On };
    assert_eq!(on.to_gatt(), [1]);
    assert_eq!(PowerOperation::from_gatt(&[1]), Some(on));
    assert_eq!(PowerOperation::from_gatt(&[0]), Some(PowerOperation::SetPower { state: PowerState::Off }));
    assert_eq!(PowerOperation::from_gatt(&[2]), None);
    let lighting = LightingOperation::SetAnimation { index: 2, animation: 0x0102_0304 };
    let bytes = lighting.to_gatt();
    assert_eq!(bytes, vec![2, 0, 0, 0, 4, 3, 2, 1]);
    assert_eq!(LightingOperation::from_gatt(&bytes), lighting);
}

#[test]
fn each_half_gets_its_operations_in_order_then_apply() {
    let transaction = FlashTransaction::<NoBoardFlash>::new()
        .remove_bond(Side::Both, BondSlot(1))
        .switch_animation(Side::Other, 4)
        .remove_bond(Side::This, BondSlot(2));
    let routed = transaction.routes(Half::Left);
    let this: Vec<_> = routed.iter().filter(|(d, _)| *d == Destination::ThisHalf).map(|(_, o)| *o).collect();
    let other: Vec<_> = routed.iter().filter(|(d, _)| *d == Destination::OtherHalf).map(|(_, o)| *o).collect();
    assert!(matches!(this[..], [FlashOperation::RemoveBond(BondSlot(1)), FlashOperation::RemoveBond(BondSlot(2)), FlashOperation::Apply]));
    assert!(matches!(other[..], [FlashOperation::RemoveBond(BondSlot(1)), FlashOperation::SwitchAnimation(4), FlashOperation::Apply]));
}

use butterware::ble::services::SecurityMode;
use butterware::ble::bonder::{bond_slot_of_peer, get_key, load_sys_attrs, on_bonded, save_sys_attrs};
use butterware::ble::server::{
    CommunicationServer, CommunicationServerEvent, MasterService, MasterServiceClient, MasterServiceEvent, ServerStep,
};
use butterware::ble::services::{
    notification_change, report_map, BatteryService, BootInputReportKeyboard, BootReportCharacteristic, CharacteristicHandles,
    ControlPointCharacteristic, DeviceInformationService, HidInformationCharacteristic, HidService, InputReport, OutpetReport,
    FeatureReport, BootOutputReportKeyboard, ReportCharacteristic, ReportMapCharacteristic,
};
use butterware::ble::types::{Address, EncryptionInfo, IdentityKey, IdentityResolutionKey, MasterId};
use butterware::flash::storage::NoBoardFlash;
use butterware::flash::{Bond, BondSlot, FlashOperation, SystemAttributes};
use butterware::keyboards::butterboard::Events;
use butterware::led::LightingOperation;

fn address(tag: u8) -> Address {
    Address { flags: 1, bytes: [tag, 1, 1, 1, 1, 1] }
}

fn bond_with(tag: u8, length: usize) -> Bond {
    let mut bond = Bond::zeroed();
    bond.peer.master_id = MasterId { ediv: tag as u16, rand: [tag; 8] };
    bond.peer.key = EncryptionInfo { ltk: [tag; 16], flags: tag };
    bond.peer.peer_id = IdentityKey { irk: IdentityResolutionKey { irk: [tag; 16] }, addr: address(tag) };
    bond.system_attributes.length = length;
    for i in 0..length {
        bond.system_attributes.data[i] = tag.wrapping_add(i as u8);
    }
    bond
}

#[test]
fn new_peer_goes_to_the_first_slot_with_a_peer() {
    let bonds = vec![Bond::zeroed(), bond_with(5, 0), bond_with(6, 0)];
    let master_id = MasterId { ediv: 9, rand: [9; 8] };
    let key = EncryptionInfo { ltk: [9; 16], flags: 1 };
    let peer_id = IdentityKey { irk: IdentityResolutionKey { irk: [9; 16] }, addr: address(9) };
    let operation: Option<FlashOperation<NoBoardFlash>> = on_bonded(&bonds, master_id, key, peer_id);
    assert!(matches!(operation, Some(FlashOperation::StorePeer { slot: BondSlot(1), .. })));
    let empty: Option<FlashOperation<NoBoardFlash>> = on_bonded(&vec![Bond::zeroed(); 3], master_id, key, peer_id);
    assert!(empty.is_none());
}

#[test]
fn keys_are_found_by_central() {
    let bonds = vec![bond_with(1, 0), bond_with(2, 0), bond_with(2, 4)];
    let key = get_key(&bonds, &MasterId { ediv: 2, rand: [2; 8] }).unwrap();
    assert_eq!(key.ltk, [2; 16]);
    assert!(get_key(&bonds, &MasterId { ediv: 3, rand: [3; 8] }).is_none());
    assert!(get_key(&bonds, &MasterId { ediv: 2, rand: [1; 8] }).is_none());
}

#[test]
fn system_attributes_are_loaded_by_address() {
    let bonds = vec![bond_with(1, 0), bond_with(2, 3)];
    assert_eq!(load_sys_attrs(&bonds, &address(2)), Some(vec![2, 3, 4]));
    assert_eq!(load_sys_attrs(&bonds, &address(1)), None);
    assert_eq!(load_sys_attrs(&bonds, &address(7)), None);
    assert_eq!(bond_slot_of_peer(&bonds, &address(2)), Some(1));
}

#[test]
fn system_attributes_are_saved_in_the_slot_of_the_peer() {
    let bonds = vec![bond_with(1, 0), bond_with(2, 3)];
    let attributes = SystemAttributes { length: 2, data: [7; 64] };
    let operation: Option<FlashOperation<NoBoardFlash>> = save_sys_attrs(&bonds, &address(2), attributes);
    assert!(matches!(operation, Some(FlashOperation::StoreSystemAttributes { slot: BondSlot(1), system_attributes })
        if system_attributes.length == 2));
    let unknown: Option<FlashOperation<NoBoardFlash>> = save_sys_attrs(&bonds, &address(3), attributes);
    assert!(unknown.is_none());
}

#[test]
fn report_map_describes_the_keyboard_reports() {
    let map = report_map();
    assert_eq!(map.len(), 76);
    assert_eq!(&map[..6], &[0x05, 0x01, 0x09, 0x06, 0xA1, 0x01]);
    assert_eq!(map[75], 0xC0);
    let characteristic = ReportMapCharacteristic::definition();
    assert_eq!(characteristic.uuid, 0x2A4B);
    assert_eq!(characteristic.value, map);
    assert_eq!(characteristic.variable_length, Some(76));
    assert!(characteristic.properties.read && !characteristic.properties.write);
}

#[test]
fn hid_information_and_control_point() {
    let information = HidInformationCharacteristic::definition();
    assert_eq!(information.uuid, 0x2A4A);
    assert_eq!(information.value, vec![0x01, 0x01, 0x00, 0x03]);
    let control = ControlPointCharacteristic::definition();
    assert_eq!(control.uuid, 0x2A4C);
    assert_eq!(control.value, vec![0]);
    assert!(control.properties.write_without_response && !control.properties.read);
}

#[test]
fn report_characteristics_carry_their_reference() {
    let input = ReportCharacteristic::<InputReport>::definition();
    assert_eq!(input.uuid, 0x2A4D);
    assert!(input.value.is_empty());
    assert_eq!(input.variable_length, Some(8));
    assert!(input.deferred_read && input.properties.notify);
    assert_eq!(input.descriptors.len(), 1);
    assert_eq!(input.descriptors[0].uuid, 0x2908);
    assert_eq!(input.descriptors[0].value, vec![0, 1]);
    assert_eq!(ReportCharacteristic::<OutpetReport>::definition().descriptors[0].value, vec![0, 2]);
    assert_eq!(ReportCharacteristic::<FeatureReport>::definition().descriptors[0].value, vec![0, 3]);
    let boot = BootReportCharacteristic::<BootInputReportKeyboard>::definition();
    assert_eq!(boot.uuid, 0x2A22);
    assert_eq!(boot.value, vec![0; 8]);
}

#[test]
fn hid_service_lists_its_characteristics_in_order() {
    let service = HidService::definition();
    assert_eq!(service.uuid, 0x1812);
    let uuids: Vec<u16> = service.characteristics.iter().map(|c| c.uuid).collect();
    assert_eq!(uuids, vec![0x2A4E, 0x2A4D, 0x2A4D, 0x2A4D, 0x2A4B, 0x2A22, 0x2A32, 0x2A4A, 0x2A4C]);
    assert_eq!(service.characteristics[0].value, vec![1]);
    let battery = BatteryService::definition();
    assert_eq!(battery.uuid, 0x180F);
    assert_eq!(battery.characteristics[0].uuid, 0x2A19);
    assert!(DeviceInformationService::definition().characteristics.is_empty());
}

#[test]
fn notifications_are_switched_by_the_first_bit() {
    assert_eq!(notification_change(12, 12, &[1, 0]), Some(true));
    assert_eq!(notification_change(12, 12, &[2]), Some(false));
    assert_eq!(notification_change(12, 13, &[1]), None);
    assert_eq!(notification_change(12, 12, &[]), None);
    let handles = |value, cccd| CharacteristicHandles { value_handle: value, cccd_handle: cccd };
    let service = HidService {
        input_report: ReportCharacteristic::new(handles(1, 2), 3),
        output_report: ReportCharacteristic::new(handles(4, 5), 6),
        feature_report: ReportCharacteristic::new(handles(7, 8), 9),
        report_map: ReportMapCharacteristic {},
        boot_input_report: BootReportCharacteristic::new(handles(10, 11)),
        boot_output_report: BootReportCharacteristic::<BootOutputReportKeyboard>::new(handles(12, 13)),
        hid_information: HidInformationCharacteristic {},
        control_point: ControlPointCharacteristic {},
    };
    assert_eq!(service.on_write(11, &[1]), [None, None, None, Some(true), None]);
    assert_eq!(service.on_write(2, &[0]), [Some(false), None, None, None, None]);
    let battery = butterware::ble::services::BatteryService { value_handle: 20, cccd_handle: 21 };
    assert_eq!(battery.on_write(21, &[3]), Some(true));
}

#[test]
fn exactly_one_half_becomes_master() {
    for (advertiser, connector) in [(5u32, 3u32), (3, 5), (4, 4), (0, u32::MAX)] {
        let mut service = MasterService::new();
        let advertiser_is_master = service.on_event(advertiser, MasterServiceEvent::OtherRandomNumberWrite(connector));
        assert_eq!(service.other_random_number, connector);
        assert_eq!(service.is_master, advertiser_is_master);
        let client = MasterServiceClient { other_random_number: connector, is_master: service.is_master };
        assert_ne!(advertiser_is_master, client.this_half_is_master());
    }
}

#[test]
fn master_takes_key_states_and_forwards_operations() {
    let mut server = CommunicationServer::<NoBoardFlash, Events>::new();
    assert!(matches!(server.on_event(CommunicationServerEvent::KeyStateWrite(0b101)), ServerStep::KeyState(0b101)));
    assert_eq!(server.key_state_service.key_state, 0b101);
    assert!(matches!(
        server.on_event(CommunicationServerEvent::FlashOperationWrite(FlashOperation::RemoveBond(BondSlot(2)))),
        ServerStep::Flash(FlashOperation::RemoveBond(BondSlot(2)))
    ));
    let lighting = LightingOperation::SetAnimation { index: 1, animation: 2 };
    assert!(matches!(server.on_event(CommunicationServerEvent::LightingOperationWrite(lighting)), ServerStep::Lighting(l) if l == lighting));
    assert!(matches!(server.on_event(CommunicationServerEvent::EventWrite(Events::SyncAnimations)), ServerStep::Continue));
    assert_eq!(server.event_service.event, Some(Events::SyncAnimations));
    assert_eq!(server.key_state_service.key_state, 0b101);
}

#[test]
fn every_attribute_requires_pairing() {
    let service = HidService::definition();
    assert!(service.characteristics.iter().all(|c| c.security == SecurityMode::JustWorks));
    assert!(service.characteristics[1].descriptors.iter().all(|d| d.security == SecurityMode::JustWorks));
    assert_eq!(BatteryService::definition().characteristics[0].security, SecurityMode::JustWorks);
}

use butterware::ble::advertising::{AdvertisingData, KEYBOARD_ICON};
use butterware::keyboards::meboard::Meboard;
use butterware::keys::codes::{ERR_OVF, F, P, Q, W};
use butterware::led::{encode_led_values, write_value_to_slice};
use butterware::split::master::{combine_halves, input_report, report_sequence, HalfUpdate};
use butterware::hardware::state::MasterState;
use butterware::side::Half;

#[test]
fn report_lists_pressed_keys_in_key_order() {
    let layout = Meboard::layout();
    assert_eq!(input_report(&layout, 0, 0), [0; 8]);
    assert_eq!(input_report(&layout, 0, 0b1011), [0, 0, Q, W, P, 0, 0, 0]);
    assert_eq!(input_report(&layout, 0, 0b0100), [0, 0, F, 0, 0, 0, 0, 0]);
}

#[test]
fn report_with_six_keys_is_full() {
    let layout = Meboard::layout();
    let report = input_report(&layout, 1, 0b11_1111);
    assert_eq!(report[0], 0);
    assert_eq!(report[1], 0);
    assert!(report[2..].iter().all(|&k| k != ERR_OVF && k != 0));
}

#[test]
fn report_with_seven_keys_overflows() {
    let layout = Meboard::layout();
    assert_eq!(input_report(&layout, 0, 0b111_1111), [0, 0, ERR_OVF, ERR_OVF, ERR_OVF, ERR_OVF, ERR_OVF, ERR_OVF]);
}

#[test]
fn taps_are_sent_as_press_then_release() {
    assert_eq!(report_sequence(0b10, 0), vec![0b10]);
    assert_eq!(report_sequence(0b10, 0b1000), vec![0b1010, 0b10]);
}

#[test]
fn halves_combine_left_above_right() {
    assert_eq!(combine_halves(Half::Left, 0b01, 0b10, 20), (0b01 << 20) | 0b10);
    assert_eq!(combine_halves(Half::Right, 0b01, 0b10, 20), (0b10 << 20) | 0b01);
}

#[test]
fn master_remembers_the_other_half() {
    let mut state = MasterState::new(5, 4);
    assert_eq!(state.combined_key_state(Half::Left, HalfUpdate::Received(0b100), 20), 0b100);
    assert_eq!(state.slave_raw_state, 0b100);
    assert_eq!(state.combined_key_state(Half::Left, HalfUpdate::Scanned(0b1), 20), (1 << 20) | 0b100);
    assert_eq!(state.combined_key_state(Half::Right, HalfUpdate::Scanned(0b1), 20), (0b100 << 20) | 1);
}

#[test]
fn advertising_payload_concatenates_elements() {
    let data = AdvertisingData::new()
        .add_flags(6)
        .add_services(&[0x09, 0x18])
        .add_name(b"Meboard")
        .add_appearance(KEYBOARD_ICON);
    let mut expected = vec![2, 0x1, 6, 3, 0x3, 0x09, 0x18, 8, 0x9];
    expected.extend_from_slice(b"Meboard");
    expected.extend_from_slice(&[3, 0x19, 0xC1, 0x03]);
    assert_eq!(data.get_slice(), &expected[..]);
    assert_eq!(AdvertisingData::new().get_slice().len(), 0);
}

#[test]
fn led_value_waveform_bytes() {
    let mut buffer = [0xAAu8; 10];
    write_value_to_slice(&mut buffer, 0x00);
    assert_eq!(buffer, [0xE0, 0x70, 0x38, 0x1C, 0x0E, 0x07, 0x03, 0x81, 0xC0, 0xAA]);
    write_value_to_slice(&mut buffer, 0xFF);
    assert_eq!(buffer, [0xFC, 0x7E, 0x3F, 0x1F, 0x8F, 0xC7, 0xE3, 0xF1, 0xF8, 0xAA]);
}

#[test]
fn led_value_waveform_follows_the_bits() {
    // Each data bit, most significant first, becomes 111 b b b 000.
    let value: u8 = 0b1010_0110;
    let mut buffer = [0u8; 9];
    write_value_to_slice(&mut buffer, value);
    for j in 0..72 {
        let stream = (buffer[j / 8] >> (7 - j % 8)) & 1 == 1;
        let phase = j % 9;
        let data = (value >> (7 - j / 9)) & 1 == 1;
        assert_eq!(stream, phase < 3 || (phase < 6 && data), "stream bit {}", j);
    }
}

#[test]
fn led_strip_bytes_are_nine_per_value() {
    let buffer = encode_led_values(&vec![0x00, 0xFF]);
    assert_eq!(buffer.len(), 18);
    assert_eq!(&buffer[..9], &[0xE0, 0x70, 0x38, 0x1C, 0x0E, 0x07, 0x03, 0x81, 0xC0]);
    assert_eq!(&buffer[9..], &[0xFC, 0x7E, 0x3F, 0x1F, 0x8F, 0xC7, 0xE3, 0xF1, 0xF8]);
}

#[test]
fn report_without_pressed_keys_needs_no_layer() {
    let layout = Meboard::layout();
    assert_eq!(input_report(&layout, 7, 0), [0; 8]);
    assert_eq!(input_report(&layout, 7, 1 << 40), [0; 8]);
}

#[test]
fn meboard_keys_sit_where_the_tables_put_them() {
    let layout = Meboard::layout();
    assert_eq!(layout.matrix, vec![4, 9, 14, 19, 3, 8, 13, 18, 2, 7, 12, 17, 1, 6, 11, 16, 0, 5, 10, 15]);
    assert_eq!(layout.layers[0][0], butterware::keys::Mapping::Key(Q));
    assert_eq!(layout.layers[0][1], butterware::keys::Mapping::Key(W));
    assert_eq!(layout.layers[2][10], butterware::keys::Mapping::TapLayer(1, butterware::keys::codes::Z));
}

#[test]
fn appended_element_keeps_what_came_before() {
    let data = AdvertisingData::new().add_flags(0x06);
    let before = data.get_slice().to_vec();
    let data = data.add_internal(0xff, &[0xaa, 0xbb, 0xcc]);
    let mut expected = before.clone();
    expected.extend_from_slice(&[4, 0xff, 0xaa, 0xbb, 0xcc]);
    assert_eq!(data.get_slice(), &expected[..]);
    let full = AdvertisingData::new().add_internal(0x09, &[b'x'; 29]);
    assert_eq!(full.get_slice().len(), 31);
}

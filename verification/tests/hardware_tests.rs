use butterware::hardware::state::master::LayerLimitReached;
use butterware::keys::{Layout, Mapping};
use butterware::hardware::state::slave::SlaveState;
use butterware::hardware::state::{do_scan_step, scan_matrix, MasterState};
use butterware::hardware::{DebouncedKey, TestBit};
use butterware::keyboards::meboard::{Meboard, COLUMNS, ROWS};

#[test]
fn bits_are_set_tested_and_cleared() {
    let mut state: u64 = 0;
    state.set_bit(3);
    state.set_bit(63);
    assert_eq!(state, (1u64 << 3) | (1u64 << 63));
    assert!(state.test_bit(3));
    assert!(state.test_bit(63));
    assert!(!state.test_bit(4));
    state.clear_bit(3);
    assert_eq!(state, 1u64 << 63);
    assert!(!state.test_bit(3));
}

#[test]
fn debounced_key_waits_for_a_stable_reading() {
    let mut key = DebouncedKey::new();
    assert!(!key.is_down());
    key.update_at(true, 1000);
    assert!(!key.is_down());
    key.update_at(true, 1050);
    assert!(!key.is_down());
    key.update_at(true, 1100);
    assert!(key.is_down());
}

#[test]
fn debounced_key_ignores_a_bounce() {
    let mut key = DebouncedKey::new();
    key.update_at(true, 0);
    key.update_at(true, 200);
    assert!(key.is_down());
    // A short release is filtered out.
    key.update_at(false, 250);
    assert!(key.is_down());
    key.update_at(true, 260);
    assert!(key.is_down());
    // A lasting release goes through.
    key.update_at(false, 300);
    key.update_at(false, 399);
    assert!(key.is_down());
    key.update_at(false, 400);
    assert!(!key.is_down());
}

#[test]
fn debounced_key_handles_a_wrapping_counter() {
    let mut key = DebouncedKey::new();
    key.update_at(true, u64::MAX - 10);
    key.update_at(true, 89);
    assert!(key.is_down());
}

#[test]
fn debounced_key_reads_the_clock() {
    let mut key = DebouncedKey::new();
    key.update(false);
    assert!(!key.is_down());
}

#[test]
fn scan_reports_debounced_keys_by_index() {
    let mut keys = vec![DebouncedKey::new(); 4];
    let readings = vec![true, false, true, false];
    assert_eq!(scan_matrix(&mut keys, &readings, 0), 0);
    assert_eq!(scan_matrix(&mut keys, &readings, 100), 0b0101);
    let readings = vec![false, false, true, true];
    assert_eq!(scan_matrix(&mut keys, &readings, 150), 0b0101);
    assert_eq!(scan_matrix(&mut keys, &readings, 250), 0b1100);
}

#[test]
fn scan_step_reports_only_changes() {
    let mut state = SlaveState::new(2, 2);
    let readings = vec![true, false, false, false];
    assert_eq!(do_scan_step(&mut state, &readings, 0), None);
    assert_eq!(do_scan_step(&mut state, &readings, 100), Some(1));
    assert_eq!(do_scan_step(&mut state, &readings, 200), None);
    assert_eq!(state.previous_key_state, 1);
}

#[test]
fn master_scan_step_updates_its_raw_state() {
    let mut state = MasterState::new(COLUMNS, ROWS);
    let mut readings = vec![false; COLUMNS * ROWS];
    readings[19] = true;
    assert_eq!(do_scan_step(&mut state, &readings, 10), None);
    assert_eq!(do_scan_step(&mut state, &readings, 110), Some(1 << 19));
    assert_eq!(state.master_raw_state, 1 << 19);
}

#[test]
fn regular_key_is_reported_on_press_and_release() {
    let layout = Meboard::layout();
    let mut state = MasterState::new(COLUMNS, ROWS);
    assert_eq!(state.apply_at(&layout, 1 << 0, 0), Some((0, 1, 0)));
    assert_eq!(state.apply_at(&layout, 1 << 0, 10), None);
    assert_eq!(state.apply_at(&layout, 0, 20), Some((0, 0, 0)));
    assert_eq!(state.apply_at(&layout, 0, 30), None);
}

#[test]
fn quick_release_of_tap_layer_key_injects_its_tap() {
    let layout = Meboard::layout();
    let mut state = MasterState::new(COLUMNS, ROWS);
    // Key 3 is the space/special tap-layer key.
    assert_eq!(state.apply_at(&layout, 1 << 3, 1000), None);
    assert_eq!(state.current_layer_index(), 1);
    assert_eq!(state.apply_at(&layout, 0, 2000), Some((0, 0, 1 << 3)));
    assert_eq!(state.current_layer_index(), 0);
}

#[test]
fn slow_release_of_tap_layer_key_injects_nothing() {
    let layout = Meboard::layout();
    let mut state = MasterState::new(COLUMNS, ROWS);
    assert_eq!(state.apply_at(&layout, 1 << 3, 1000), None);
    assert_eq!(state.apply_at(&layout, 0, 6000), None);
    assert_eq!(state.current_layer_index(), 0);
}

#[test]
fn key_held_with_layer_key_uses_the_layer_and_cancels_the_tap() {
    let layout = Meboard::layout();
    let mut state = MasterState::new(COLUMNS, ROWS);
    assert_eq!(state.apply_at(&layout, 1 << 3, 1000), None);
    assert_eq!(state.apply_at(&layout, (1 << 3) | 1, 1100), Some((1, 1, 0)));
    // Releasing the layer key quickly sends no tap; the held key is locked.
    assert_eq!(state.apply_at(&layout, 1, 1200), Some((0, 0, 0)));
    assert_eq!(state.apply_at(&layout, 1, 1300), None);
    // Once released and pressed again it counts.
    assert_eq!(state.apply_at(&layout, 0, 1400), None);
    assert_eq!(state.apply_at(&layout, 1, 1500), Some((0, 1, 0)));
}

#[test]
fn nested_layers_stack() {
    let layout = Meboard::layout();
    let mut state = MasterState::new(COLUMNS, ROWS);
    // Key 2 enters the test layer; there key 18 enters the special layer.
    assert_eq!(state.apply_at(&layout, 1 << 2, 0), None);
    assert_eq!(state.current_layer_index(), 2);
    assert_eq!(state.apply_at(&layout, (1 << 2) | (1 << 18), 10), None);
    assert_eq!(state.current_layer_index(), 1);
    // A quick release of the inner layer key sends its tap.
    assert_eq!(state.apply_at(&layout, 1 << 2, 20), Some((2, 0, 1 << 18)));
    assert_eq!(state.current_layer_index(), 2);
    // The outer layer key lost its tap when the inner one was pressed.
    assert_eq!(state.apply_at(&layout, 0, 30), None);
    assert_eq!(state.current_layer_index(), 0);
}

#[test]
fn apply_reads_the_clock() {
    let layout = Meboard::layout();
    let mut state = MasterState::new(COLUMNS, ROWS);
    assert_eq!(state.apply(&layout, 1 << 1), Some((0, 2, 0)));
}

#[test]
fn seventh_held_layer_key_reaches_the_layer_limit() {
    let layout = Layout { layers: vec![vec![Mapping::Layer(1); 7], vec![Mapping::Layer(1); 7]], matrix: (0..7).collect() };
    let mut state = MasterState::new(7, 1);
    let mut pressed = 0u64;
    for key in 0..6 {
        pressed |= 1 << key;
        assert_eq!(state.try_apply_at(&layout, pressed, 0), Ok(None));
    }
    assert_eq!(state.current_layer_index(), 1);
    pressed |= 1 << 6;
    assert_eq!(state.try_apply_at(&layout, pressed, 0), Err(LayerLimitReached));
}

#[test]
fn layer_mask_clears_exactly_the_held_layer_keys() {
    let layout = Meboard::layout();
    let mut state = MasterState::new(COLUMNS, ROWS);
    assert_eq!(state.state_mask, u64::MAX);
    state.apply_at(&layout, 1 << 2, 0);
    assert_eq!(state.state_mask, !(1u64 << 2));
    state.apply_at(&layout, (1 << 2) | (1 << 18), 10);
    assert_eq!(state.state_mask, !((1u64 << 2) | (1u64 << 18)));
    state.apply_at(&layout, 1 << 2, 20);
    assert_eq!(state.state_mask, !(1u64 << 2));
    state.apply_at(&layout, 0, 30);
    assert_eq!(state.state_mask, u64::MAX);
}

#[test]
fn same_key_state_is_not_reported_twice() {
    let layout = Meboard::layout();
    let mut state = MasterState::new(COLUMNS, ROWS);
    for key_state in [1u64, 1 << 1, (1 << 1) | (1 << 4), 0] {
        assert!(state.apply_at(&layout, key_state, 0).is_some());
        assert_eq!(state.apply_at(&layout, key_state, 0), None);
    }
}

#[test]
fn debounced_output_follows_the_last_lasting_reading() {
    let mut key = DebouncedKey::new();
    let readings = [(true, 0u64), (false, 40), (true, 60), (true, 150), (true, 159), (true, 160)];
    let expected = [false, false, false, false, false, true];
    for (&(reading, tick), &down) in readings.iter().zip(expected.iter()) {
        key.update_at(reading, tick);
        assert_eq!(key.is_down(), down);
    }
}

use butterware::battery::BatteryLevel;
use butterware::flash::storage::NoBoardFlash;
use butterware::flash::{BondSlot, FlashOperation};
use butterware::hardware::state::MasterState;
use butterware::keyboards::meboard::Meboard;
use butterware::keys::codes::{Q, W};
use butterware::side::Half;
use butterware::split::common::{after_write, ClientStep, WriteOutcome, BUSY_RETRY_MILLIS};
use butterware::split::master::{input_report, master_step, HalfUpdate, MasterAction, MasterEvent, MasterPhase};
use butterware::split::slave::{slave_step, SlaveAction, SlaveEvent};

#[test]
fn advertising_master_drops_scan_output() {
    let (phase, action) = master_step(MasterPhase::Advertising, MasterEvent::Report(0, 1, 0));
    assert_eq!(phase, MasterPhase::Advertising);
    assert!(matches!(action, MasterAction::Nothing));
    let (phase, action) = master_step(MasterPhase::Advertising, MasterEvent::HostConnected);
    assert_eq!(phase, MasterPhase::ConnectedToHost);
    assert!(matches!(action, MasterAction::Nothing));
}

#[test]
fn connected_master_sends_reports_and_battery_levels() {
    let (phase, action) = master_step(MasterPhase::ConnectedToHost, MasterEvent::Report(2, 0b1, 0b100));
    assert_eq!(phase, MasterPhase::ConnectedToHost);
    match action {
        MasterAction::SendReports { active_layer, key_states } => {
            assert_eq!(active_layer, 2);
            assert_eq!(key_states, vec![0b101, 0b1]);
        },
        _ => panic!("expected reports"),
    }
    let (_, action) = master_step(MasterPhase::ConnectedToHost, MasterEvent::BatteryLevel(BatteryLevel(87)));
    assert!(matches!(action, MasterAction::NotifyBatteryLevel(87)));
    let (phase, action) = master_step(MasterPhase::ConnectedToHost, MasterEvent::BatteryNotificationFailed { disconnected: false });
    assert_eq!(phase, MasterPhase::ConnectedToHost);
    assert!(matches!(action, MasterAction::Nothing));
}

#[test]
fn lost_host_or_half_changes_the_phase() {
    let (phase, action) = master_step(MasterPhase::ConnectedToHost, MasterEvent::HostLost);
    assert_eq!(phase, MasterPhase::Advertising);
    assert!(matches!(action, MasterAction::Advertise));
    let (phase, action) = master_step(MasterPhase::Advertising, MasterEvent::HalfLost);
    assert_eq!(phase, MasterPhase::Stopped);
    assert!(matches!(action, MasterAction::Stop));
    let (phase, action) = master_step(MasterPhase::ConnectedToHost, MasterEvent::BatteryNotificationFailed { disconnected: true });
    assert_eq!(phase, MasterPhase::Stopped);
    assert!(matches!(action, MasterAction::Stop));
    let (phase, action) = master_step(MasterPhase::Stopped, MasterEvent::HostConnected);
    assert_eq!(phase, MasterPhase::Stopped);
    assert!(matches!(action, MasterAction::Nothing));
}

#[test]
fn slave_forwards_key_states_and_operations() {
    assert!(matches!(slave_step::<NoBoardFlash>(SlaveEvent::Scanned(0b11)), SlaveAction::WriteKeyState(0b11)));
    assert!(matches!(
        slave_step(SlaveEvent::<NoBoardFlash>::FlashOperationWrite(FlashOperation::RemoveBond(BondSlot(1)))),
        SlaveAction::Flash(FlashOperation::RemoveBond(BondSlot(1)))
    ));
    assert!(matches!(slave_step::<NoBoardFlash>(SlaveEvent::WriteFailed), SlaveAction::Stop));
    assert!(matches!(slave_step::<NoBoardFlash>(SlaveEvent::MasterLost), SlaveAction::Stop));
}

#[test]
fn busy_radio_means_retry() {
    assert_eq!(after_write(WriteOutcome::Written), ClientStep::Next);
    assert_eq!(after_write(WriteOutcome::Busy), ClientStep::RetryAfter(BUSY_RETRY_MILLIS));
    assert_eq!(BUSY_RETRY_MILLIS, 1);
}

#[test]
fn master_scan_step_combines_and_applies() {
    let layout = Meboard::layout();
    let mut state = MasterState::new(5, 4);
    // The other half presses its first key: on the left half it lands at bit 0.
    let report = state.master_scan_step(&layout, Half::Left, HalfUpdate::Received(0b1), 20, 10);
    assert_eq!(report, Ok(Some((0, 0b1, 0))));
    assert_eq!(state.slave_raw_state, 0b1);
    assert_eq!(input_report(&layout, 0, 0b1), [0, 0, Q, 0, 0, 0, 0, 0]);
    // Nothing changed: no report.
    assert_eq!(state.master_scan_step(&layout, Half::Left, HalfUpdate::Received(0b1), 20, 20), Ok(None));
    let report = state.master_scan_step(&layout, Half::Left, HalfUpdate::Received(0b11), 20, 30);
    assert_eq!(report, Ok(Some((0, 0b11, 0))));
    assert_eq!(input_report(&layout, 0, 0b11), [0, 0, Q, W, 0, 0, 0, 0]);
}

#[test]
fn advertising_master_keeps_battery_levels_for_the_host() {
    let (phase, action) = master_step(MasterPhase::Advertising, MasterEvent::BatteryLevel(BatteryLevel(64)));
    assert_eq!(phase, MasterPhase::Advertising);
    assert!(matches!(action, MasterAction::DeferBatteryLevel(64)));
}

use vstd::prelude::*;

use crate::battery::BatteryLevel;
use crate::hardware::bits::bit_set;
use crate::hardware::state::master::{apply_overflows, apply_step, LayerLimitReached};
use crate::hardware::state::MasterState;
use crate::hardware::TestBit;
use crate::side::Half;
use crate::keys::codes::ERR_OVF;
use crate::keys::{Layout, Mapping};

verus! {

/// Position of the first key slot in a keyboard input report.
pub const SCAN_CODE_POSITION: usize = 2;

/// Size of a keyboard input report: modifiers, a reserved byte and six key
/// slots.
pub const REPORT_SIZE: usize = 8;

/// The keys pressed in `key_state` among the first `count`, in key order.
pub open spec fn pressed_keys(key_state: u64, count: nat) -> Seq<usize>
    decreases count,
{
    if count == 0 {
        Seq::empty()
    } else {
        let earlier = pressed_keys(key_state, (count - 1) as nat);
        if bit_set(key_state, (count - 1) as u64) {
            earlier.push((count - 1) as usize)
        } else {
            earlier
        }
    }
}

/// The report for the keys pressed in `key_state` on table `table`: their
/// keycodes in key order, or `ERR_OVF` in every slot when more keys are
/// pressed than there are slots.
pub open spec fn report_for(table: Seq<Mapping>, key_state: u64, count: nat) -> Seq<u8> {
    let pressed = pressed_keys(key_state, count);
    let slots = (REPORT_SIZE - SCAN_CODE_POSITION) as nat;
    if pressed.len() > slots {
        seq![0u8, 0u8] + Seq::new(slots, |i: int| ERR_OVF)
    } else {
        seq![0u8, 0u8] + Seq::new(pressed.len(), |i: int| table[pressed[i] as int].spec_keycode())
            + Seq::new((slots - pressed.len()) as nat, |i: int| 0u8)
    }
}

/// Whether every key that gets a slot in the report can be sent as a
/// regular key.
pub open spec fn reportable(table: Seq<Mapping>, key_state: u64, count: nat) -> bool {
    let pressed = pressed_keys(key_state, count);
    forall|i: int|
        0 <= i < pressed.len() && i < (REPORT_SIZE - SCAN_CODE_POSITION) ==> (#[trigger] table[pressed[i] as int]).has_keycode()
}

/// Pressed keys are listed in key order, below `count`, and the list only
/// grows with `count`.
pub proof fn lemma_pressed_keys(key_state: u64, count: nat, more: nat)
    requires
        count <= more,
    ensures
        forall|i: int| 0 <= i < pressed_keys(key_state, count).len() ==> #[trigger] pressed_keys(key_state, count)[i] < count,
        pressed_keys(key_state, count).len() <= pressed_keys(key_state, more).len(),
        pressed_keys(key_state, count) == pressed_keys(key_state, more).take(pressed_keys(key_state, count).len() as int),
        pressed_keys(key_state, count).len() <= count,
    decreases more,
{
    if count < more {
        lemma_pressed_keys(key_state, count, (more - 1) as nat);
        let a = pressed_keys(key_state, count);
        let b = pressed_keys(key_state, (more - 1) as nat);
        let c = pressed_keys(key_state, more);
        assert(c.take(b.len() as int) =~= b);
        assert(c.take(a.len() as int) =~= b.take(a.len() as int));
    } else if count > 0 {
        lemma_pressed_keys(key_state, (count - 1) as nat, (count - 1) as nat);
        assert(pressed_keys(key_state, count).take(pressed_keys(key_state, count).len() as int)
            =~= pressed_keys(key_state, count));
    } else {
        assert(pressed_keys(key_state, count).take(0) =~= pressed_keys(key_state, count));
    }
}

/// Every key below `count` whose bit is set in `key_state` is listed, and
/// only those, each once and in increasing order: no pressed key is left
/// out of a report, whatever its index.
pub proof fn lemma_pressed_keys_are_the_set_bits(key_state: u64, count: nat)
    requires
        count <= 64,
    ensures
        forall|i: nat| i < count && #[trigger] bit_set(key_state, i as u64) ==> pressed_keys(key_state, count).contains(i as usize),
        forall|k: int| 0 <= k < pressed_keys(key_state, count).len() ==> {
            let i = #[trigger] pressed_keys(key_state, count)[k];
            i < count && bit_set(key_state, i as u64)
        },
        forall|k: int, l: int| 0 <= k < l < pressed_keys(key_state, count).len() ==> #[trigger] pressed_keys(key_state, count)[k] < #[trigger] pressed_keys(key_state, count)[l],
    decreases count,
{
    if count > 0 {
        let n = (count - 1) as nat;
        lemma_pressed_keys_are_the_set_bits(key_state, n);
        lemma_pressed_keys(key_state, n, n);
        let earlier = pressed_keys(key_state, n);
        let all = pressed_keys(key_state, count);
        assert forall|i: nat| i < count && #[trigger] bit_set(key_state, i as u64) implies all.contains(i as usize) by {
            if i < n {
                let k = choose|k: int| 0 <= k < earlier.len() && earlier[k] == i as usize;
                if bit_set(key_state, n as u64) {
                    assert(all[k] == earlier[k]);
                }
            } else {
                assert(all[earlier.len() as int] == i as usize);
            }
        }
    }
}

/// Builds the keyboard input report for `key_state` on layer `active_layer`.
pub fn input_report(layout: &Layout, active_layer: usize, key_state: u64) -> (report: [u8; 8])
    requires
        layout.wf(),
        pressed_keys(key_state, layout.key_count()).len() > 0 ==> active_layer < layout.layers@.len(),
        reportable(layout.layers@[active_layer as int]@, key_state, layout.key_count()),
    ensures
        report@ == report_for(layout.layers@[active_layer as int]@, key_state, layout.key_count()),
{
    if active_layer >= layout.layers.len() {
        // No key is pressed: no table is looked at.
        let empty = [0u8; 8];
        proof {
            let pressed = pressed_keys(key_state, layout.key_count());
            assert(pressed.len() == 0);
            assert(empty@ =~= report_for(layout.layers@[active_layer as int]@, key_state, layout.key_count()));
        }
        return empty;
    }
    let table = &layout.layers[active_layer];
    let key_total = layout.key_total();
    let mut input_report = [0u8; 8];
    let mut offset = SCAN_CODE_POSITION;
    let mut index: usize = 0;
    let ghost slots = (REPORT_SIZE - SCAN_CODE_POSITION) as nat;
    proof {
        assert(input_report@ =~= seq![0u8, 0u8] + Seq::new(0, |i: int| table@[pressed_keys(key_state, 0)[i] as int].spec_keycode())
            + Seq::new(slots, |i: int| 0u8));
    }
    while index < key_total
        invariant_except_break
            input_report@ == seq![0u8, 0u8] + Seq::new(
                pressed_keys(key_state, index as nat).len(),
                |i: int| table@[pressed_keys(key_state, index as nat)[i] as int].spec_keycode(),
            ) + Seq::new((slots - pressed_keys(key_state, index as nat).len()) as nat, |i: int| 0u8),
        invariant
            index <= key_total,
            key_total == layout.key_count(),
            key_total <= 64,
            table@.len() == key_total,
            reportable(table@, key_state, key_total as nat),
            offset == SCAN_CODE_POSITION + pressed_keys(key_state, index as nat).len(),
            pressed_keys(key_state, index as nat).len() <= slots,
        ensures
            input_report@ == report_for(table@, key_state, key_total as nat),
        decreases key_total - index,
    {
        let ghost before = pressed_keys(key_state, index as nat);
        proof {
            lemma_pressed_keys(key_state, index as nat, key_total as nat);
            lemma_pressed_keys(key_state, (index + 1) as nat, key_total as nat);
            lemma_pressed_keys(key_state, index as nat, (index + 1) as nat);
        }
        if key_state.test_bit(index) {
            if offset == REPORT_SIZE {
                let mut slot = SCAN_CODE_POSITION;
                while slot < REPORT_SIZE
                    invariant
                        SCAN_CODE_POSITION <= slot <= REPORT_SIZE,
                        input_report@.len() == REPORT_SIZE,
                        input_report@[0] == 0u8,
                        input_report@[1] == 0u8,
                        forall|i: int| SCAN_CODE_POSITION <= i < slot ==> input_report@[i] == ERR_OVF,
                    decreases REPORT_SIZE - slot,
                {
                    input_report[slot] = ERR_OVF;
                    slot = slot + 1;
                }
                proof {
                    lemma_pressed_keys(key_state, (index + 1) as nat, key_total as nat);
                    assert(input_report@ =~= report_for(table@, key_state, key_total as nat));
                }
                break;
            }
            proof {
                let now_pressed = pressed_keys(key_state, (index + 1) as nat);
                assert(now_pressed == before.push(index));
                assert(now_pressed == pressed_keys(key_state, key_total as nat).take(now_pressed.len() as int));
                assert(now_pressed[before.len() as int] == index);
                let all = pressed_keys(key_state, key_total as nat);
                assert(all.take(now_pressed.len() as int)[before.len() as int] == all[before.len() as int]);
                assert(all[before.len() as int] == index);
            }
            let key = table[index].keycode();
            input_report[offset] = key;
            offset = offset + 1;
            proof {
                let now_pressed = pressed_keys(key_state, (index + 1) as nat);
                assert(input_report@ =~= seq![0u8, 0u8] + Seq::new(
                    now_pressed.len(),
                    |i: int| table@[now_pressed[i] as int].spec_keycode(),
                ) + Seq::new((slots - now_pressed.len()) as nat, |i: int| 0u8));
            }
        }
        index = index + 1;
    }
    input_report
}

/// The reports that deliver one output of the layer logic: one with the
/// injected tap keys pressed, when there are any, then one with the keys
/// alone, so that a tap is seen as a press followed by a release.
pub fn report_sequence(key_state: u64, injected_keys: u64) -> (states: Vec<u64>)
    ensures
        states@ == if injected_keys != 0 {
            seq![key_state | injected_keys, key_state]
        } else {
            seq![key_state]
        },
{
    let mut states: Vec<u64> = Vec::new();
    if injected_keys != 0 {
        states.push(key_state | injected_keys);
    }
    states.push(key_state);
    states
}

/// The key state of the whole keyboard: the keys of the left half above the
/// `keys_per_side` keys of the right half.
pub open spec fn spec_combined(left: u64, right: u64, keys_per_side: u64) -> u64 {
    (left << keys_per_side) | right
}

/// A change of key state, of this half or of the other.
pub enum HalfUpdate {
    /// This half's scan produced a new key state.
    Scanned(u64),
    /// The other half reported a new key state.
    Received(u64),
}

/// The whole keyboard's key state, given the key state of this half (the
/// one built as `half`) and that of the other half.
pub fn combine_halves(half: Half, this_state: u64, other_state: u64, keys_per_side: u64) -> (combined: u64)
    requires
        keys_per_side < 64,
    ensures
        combined == match half {
            Half::Left => spec_combined(this_state, other_state, keys_per_side),
            Half::Right => spec_combined(other_state, this_state, keys_per_side),
        },
{
    match half {
        Half::Left => (this_state << keys_per_side) | other_state,
        Half::Right => (other_state << keys_per_side) | this_state,
    }
}

impl MasterState {
    /// Records a change of key state and returns the whole keyboard's key
    /// state: a scan of this half is combined with the last state received
    /// from the other half, and a state received from the other half is
    /// remembered and combined with the last scan of this half.
    pub fn combined_key_state(&mut self, half: Half, update: HalfUpdate, keys_per_side: u64) -> (combined: u64)
        requires
            keys_per_side < 64,
        ensures
            match update {
                HalfUpdate::Scanned(state) => {
                    &&& final(self).slave_raw_state == old(self).slave_raw_state
                    &&& combined == match half {
                        Half::Left => spec_combined(state, old(self).slave_raw_state, keys_per_side),
                        Half::Right => spec_combined(old(self).slave_raw_state, state, keys_per_side),
                    }
                },
                HalfUpdate::Received(state) => {
                    &&& final(self).slave_raw_state == state
                    &&& combined == match half {
                        Half::Left => spec_combined(old(self).master_raw_state, state, keys_per_side),
                        Half::Right => spec_combined(state, old(self).master_raw_state, keys_per_side),
                    }
                },
            },
            final(self).master_raw_state == old(self).master_raw_state,
            final(self).keys == old(self).keys,
            final(self).previous_key_state == old(self).previous_key_state,
            final(self).state_mask == old(self).state_mask,
            final(self).lock_mask == old(self).lock_mask,
            final(self).active_layers == old(self).active_layers,
    {
        match update {
            HalfUpdate::Scanned(state) => combine_halves(half, state, self.slave_raw_state, keys_per_side),
            HalfUpdate::Received(state) => {
                self.slave_raw_state = state;
                combine_halves(half, self.master_raw_state, state, keys_per_side)
            },
        }
    }
}

/// The whole keyboard's key state after `update`, given the last key
/// states of this half and of the other.
pub open spec fn combined_after(half: Half, update: HalfUpdate, this_state: u64, other_state: u64, keys_per_side: u64) -> u64 {
    match update {
        HalfUpdate::Scanned(state) => combined_on(half, state, other_state, keys_per_side),
        HalfUpdate::Received(state) => combined_on(half, this_state, state, keys_per_side),
    }
}

impl MasterState {
    /// One pass of the master's scan loop on `half`: a change of key state,
    /// of this half or of the other, read at tick `now`, is combined into
    /// the whole keyboard's key state and applied; the report, if any, is
    /// what the loop hands on. A layer key pressed while the layer stack is
    /// full is reported as the limit reached.
    pub fn master_scan_step(&mut self, layout: &Layout, half: Half, update: HalfUpdate, keys_per_side: u64, now: u64) -> (result: Result<
        Option<(usize, u64, u64)>,
        LayerLimitReached,
    >)
        requires
            keys_per_side < 64,
            layout.wf(),
            old(self).wf(layout),
        ensures
            ({
                let combined = combined_after(half, update, old(self).master_raw_state, old(self).slave_raw_state, keys_per_side);
                let step = apply_step(old(self).view_state(), layout.tables(), layout.matrix@, combined, now);
                &&& result is Err <==> apply_overflows(old(self).view_state(), layout.tables(), layout.matrix@, combined, now)
                &&& result matches Ok(report) ==> {
                    &&& final(self).wf(layout)
                    &&& step.0 == final(self).view_state()
                    &&& step.1 == report
                    &&& final(self).slave_raw_state == match update {
                        HalfUpdate::Received(state) => state,
                        HalfUpdate::Scanned(..) => old(self).slave_raw_state,
                    }
                    &&& final(self).master_raw_state == old(self).master_raw_state
                    &&& final(self).keys == old(self).keys
                }
            }),
    {
        let combined = self.combined_key_state(half, update, keys_per_side);
        assert(self.view_state() == old(self).view_state());
        self.try_apply_at(layout, combined, now)
    }
}

/// The whole keyboard's key state as computed on `half`.
pub open spec fn combined_on(half: Half, this_state: u64, other_state: u64, keys_per_side: u64) -> u64 {
    match half {
        Half::Left => spec_combined(this_state, other_state, keys_per_side),
        Half::Right => spec_combined(other_state, this_state, keys_per_side),
    }
}

/// Both halves compute the same key state for the whole keyboard from the
/// same key states of the left and the right half: the left half's keys go
/// above the right half's, whichever half combines them.
pub proof fn lemma_halves_agree(left_state: u64, right_state: u64, keys_per_side: u64)
    ensures
        combined_on(Half::Left, left_state, right_state, keys_per_side) == combined_on(
            Half::Right,
            right_state,
            left_state,
            keys_per_side,
        ),
{
}

} // verus!

verus! {

/// Where the master stands with the host.
#[derive(Clone, Copy, Debug, PartialEq, Eq, Structural)]
pub enum MasterPhase {
    /// Advertising to hosts while scanning the keys.
    Advertising,
    /// Connected to a host, to which it sends reports.
    ConnectedToHost,
    /// The other half was lost; the master stops.
    Stopped,
}

/// What happens to the master.
#[derive(Clone, Copy, Debug)]
pub enum MasterEvent {
    /// The scan loop produced an output: the active layer, the key state and
    /// the injected keys.
    Report(usize, u64, u64),
    /// The link to the other half was lost.
    HalfLost,
    /// A host connected.
    HostConnected,
    /// The host disconnected.
    HostLost,
    /// The battery was measured.
    BatteryLevel(BatteryLevel),
    /// Notifying the battery level failed; `disconnected` when because the
    /// connection was gone.
    BatteryNotificationFailed { disconnected: bool },
}

/// What the master does next.
#[derive(Clone, Debug)]
pub enum MasterAction {
    Nothing,
    /// Sends an input report for each key state, in order, on the layer.
    SendReports { active_layer: usize, key_states: Vec<u64> },
    /// Notifies the host of the battery level, in percent.
    NotifyBatteryLevel(u8),
    /// Keeps the battery level, in percent, queued: it is handed back once
    /// a host is connected.
    DeferBatteryLevel(u8),
    /// Starts advertising to hosts again.
    Advertise,
    /// Stops: the halves are disconnected.
    Stop,
}

/// The master's next phase after `event`.
pub open spec fn next_master_phase(phase: MasterPhase, event: MasterEvent) -> MasterPhase {
    match (phase, event) {
        (MasterPhase::Stopped, _) => MasterPhase::Stopped,
        (_, MasterEvent::HalfLost) => MasterPhase::Stopped,
        (MasterPhase::Advertising, MasterEvent::HostConnected) => MasterPhase::ConnectedToHost,
        (MasterPhase::ConnectedToHost, MasterEvent::HostLost) => MasterPhase::Advertising,
        (MasterPhase::ConnectedToHost, MasterEvent::BatteryNotificationFailed { disconnected }) => if disconnected {
            MasterPhase::Stopped
        } else {
            MasterPhase::ConnectedToHost
        },
        _ => phase,
    }
}

/// The master's decisions: while advertising, scan outputs are dropped,
/// battery levels stay queued for the next host, and only a lost half or a
/// connecting host change the phase; while connected, scan
/// outputs become reports (`report_sequence`), battery levels are
/// notified, a lost host makes it advertise again, and a lost half or a
/// notification that finds the connection gone stops it.
pub fn master_step(phase: MasterPhase, event: MasterEvent) -> (next: (MasterPhase, MasterAction))
    ensures
        next.0 == next_master_phase(phase, event),
        match (phase, event) {
            (MasterPhase::Stopped, _) => next.1 is Nothing,
            (_, MasterEvent::HalfLost) => next.1 is Stop,
            (MasterPhase::ConnectedToHost, MasterEvent::Report(active_layer, key_state, injected_keys)) => {
                next.1 matches MasterAction::SendReports { active_layer: layer, key_states } && layer == active_layer
                    && key_states@ == if injected_keys != 0 {
                    seq![key_state | injected_keys, key_state]
                } else {
                    seq![key_state]
                }
            },
            (MasterPhase::ConnectedToHost, MasterEvent::BatteryLevel(level)) => next.1 == MasterAction::NotifyBatteryLevel(level.0),
            (MasterPhase::Advertising, MasterEvent::BatteryLevel(level)) => next.1 == MasterAction::DeferBatteryLevel(level.0),
            (MasterPhase::ConnectedToHost, MasterEvent::HostLost) => next.1 is Advertise,
            (MasterPhase::ConnectedToHost, MasterEvent::BatteryNotificationFailed { disconnected }) => if disconnected {
                next.1 is Stop
            } else {
                next.1 is Nothing
            },
            _ => next.1 is Nothing,
        },
{
    match (phase, event) {
        (MasterPhase::Stopped, _) => (MasterPhase::Stopped, MasterAction::Nothing),
        (_, MasterEvent::HalfLost) => (MasterPhase::Stopped, MasterAction::Stop),
        (MasterPhase::Advertising, MasterEvent::HostConnected) => (MasterPhase::ConnectedToHost, MasterAction::Nothing),
        (MasterPhase::ConnectedToHost, MasterEvent::Report(active_layer, key_state, injected_keys)) => (
            MasterPhase::ConnectedToHost,
            MasterAction::SendReports { active_layer, key_states: report_sequence(key_state, injected_keys) },
        ),
        (MasterPhase::ConnectedToHost, MasterEvent::BatteryLevel(level)) => (
            MasterPhase::ConnectedToHost,
            MasterAction::NotifyBatteryLevel(level.0),
        ),
        (MasterPhase::Advertising, MasterEvent::BatteryLevel(level)) => (
            MasterPhase::Advertising,
            MasterAction::DeferBatteryLevel(level.0),
        ),
        (MasterPhase::ConnectedToHost, MasterEvent::HostLost) => (MasterPhase::Advertising, MasterAction::Advertise),
        (MasterPhase::ConnectedToHost, MasterEvent::BatteryNotificationFailed { disconnected }) => {
            if disconnected {
                (MasterPhase::Stopped, MasterAction::Stop)
            } else {
                (MasterPhase::ConnectedToHost, MasterAction::Nothing)
            }
        },
        _ => (phase, MasterAction::Nothing),
    }
}

/// A battery reading or a scan output never changes the master's phase; a
/// connected master leaves the host only when the host is lost, the other
/// half is lost, or a notification finds the connection gone; an advertising
/// master changes phase only when a host connects or the half is lost.
pub proof fn lemma_phase_changes(phase: MasterPhase, event: MasterEvent)
    ensures
        event is BatteryLevel || event is Report ==> next_master_phase(phase, event) == phase,
        phase is ConnectedToHost && next_master_phase(phase, event) != phase ==> {
            ||| event is HostLost
            ||| event is HalfLost
            ||| event == (MasterEvent::BatteryNotificationFailed { disconnected: true })
        },
        phase is Advertising && next_master_phase(phase, event) != phase ==> event is HostConnected || event is HalfLost,
{
}

/// A stopped master stays stopped, whatever happens.
pub proof fn lemma_stopped_stays_stopped(event: MasterEvent)
    ensures
        next_master_phase(MasterPhase::Stopped, event) == MasterPhase::Stopped,
{
}

} // verus!

use vstd::prelude::*;

use super::clock::{elapsed_ticks, now, ticks_since};
use crate::interface::DEBOUNCE_TICKS;

verus! {

/// The state of a debounced key, as the contracts see it.
pub struct DebounceView {
    pub last_state_change: u64,
    pub internal_state: bool,
    pub output_state: bool,
}

/// The next debounce state after reading `new_state` at tick `now`.
pub open spec fn debounce_step(key: DebounceView, new_state: bool, now: u64) -> DebounceView {
    let state_changed = key.internal_state != new_state;
    let last_state_change = if state_changed { now } else { key.last_state_change };
    let debounced = elapsed_ticks(now, last_state_change) >= DEBOUNCE_TICKS;
    DebounceView {
        last_state_change,
        internal_state: new_state,
        output_state: if debounced { new_state } else { key.output_state },
    }
}

/// A key whose reported state only follows the raw reading once the reading
/// has been stable for `DEBOUNCE_TICKS`.
#[derive(Debug, Clone, Copy)]
pub struct DebouncedKey {
    last_state_change: u64,
    internal_state: bool,
    output_state: bool,
}

impl View for DebouncedKey {
    type V = DebounceView;

    closed spec fn view(&self) -> DebounceView {
        DebounceView {
            last_state_change: self.last_state_change,
            internal_state: self.internal_state,
            output_state: self.output_state,
        }
    }
}

impl DebouncedKey {
    pub fn new() -> (key: Self)
        ensures
            key@ == (DebounceView { last_state_change: 0, internal_state: false, output_state: false }),
    {
        Self { last_state_change: 0, internal_state: false, output_state: false }
    }

    /// Feeds a raw reading taken now.
    pub fn update(&mut self, new_state: bool)
        ensures
            exists|tick: u64| final(self)@ == debounce_step(old(self)@, new_state, tick),
    {
        let tick = now();
        self.update_at(new_state, tick);
    }

    /// Feeds a raw reading taken at tick `now`.
    pub fn update_at(&mut self, new_state: bool, now: u64)
        ensures
            final(self)@ == debounce_step(old(self)@, new_state, now),
    {
        let state_changed = self.internal_state != new_state;
        if state_changed {
            self.last_state_change = now;
        }
        self.internal_state = new_state;
        let debounced = ticks_since(now, self.last_state_change) >= DEBOUNCE_TICKS;
        if debounced {
            self.output_state = self.internal_state;
        }
    }

    pub fn is_down(&self) -> (down: bool)
        ensures
            down == self@.output_state,
    {
        self.output_state
    }
}

/// A reading that differs from the previous one never changes the reported
/// state: a single bounce is filtered out.
pub proof fn lemma_bounce_is_filtered(key: DebounceView, new_state: bool, now: u64)
    requires
        key.internal_state != new_state,
    ensures
        debounce_step(key, new_state, now).output_state == key.output_state,
{
}

/// The reported state only ever takes the value of the raw reading, and only
/// once that reading has been stable for at least `DEBOUNCE_TICKS`.
pub proof fn lemma_output_follows_stable_input(key: DebounceView, new_state: bool, now: u64)
    requires
        debounce_step(key, new_state, now).output_state != key.output_state,
    ensures
        debounce_step(key, new_state, now).output_state == new_state,
        key.internal_state == new_state,
        elapsed_ticks(now, key.last_state_change) >= DEBOUNCE_TICKS,
{
}

} // verus!

verus! {

/// A key that was never pressed.
pub open spec fn released_key() -> DebounceView {
    DebounceView { last_state_change: 0, internal_state: false, output_state: false }
}

/// The state of a key, initially `key`, after the first `count` readings,
/// each a raw state and the tick at which it was read.
pub open spec fn debounce_all(key: DebounceView, readings: Seq<(bool, u64)>, count: nat) -> DebounceView
    decreases count,
{
    if count == 0 {
        key
    } else {
        debounce_step(debounce_all(key, readings, (count - 1) as nat), readings[count - 1].0, readings[count - 1].1)
    }
}

/// The raw state before reading `count`: the previous reading, or released
/// before the first.
pub open spec fn reading_before(readings: Seq<(bool, u64)>, count: nat) -> bool {
    if count <= 1 {
        false
    } else {
        readings[count - 2].0
    }
}

/// The tick of the last change among the first `count` readings (a
/// reading that differs from the one before it), or 0 when there is none.
pub open spec fn last_change(readings: Seq<(bool, u64)>, count: nat) -> u64
    decreases count,
{
    if count == 0 {
        0
    } else if readings[count - 1].0 != reading_before(readings, count) {
        readings[count - 1].1
    } else {
        last_change(readings, (count - 1) as nat)
    }
}

/// The reported state after the first `count` readings: the latest reading
/// taken at least `DEBOUNCE_TICKS` after the last change before it, or
/// released when there is none.
pub open spec fn debounced_output(readings: Seq<(bool, u64)>, count: nat) -> bool
    decreases count,
{
    if count == 0 {
        false
    } else if elapsed_ticks(readings[count - 1].1, last_change(readings, count)) >= DEBOUNCE_TICKS {
        readings[count - 1].0
    } else {
        debounced_output(readings, (count - 1) as nat)
    }
}

/// A key fed a sequence of readings from its released state reports the
/// latest reading that had been stable for `DEBOUNCE_TICKS`, or released
/// when none had; it remembers the latest reading and its last change.
pub proof fn lemma_debounce_sequence(readings: Seq<(bool, u64)>, count: nat)
    requires
        count <= readings.len(),
    ensures
        ({
            let key = debounce_all(released_key(), readings, count);
            &&& key.output_state == debounced_output(readings, count)
            &&& key.internal_state == (count > 0 && readings[count - 1].0)
            &&& key.last_state_change == last_change(readings, count)
        }),
    decreases count,
{
    if count > 0 {
        lemma_debounce_sequence(readings, (count - 1) as nat);
    }
}

} // verus!

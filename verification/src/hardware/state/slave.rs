use vstd::prelude::*;

use crate::hardware::debounce::DebouncedKey;
use crate::hardware::state::{released_keys, released_matrix, scan_matrix, scanned, key_state_of, KeyState};

verus! {

/// Key handling state of the half that forwards its keys to the other half.
pub struct SlaveState {
    pub keys: Vec<DebouncedKey>,
    pub previous_key_state: u64,
}

impl SlaveState {
    /// A state for `columns` by `rows` released keys.
    pub fn new(columns: usize, rows: usize) -> (state: Self)
        requires
            columns * rows <= 64,
        ensures
            released_matrix(state.keys@, (columns * rows) as nat),
            state.previous_key_state == 0,
    {
        SlaveState { keys: released_keys(columns * rows), previous_key_state: 0 }
    }
}

impl KeyState for SlaveState {
    open spec fn key_view(&self) -> Seq<DebouncedKey> {
        self.keys@
    }

    open spec fn synchronized_state(&self) -> u64 {
        self.previous_key_state
    }

    fn key_count(&self) -> (count: usize) {
        self.keys.len()
    }

    fn scan_keys(&mut self, readings: &Vec<bool>, now: u64) -> (key_state: u64) {
        scan_matrix(&mut self.keys, readings, now)
    }

    fn update_needs_synchronize(&mut self, new_state: u64) -> (changed: bool) {
        let changed = self.previous_key_state != new_state;
        self.previous_key_state = new_state;
        changed
    }
}

} // verus!

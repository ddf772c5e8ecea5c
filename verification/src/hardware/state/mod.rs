pub mod master;
pub mod slave;

pub use self::master::MasterState;
pub use self::slave::SlaveState;

use vstd::prelude::*;

use crate::hardware::bits::{bit_set, lemma_bit_facts};
use crate::hardware::debounce::{debounce_step, DebounceView, DebouncedKey};

verus! {

/// `count` keys that were never pressed.
pub open spec fn released_matrix(keys: Seq<DebouncedKey>, count: nat) -> bool {
    &&& keys.len() == count
    &&& forall|i: int|
        0 <= i < count ==> (#[trigger] keys[i])@ == (DebounceView {
            last_state_change: 0,
            internal_state: false,
            output_state: false,
        })
}

/// `after` is `before` with reading `readings[i]` fed to key `i` at tick
/// `now`.
pub open spec fn scanned(before: Seq<DebouncedKey>, readings: Seq<bool>, now: u64, after: Seq<DebouncedKey>) -> bool {
    &&& after.len() == before.len()
    &&& readings.len() == before.len()
    &&& forall|i: int|
        0 <= i < before.len() ==> (#[trigger] after[i])@ == debounce_step(before[i]@, readings[i], now)
}

/// Bit `i` of `key_state` is set exactly when key `i` of `keys` is down.
pub open spec fn key_state_of(keys: Seq<DebouncedKey>, key_state: u64) -> bool {
    forall|j: u64| j < 64 ==> (#[trigger] bit_set(key_state, j) <==> (j < keys.len() && keys[j as int]@.output_state))
}

/// `count` released keys, in scan order (column after column, row after
/// row within a column).
pub fn released_keys(count: usize) -> (keys: Vec<DebouncedKey>)
    ensures
        released_matrix(keys@, count as nat),
{
    let mut keys: Vec<DebouncedKey> = Vec::new();
    let mut i: usize = 0;
    while i < count
        invariant
            i <= count,
            released_matrix(keys@, i as nat),
        decreases count - i,
    {
        keys.push(DebouncedKey::new());
        i = i + 1;
    }
    keys
}

/// Feeds one reading to every key, in scan order, and returns the debounced
/// key state: bit `i` is set when key `i` is down.
pub fn scan_matrix(keys: &mut Vec<DebouncedKey>, readings: &Vec<bool>, now: u64) -> (key_state: u64)
    requires
        readings@.len() == old(keys)@.len(),
        readings@.len() <= 64,
    ensures
        scanned(old(keys)@, readings@, now, final(keys)@),
        key_state_of(final(keys)@, key_state),
{
    let mut key_state: u64 = 0;
    let mut offset: usize = 0;
    proof {
        assert forall|j: u64| j < 64 implies !#[trigger] bit_set(key_state, j) by {
            lemma_bit_facts(0, 0, 0, j);
        }
    }
    while offset < keys.len()
        invariant
            offset <= keys@.len(),
            keys@.len() == old(keys)@.len(),
            readings@.len() == keys@.len(),
            keys@.len() <= 64,
            forall|i: int|
                0 <= i < offset ==> (#[trigger] keys@[i])@ == debounce_step(old(keys)@[i]@, readings@[i], now),
            forall|i: int| offset <= i < keys@.len() ==> #[trigger] keys@[i] == old(keys)@[i],
            forall|j: u64|
                j < 64 ==> (#[trigger] bit_set(key_state, j) <==> (j < offset && keys@[j as int]@.output_state)),
        decreases keys@.len() - offset,
    {
        let ghost keys_before = keys@;
        let ghost state_before = key_state;
        let mut key = keys[offset];
        key.update_at(readings[offset], now);
        keys.set(offset, key);
        if key.is_down() {
            key_state = key_state | (1u64 << (offset as u64));
        }
        proof {
            assert forall|j: u64| j < 64 implies (#[trigger] bit_set(key_state, j) <==> (j < offset + 1
                && keys@[j as int]@.output_state)) by {
                lemma_bit_facts(state_before, 1u64 << (offset as u64), offset as u64, j);
                assert(keys@[offset as int] == key);
                assert(bit_set(state_before, j) <==> (j < offset && keys_before[j as int]@.output_state));
                if j < offset {
                    assert(keys@[j as int] == keys_before[j as int]);
                }
            }
        }
        offset = offset + 1;
    }
    key_state
}

/// A half's key scanning state.
pub trait KeyState {
    /// The debounced keys, in scan order.
    spec fn key_view(&self) -> Seq<DebouncedKey>;

    /// The key state last reported to whoever needs it.
    spec fn synchronized_state(&self) -> u64;

    /// Number of keys, which is the number of readings a scan takes.
    fn key_count(&self) -> (count: usize)
        ensures
            count == self.key_view().len(),
    ;

    /// Feeds one reading per key, taken at tick `now`, and returns the
    /// debounced key state.
    fn scan_keys(&mut self, readings: &Vec<bool>, now: u64) -> (key_state: u64)
        requires
            readings@.len() == old(self).key_view().len(),
            readings@.len() <= 64,
        ensures
            scanned(old(self).key_view(), readings@, now, final(self).key_view()),
            key_state_of(final(self).key_view(), key_state),
            final(self).synchronized_state() == old(self).synchronized_state(),
    ;

    /// Records the key state and tells whether it differs from the last
    /// one.
    fn update_needs_synchronize(&mut self, new_state: u64) -> (changed: bool)
        ensures
            changed == (old(self).synchronized_state() != new_state),
            final(self).synchronized_state() == new_state,
            final(self).key_view() == old(self).key_view(),
    ;
}

/// One pass of the scan loop: feeds the readings, and returns the debounced
/// key state when it differs from the last one synchronized.
pub fn do_scan_step<S: KeyState>(state: &mut S, readings: &Vec<bool>, now: u64) -> (changed: Option<u64>)
    requires
        readings@.len() == old(state).key_view().len(),
        readings@.len() <= 64,
    ensures
        scanned(old(state).key_view(), readings@, now, final(state).key_view()),
        match changed {
            Some(key_state) => key_state_of(final(state).key_view(), key_state)
                && key_state != old(state).synchronized_state(),
            None => key_state_of(final(state).key_view(), old(state).synchronized_state()),
        },
        final(state).synchronized_state() == match changed {
            Some(key_state) => key_state,
            None => old(state).synchronized_state(),
        },
{
    let key_state = state.scan_keys(readings, now);
    if state.update_needs_synchronize(key_state) {
        Some(key_state)
    } else {
        None
    }
}

} // verus!

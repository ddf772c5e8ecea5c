use vstd::prelude::*;

use crate::hardware::active_layers::{active_layer_entries, without_top_tap, ActiveLayer, ActiveLayers};
use crate::hardware::bits::{bit_set, lemma_bit_facts};
use crate::hardware::clock::{elapsed_ticks, now, ticks_since};
use crate::hardware::{DebouncedKey, TestBit};
use crate::hardware::state::{key_state_of, released_keys, released_matrix, scan_matrix, scanned, KeyState};
use crate::interface::{MAXIMUM_ACTIVE_LAYERS, TAP_TIME};
use crate::keys::{Layout, Mapping};

verus! {

/// Key handling state of the half that talks to the host.
pub struct MasterState {
    pub active_layers: ActiveLayers,
    /// The debounced keys of this half, in scan order.
    pub keys: Vec<DebouncedKey>,
    pub previous_key_state: u64,
    pub master_raw_state: u64,
    pub slave_raw_state: u64,
    /// Keys that currently count; a key held as a layer key is cleared.
    pub state_mask: u64,
    /// Keys that are ignored until they are released.
    pub lock_mask: u64,
}

/// The part of a `MasterState` that layer resolution reads and writes.
pub struct MasterView {
    pub layers: Seq<ActiveLayer>,
    pub previous_key_state: u64,
    pub state_mask: u64,
    pub lock_mask: u64,
}

/// The state after the layers whose keys were released have been left.
pub struct PopOutcome {
    pub layers: Seq<ActiveLayer>,
    pub key_state: u64,
    pub state_mask: u64,
    pub lock_mask: u64,
    pub injected: u64,
}

/// Whether releasing the key of `layer` at tick `now` still counts as a tap.
pub open spec fn tap_fires(layer: ActiveLayer, now: u64) -> bool {
    match layer.tap_timer {
        Some(time) => elapsed_ticks(now, time) < TAP_TIME,
        None => false,
    }
}

/// Leaves, from the top, every active layer whose key is no longer held.
pub open spec fn pop_released_layers(
    layers: Seq<ActiveLayer>,
    key_state: u64,
    state_mask: u64,
    lock_mask: u64,
    injected: u64,
    saved: u64,
    now: u64,
) -> PopOutcome
    decreases layers.len(),
{
    if layers.len() == 0 || bit_set(key_state, layers.last().key_index as u64) {
        PopOutcome { layers, key_state, state_mask, lock_mask, injected }
    } else {
        let key = layers.last().key_index as u64;
        let mask = state_mask | (1u64 << key);
        pop_released_layers(
            layers.drop_last(),
            key_state & !mask,
            mask,
            state_mask & saved,
            if tap_fires(layers.last(), now) {
                injected | (1u64 << key)
            } else {
                injected
            },
            saved,
            now,
        )
    }
}

/// The layer on top of the stack, or the base layer.
pub open spec fn current_layer(layers: Seq<ActiveLayer>) -> usize {
    if layers.len() == 0 {
        0
    } else {
        layers.last().layer_index
    }
}

/// The first key, from index `start` on, that is pressed in `key_state` and
/// holds a layer in `table`.
pub open spec fn first_layer_key_from(
    table: Seq<Mapping>,
    matrix: Seq<usize>,
    key_state: u64,
    start: nat,
) -> Option<usize>
    decreases matrix.len() - start,
{
    if start >= matrix.len() {
        None
    } else if table[matrix[start as int] as int].layer_target() is Some && bit_set(
        key_state,
        start as u64,
    ) {
        Some(start as usize)
    } else {
        first_layer_key_from(table, matrix, key_state, start + 1)
    }
}

/// The release phase of an update with `key_state`.
pub open spec fn released_phase(s: MasterView, key_state: u64, now: u64) -> PopOutcome {
    pop_released_layers(s.layers, key_state, s.state_mask, s.lock_mask & key_state, 0, key_state, now)
}

/// The keys that count after the release phase.
pub open spec fn counted_keys(p: PopOutcome) -> u64 {
    p.key_state & p.state_mask & !p.lock_mask
}

/// The layer key that an update with `key_state` activates, if any.
pub open spec fn pressed_layer_key(
    s: MasterView,
    tables: Seq<Seq<Mapping>>,
    matrix: Seq<usize>,
    key_state: u64,
    now: u64,
) -> Option<usize> {
    let p = released_phase(s, key_state, now);
    let keys = counted_keys(p);
    if (keys | p.injected) == s.previous_key_state {
        None
    } else {
        first_layer_key_from(tables[current_layer(p.layers) as int], matrix, keys, 0)
    }
}

/// An update that activates a layer while the layer stack is full; the
/// firmware stops there.
pub open spec fn apply_overflows(
    s: MasterView,
    tables: Seq<Seq<Mapping>>,
    matrix: Seq<usize>,
    key_state: u64,
    now: u64,
) -> bool {
    pressed_layer_key(s, tables, matrix, key_state, now) is Some && released_phase(
        s,
        key_state,
        now,
    ).layers.len() >= MAXIMUM_ACTIVE_LAYERS
}

/// A result of `first_layer_key_from` is a pressed layer key at or after
/// `start`.
pub proof fn lemma_first_layer_key_found(
    table: Seq<Mapping>,
    matrix: Seq<usize>,
    key_state: u64,
    start: nat,
)
    requires
        matrix.len() <= 64,
    ensures
        first_layer_key_from(table, matrix, key_state, start) matches Some(k) ==> {
            &&& start <= k < matrix.len()
            &&& table[matrix[k as int] as int].layer_target() is Some
            &&& bit_set(key_state, k as u64)
        },
    decreases matrix.len() - start,
{
    if start < matrix.len() {
        lemma_first_layer_key_found(table, matrix, key_state, start + 1);
    }
}

/// The state and report after an update with `key_state` at tick `now`.
/// A report is `(layer, keys, injected)`: the current layer, the keys that
/// count, and the tap keys of layers left by a quick release.
pub open spec fn apply_step(
    s: MasterView,
    tables: Seq<Seq<Mapping>>,
    matrix: Seq<usize>,
    key_state: u64,
    now: u64,
) -> (MasterView, Option<(usize, u64, u64)>) {
    let p = released_phase(s, key_state, now);
    let keys = counted_keys(p);
    if (keys | p.injected) == s.previous_key_state {
        (
            MasterView {
                layers: p.layers,
                previous_key_state: s.previous_key_state,
                state_mask: p.state_mask,
                lock_mask: p.lock_mask,
            },
            None,
        )
    } else {
        let table = tables[current_layer(p.layers) as int];
        match first_layer_key_from(table, matrix, keys, 0) {
            Some(k) => {
                let target = table[matrix[k as int] as int];
                let layer = ActiveLayer {
                    layer_index: target.layer_target()->0,
                    key_index: k,
                    tap_timer: if target is TapLayer {
                        Some(now)
                    } else {
                        None
                    },
                };
                let layers = without_top_tap(p.layers).push(layer);
                let mask = p.state_mask & !(1u64 << (k as u64));
                let changed = p.injected != s.previous_key_state;
                (
                    MasterView {
                        layers,
                        previous_key_state: if changed {
                            0
                        } else {
                            s.previous_key_state
                        },
                        state_mask: mask,
                        lock_mask: mask & key_state,
                    },
                    if changed {
                        Some((current_layer(layers), 0u64, p.injected))
                    } else {
                        None
                    },
                )
            },
            None => {
                let layers = if keys != 0 {
                    without_top_tap(p.layers)
                } else {
                    p.layers
                };
                (
                    MasterView {
                        layers,
                        previous_key_state: keys,
                        state_mask: p.state_mask,
                        lock_mask: p.lock_mask,
                    },
                    Some((current_layer(layers), keys, p.injected)),
                )
            },
        }
    }
}

/// The stack invariant: at most `MAXIMUM_ACTIVE_LAYERS` layers, each held by a
/// distinct key of the layout that is masked out, each naming a layer of the
/// layout.
pub open spec fn layers_wf(
    layers: Seq<ActiveLayer>,
    state_mask: u64,
    key_count: nat,
    layer_count: nat,
) -> bool {
    &&& layers.len() <= MAXIMUM_ACTIVE_LAYERS
    &&& forall|i: int|
        0 <= i < layers.len() ==> (#[trigger] layers[i]).key_index < key_count
            && layers[i].layer_index < layer_count && !bit_set(
            state_mask,
            layers[i].key_index as u64,
        )
    &&& forall|i: int, j: int|
        0 <= i < j < layers.len() ==> (#[trigger] layers[i]).key_index != (#[trigger] layers[j]).key_index
}

/// Leaving the top layer re-enables its key and keeps the stack invariant.
pub proof fn lemma_pop_one_keeps_wf(
    layers: Seq<ActiveLayer>,
    state_mask: u64,
    key_count: nat,
    layer_count: nat,
)
    requires
        layers_wf(layers, state_mask, key_count, layer_count),
        layers.len() > 0,
        key_count <= 64,
    ensures
        layers_wf(
            layers.drop_last(),
            state_mask | (1u64 << (layers.last().key_index as u64)),
            key_count,
            layer_count,
        ),
{
    let key = layers.last().key_index as u64;
    let mask = state_mask | (1u64 << key);
    let rest = layers.drop_last();
    assert forall|i: int| 0 <= i < rest.len() implies !bit_set(mask, (#[trigger] rest[i]).key_index as u64) by {
        assert(layers[i] == rest[i]);
        assert(layers[i].key_index != layers[layers.len() - 1].key_index);
        lemma_bit_facts(state_mask, 1u64 << key, key, rest[i].key_index as u64);
    }
    assert forall|i: int, j: int| 0 <= i < j < rest.len() implies (#[trigger] rest[i]).key_index != (#[trigger] rest[j]).key_index by {
        assert(layers[i] == rest[i]);
        assert(layers[j] == rest[j]);
    }
}

/// Cancelling the tap action of the top layer keeps the stack invariant.
pub proof fn lemma_clear_tap_keeps_wf(
    layers: Seq<ActiveLayer>,
    state_mask: u64,
    key_count: nat,
    layer_count: nat,
)
    requires
        layers_wf(layers, state_mask, key_count, layer_count),
    ensures
        layers_wf(without_top_tap(layers), state_mask, key_count, layer_count),
        without_top_tap(layers).len() == layers.len(),
{
    let cleared = without_top_tap(layers);
    assert forall|i: int| 0 <= i < cleared.len() implies (#[trigger] cleared[i]).key_index == layers[i].key_index
        && cleared[i].layer_index == layers[i].layer_index by {
    }
}

/// Entering the layer of key `key`, which counts in `state_mask`, keeps the
/// stack invariant once the key is masked out.
pub proof fn lemma_push_keeps_wf(
    layers: Seq<ActiveLayer>,
    state_mask: u64,
    layer: ActiveLayer,
    key_count: nat,
    layer_count: nat,
)
    requires
        layers_wf(layers, state_mask, key_count, layer_count),
        layers.len() < MAXIMUM_ACTIVE_LAYERS,
        bit_set(state_mask, layer.key_index as u64),
        layer.key_index < key_count,
        layer.layer_index < layer_count,
        key_count <= 64,
    ensures
        layers_wf(
            without_top_tap(layers).push(layer),
            state_mask & !(1u64 << (layer.key_index as u64)),
            key_count,
            layer_count,
        ),
{
    lemma_clear_tap_keeps_wf(layers, state_mask, key_count, layer_count);
    let cleared = without_top_tap(layers);
    let pushed = cleared.push(layer);
    let key = layer.key_index as u64;
    let mask = state_mask & !(1u64 << key);
    assert forall|i: int| 0 <= i < pushed.len() implies !bit_set(mask, (#[trigger] pushed[i]).key_index as u64) by {
        lemma_bit_facts(state_mask, !(1u64 << key), key, pushed[i].key_index as u64);
        lemma_bit_facts(1u64 << key, 0, key, pushed[i].key_index as u64);
        if i < cleared.len() {
            assert(cleared[i].key_index == layers[i].key_index);
        }
    }
    assert forall|i: int, j: int| 0 <= i < j < pushed.len() implies (#[trigger] pushed[i]).key_index != (#[trigger] pushed[j]).key_index by {
        assert(cleared[i].key_index == layers[i].key_index);
        if j < cleared.len() {
            assert(cleared[j].key_index == layers[j].key_index);
        } else {
            assert(!bit_set(state_mask, layers[i].key_index as u64));
        }
    }
    assert forall|i: int| 0 <= i < pushed.len() implies (#[trigger] pushed[i]).key_index < key_count
        && pushed[i].layer_index < layer_count by {
        if i < cleared.len() {
            assert(cleared[i].key_index == layers[i].key_index);
            assert(cleared[i].layer_index == layers[i].layer_index);
        }
    }
}

/// Leaving released layers keeps the stack invariant and only removes layers
/// from the top.
pub proof fn lemma_pop_keeps_wf(
    layers: Seq<ActiveLayer>,
    key_state: u64,
    state_mask: u64,
    lock_mask: u64,
    injected: u64,
    saved: u64,
    now: u64,
    key_count: nat,
    layer_count: nat,
)
    requires
        layers_wf(layers, state_mask, key_count, layer_count),
        key_count <= 64,
    ensures
        ({
            let p = pop_released_layers(layers, key_state, state_mask, lock_mask, injected, saved, now);
            &&& layers_wf(p.layers, p.state_mask, key_count, layer_count)
            &&& p.layers.len() <= layers.len()
            &&& p.layers == layers.take(p.layers.len() as int)
        }),
    decreases layers.len(),
{
    if layers.len() == 0 || bit_set(key_state, layers.last().key_index as u64) {
        assert(layers == layers.take(layers.len() as int));
    } else {
        let key = layers.last().key_index as u64;
        let mask = state_mask | (1u64 << key);
        let rest = layers.drop_last();
        lemma_pop_one_keeps_wf(layers, state_mask, key_count, layer_count);
        lemma_pop_keeps_wf(
            rest,
            key_state & !mask,
            mask,
            state_mask & saved,
            if tap_fires(layers.last(), now) {
                injected | (1u64 << key)
            } else {
                injected
            },
            saved,
            now,
            key_count,
            layer_count,
        );
        let p = pop_released_layers(layers, key_state, state_mask, lock_mask, injected, saved, now);
        assert(p.layers == rest.take(p.layers.len() as int));
        assert(rest.take(p.layers.len() as int) =~= layers.take(p.layers.len() as int));
    }
}

/// Which layers are left, and the masks that result, do not depend on the
/// tick: only the tap keys do.
pub proof fn lemma_pop_ignores_time(
    layers: Seq<ActiveLayer>,
    key_state: u64,
    state_mask: u64,
    lock_mask: u64,
    injected: u64,
    other_injected: u64,
    saved: u64,
    now: u64,
    other_now: u64,
)
    ensures
        ({
            let p = pop_released_layers(layers, key_state, state_mask, lock_mask, injected, saved, now);
            let q = pop_released_layers(
                layers,
                key_state,
                state_mask,
                lock_mask,
                other_injected,
                saved,
                other_now,
            );
            p.layers == q.layers && p.key_state == q.key_state && p.state_mask == q.state_mask
                && p.lock_mask == q.lock_mask
        }),
    decreases layers.len(),
{
    if layers.len() == 0 || bit_set(key_state, layers.last().key_index as u64) {
    } else {
        let key = layers.last().key_index as u64;
        let mask = state_mask | (1u64 << key);
        lemma_pop_ignores_time(
            layers.drop_last(),
            key_state & !mask,
            mask,
            state_mask & saved,
            if tap_fires(layers.last(), now) {
                injected | (1u64 << key)
            } else {
                injected
            },
            if tap_fires(layers.last(), other_now) {
                other_injected | (1u64 << key)
            } else {
                other_injected
            },
            saved,
            now,
            other_now,
        );
    }
}

/// An update keeps the stack invariant, and every key it reports counts in
/// the new state mask.
pub proof fn lemma_apply_step_keeps_wf(s: MasterView, layout: &Layout, key_state: u64, now: u64)
    requires
        layout.wf(),
        layers_wf(s.layers, s.state_mask, layout.key_count(), layout.layers@.len()),
        !apply_overflows(s, layout.tables(), layout.matrix@, key_state, now),
    ensures
        ({
            let step = apply_step(s, layout.tables(), layout.matrix@, key_state, now);
            &&& layers_wf(step.0.layers, step.0.state_mask, layout.key_count(), layout.layers@.len())
            &&& step.1 matches Some((_, keys, _)) ==> forall|j: u64|
                j < 64 && #[trigger] bit_set(keys, j) ==> bit_set(step.0.state_mask, j)
        }),
{
    let key_count = layout.key_count();
    let layer_count = layout.layers@.len();
    let tables = layout.tables();
    let matrix = layout.matrix@;
    let p = released_phase(s, key_state, now);
    lemma_pop_keeps_wf(s.layers, key_state, s.state_mask, s.lock_mask & key_state, 0, key_state, now, key_count, layer_count);
    let keys = counted_keys(p);
    if (keys | p.injected) != s.previous_key_state {
        let current = current_layer(p.layers);
        let table = tables[current as int];
        assert(current < layer_count);
        assert(table == layout.layers@[current as int]@);
        lemma_first_layer_key_found(table, matrix, keys, 0);
        match first_layer_key_from(table, matrix, keys, 0) {
            Some(k) => {
                let target = table[matrix[k as int] as int];
                let layer = ActiveLayer {
                    layer_index: target.layer_target()->0,
                    key_index: k,
                    tap_timer: if target is TapLayer {
                        Some(now)
                    } else {
                        None
                    },
                };
                lemma_bit_facts(p.key_state & p.state_mask, !p.lock_mask, 0, k as u64);
                lemma_bit_facts(p.key_state, p.state_mask, 0, k as u64);
                assert(layout.layers@[current as int]@[matrix[k as int] as int] == target);
                lemma_push_keeps_wf(p.layers, p.state_mask, layer, key_count, layer_count);
                assert forall|j: u64| j < 64 && #[trigger] bit_set(0u64, j) implies false by {
                    lemma_bit_facts(0, 0, 0, j);
                }
            },
            None => {
                lemma_clear_tap_keeps_wf(p.layers, p.state_mask, key_count, layer_count);
                assert forall|j: u64| j < 64 && #[trigger] bit_set(keys, j) implies bit_set(p.state_mask, j) by {
                    lemma_bit_facts(p.key_state & p.state_mask, !p.lock_mask, 0, j);
                    lemma_bit_facts(p.key_state, p.state_mask, 0, j);
                }
            },
        }
    }
}

/// A key held to keep a layer active is never reported as a pressed key.
pub proof fn lemma_layer_keys_never_reported(s: MasterView, layout: &Layout, key_state: u64, now: u64)
    requires
        layout.wf(),
        layers_wf(s.layers, s.state_mask, layout.key_count(), layout.layers@.len()),
        !apply_overflows(s, layout.tables(), layout.matrix@, key_state, now),
    ensures
        ({
            let step = apply_step(s, layout.tables(), layout.matrix@, key_state, now);
            step.1 matches Some((_, keys, _)) ==> forall|i: int|
                0 <= i < step.0.layers.len() ==> !bit_set(keys, (#[trigger] step.0.layers[i]).key_index as u64)
        }),
{
    lemma_apply_step_keeps_wf(s, layout, key_state, now);
    let step = apply_step(s, layout.tables(), layout.matrix@, key_state, now);
    if let Some((_, keys, _)) = step.1 {
        assert forall|i: int| 0 <= i < step.0.layers.len() implies !bit_set(keys, (#[trigger] step.0.layers[i]).key_index as u64) by {
            let j = step.0.layers[i].key_index as u64;
            assert(j < 64);
            if bit_set(keys, j) {
                assert(bit_set(step.0.state_mask, j));
            }
        }
    }
}

/// A report is produced exactly when the reported keys differ from the last
/// report, and the new state remembers what was reported; the reported layer
/// is the layer on top of the new stack.
pub proof fn lemma_report_only_on_change(
    s: MasterView,
    tables: Seq<Seq<Mapping>>,
    matrix: Seq<usize>,
    key_state: u64,
    now: u64,
)
    ensures
        ({
            let step = apply_step(s, tables, matrix, key_state, now);
            &&& step.1 matches Some((layer, keys, injected)) ==> {
                &&& (keys | injected) != s.previous_key_state
                &&& step.0.previous_key_state == keys
                &&& layer == current_layer(step.0.layers)
            }
            &&& step.1 is None ==> step.0.previous_key_state == s.previous_key_state
        }),
{
    let step = apply_step(s, tables, matrix, key_state, now);
    let p = released_phase(s, key_state, now);
    assert(0u64 | p.injected == p.injected) by (bit_vector);
}

impl KeyState for MasterState {
    open spec fn key_view(&self) -> Seq<DebouncedKey> {
        self.keys@
    }

    open spec fn synchronized_state(&self) -> u64 {
        self.master_raw_state
    }

    fn key_count(&self) -> (count: usize) {
        self.keys.len()
    }

    fn scan_keys(&mut self, readings: &Vec<bool>, now: u64) -> (key_state: u64) {
        scan_matrix(&mut self.keys, readings, now)
    }

    fn update_needs_synchronize(&mut self, new_state: u64) -> (changed: bool) {
        let changed = self.master_raw_state != new_state;
        self.master_raw_state = new_state;
        changed
    }
}

/// The first key, in key order, that is pressed in `key_state` and holds a
/// layer in `table`.
fn first_layer_key(table: &Vec<Mapping>, matrix: &Vec<usize>, key_state: u64) -> (key: Option<usize>)
    requires
        matrix@.len() <= 64,
        forall|k: int| 0 <= k < matrix@.len() ==> #[trigger] matrix@[k] < table@.len(),
    ensures
        key == first_layer_key_from(table@, matrix@, key_state, 0),
{
    let mut key_index: usize = 0;
    while key_index < matrix.len()
        invariant
            key_index <= matrix@.len(),
            matrix@.len() <= 64,
            forall|k: int| 0 <= k < matrix@.len() ==> #[trigger] matrix@[k] < table@.len(),
            first_layer_key_from(table@, matrix@, key_state, 0) == first_layer_key_from(
                table@,
                matrix@,
                key_state,
                key_index as nat,
            ),
        decreases matrix@.len() - key_index,
    {
        let mapping = table[matrix[key_index]];
        if mapping.held_layer().is_some() && key_state.test_bit(key_index) {
            return Some(key_index);
        }
        key_index = key_index + 1;
    }
    None
}

/// A layer key was pressed while the maximum number of layers was active.
#[derive(Clone, Copy, Debug, PartialEq, Eq, Structural)]
pub struct LayerLimitReached;

impl MasterState {
    /// The state as layer resolution sees it.
    pub open spec fn view_state(&self) -> MasterView {
        MasterView {
            layers: active_layer_entries(self.active_layers),
            previous_key_state: self.previous_key_state,
            state_mask: self.state_mask,
            lock_mask: self.lock_mask,
        }
    }

    /// The stack invariant with respect to `layout`, a state mask in which a
    /// key counts exactly when it holds no active layer, and tap timers only
    /// on layers entered by tap-layer keys.
    pub open spec fn wf(&self, layout: &Layout) -> bool {
        &&& layers_wf(
            active_layer_entries(self.active_layers),
            self.state_mask,
            layout.key_count(),
            layout.layers@.len(),
        )
        &&& mask_matches_layers(active_layer_entries(self.active_layers), self.state_mask)
        &&& taps_are_tap_layers(active_layer_entries(self.active_layers), layout.tables(), layout.matrix@)
    }

    /// A state with no active layer, every key counting and none locked, and
    /// a `columns` by `rows` matrix of released keys.
    pub fn new(columns: usize, rows: usize) -> (state: Self)
        requires
            columns * rows <= 64,
        ensures
            active_layer_entries(state.active_layers) == Seq::<ActiveLayer>::empty(),
            state.previous_key_state == 0,
            state.master_raw_state == 0,
            state.slave_raw_state == 0,
            state.state_mask == !0u64,
            state.lock_mask == 0,
            released_matrix(state.keys@, (columns * rows) as nat),
    {
        MasterState {
            active_layers: ActiveLayers::new(),
            keys: released_keys(columns * rows),
            previous_key_state: 0,
            master_raw_state: 0,
            slave_raw_state: 0,
            state_mask: !0u64,
            lock_mask: 0,
        }
    }

    /// The index of the layer on top of the stack, or 0 for the base layer.
    pub fn current_layer_index(&self) -> (index: usize)
        ensures
            index == current_layer(active_layer_entries(self.active_layers)),
    {
        match self.active_layers.last() {
            Some(layer) => layer.layer_index,
            None => 0,
        }
    }

    /// Applies a new combined key state, read now.
    pub fn apply(&mut self, layout: &Layout, key_state: u64) -> (report: Option<(usize, u64, u64)>)
        requires
            layout.wf(),
            old(self).wf(layout),
            forall|tick: u64|
                !#[trigger] apply_overflows(old(self).view_state(), layout.tables(), layout.matrix@, key_state, tick),
        ensures
            final(self).wf(layout),
            exists|tick: u64|
                #![trigger apply_step(old(self).view_state(), layout.tables(), layout.matrix@, key_state, tick)]
                {
                    let step = apply_step(
                        old(self).view_state(),
                        layout.tables(),
                        layout.matrix@,
                        key_state,
                        tick,
                    );
                    step.0 == final(self).view_state() && step.1 == report
                },
            final(self).keys == old(self).keys,
            final(self).master_raw_state == old(self).master_raw_state,
            final(self).slave_raw_state == old(self).slave_raw_state,
    {
        let tick = now();
        self.apply_at(layout, key_state, tick)
    }

    /// Applies a new combined key state, read at tick `now`: leaves the layers
    /// whose keys were released (firing their tap keys if released quickly),
    /// enters the layer of a newly pressed layer key, and reports the keys
    /// that count whenever they changed. After a call that reported, or that
    /// sent no tap key, the same key state reports nothing, whenever it
    /// comes again.
    pub fn apply_at(&mut self, layout: &Layout, key_state: u64, now: u64) -> (report: Option<(usize, u64, u64)>)
        requires
            layout.wf(),
            old(self).wf(layout),
            !apply_overflows(old(self).view_state(), layout.tables(), layout.matrix@, key_state, now),
        ensures
            final(self).wf(layout),
            apply_step(old(self).view_state(), layout.tables(), layout.matrix@, key_state, now).0
                == final(self).view_state(),
            apply_step(old(self).view_state(), layout.tables(), layout.matrix@, key_state, now).1
                == report,
            final(self).keys == old(self).keys,
            final(self).master_raw_state == old(self).master_raw_state,
            final(self).slave_raw_state == old(self).slave_raw_state,
            report is Some || released_phase(old(self).view_state(), key_state, now).injected == 0 ==> forall|later: u64|
                (#[trigger] apply_step(final(self).view_state(), layout.tables(), layout.matrix@, key_state, later)).1 is None,
    {
        let ghost s0 = self.view_state();
        let report = match self.try_apply_at(layout, key_state, now) {
            Ok(report) => report,
            Err(..) => None,
        };
        proof {
            if report is Some || released_phase(s0, key_state, now).injected == 0 {
                assert forall|later: u64|
                    (#[trigger] apply_step(self.view_state(), layout.tables(), layout.matrix@, key_state, later)).1 is None by {
                    lemma_no_repeated_report(s0, layout, key_state, now, later);
                }
            }
        }
        report
    }

    /// `apply_at`, on every input: when a layer key is pressed while the
    /// layer stack is full, the limit is reported instead, with the state
    /// left partway.
    pub fn try_apply_at(&mut self, layout: &Layout, key_state: u64, now: u64) -> (result: Result<
        Option<(usize, u64, u64)>,
        LayerLimitReached,
    >)
        requires
            layout.wf(),
            old(self).wf(layout),
        ensures
            result is Err <==> apply_overflows(old(self).view_state(), layout.tables(), layout.matrix@, key_state, now),
            result matches Ok(report) ==> {
                &&& final(self).wf(layout)
                &&& apply_step(old(self).view_state(), layout.tables(), layout.matrix@, key_state, now).0
                    == final(self).view_state()
                &&& apply_step(old(self).view_state(), layout.tables(), layout.matrix@, key_state, now).1
                    == report
                &&& final(self).keys == old(self).keys
                &&& final(self).master_raw_state == old(self).master_raw_state
                &&& final(self).slave_raw_state == old(self).slave_raw_state
            },
    {
        let ghost s0 = self.view_state();
        let ghost tables = layout.tables();
        let ghost key_count = layout.key_count();
        let ghost layer_count = layout.layers@.len();
        let saved_state = key_state;
        let mut key_state = key_state;
        let mut injected_keys: u64 = 0;

        // Done before leaving layers so that the mask is not cleared at once.
        self.lock_mask = self.lock_mask & key_state;

        let ghost target = released_phase(s0, saved_state, now);
        proof {
            lemma_pop_keeps_wf(s0.layers, saved_state, s0.state_mask, s0.lock_mask & saved_state, 0, saved_state, now, key_count, layer_count);
        }

        loop
            invariant
                layout.wf(),
                key_count == layout.key_count(),
                layer_count == layout.layers@.len(),
                layers_wf(active_layer_entries(self.active_layers), self.state_mask, key_count, layer_count),
                pop_released_layers(
                    active_layer_entries(self.active_layers),
                    key_state,
                    self.state_mask,
                    self.lock_mask,
                    injected_keys,
                    saved_state,
                    now,
                ) == target,
                self.previous_key_state == s0.previous_key_state,
                self.keys == old(self).keys,
                self.master_raw_state == old(self).master_raw_state,
                self.slave_raw_state == old(self).slave_raw_state,
            ensures
                layers_wf(active_layer_entries(self.active_layers), self.state_mask, key_count, layer_count),
                target == (PopOutcome {
                    layers: active_layer_entries(self.active_layers),
                    key_state,
                    state_mask: self.state_mask,
                    lock_mask: self.lock_mask,
                    injected: injected_keys,
                }),
                self.previous_key_state == s0.previous_key_state,
                self.keys == old(self).keys,
                self.master_raw_state == old(self).master_raw_state,
                self.slave_raw_state == old(self).slave_raw_state,
            decreases active_layer_entries(self.active_layers).len(),
        {
            let top = match self.active_layers.last() {
                Some(top) => top,
                None => break,
            };
            let ghost layers = active_layer_entries(self.active_layers);
            let key_index = top.key_index;
            if key_state.test_bit(key_index) {
                break;
            }
            // A quick release of a tap-layer key sends its tap key.
            if let Some(time) = top.tap_timer {
                if ticks_since(now, time) < TAP_TIME {
                    injected_keys.set_bit(key_index);
                }
            }
            let ghost mask_before = self.state_mask;
            let popped = self.active_layers.pop();
            // Lock all keys but the layer keys, so that a key held while the
            // layer is left is not sent again from the lower layer.
            self.lock_mask = self.state_mask & saved_state;
            // Re-enable the layer key.
            self.state_mask.set_bit(key_index);
            key_state = key_state & !self.state_mask;
            proof {
                lemma_pop_one_keeps_wf(layers, mask_before, key_count, layer_count);
            }
        }

        // Ignore the keys held as layer keys, and the locked keys.
        key_state = key_state & self.state_mask;
        key_state = key_state & !self.lock_mask;

        let ghost popped = target;
        assert(key_state == counted_keys(popped));
        proof {
            lemma_apply_keeps_mask_match(s0, layout, saved_state, now);
            lemma_apply_keeps_taps_tap_layers(s0, layout, saved_state, now);
        }

        if key_state | injected_keys != self.previous_key_state {
            let current = self.current_layer_index();
            let table = &layout.layers[current];
            proof {
                assert(tables[current as int] == table@);
                lemma_first_layer_key_found(table@, layout.matrix@, key_state, 0);
            }
            match first_layer_key(table, &layout.matrix, key_state) {
                Some(key_index) => {
                    let mapping = table[layout.matrix[key_index]];
                    let layer_index = match mapping.held_layer() {
                        Some(layer_index) => layer_index,
                        None => 0,
                    };
                    let tap_timer = match mapping {
                        Mapping::TapLayer(..) => Some(now),
                        _ => None,
                    };
                    if self.active_layers.len() >= MAXIMUM_ACTIVE_LAYERS {
                        return Err(LayerLimitReached);
                    }
                    proof {
                        let p = popped;
                        lemma_bit_facts(p.key_state & p.state_mask, !p.lock_mask, 0, key_index as u64);
                        lemma_bit_facts(p.key_state, p.state_mask, 0, key_index as u64);
                        assert(bit_set(self.state_mask, key_index as u64));
                        assert(layout.layers@[current as int]@[layout.matrix@[key_index as int] as int] == mapping);
                        assert(active_layer_entries(self.active_layers).len() < MAXIMUM_ACTIVE_LAYERS);
                        lemma_push_keeps_wf(
                            active_layer_entries(self.active_layers),
                            self.state_mask,
                            ActiveLayer { layer_index, key_index, tap_timer },
                            key_count,
                            layer_count,
                        );
                    }
                    // A second layer key cancels the tap action of the layer
                    // below.
                    self.active_layers.clear_top_tap_timer();
                    let new_layer = ActiveLayer { layer_index, key_index, tap_timer };
                    let pushed = self.active_layers.push(new_layer);
                    // Disable the layer key while the layer is active.
                    self.state_mask.clear_bit(key_index);
                    // Lock all keys but the layer keys, so that a key held
                    // while the layer is entered is not sent again from the
                    // new layer.
                    self.lock_mask = self.state_mask & saved_state;
                    key_state = 0;
                    assert(0u64 | injected_keys == injected_keys) by (bit_vector);
                },
                None => {
                    // A regular key cancels the tap action of the layer.
                    if key_state != 0 {
                        proof {
                            lemma_clear_tap_keeps_wf(active_layer_entries(self.active_layers), self.state_mask, key_count, layer_count);
                        }
                        self.active_layers.clear_top_tap_timer();
                    }
                },
            }
            if key_state | injected_keys != self.previous_key_state {
                self.previous_key_state = key_state;
                return Ok(Some((self.current_layer_index(), key_state, injected_keys)));
            }
        }
        Ok(None)
    }
}

} // verus!

verus! {

/// What leaving released layers does to keys, with `original` the key state
/// of the update: only released layers are left, the remaining top is held,
/// and every tap key is the key of a layer left within the tap time.
proof fn lemma_pop_tracks_keys(
    layers: Seq<ActiveLayer>,
    key_state: u64,
    state_mask: u64,
    lock_mask: u64,
    injected: u64,
    saved: u64,
    now: u64,
    original: u64,
)
    requires
        forall|i: int|
            0 <= i < layers.len() ==> (#[trigger] layers[i]).key_index < 64 && !bit_set(state_mask, layers[i].key_index as u64)
                && (bit_set(key_state, layers[i].key_index as u64) == bit_set(original, layers[i].key_index as u64)),
        forall|i: int, j: int| 0 <= i < j < layers.len() ==> (#[trigger] layers[i]).key_index != (#[trigger] layers[j]).key_index,
        forall|j: u64| j < 64 && #[trigger] bit_set(key_state, j) ==> bit_set(original, j),
        forall|j: u64| j < 64 && #[trigger] bit_set(injected, j) ==> !bit_set(original, j),
    ensures
        ({
            let p = pop_released_layers(layers, key_state, state_mask, lock_mask, injected, saved, now);
            &&& p.layers.len() <= layers.len()
            &&& p.layers == layers.take(p.layers.len() as int)
            &&& p.layers.len() > 0 ==> bit_set(original, p.layers.last().key_index as u64)
            &&& forall|i: int| p.layers.len() <= i < layers.len() ==> !bit_set(original, (#[trigger] layers[i]).key_index as u64)
            &&& forall|j: u64| j < 64 && #[trigger] bit_set(p.key_state, j) ==> bit_set(original, j)
            &&& forall|j: u64|
                j < 64 && #[trigger] bit_set(p.injected, j) ==> !bit_set(original, j) && (bit_set(injected, j) || exists|i: int|
                    p.layers.len() <= i < layers.len() && (#[trigger] layers[i]).key_index == j && tap_fires(layers[i], now))
        }),
    decreases layers.len(),
{
    let p = pop_released_layers(layers, key_state, state_mask, lock_mask, injected, saved, now);
    if layers.len() == 0 || bit_set(key_state, layers.last().key_index as u64) {
        assert(layers == layers.take(layers.len() as int));
        if layers.len() > 0 {
            assert(layers.last() == layers[layers.len() - 1]);
        }
    } else {
        let top = layers.last();
        let key = top.key_index as u64;
        let mask = state_mask | (1u64 << key);
        let rest = layers.drop_last();
        let next_state = key_state & !mask;
        let next_injected = if tap_fires(top, now) {
            injected | (1u64 << key)
        } else {
            injected
        };
        assert(layers[layers.len() - 1] == top);
        assert(!bit_set(original, key));
        assert forall|i: int| 0 <= i < rest.len() implies (#[trigger] rest[i]).key_index < 64 && !bit_set(mask, rest[i].key_index as u64)
            && (bit_set(next_state, rest[i].key_index as u64) == bit_set(original, rest[i].key_index as u64)) by {
            assert(rest[i] == layers[i]);
            assert(layers[i].key_index != layers[layers.len() - 1].key_index);
            let j = rest[i].key_index as u64;
            lemma_bit_facts(state_mask, 1u64 << key, key, j);
            lemma_bit_facts(key_state, !mask, key, j);
            lemma_bit_facts(mask, 0, key, j);
        }
        assert forall|i: int, j: int| 0 <= i < j < rest.len() implies (#[trigger] rest[i]).key_index != (#[trigger] rest[j]).key_index by {
            assert(rest[i] == layers[i]);
            assert(rest[j] == layers[j]);
        }
        assert forall|j: u64| j < 64 && #[trigger] bit_set(next_state, j) implies bit_set(original, j) by {
            lemma_bit_facts(key_state, !mask, key, j);
            assert(bit_set(key_state, j));
        }
        assert forall|j: u64| j < 64 && #[trigger] bit_set(next_injected, j) implies !bit_set(original, j) by {
            lemma_bit_facts(injected, 1u64 << key, key, j);
            if bit_set(injected, j) {
                assert(!bit_set(original, j));
            } else {
                assert(j == key);
            }
        }
        lemma_pop_tracks_keys(rest, next_state, mask, state_mask & saved, next_injected, saved, now, original);
        assert(p == pop_released_layers(rest, next_state, mask, state_mask & saved, next_injected, saved, now));
        assert(p.layers == rest.take(p.layers.len() as int));
        assert(rest.take(p.layers.len() as int) =~= layers.take(p.layers.len() as int));
        if p.layers.len() > 0 {
            assert(p.layers.last() == rest[p.layers.len() - 1]);
        }
        assert forall|i: int| p.layers.len() <= i < layers.len() implies !bit_set(original, (#[trigger] layers[i]).key_index as u64) by {
            if i < rest.len() {
                assert(rest[i] == layers[i]);
            }
        }
        assert forall|j: u64|
            j < 64 && #[trigger] bit_set(p.injected, j) implies !bit_set(original, j) && (bit_set(injected, j) || exists|i: int|
                p.layers.len() <= i < layers.len() && (#[trigger] layers[i]).key_index == j && tap_fires(layers[i], now)) by {
            if !bit_set(injected, j) {
                lemma_bit_facts(injected, 1u64 << key, key, j);
                if bit_set(next_injected, j) {
                    assert(tap_fires(top, now) && j == key);
                    assert(layers[layers.len() - 1].key_index == j);
                } else {
                    let i = choose|i: int| p.layers.len() <= i < rest.len() && (#[trigger] rest[i]).key_index == j && tap_fires(rest[i], now);
                    assert(rest[i] == layers[i]);
                }
            }
        }
    }
}

} // verus!

verus! {

/// The facts of `lemma_pop_tracks_keys` for the release phase of an update.
proof fn lemma_released_phase_keys(s: MasterView, layout: &Layout, key_state: u64, now: u64)
    requires
        layout.wf(),
        layers_wf(s.layers, s.state_mask, layout.key_count(), layout.layers@.len()),
    ensures
        ({
            let p = released_phase(s, key_state, now);
            &&& p.layers.len() <= s.layers.len()
            &&& p.layers == s.layers.take(p.layers.len() as int)
            &&& p.layers.len() > 0 ==> bit_set(key_state, p.layers.last().key_index as u64)
            &&& forall|i: int| p.layers.len() <= i < s.layers.len() ==> !bit_set(key_state, (#[trigger] s.layers[i]).key_index as u64)
            &&& forall|j: u64| j < 64 && #[trigger] bit_set(p.key_state, j) ==> bit_set(key_state, j)
            &&& forall|j: u64|
                j < 64 && #[trigger] bit_set(p.injected, j) ==> !bit_set(key_state, j) && exists|i: int|
                    p.layers.len() <= i < s.layers.len() && (#[trigger] s.layers[i]).key_index == j && tap_fires(s.layers[i], now)
        }),
{
    assert forall|j: u64| j < 64 && #[trigger] bit_set(0u64, j) implies !bit_set(key_state, j) by {
        lemma_bit_facts(0, 0, 0, j);
    }
    lemma_pop_tracks_keys(s.layers, key_state, s.state_mask, s.lock_mask & key_state, 0, key_state, now, key_state);
    let p = released_phase(s, key_state, now);
    assert forall|j: u64|
        j < 64 && #[trigger] bit_set(p.injected, j) implies !bit_set(key_state, j) && exists|i: int|
            p.layers.len() <= i < s.layers.len() && (#[trigger] s.layers[i]).key_index == j && tap_fires(s.layers[i], now) by {
        lemma_bit_facts(0, 0, 0, j);
    }
}

/// An update leaves, from the top, only layers whose keys are released,
/// enters at most one layer, and leaves the stack with its top layer's key
/// held.
pub proof fn lemma_apply_leaves_and_enters(s: MasterView, layout: &Layout, key_state: u64, now: u64)
    requires
        layout.wf(),
        layers_wf(s.layers, s.state_mask, layout.key_count(), layout.layers@.len()),
    ensures
        ({
            let p = released_phase(s, key_state, now);
            let after = apply_step(s, layout.tables(), layout.matrix@, key_state, now).0.layers;
            &&& p.layers == s.layers.take(p.layers.len() as int)
            &&& forall|i: int| p.layers.len() <= i < s.layers.len() ==> !bit_set(key_state, (#[trigger] s.layers[i]).key_index as u64)
            &&& p.layers.len() <= after.len() <= p.layers.len() + 1
            &&& forall|i: int|
                0 <= i < p.layers.len() ==> (#[trigger] after[i]).key_index == s.layers[i].key_index && after[i].layer_index
                    == s.layers[i].layer_index
            &&& after.len() > 0 ==> bit_set(key_state, after.last().key_index as u64)
        }),
{
    lemma_released_phase_keys(s, layout, key_state, now);
    let tables = layout.tables();
    let matrix = layout.matrix@;
    let p = released_phase(s, key_state, now);
    let keys = counted_keys(p);
    let after = apply_step(s, tables, matrix, key_state, now).0.layers;
    let cleared = without_top_tap(p.layers);
    assert forall|i: int| 0 <= i < p.layers.len() implies (#[trigger] cleared[i]).key_index == p.layers[i].key_index
        && cleared[i].layer_index == p.layers[i].layer_index by {
    }
    assert forall|i: int| 0 <= i < p.layers.len() implies p.layers[i] == s.layers[i] by {
        assert(s.layers.take(p.layers.len() as int)[i] == s.layers[i]);
    }
    if (keys | p.injected) != s.previous_key_state {
        let table = tables[current_layer(p.layers) as int];
        lemma_first_layer_key_found(table, matrix, keys, 0);
        match first_layer_key_from(table, matrix, keys, 0) {
            Some(k) => {
                let q = p.key_state & p.state_mask;
                lemma_bit_facts(q, !p.lock_mask, 0, k as u64);
                lemma_bit_facts(p.key_state, p.state_mask, 0, k as u64);
                assert(bit_set(p.key_state, k as u64));
                assert(after.last().key_index == k);
                assert forall|i: int| 0 <= i < p.layers.len() implies (#[trigger] after[i]).key_index == s.layers[i].key_index
                    && after[i].layer_index == s.layers[i].layer_index by {
                    assert(after[i] == cleared[i]);
                }
            },
            None => {
                if after.len() > 0 {
                    assert(after.last().key_index == p.layers.last().key_index);
                }
            },
        }
    } else {
    }
}

/// The tap keys that an update sends are keys of layers it left while
/// their tap time ran, and none of them is held in the update's key state.
pub proof fn lemma_injected_are_released_taps(s: MasterView, layout: &Layout, key_state: u64, now: u64)
    requires
        layout.wf(),
        layers_wf(s.layers, s.state_mask, layout.key_count(), layout.layers@.len()),
    ensures
        ({
            let p = released_phase(s, key_state, now);
            apply_step(s, layout.tables(), layout.matrix@, key_state, now).1 matches Some((_, _, injected)) ==> forall|j: u64|
                j < 64 && #[trigger] bit_set(injected, j) ==> !bit_set(key_state, j) && exists|i: int|
                    p.layers.len() <= i < s.layers.len() && (#[trigger] s.layers[i]).key_index == j && tap_fires(s.layers[i], now)
        }),
{
    lemma_released_phase_keys(s, layout, key_state, now);
}

} // verus!

verus! {

/// The keys that count are exactly those that hold no active layer.
pub open spec fn mask_matches_layers(layers: Seq<ActiveLayer>, state_mask: u64) -> bool {
    forall|j: u64|
        j < 64 ==> (#[trigger] bit_set(state_mask, j) <==> !exists|i: int| 0 <= i < layers.len() && (#[trigger] layers[i]).key_index == j)
}

proof fn lemma_pop_keeps_mask_match(
    layers: Seq<ActiveLayer>,
    key_state: u64,
    state_mask: u64,
    lock_mask: u64,
    injected: u64,
    saved: u64,
    now: u64,
)
    requires
        mask_matches_layers(layers, state_mask),
        forall|i: int| 0 <= i < layers.len() ==> (#[trigger] layers[i]).key_index < 64,
        forall|i: int, j: int| 0 <= i < j < layers.len() ==> (#[trigger] layers[i]).key_index != (#[trigger] layers[j]).key_index,
    ensures
        ({
            let p = pop_released_layers(layers, key_state, state_mask, lock_mask, injected, saved, now);
            mask_matches_layers(p.layers, p.state_mask)
        }),
    decreases layers.len(),
{
    if layers.len() == 0 || bit_set(key_state, layers.last().key_index as u64) {
    } else {
        let top = layers.last();
        let key = top.key_index as u64;
        let mask = state_mask | (1u64 << key);
        let rest = layers.drop_last();
        assert(layers[layers.len() - 1] == top);
        assert forall|j: u64| j < 64 implies (#[trigger] bit_set(mask, j) <==> !exists|i: int|
            0 <= i < rest.len() && (#[trigger] rest[i]).key_index == j) by {
            lemma_bit_facts(state_mask, 1u64 << key, key, j);
            let held = bit_set(state_mask, j);
            assert(bit_set(mask, j) <==> (held || j == key));
            if exists|i: int| 0 <= i < rest.len() && (#[trigger] rest[i]).key_index == j {
                let i = choose|i: int| 0 <= i < rest.len() && (#[trigger] rest[i]).key_index == j;
                assert(rest[i] == layers[i]);
                assert(layers[i].key_index != layers[layers.len() - 1].key_index);
                assert(!held);
            } else {
                if !held {
                    let i = choose|i: int| 0 <= i < layers.len() && (#[trigger] layers[i]).key_index == j;
                    if i < rest.len() {
                        assert(rest[i] == layers[i]);
                    }
                    assert(i == layers.len() - 1);
                }
            }
        }
        assert forall|i: int| 0 <= i < rest.len() implies (#[trigger] rest[i]).key_index < 64 by {
            assert(rest[i] == layers[i]);
        }
        assert forall|i: int, j: int| 0 <= i < j < rest.len() implies (#[trigger] rest[i]).key_index != (#[trigger] rest[j]).key_index by {
            assert(rest[i] == layers[i]);
            assert(rest[j] == layers[j]);
        }
        lemma_pop_keeps_mask_match(
            rest,
            key_state & !mask,
            mask,
            state_mask & saved,
            if tap_fires(top, now) {
                injected | (1u64 << key)
            } else {
                injected
            },
            saved,
            now,
        );
    }
}

/// A new state, with no active layer and every key counting, has the mask
/// of its layers.
pub proof fn lemma_new_state_mask_matches()
    ensures
        mask_matches_layers(Seq::<ActiveLayer>::empty(), !0u64),
{
    assert forall|j: u64| j < 64 implies #[trigger] bit_set(!0u64, j) by {
        lemma_bit_facts(0, 0, 0, j);
    }
}

/// An update keeps the state mask the complement of the keys of the active
/// layers: a key counts exactly when it holds no active layer.
pub proof fn lemma_apply_keeps_mask_match(s: MasterView, layout: &Layout, key_state: u64, now: u64)
    requires
        layout.wf(),
        layers_wf(s.layers, s.state_mask, layout.key_count(), layout.layers@.len()),
        mask_matches_layers(s.layers, s.state_mask),
    ensures
        ({
            let step = apply_step(s, layout.tables(), layout.matrix@, key_state, now);
            mask_matches_layers(step.0.layers, step.0.state_mask)
        }),
{
    lemma_pop_keeps_mask_match(s.layers, key_state, s.state_mask, s.lock_mask & key_state, 0, key_state, now);
    let tables = layout.tables();
    let matrix = layout.matrix@;
    let p = released_phase(s, key_state, now);
    let keys = counted_keys(p);
    let cleared = without_top_tap(p.layers);
    assert forall|i: int| 0 <= i < p.layers.len() implies (#[trigger] cleared[i]).key_index == p.layers[i].key_index by {
    }
    assert forall|j: u64| j < 64 implies (#[trigger] bit_set(p.state_mask, j) <==> !exists|i: int|
        0 <= i < cleared.len() && (#[trigger] cleared[i]).key_index == j) by {
        if exists|i: int| 0 <= i < cleared.len() && (#[trigger] cleared[i]).key_index == j {
            let i = choose|i: int| 0 <= i < cleared.len() && (#[trigger] cleared[i]).key_index == j;
            assert(p.layers[i].key_index == j);
        }
        if exists|i: int| 0 <= i < p.layers.len() && (#[trigger] p.layers[i]).key_index == j {
            let i = choose|i: int| 0 <= i < p.layers.len() && (#[trigger] p.layers[i]).key_index == j;
            assert(cleared[i].key_index == j);
        }
    }
    if (keys | p.injected) != s.previous_key_state {
        let table = tables[current_layer(p.layers) as int];
        match first_layer_key_from(table, matrix, keys, 0) {
            Some(k) => {
                lemma_first_layer_key_found(table, matrix, keys, 0);
                let after = apply_step(s, tables, matrix, key_state, now).0;
                let key = k as u64;
                assert(after.layers == cleared.push(after.layers.last()));
                assert(after.layers.last().key_index == k);
                assert(after.state_mask == p.state_mask & !(1u64 << key));
                assert forall|j: u64| j < 64 implies (#[trigger] bit_set(after.state_mask, j) <==> !exists|i: int|
                    0 <= i < after.layers.len() && (#[trigger] after.layers[i]).key_index == j) by {
                    lemma_bit_facts(p.state_mask, !(1u64 << key), key, j);
                    lemma_bit_facts(1u64 << key, 0, key, j);
                    let counts = bit_set(p.state_mask, j);
                    assert(bit_set(after.state_mask, j) <==> (counts && j != key));
                    let in_cleared = exists|i: int| 0 <= i < cleared.len() && (#[trigger] cleared[i]).key_index == j;
                    assert(counts <==> !in_cleared);
                    if exists|i: int| 0 <= i < after.layers.len() && (#[trigger] after.layers[i]).key_index == j {
                        let i = choose|i: int| 0 <= i < after.layers.len() && (#[trigger] after.layers[i]).key_index == j;
                        if i < cleared.len() {
                            assert(after.layers[i] == cleared[i]);
                            assert(in_cleared);
                        } else {
                            assert(j == key);
                        }
                    } else {
                        if in_cleared {
                            let i = choose|i: int| 0 <= i < cleared.len() && (#[trigger] cleared[i]).key_index == j;
                            assert(after.layers[i] == cleared[i]);
                        }
                        if j == key {
                            assert(after.layers[after.layers.len() - 1].key_index == j);
                        }
                    }
                }
            },
            None => {},
        }
    }
}

} // verus!

verus! {

proof fn lemma_pop_step_counts(key_state: u64, mask: u64, original: u64, key: u64)
    by (bit_vector)
    requires
        key < 64,
        (original >> key) & 1u64 != 1u64,
    ensures
        ((key_state & !(mask | (1u64 << key))) & (mask | (1u64 << key))) & !(mask & original) == 0u64,
        (original & (mask | (1u64 << key))) & !(mask & original) == 0u64,
        (mask & original) & original == mask & original,
{
}

/// Leaving released layers keeps, among the keys that count and are not
/// locked, exactly those held in the update's key state, and only locks
/// held keys.
proof fn lemma_pop_counts(
    layers: Seq<ActiveLayer>,
    key_state: u64,
    state_mask: u64,
    lock_mask: u64,
    injected: u64,
    now: u64,
    original: u64,
)
    requires
        forall|i: int|
            0 <= i < layers.len() ==> (#[trigger] layers[i]).key_index < 64 && !bit_set(state_mask, layers[i].key_index as u64)
                && (bit_set(key_state, layers[i].key_index as u64) == bit_set(original, layers[i].key_index as u64)),
        forall|i: int, j: int| 0 <= i < j < layers.len() ==> (#[trigger] layers[i]).key_index != (#[trigger] layers[j]).key_index,
        forall|j: u64| j < 64 && #[trigger] bit_set(key_state, j) ==> bit_set(original, j),
        forall|j: u64| j < 64 && #[trigger] bit_set(injected, j) ==> !bit_set(original, j),
        key_state & state_mask & !lock_mask == original & state_mask & !lock_mask,
        lock_mask & original == lock_mask,
    ensures
        ({
            let p = pop_released_layers(layers, key_state, state_mask, lock_mask, injected, original, now);
            &&& p.key_state & p.state_mask & !p.lock_mask == original & p.state_mask & !p.lock_mask
            &&& p.lock_mask & original == p.lock_mask
        }),
    decreases layers.len(),
{
    if layers.len() == 0 || bit_set(key_state, layers.last().key_index as u64) {
    } else {
        let top = layers.last();
        let key = top.key_index as u64;
        let mask = state_mask | (1u64 << key);
        let rest = layers.drop_last();
        let next_state = key_state & !mask;
        let next_injected = if tap_fires(top, now) {
            injected | (1u64 << key)
        } else {
            injected
        };
        assert(layers[layers.len() - 1] == top);
        assert(!bit_set(original, key));
        lemma_pop_step_counts(key_state, state_mask, original, key);
        assert forall|i: int| 0 <= i < rest.len() implies (#[trigger] rest[i]).key_index < 64 && !bit_set(mask, rest[i].key_index as u64)
            && (bit_set(next_state, rest[i].key_index as u64) == bit_set(original, rest[i].key_index as u64)) by {
            assert(rest[i] == layers[i]);
            assert(layers[i].key_index != layers[layers.len() - 1].key_index);
            let j = rest[i].key_index as u64;
            lemma_bit_facts(state_mask, 1u64 << key, key, j);
            lemma_bit_facts(key_state, !mask, key, j);
            lemma_bit_facts(mask, 0, key, j);
        }
        assert forall|i: int, j: int| 0 <= i < j < rest.len() implies (#[trigger] rest[i]).key_index != (#[trigger] rest[j]).key_index by {
            assert(rest[i] == layers[i]);
            assert(rest[j] == layers[j]);
        }
        assert forall|j: u64| j < 64 && #[trigger] bit_set(next_state, j) implies bit_set(original, j) by {
            lemma_bit_facts(key_state, !mask, key, j);
            assert(bit_set(key_state, j));
        }
        assert forall|j: u64| j < 64 && #[trigger] bit_set(next_injected, j) implies !bit_set(original, j) by {
            lemma_bit_facts(injected, 1u64 << key, key, j);
            if bit_set(injected, j) {
                assert(!bit_set(original, j));
            } else {
                assert(j == key);
            }
        }
        lemma_pop_counts(rest, next_state, mask, state_mask & original, next_injected, now, original);
    }
}

/// The same key state is not reported twice in a row: after an update that
/// reported, or that left no layer within its tap time, an update with the
/// same key state reports nothing, whatever the tick.
pub proof fn lemma_no_repeated_report(s: MasterView, layout: &Layout, key_state: u64, now: u64, later: u64)
    requires
        layout.wf(),
        layers_wf(s.layers, s.state_mask, layout.key_count(), layout.layers@.len()),
        apply_step(s, layout.tables(), layout.matrix@, key_state, now).1 is Some || released_phase(s, key_state, now).injected
            == 0,
    ensures
        ({
            let first = apply_step(s, layout.tables(), layout.matrix@, key_state, now).0;
            apply_step(first, layout.tables(), layout.matrix@, key_state, later).1 is None
        }),
{
    let tables = layout.tables();
    let matrix = layout.matrix@;
    let p = released_phase(s, key_state, now);
    let keys = counted_keys(p);
    let first = apply_step(s, tables, matrix, key_state, now).0;
    lemma_apply_leaves_and_enters(s, layout, key_state, now);
    lemma_released_phase_keys(s, layout, key_state, now);
    assert forall|j: u64| j < 64 && #[trigger] bit_set(0u64, j) implies !bit_set(key_state, j) by {
        lemma_bit_facts(0, 0, 0, j);
    }
    assert forall|i: int| 0 <= i < s.layers.len() implies #[trigger] s.layers[i].key_index < 64 by {
    }
    let lock = s.lock_mask;
    assert((lock & key_state) & key_state == lock & key_state) by (bit_vector);
    lemma_pop_counts(s.layers, key_state, s.state_mask, s.lock_mask & key_state, 0, now, key_state);
    // The second update leaves no layer: the top one is held.
    let q = released_phase(first, key_state, later);
    assert(q.layers == first.layers && q.key_state == key_state && q.state_mask == first.state_mask && q.lock_mask == (
    first.lock_mask & key_state) && q.injected == 0);
    assert(0u64 | 0u64 == 0u64) by (bit_vector);
    if (keys | p.injected) != s.previous_key_state {
        let table = tables[current_layer(p.layers) as int];
        match first_layer_key_from(table, matrix, keys, 0) {
            Some(k) => {
                let m = p.state_mask & !(1u64 << (k as u64));
                assert(first.state_mask == m && first.lock_mask == m & key_state);
                assert((key_state & m) & !((m & key_state) & key_state) == 0u64) by (bit_vector);
                let z = counted_keys(q);
                assert(z == 0u64);
                assert(z | q.injected == 0u64);
                assert(first.previous_key_state == 0u64);
            },
            None => {
                assert(first.state_mask == p.state_mask && first.lock_mask == p.lock_mask);
                assert(first.previous_key_state == keys);
                let l = p.lock_mask;
                let m = p.state_mask;
                assert((key_state & m) & !(l & key_state) == key_state & m & !l) by (bit_vector)
                    requires
                        l & key_state == l;
                assert(counted_keys(q) == keys);
                let z = counted_keys(q);
                assert(z | 0u64 == z) by (bit_vector);
            },
        }
    } else {
        assert(p.injected == 0);
        assert(keys | 0u64 == keys) by (bit_vector);
        let l = p.lock_mask;
        let m = p.state_mask;
        assert((key_state & m) & !(l & key_state) == key_state & m & !l) by (bit_vector)
            requires
                l & key_state == l;
        let z = counted_keys(q);
        assert(z | 0u64 == z) by (bit_vector);
    }
}

} // verus!

verus! {

/// The mapping of the key that holds `layers[i]`, in the table of the layer
/// on which that key was pressed: the layer just below it in the stack.
pub open spec fn entering_mapping(layers: Seq<ActiveLayer>, i: int, tables: Seq<Seq<Mapping>>, matrix: Seq<usize>) -> Mapping {
    tables[current_layer(layers.take(i)) as int][matrix[layers[i].key_index as int] as int]
}

/// Only a layer entered by a tap-layer key can send a tap: every active
/// layer with a tap timer is held by a key mapped to `TapLayer` on the
/// layer below it.
pub open spec fn taps_are_tap_layers(layers: Seq<ActiveLayer>, tables: Seq<Seq<Mapping>>, matrix: Seq<usize>) -> bool {
    forall|i: int|
        0 <= i < layers.len() && (#[trigger] layers[i]).tap_timer is Some ==> entering_mapping(layers, i, tables, matrix) is TapLayer
}

/// A layer that an update enters is the layer its key's mapping names, on
/// the layer the key was pressed on, and it carries a tap timer, set to the
/// update's tick, exactly when that mapping is a tap-layer key: a plain
/// layer key never gets one.
pub proof fn lemma_entered_layer_tap_timer(s: MasterView, layout: &Layout, key_state: u64, now: u64)
    requires
        layout.wf(),
        layers_wf(s.layers, s.state_mask, layout.key_count(), layout.layers@.len()),
    ensures
        ({
            let p = released_phase(s, key_state, now);
            let after = apply_step(s, layout.tables(), layout.matrix@, key_state, now).0.layers;
            let mapping = layout.tables()[current_layer(p.layers) as int][layout.matrix@[after.last().key_index as int] as int];
            after.len() == p.layers.len() + 1 ==> {
                &&& mapping.layer_target() == Some(after.last().layer_index)
                &&& (after.last().tap_timer is Some <==> mapping is TapLayer)
                &&& after.last().tap_timer is Some ==> after.last().tap_timer == Some(now)
            }
        }),
{
    let tables = layout.tables();
    let matrix = layout.matrix@;
    let p = released_phase(s, key_state, now);
    let keys = counted_keys(p);
    lemma_pop_keeps_wf(s.layers, key_state, s.state_mask, s.lock_mask & key_state, 0, key_state, now, layout.key_count(), layout.layers@.len());
    if (keys | p.injected) != s.previous_key_state {
        let table = tables[current_layer(p.layers) as int];
        lemma_first_layer_key_found(table, matrix, keys, 0);
        match first_layer_key_from(table, matrix, keys, 0) {
            Some(k) => {
                let after = apply_step(s, tables, matrix, key_state, now).0.layers;
                assert(after.last().key_index == k);
                assert(without_top_tap(p.layers).len() == p.layers.len());
            },
            None => {
                assert(without_top_tap(p.layers).len() == p.layers.len());
            },
        }
    }
}

/// Every update keeps the rule that only layers entered by tap-layer keys
/// carry a tap timer.
pub proof fn lemma_apply_keeps_taps_tap_layers(s: MasterView, layout: &Layout, key_state: u64, now: u64)
    requires
        layout.wf(),
        layers_wf(s.layers, s.state_mask, layout.key_count(), layout.layers@.len()),
        taps_are_tap_layers(s.layers, layout.tables(), layout.matrix@),
    ensures
        taps_are_tap_layers(apply_step(s, layout.tables(), layout.matrix@, key_state, now).0.layers, layout.tables(), layout.matrix@),
{
    let tables = layout.tables();
    let matrix = layout.matrix@;
    lemma_apply_leaves_and_enters(s, layout, key_state, now);
    lemma_entered_layer_tap_timer(s, layout, key_state, now);
    let p = released_phase(s, key_state, now);
    let keys = counted_keys(p);
    let after = apply_step(s, tables, matrix, key_state, now).0.layers;
    lemma_pop_keeps_wf(s.layers, key_state, s.state_mask, s.lock_mask & key_state, 0, key_state, now, layout.key_count(), layout.layers@.len());
    assert forall|i: int| 0 <= i < p.layers.len() implies current_layer(after.take(i)) == current_layer(s.layers.take(i))
        && (after[i].tap_timer is Some ==> s.layers[i].tap_timer is Some) by {
        assert(s.layers.take(p.layers.len() as int)[i] == s.layers[i]);
        if i > 0 {
            assert(after.take(i).last() == after[i - 1]);
            assert(s.layers.take(i).last() == s.layers[i - 1]);
        }
        if (keys | p.injected) != s.previous_key_state {
            let table = tables[current_layer(p.layers) as int];
            if first_layer_key_from(table, matrix, keys, 0) is Some {
                assert(after[i] == without_top_tap(p.layers)[i]);
            } else if keys != 0 {
                assert(after[i] == without_top_tap(p.layers)[i]);
            }
        }
    }
    assert forall|i: int|
        0 <= i < after.len() && (#[trigger] after[i]).tap_timer is Some implies entering_mapping(after, i, tables, matrix) is TapLayer by {
        if i < p.layers.len() {
            assert(s.layers[i].tap_timer is Some);
            assert(entering_mapping(s.layers, i, tables, matrix) is TapLayer);
            assert(entering_mapping(after, i, tables, matrix) == entering_mapping(s.layers, i, tables, matrix));
        } else {
            let cleared = without_top_tap(p.layers);
            assert(after.take(i) =~= cleared);
            if p.layers.len() > 0 {
                assert(cleared.last().layer_index == p.layers.last().layer_index);
            }
        }
    }
}

/// Every tap key that an update sends is the key of a layer it left, and
/// that key is mapped to `TapLayer`, which has a keycode, on the layer it
/// was pressed on: releasing a plain layer key sends nothing.
pub proof fn lemma_injected_taps_have_keycodes(s: MasterView, layout: &Layout, key_state: u64, now: u64)
    requires
        layout.wf(),
        layers_wf(s.layers, s.state_mask, layout.key_count(), layout.layers@.len()),
        taps_are_tap_layers(s.layers, layout.tables(), layout.matrix@),
    ensures
        ({
            let p = released_phase(s, key_state, now);
            apply_step(s, layout.tables(), layout.matrix@, key_state, now).1 matches Some((_, _, injected)) ==> forall|j: u64|
                j < 64 && #[trigger] bit_set(injected, j) ==> exists|i: int|
                    p.layers.len() <= i < s.layers.len() && (#[trigger] s.layers[i]).key_index == j
                        && entering_mapping(s.layers, i, layout.tables(), layout.matrix@) is TapLayer
                        && entering_mapping(s.layers, i, layout.tables(), layout.matrix@).has_keycode()
        }),
{
    lemma_injected_are_released_taps(s, layout, key_state, now);
}

} // verus!

pub mod actions;
pub mod codes;

use vstd::prelude::*;

use crate::flash::BondSlot;

verus! {

/// Index of a layer in a keyboard's layer table.
#[derive(Clone, Copy, Debug, PartialEq, Eq, Structural)]
pub struct Layer(pub usize);

/// Actions of special keys. Animations and callbacks are named by their
/// index in the keyboard's own tables.
#[derive(Clone, Copy, Debug, PartialEq, Eq, Structural)]
pub enum SpecialAction {
    RemoveBond { bond_slot: BondSlot },
    SwitchAnimation { index: usize, animation: usize },
    Callback(usize),
}

/// What a key does on a given layer.
#[derive(Clone, Copy, Debug, PartialEq, Eq, Structural)]
pub enum Mapping {
    /// Sends the keycode.
    Key(u8),
    /// Activates the layer while held.
    Layer(usize),
    /// Activates the layer while held; sends the keycode when tapped.
    TapLayer(usize, u8),
    Special(SpecialAction),
}

impl Mapping {
    /// Whether the mapping can be sent as a regular key.
    pub open spec fn has_keycode(self) -> bool {
        self is Key || self is TapLayer
    }

    pub open spec fn spec_keycode(self) -> u8 {
        match self {
            Mapping::Key(value) => value,
            Mapping::TapLayer(_, value) => value,
            _ => 0,
        }
    }

    /// The layer that the mapping activates while held, if any.
    pub open spec fn layer_target(self) -> Option<usize> {
        match self {
            Mapping::Layer(layer) => Some(layer),
            Mapping::TapLayer(layer, _) => Some(layer),
            _ => None,
        }
    }

    pub fn layer(layer: Layer) -> (mapping: Self)
        ensures
            mapping == Mapping::Layer(layer.0),
    {
        Mapping::Layer(layer.0)
    }

    /// A layer key that sends the keycode of `mapping` when tapped.
    pub fn tap_layer(layer: Layer, mapping: Mapping) -> (tap: Self)
        requires
            mapping.has_keycode(),
        ensures
            tap == Mapping::TapLayer(layer.0, mapping.spec_keycode()),
    {
        Mapping::TapLayer(layer.0, mapping.keycode())
    }

    /// The keycode sent for the mapping. Layer and special keys have none.
    pub fn keycode(&self) -> (value: u8)
        requires
            self.has_keycode(),
        ensures
            value == self.spec_keycode(),
    {
        match self {
            Mapping::Key(value) => *value,
            Mapping::TapLayer(_, value) => *value,
            Mapping::Layer(..) => {
                proof {
                    assert(false);
                }
                0
            },
            Mapping::Special(..) => {
                proof {
                    assert(false);
                }
                0
            },
        }
    }

    /// The layer a held key activates, if any.
    pub fn held_layer(&self) -> (layer: Option<usize>)
        ensures
            layer == self.layer_target(),
    {
        match self {
            Mapping::Layer(layer) => Some(*layer),
            Mapping::TapLayer(layer, _) => Some(*layer),
            _ => None,
        }
    }
}


/// The key tables of a keyboard: one table per layer, and the matrix that
/// tells for every key index which entry of a table belongs to it.
pub struct Layout {
    pub layers: Vec<Vec<Mapping>>,
    pub matrix: Vec<usize>,
}

impl Layout {
    /// The layer tables as sequences.
    pub open spec fn tables(&self) -> Seq<Seq<Mapping>> {
        Seq::new(self.layers@.len(), |l: int| self.layers@[l]@)
    }

    /// Number of keys covered by the layout.
    pub open spec fn key_count(&self) -> nat {
        self.matrix@.len()
    }

    /// A usable layout: at least one layer, at most 64 keys (one bit each in
    /// a key state), tables of one entry per key, matrix entries inside the
    /// tables and layer keys that name existing layers.
    pub open spec fn wf(&self) -> bool {
        &&& self.layers@.len() >= 1
        &&& self.matrix@.len() <= 64
        &&& forall|l: int| 0 <= l < self.layers@.len() ==> #[trigger] self.layers@[l]@.len()
            == self.matrix@.len()
        &&& forall|k: int| 0 <= k < self.matrix@.len() ==> #[trigger] self.matrix@[k] < self.matrix@.len()
        &&& forall|l: int, i: int|
            0 <= l < self.layers@.len() && 0 <= i < self.layers@[l]@.len() && (
            #[trigger] self.layers@[l]@[i]).layer_target() is Some ==> self.layers@[l]@[i].layer_target()->0
                < self.layers@.len()
    }

    /// Number of keys covered by the layout.
    pub fn key_total(&self) -> (count: usize)
        ensures
            count == self.key_count(),
    {
        self.matrix.len()
    }
}

} // verus!

use vstd::prelude::*;

use crate::interface::MAXIMUM_ACTIVE_LAYERS;

verus! {

/// A layer activated by holding a key.
#[derive(Debug, Clone, Copy)]
pub struct ActiveLayer {
    pub layer_index: usize,
    pub key_index: usize,
    /// Tick at which a tap-layer key was pressed, while its tap action can
    /// still fire.
    pub tap_timer: Option<u64>,
}

/// The stack of active layers, held in a `heapless::Vec` of capacity
/// `MAXIMUM_ACTIVE_LAYERS` (6).
#[verifier::external_body]
pub struct ActiveLayers {
    inner: heapless::Vec<ActiveLayer, 6>,
}

/// The layers in an `ActiveLayers`, the bottom of the stack first.
pub uninterp spec fn active_layer_entries(layers: ActiveLayers) -> Seq<ActiveLayer>;

impl ActiveLayers {
    /// `heapless::Vec::new`: an empty vector.
    #[verifier::external_body]
    pub(crate) fn new() -> (layers: Self)
        ensures
            active_layer_entries(layers) == Seq::<ActiveLayer>::empty(),
    {
        ActiveLayers { inner: heapless::Vec::new() }
    }

    /// The slice length of the `heapless::Vec`: its number of elements,
    /// which never exceeds the capacity.
    #[verifier::external_body]
    pub(crate) fn len(&self) -> (count: usize)
        ensures
            count == active_layer_entries(*self).len(),
            count <= MAXIMUM_ACTIVE_LAYERS,
    {
        self.inner.len()
    }

    /// The slice method `last` on the `heapless::Vec`: the top element, if
    /// any, copied out.
    #[verifier::external_body]
    pub(crate) fn last(&self) -> (top: Option<ActiveLayer>)
        ensures
            active_layer_entries(*self).len() == 0 ==> top is None,
            active_layer_entries(*self).len() > 0 ==> top == Some(
                active_layer_entries(*self).last(),
            ),
    {
        self.inner.last().copied()
    }

    /// `heapless::Vec::pop`: removes and returns the top element, if any.
    #[verifier::external_body]
    pub(crate) fn pop(&mut self) -> (top: Option<ActiveLayer>)
        ensures
            active_layer_entries(*old(self)).len() == 0 ==> top is None && active_layer_entries(
                *final(self),
            ) == active_layer_entries(*old(self)),
            active_layer_entries(*old(self)).len() > 0 ==> top == Some(
                active_layer_entries(*old(self)).last(),
            ) && active_layer_entries(*final(self)) == active_layer_entries(
                *old(self),
            ).drop_last(),
    {
        self.inner.pop()
    }

    /// `heapless::Vec::push`: appends the element if there is room, and
    /// otherwise hands it back and leaves the vector unchanged.
    #[verifier::external_body]
    pub(crate) fn push(&mut self, layer: ActiveLayer) -> (result: Result<(), ActiveLayer>)
        ensures
            active_layer_entries(*old(self)).len() < MAXIMUM_ACTIVE_LAYERS ==> (result is Ok
                && active_layer_entries(*final(self)) == active_layer_entries(*old(self)).push(layer)),
            active_layer_entries(*old(self)).len() >= MAXIMUM_ACTIVE_LAYERS ==> (result == Err::<(), ActiveLayer>(layer)
                && active_layer_entries(*final(self)) == active_layer_entries(*old(self))),
    {
        self.inner.push(layer)
    }

    /// Cancels the pending tap action of the top layer, if there is one.
    pub(crate) fn clear_top_tap_timer(&mut self)
        ensures
            active_layer_entries(*final(self)) == without_top_tap(active_layer_entries(*old(self))),
    {
        if self.len() > 0 {
            if let Some(top) = self.pop() {
                let cleared = ActiveLayer { tap_timer: None, ..top };
                let _ = self.push(cleared);
                proof {
                    assert(active_layer_entries(*old(self)).drop_last().push(cleared)
                        =~= without_top_tap(active_layer_entries(*old(self))));
                }
            }
        }
    }
}

/// The stack with the tap action of its top layer cancelled.
pub open spec fn without_top_tap(layers: Seq<ActiveLayer>) -> Seq<ActiveLayer> {
    if layers.len() == 0 {
        layers
    } else {
        layers.update(layers.len() - 1, ActiveLayer { tap_timer: None, ..layers.last() })
    }
}

} // verus!

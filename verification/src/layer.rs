//! Shell-layer surfaces (panels, overlays) and the layer map of an output.

use crate::surface::Registry;
use crate::surface::SurfaceId;
use crate::surface::SurfaceRegistry;
use vstd::prelude::*;

verus! {

/// The stacking layer of a layer surface, lowest first.
#[derive(Clone, Copy, Debug, PartialEq, Eq)]
pub enum Layer {
    Background,
    Bottom,
    Top,
    Overlay,
}

/// Whether and how a layer surface takes keyboard focus.
#[derive(Clone, Copy, Debug, PartialEq, Eq)]
pub enum KeyboardInteractivity {
    Disabled,
    Exclusive,
    OnDemand,
}

/// A shell-layer surface with the state its client committed.
#[derive(Clone, Copy, Debug, PartialEq, Eq)]
pub struct LayerSurface {
    pub surface: SurfaceId,
    pub layer: Layer,
    pub keyboard_interactivity: KeyboardInteractivity,
    pub exclusive_zone: i32,
}

impl LayerSurface {
    /// A layer surface asks for keyboard focus when it sits on the top or
    /// overlay layer and is keyboard-interactive.
    pub open spec fn spec_wants_focus(&self) -> bool {
        (self.layer == Layer::Top || self.layer == Layer::Overlay) && self.keyboard_interactivity
            != KeyboardInteractivity::Disabled
    }

    pub fn wants_focus(&self) -> (b: bool)
        ensures
            b == self.spec_wants_focus(),
    {
        let high = match self.layer {
            Layer::Top => true,
            Layer::Overlay => true,
            _ => false,
        };
        let interactive = match self.keyboard_interactivity {
            KeyboardInteractivity::Disabled => false,
            _ => true,
        };
        high && interactive
    }
}

/// The layer surfaces mapped on one output, in mapping order.
pub struct LayerMap {
    pub layers: Vec<LayerSurface>,
    /// Set when the map changed and the geometry of its layers has to be
    /// computed anew.
    pub needs_arrange: bool,
}

/// The position of the layer with surface `surface` in `layers`, if any.
pub open spec fn has_layer(layers: Seq<LayerSurface>, surface: SurfaceId) -> bool {
    exists|i: int| 0 <= i < layers.len() && #[trigger] layers[i].surface == surface
}

/// The predicate that holds of the layers whose surface `registry` records as alive.
pub open spec fn layer_live_in(registry: Registry) -> spec_fn(LayerSurface) -> bool {
    |l: LayerSurface| registry.alive(l.surface)
}

/// The predicate that holds of the layers with another surface than `surface`.
pub open spec fn layer_is_not(surface: SurfaceId) -> spec_fn(LayerSurface) -> bool {
    |l: LayerSurface| l.surface != surface
}

impl LayerMap {
    pub fn new() -> (map: LayerMap)
        ensures
            map.layers@ == Seq::<LayerSurface>::empty(),
            !map.needs_arrange,
    {
        LayerMap { layers: Vec::new(), needs_arrange: false }
    }

    /// The layer whose surface is `surface`, if it is mapped here.
    pub fn layer_for_surface(&self, surface: SurfaceId) -> (found: Option<LayerSurface>)
        ensures
            match found {
                Some(l) => l.surface == surface && self.layers@.contains(l),
                None => !has_layer(self.layers@, surface),
            },
    {
        let mut i: usize = 0;
        while i < self.layers.len()
            invariant
                i <= self.layers@.len(),
                forall|j: int| 0 <= j < i ==> (#[trigger] self.layers@[j]).surface != surface,
            decreases self.layers@.len() - i,
        {
            if self.layers[i].surface == surface {
                return Some(self.layers[i]);
            }
            i += 1;
        }
        None
    }

    /// Maps a layer surface: an earlier mapping of the same surface is
    /// replaced, the new one goes last, and the map is due for arranging.
    pub fn map_layer(&mut self, layer: LayerSurface)
        ensures
            final(self).layers@ == old(self).layers@.filter(layer_is_not(layer.surface)).push(
                layer,
            ),
            final(self).needs_arrange,
    {
        let mut kept: Vec<LayerSurface> = Vec::new();
        let mut i: usize = 0;
        assert(self.layers@.take(0) =~= Seq::<LayerSurface>::empty());
        while i < self.layers.len()
            invariant
                i <= self.layers@.len(),
                *self == *old(self),
                kept@ == self.layers@.take(i as int).filter(layer_is_not(layer.surface)),
            decreases self.layers@.len() - i,
        {
            let l = self.layers[i];
            proof {
                assert(self.layers@.take(i + 1) =~= self.layers@.take(i as int).push(l));
                self.layers@.take(i as int).lemma_filter_push(l, layer_is_not(layer.surface));
            }
            if l.surface != layer.surface {
                kept.push(l);
            }
            i += 1;
        }
        assert(self.layers@.take(i as int) =~= self.layers@);
        kept.push(layer);
        self.layers = kept;
        self.needs_arrange = true;
    }

    /// Marks the map as due for arranging.
    pub fn arrange(&mut self)
        ensures
            final(self).layers == old(self).layers,
            final(self).needs_arrange,
    {
        self.needs_arrange = true;
    }

    /// Says whether the map is due for arranging, and marks it as arranged.
    pub fn take_arrange(&mut self) -> (due: bool)
        ensures
            due == old(self).needs_arrange,
            final(self).layers == old(self).layers,
            !final(self).needs_arrange,
    {
        let due = self.needs_arrange;
        self.needs_arrange = false;
        due
    }

    /// Drops the layers whose surface is dead.
    pub fn cleanup(&mut self, surfaces: &SurfaceRegistry)
        ensures
            final(self).layers@ == old(self).layers@.filter(layer_live_in(surfaces.model())),
            final(self).needs_arrange == old(self).needs_arrange,
    {
        let mut kept: Vec<LayerSurface> = Vec::new();
        let mut i: usize = 0;
        assert(self.layers@.take(0) =~= Seq::<LayerSurface>::empty());
        while i < self.layers.len()
            invariant
                i <= self.layers@.len(),
                *self == *old(self),
                kept@ == self.layers@.take(i as int).filter(layer_live_in(surfaces.model())),
            decreases self.layers@.len() - i,
        {
            let l = self.layers[i];
            proof {
                assert(self.layers@.take(i + 1) =~= self.layers@.take(i as int).push(l));
                self.layers@.take(i as int).lemma_filter_push(l, layer_live_in(surfaces.model()));
            }
            if surfaces.is_alive(l.surface) {
                kept.push(l);
            }
            i += 1;
        }
        assert(self.layers@.take(i as int) =~= self.layers@);
        self.layers = kept;
    }
}

} // verus!

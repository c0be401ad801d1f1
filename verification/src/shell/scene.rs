//! Mapping windows into the active workspace, and the housekeeping of a frame.

use crate::layer::layer_live_in;
use crate::output::Output;
use crate::output::OutputView;
use crate::output::Point;
use crate::shell::Shell;
use crate::shell::ShellView;
use crate::space::raised;
use crate::surface::SurfaceId;
use vstd::prelude::*;

verus! {

/// The origin of the logical coordinate space.
pub open spec fn origin() -> Point {
    Point { x: 0, y: 0 }
}

impl ShellView {
    /// The shell after the housekeeping of one frame: that of the active
    /// workspace, then the layers with a dead surface leave each output.
    pub open spec fn refresh(self, order: Seq<Seq<char>>) -> ShellView {
        let active = self.active();
        ShellView {
            workspaces: self.workspaces.update(0, active.refreshed(self.registry, order)),
            registry: active.shown(self.registry).refreshed(order, active.outputs).registry,
            outputs: Seq::new(
                self.outputs.len(),
                |i: int|
                    OutputView {
                        layers: self.outputs[i].layers.filter(layer_live_in(self.registry)),
                        ..self.outputs[i]
                    },
            ),
            ..self
        }
    }

    /// The shell after `window` was mapped into the active workspace at the
    /// origin and raised. A window is in one scene at most: it leaves the
    /// scene of every other workspace.
    pub open spec fn map_window(self, window: SurfaceId) -> ShellView {
        ShellView {
            workspaces: Seq::new(
                self.workspaces.len(),
                |i: int|
                    if i == 0 {
                        self.workspaces[i].map_window(window, origin())
                    } else {
                        self.workspaces[i].unmap_window(window)
                    },
            ),
            ..self
        }
    }
}

impl Shell {
    /// Maps `window` into the active workspace at the origin and raises it.
    /// Should another workspace hold the window, it leaves that one.
    pub fn map_window(&mut self, window: SurfaceId, _output: Option<&Output>)
        requires
            old(self).wf(),
        ensures
            final(self).wf(),
            final(self)@ == old(self)@.map_window(window),
    {
        self.workspaces[0].space.map_window(window, Point { x: 0, y: 0 });
        let mut i: usize = 1;
        while i < self.workspaces.len()
            invariant
                self.wf(),
                1 <= i <= self.workspaces@.len(),
                self.workspaces@.len() == old(self).workspaces@.len(),
                self.outputs == old(self).outputs,
                self.popups == old(self).popups,
                self.pending_windows == old(self).pending_windows,
                self.pending_layers == old(self).pending_layers,
                self.surfaces == old(self).surfaces,
                self.workspaces@[0]@ == old(self)@.workspaces[0].map_window(window, origin()),
                forall|k: int|
                    1 <= k < i ==> (#[trigger] self.workspaces@[k])@ == old(
                        self,
                    )@.workspaces[k].unmap_window(window),
                forall|k: int|
                    i <= k < self.workspaces@.len() ==> (#[trigger] self.workspaces@[k])@ == old(
                        self,
                    )@.workspaces[k],
            decreases self.workspaces@.len() - i,
        {
            self.workspaces[i].space.unmap_window(window);
            i += 1;
        }
        assert(self@.workspaces =~= old(self)@.map_window(window).workspaces);
    }
    /// The housekeeping of one frame. In the active workspace a window whose
    /// output is gone leaves fullscreen, the fullscreen entries of dead windows
    /// go, and dead windows leave the scene; then the layers with a dead
    /// surface leave the layer map of each output.
    pub fn refresh(&mut self)
        requires
            old(self).wf(),
        ensures
            final(self).wf(),
            final(self)@ == old(self)@.refresh(old(self).workspaces@[0].fullscreen.order()),
            forall|name: Seq<char>| #[trigger]
                final(self)@.active().fullscreen.contains_key(name) ==> {
                    &&& old(self)@.active().outputs.contains_key(name)
                    &&& final(self)@.registry.alive(final(self)@.active().fullscreen[name])
                },
    {
        self.workspaces[0].refresh(&mut self.surfaces);
        let ghost registry = old(self)@.registry;
        assert forall|w: SurfaceId|
            self.surfaces.model().alive(w) == #[trigger] registry.alive(w) by {
            assert(self.surfaces.alive(w) == old(self).surfaces.alive(w));
        }
        assert(layer_live_in(self.surfaces.model()) =~= layer_live_in(registry));
        let ghost swept = *self;
        let mut i: usize = 0;
        while i < self.outputs.len()
            invariant
                self.wf(),
                self.workspaces == swept.workspaces,
                self.surfaces == swept.surfaces,
                i <= self.outputs@.len(),
                self.outputs@.len() == old(self).outputs@.len(),
                self.workspaces@.len() == old(self).workspaces@.len(),
                self.workspaces@ == old(self).workspaces@.update(0, self.workspaces@[0]),
                self.popups == old(self).popups,
                self.pending_windows == old(self).pending_windows,
                self.pending_layers == old(self).pending_layers,
                layer_live_in(self.surfaces.model()) == layer_live_in(registry),
                forall|k: int|
                    0 <= k < i ==> (#[trigger] self.outputs@[k])@ == (OutputView {
                        layers: old(self)@.outputs[k].layers.filter(layer_live_in(registry)),
                        ..old(self)@.outputs[k]
                    }),
                forall|k: int|
                    i <= k < self.outputs@.len() ==> #[trigger] self.outputs@[k] == old(
                        self,
                    ).outputs@[k],
            decreases self.outputs@.len() - i,
        {
            self.outputs[i].layers.cleanup(&self.surfaces);
            i += 1;
        }
        proof {
            let spec = old(self)@.refresh(old(self).workspaces@[0].fullscreen.order());
            assert(crate::surface::is_live(old(self).surfaces) == crate::surface::live_in(
                registry,
            ));
            assert(Set::new(|w: SurfaceId| old(self).surfaces.alive(w)) =~= Set::new(
                |w: SurfaceId| registry.alive(w),
            ));
            assert(self@.workspaces[0] =~~= spec.workspaces[0]);
            assert(self@.workspaces =~= spec.workspaces);
            assert(self@.outputs =~= spec.outputs);
            assert(self@.pending_layers =~= spec.pending_layers);
        }
    }
}

} // verus!

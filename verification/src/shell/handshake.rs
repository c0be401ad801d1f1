//! The commit handshake: a surface is configured first, and mapped only once
//! it carries content.

use crate::input::Seat;
use crate::layer::LayerSurface;
use crate::layer::layer_is_not;
use crate::messages::SeatId;
use crate::messages::Serial;
use crate::output::OutputView;
use crate::seq_facts::first_index;
use crate::shell::PendingLayer;
use crate::shell::PendingLayerView;
use crate::shell::PendingWindow;
use crate::shell::Popup;
use crate::shell::PositionerState;
use crate::shell::Shell;
use crate::shell::ShellView;
use crate::shell::activation::focus_granted;
use crate::shell::has_layer_of;
use crate::shell::is_named;
use crate::shell::is_popup;
use crate::shell::scene::origin;
use crate::shell::seat_is;
use crate::shell::seat_position;
use crate::shell::waits_as_layer;
use crate::shell::waits_as_window;
use crate::space::raised;
use crate::surface::Phase;
use crate::surface::Registry;
use crate::surface::Role;
use crate::surface::SurfaceId;
use crate::surface::SurfaceState;
use crate::surface::ToplevelState;
use vstd::prelude::*;

verus! {

/// The state of a toplevel that was just created: it waits for its first
/// commit, and its first configure will tell it that it is activated.
pub open spec fn new_toplevel_state() -> SurfaceState {
    SurfaceState {
        pending: ToplevelState { activated: true, fullscreen: false, size: None },
        ..crate::surface::fresh_state(Role::Toplevel)
    }
}

/// What a commit led to.
#[derive(Clone, Copy, Debug, PartialEq, Eq)]
pub enum CommitOutcome {
    /// The surface waited and had not been configured: its initial configure
    /// was due, and nothing was mapped.
    InitialConfigure,
    /// The surface waits, was configured before, and carries no content yet.
    Waiting,
    /// The surface waited, was configured before and carries content: it was
    /// promoted.
    Mapped,
    /// The surface did not wait for anything.
    Applied,
}

/// A breach of the order that the protocol prescribes; the client that
/// commits it is to be disconnected.
#[derive(Clone, Copy, Debug, PartialEq, Eq)]
pub enum ProtocolError {
    /// The surface named is no popup.
    UnknownPopup,
    /// A grab was requested for a popup before its initial configure.
    GrabBeforeConfigure,
}

impl ShellView {
    /// The shell after a client created the toplevel `surface` while `seat`
    /// was the active seat.
    pub open spec fn new_toplevel(self, surface: SurfaceId, seat: SeatId) -> ShellView {
        ShellView {
            registry: Registry {
                states: self.registry.states.insert(surface, new_toplevel_state()),
                ..self.registry
            },
            pending_windows: self.pending_windows.push(PendingWindow { window: surface, seat }),
            ..self
        }
    }

    /// The shell after a client created a layer surface for the output `output`.
    pub open spec fn new_layer_surface(
        self,
        layer: LayerSurface,
        output: Seq<char>,
        seat: SeatId,
    ) -> ShellView {
        ShellView {
            registry: Registry {
                states: self.registry.states.insert(
                    layer.surface,
                    crate::surface::fresh_state(Role::Layer),
                ),
                ..self.registry
            },
            pending_layers: self.pending_layers.push(PendingLayerView { layer, output, seat }),
            ..self
        }
    }

    /// The shell after a client created the popup `surface` on `parent`.
    pub open spec fn new_popup(
        self,
        surface: SurfaceId,
        parent: SurfaceId,
        positioner: PositionerState,
    ) -> ShellView {
        ShellView {
            registry: Registry {
                states: self.registry.states.insert(
                    surface,
                    crate::surface::fresh_state(Role::Popup),
                ),
                ..self.registry
            },
            popups: self.popups.push(Popup { surface, parent, positioner, unconstrained: false }),
            ..self
        }
    }

    /// The shell after the client of a waiting layer surface committed new
    /// state for it: the waiting entry carries the new state.
    pub open spec fn layer_state_changed(self, layer: LayerSurface) -> ShellView {
        match first_index(self.pending_layers, waits_as_layer(layer.surface)) {
            Some(p) => ShellView {
                pending_layers: self.pending_layers.update(
                    p,
                    PendingLayerView { layer, ..self.pending_layers[p] },
                ),
                ..self
            },
            None => self,
        }
    }

    /// The registry after the initial configure of `surface` was sent, if it
    /// had not been sent before. With `clear_size` the configure leaves the
    /// size to the client.
    pub open spec fn ensure_initial_configure(self, surface: SurfaceId, clear_size: bool) -> ShellView {
        if self.registry.states.contains_key(surface) && !self.registry.configured(surface) {
            let cleared = if clear_size {
                self.registry.set_pending(
                    surface,
                    ToplevelState { size: None, ..self.registry.states[surface].pending },
                )
            } else {
                self.registry
            };
            ShellView { registry: cleared.send_configure(surface), ..self }
        } else {
            self
        }
    }

    /// The shell after the waiting toplevel `surface` was promoted: it is
    /// mapped at the origin of the active workspace and raised, it waits no
    /// longer, and its handshake is complete.
    pub open spec fn promote_window(self, surface: SurfaceId) -> ShellView {
        match first_index(self.pending_windows, waits_as_window(surface)) {
            Some(p) => ShellView {
                pending_windows: self.pending_windows.remove(p),
                registry: self.registry.set_phase(surface, Phase::Mapped),
                ..self.map_window(surface)
            },
            None => self,
        }
    }

    /// The shell after the waiting layer surface `surface` was mapped: it
    /// waits no longer and stands last in the layer map of its output, which
    /// is due for arranging. If its output is not registered, it is mapped
    /// nowhere.
    pub open spec fn map_layer(self, surface: SurfaceId) -> ShellView {
        match first_index(self.pending_layers, waits_as_layer(surface)) {
            Some(p) => {
                let entry = self.pending_layers[p];
                ShellView {
                    pending_layers: self.pending_layers.remove(p),
                    outputs: match first_index(self.outputs, is_named(entry.output)) {
                        Some(k) => self.outputs.update(
                            k,
                            OutputView {
                                layers: self.outputs[k].layers.filter(
                                    layer_is_not(surface),
                                ).push(entry.layer),
                                needs_arrange: true,
                                ..self.outputs[k]
                            },
                        ),
                        None => self.outputs,
                    },
                    ..self
                }
            },
            None => self,
        }
    }

    /// The seat that is granted the keyboard focus when the waiting layer
    /// surface `surface` is mapped: the seat of its creation, if the layer
    /// asks for focus.
    pub open spec fn focus_grant(self, surface: SurfaceId) -> Option<SeatId> {
        match first_index(self.pending_layers, waits_as_layer(surface)) {
            Some(p) => if self.pending_layers[p].layer.spec_wants_focus() {
                Some(self.pending_layers[p].seat)
            } else {
                None
            },
            None => None,
        }
    }

    /// The shell after the popup `surface` was unconstrained with `positioner`.
    pub open spec fn unconstrain_popup(self, surface: SurfaceId, positioner: PositionerState) -> ShellView {
        match first_index(self.popups, is_popup(surface)) {
            Some(i) => ShellView {
                popups: self.popups.update(
                    i,
                    Popup { positioner, unconstrained: true, ..self.popups[i] },
                ),
                ..self
            },
            None => self,
        }
    }

    /// The shell after the layer map that holds `surface`, if there is one,
    /// was marked as due for arranging.
    pub open spec fn arrange_for(self, surface: SurfaceId) -> ShellView {
        match first_index(self.outputs, has_layer_of(surface)) {
            Some(k) => ShellView {
                outputs: self.outputs.update(
                    k,
                    OutputView { needs_arrange: true, ..self.outputs[k] },
                ),
                ..self
            },
            None => self,
        }
    }

    /// Whether `surface` waits to be mapped, as a toplevel or as a layer surface.
    pub open spec fn waits(self, surface: SurfaceId) -> bool {
        first_index(self.pending_windows, waits_as_window(surface)) is Some || first_index(
            self.pending_layers,
            waits_as_layer(surface),
        ) is Some
    }

    /// What a commit of `surface` leads to.
    pub open spec fn commit_outcome(self, surface: SurfaceId, has_buffer: bool) -> CommitOutcome {
        if self.waits(surface) {
            if !self.registry.configured(surface) {
                CommitOutcome::InitialConfigure
            } else if !has_buffer {
                CommitOutcome::Waiting
            } else {
                CommitOutcome::Mapped
            }
        } else {
            CommitOutcome::Applied
        }
    }

    /// The shell after the popup `surface`, if it is one and was not
    /// configured yet, was unconstrained and sent its configure.
    pub open spec fn configure_popup(self, surface: SurfaceId) -> ShellView {
        match first_index(self.popups, is_popup(surface)) {
            Some(i) => if self.registry.configured(surface) {
                self
            } else {
                self.unconstrain_popup(surface, self.popups[i].positioner).ensure_initial_configure(
                    surface,
                    false,
                )
            },
            None => self,
        }
    }

    /// The shell after the waiting layer surface `surface` was promoted: it
    /// is mapped, and its handshake is complete.
    pub open spec fn promote_layer(self, surface: SurfaceId) -> ShellView {
        if first_index(self.pending_layers, waits_as_layer(surface)) is Some {
            ShellView {
                registry: self.registry.set_phase(surface, Phase::Mapped),
                ..self.map_layer(surface)
            }
        } else {
            self
        }
    }

    /// The shell after a commit of `surface`, which carries content exactly
    /// if `has_buffer`.
    pub open spec fn commit(self, surface: SurfaceId, has_buffer: bool) -> ShellView {
        match self.commit_outcome(surface, has_buffer) {
            CommitOutcome::InitialConfigure => self.ensure_initial_configure(
                surface,
                first_index(self.pending_windows, waits_as_window(surface)) is Some,
            ),
            CommitOutcome::Waiting => self,
            _ => self.promote_window(surface).promote_layer(surface).configure_popup(
                surface,
            ).arrange_for(surface),
        }
    }

    /// The seat that a commit of `surface` grants the keyboard focus: the
    /// one that the promotion of a layer surface grants it, if the commit
    /// promotes one.
    pub open spec fn commit_grant(self, surface: SurfaceId, has_buffer: bool) -> Option<SeatId> {
        match self.commit_outcome(surface, has_buffer) {
            CommitOutcome::InitialConfigure => None,
            CommitOutcome::Waiting => None,
            _ => self.promote_window(surface).focus_grant(surface),
        }
    }

    /// Whether a grab may be started for the popup `popup`.
    pub open spec fn grab(self, popup: SurfaceId) -> Result<(), ProtocolError> {
        if first_index(self.popups, is_popup(popup)) is None {
            Err(ProtocolError::UnknownPopup)
        } else if !self.registry.configured(popup) {
            Err(ProtocolError::GrabBeforeConfigure)
        } else {
            Ok(())
        }
    }
}

impl Shell {
    /// A client created the toplevel `surface` while `seat` was the active
    /// seat. The toplevel waits for its first commit; nothing is sent yet.
    pub fn new_toplevel(&mut self, surface: SurfaceId, seat: SeatId)
        requires
            old(self).wf(),
        ensures
            final(self).wf(),
            final(self)@ == old(self)@.new_toplevel(surface, seat),
    {
        self.surfaces.register(surface, Role::Toplevel);
        self.surfaces.set_pending(
            surface,
            ToplevelState { activated: true, fullscreen: false, size: None },
        );
        self.pending_windows.push(PendingWindow { window: surface, seat });
        proof {
            let spec = old(self)@.new_toplevel(surface, seat);
            assert(self@.registry.states =~= spec.registry.states);
            assert(self@.workspaces =~= spec.workspaces);
            assert(self@.outputs =~= spec.outputs);
            assert(self@.pending_layers =~= spec.pending_layers);
        }
    }

    /// A client created a layer surface for the output called `output` while
    /// `seat` was the active seat. It waits for its first commit.
    pub fn new_layer_surface(&mut self, layer: LayerSurface, output: String, seat: SeatId)
        requires
            old(self).wf(),
        ensures
            final(self).wf(),
            final(self)@ == old(self)@.new_layer_surface(layer, output@, seat),
    {
        self.surfaces.register(layer.surface, Role::Layer);
        self.pending_layers.push(PendingLayer { layer, output, seat });
        proof {
            let spec = old(self)@.new_layer_surface(layer, output@, seat);
            assert(self@.workspaces =~= spec.workspaces);
            assert(self@.outputs =~= spec.outputs);
            assert(self@.pending_layers =~= spec.pending_layers);
        }
    }

    /// The client of a layer surface committed new state for it. While the
    /// layer surface waits, the state it will be mapped with is replaced;
    /// afterwards nothing changes here.
    pub fn layer_state_changed(&mut self, layer: LayerSurface)
        requires
            old(self).wf(),
        ensures
            final(self).wf(),
            final(self)@ == old(self)@.layer_state_changed(layer),
    {
        match self.pending_layer_position(layer.surface) {
            Some(p) => {
                self.pending_layers[p].layer = layer;
                proof {
                    let spec = old(self)@.layer_state_changed(layer);
                    assert(self@.workspaces =~= spec.workspaces);
                    assert(self@.outputs =~= spec.outputs);
                    assert(self@.pending_layers =~= spec.pending_layers);
                }
            },
            None => {},
        }
    }

    /// A client created the popup `surface` on `parent`.
    pub fn new_popup(&mut self, surface: SurfaceId, parent: SurfaceId, positioner: PositionerState)
        requires
            old(self).wf(),
        ensures
            final(self).wf(),
            final(self)@ == old(self)@.new_popup(surface, parent, positioner),
    {
        self.surfaces.register(surface, Role::Popup);
        self.popups.popups.push(Popup { surface, parent, positioner, unconstrained: false });
        proof {
            let spec = old(self)@.new_popup(surface, parent, positioner);
            assert(self@.workspaces =~= spec.workspaces);
            assert(self@.outputs =~= spec.outputs);
            assert(self@.pending_layers =~= spec.pending_layers);
        }
    }

    /// Sends the initial configure of `surface` unless it was sent before,
    /// and says whether it had been sent before.
    pub fn ensure_initial_configure(&mut self, surface: SurfaceId, clear_size: bool) -> (sent: bool)
        requires
            old(self).wf(),
        ensures
            final(self).wf(),
            sent == old(self)@.registry.configured(surface),
            final(self)@ == old(self)@.ensure_initial_configure(surface, clear_size),
    {
        let sent = self.surfaces.initial_configure_sent(surface);
        if !sent {
            match self.surfaces.get(surface) {
                Some(state) => {
                    if clear_size {
                        self.surfaces.set_pending(
                            surface,
                            ToplevelState { size: None, ..state.pending },
                        );
                    }
                    self.surfaces.send_configure(surface);
                },
                None => {},
            }
        }
        proof {
            let spec = old(self)@.ensure_initial_configure(surface, clear_size);
            assert(self@.workspaces =~= spec.workspaces);
            assert(self@.outputs =~= spec.outputs);
            assert(self@.pending_layers =~= spec.pending_layers);
        }
        sent
    }

    /// Promotes the waiting toplevel `surface`: it is mapped at the origin of
    /// the active workspace and raised, and it waits no longer. For a surface
    /// that does not wait nothing happens.
    pub fn promote_window(&mut self, surface: SurfaceId)
        requires
            old(self).wf(),
        ensures
            final(self).wf(),
            final(self)@ == old(self)@.promote_window(surface),
    {
        match self.pending_window_position(surface) {
            Some(p) => {
                self.pending_windows.remove(p);
                self.map_window(surface, None);
                self.surfaces.set_phase(surface, Phase::Mapped);
                proof {
                    let spec = old(self)@.promote_window(surface);
                    assert(self@.workspaces =~= spec.workspaces);
                    assert(self@.outputs =~= spec.outputs);
                    assert(self@.pending_layers =~= spec.pending_layers);
                }
            },
            None => {},
        }
    }

    /// Maps the waiting layer surface `surface` into the layer map of its
    /// output and has the map arranged. If the layer sits on the top or
    /// overlay layer and is keyboard-interactive, the seat of its creation is
    /// given the keyboard focus at once. For a surface that does not wait
    /// nothing happens.
    pub fn map_layer(&mut self, surface: SurfaceId, seats: &mut Vec<Seat>)
        requires
            old(self).wf(),
            forall|i: int| 0 <= i < old(seats)@.len() ==> (#[trigger] old(seats)@[i]).wf(),
        ensures
            final(self).wf(),
            final(self)@ == old(self)@.map_layer(surface),
            final(seats)@.len() == old(seats)@.len(),
            forall|i: int| 0 <= i < final(seats)@.len() ==> (#[trigger] final(seats)@[i]).wf(),
            forall|i: int|
                0 <= i < final(seats)@.len() ==> if old(self)@.focus_grant(surface) matches Some(
                    id,
                ) && first_index(old(seats)@, seat_is(id)) == Some(i) {
                    focus_granted(
                        old(self)@,
                        old(seats)@[i],
                        #[trigger] final(seats)@[i],
                        Some(surface),
                    )
                } else {
                    final(seats)@[i] == old(seats)@[i]
                },
    {
        match self.pending_layer_position(surface) {
            Some(p) => {
                proof {
                    crate::seq_facts::lemma_first_index(
                        self@.pending_layers,
                        waits_as_layer(surface),
                    );
                    assert(self@.pending_layers[p as int].layer.surface == surface);
                }
                let entry = self.pending_layers.remove(p);
                assert(entry@ == old(self)@.pending_layers[p as int]);
                assert(self@.pending_layers =~= old(self)@.pending_layers.remove(p as int));
                let wants_focus = entry.layer.wants_focus();
                match self.output_position(&entry.output) {
                    Some(k) => {
                        self.outputs[k].layers.map_layer(entry.layer);
                    },
                    None => {},
                }
                proof {
                    let spec = old(self)@.map_layer(surface);
                    assert(self@.workspaces =~= spec.workspaces);
                    assert(self@.outputs =~= spec.outputs);
                    assert(self@.pending_layers =~= spec.pending_layers);
                }
                if wants_focus {
                    match seat_position(seats, entry.seat) {
                        Some(q) => {
                            proof {
                                assert(forall|idx: u8|
                                    self@.stack_after_focus(
                                        old(seats)@[q as int].focus.stack(idx),
                                        idx,
                                        Some(surface),
                                    ) == old(self)@.stack_after_focus(
                                        #[trigger] old(seats)@[q as int].focus.stack(idx),
                                        idx,
                                        Some(surface),
                                    ));
                            }
                            self.set_focus(Some(surface), &mut seats[q]);
                        },
                        None => {},
                    }
                }
            },
            None => {},
        }
    }

    /// Unconstrains the popup `surface` against its parent with `positioner`.
    /// Where the popup ends up is decided elsewhere; the shell records that
    /// it was unconstrained, and with which positioner.
    pub fn unconstrain_popup(&mut self, surface: SurfaceId, positioner: PositionerState)
        requires
            old(self).wf(),
        ensures
            final(self).wf(),
            final(self)@ == old(self)@.unconstrain_popup(surface, positioner),
    {
        match self.find_popup(surface) {
            Some(i) => {
                let popup = self.popups.popups[i];
                self.popups.popups[i] = Popup { positioner, unconstrained: true, ..popup };
                proof {
                    let spec = old(self)@.unconstrain_popup(surface, positioner);
                    assert(self@.popups =~= spec.popups);
                    assert(self@.workspaces =~= spec.workspaces);
                    assert(self@.outputs =~= spec.outputs);
                    assert(self@.pending_layers =~= spec.pending_layers);
                }
            },
            None => {},
        }
    }

    /// Marks the layer map that holds `surface`, if there is one, as due for
    /// arranging.
    pub fn arrange_for(&mut self, surface: SurfaceId)
        requires
            old(self).wf(),
        ensures
            final(self).wf(),
            final(self)@ == old(self)@.arrange_for(surface),
    {
        match self.output_with_layer(surface) {
            Some(k) => {
                self.outputs[k].layers.arrange();
                proof {
                    let spec = old(self)@.arrange_for(surface);
                    assert(self@.workspaces =~= spec.workspaces);
                    assert(self@.outputs =~= spec.outputs);
                    assert(self@.pending_layers =~= spec.pending_layers);
                }
            },
            None => {},
        }
    }
    /// Unconstrains the popup `surface` and sends its configure, unless it
    /// was configured before. For a surface that is no popup nothing happens.
    pub fn configure_popup(&mut self, surface: SurfaceId)
        requires
            old(self).wf(),
        ensures
            final(self).wf(),
            final(self)@ == old(self)@.configure_popup(surface),
    {
        match self.find_popup(surface) {
            Some(i) => {
                if !self.surfaces.initial_configure_sent(surface) {
                    let positioner = self.popups.popups[i].positioner;
                    self.unconstrain_popup(surface, positioner);
                    self.ensure_initial_configure(surface, false);
                }
            },
            None => {},
        }
    }

    /// Promotes the waiting layer surface `surface`: see `map_layer`;
    /// besides, its handshake is complete.
    pub fn promote_layer(&mut self, surface: SurfaceId, seats: &mut Vec<Seat>)
        requires
            old(self).wf(),
            forall|i: int| 0 <= i < old(seats)@.len() ==> (#[trigger] old(seats)@[i]).wf(),
        ensures
            final(self).wf(),
            final(self)@ == old(self)@.promote_layer(surface),
            final(seats)@.len() == old(seats)@.len(),
            forall|i: int| 0 <= i < final(seats)@.len() ==> (#[trigger] final(seats)@[i]).wf(),
            forall|i: int|
                0 <= i < final(seats)@.len() ==> if old(self)@.focus_grant(surface) matches Some(
                    id,
                ) && first_index(old(seats)@, seat_is(id)) == Some(i) {
                    focus_granted(
                        old(self)@,
                        old(seats)@[i],
                        #[trigger] final(seats)@[i],
                        Some(surface),
                    )
                } else {
                    final(seats)@[i] == old(seats)@[i]
                },
    {
        if self.pending_layer_position(surface).is_some() {
            self.map_layer(surface, seats);
            self.surfaces.set_phase(surface, Phase::Mapped);
            proof {
                let spec = old(self)@.promote_layer(surface);
                assert(self@.workspaces =~= spec.workspaces);
                assert(self@.outputs =~= spec.outputs);
                assert(self@.pending_layers =~= spec.pending_layers);
            }
        }
    }

    /// A client asks to start a grab for the popup `popup`. This is in
    /// order only once the popup was configured.
    pub fn grab(&self, popup: SurfaceId, _seat: SeatId, _serial: Serial) -> (r: Result<
        (),
        ProtocolError,
    >)
        ensures
            r == self@.grab(popup),
    {
        if self.find_popup(popup).is_none() {
            Err(ProtocolError::UnknownPopup)
        } else if !self.surfaces.initial_configure_sent(popup) {
            Err(ProtocolError::GrabBeforeConfigure)
        } else {
            Ok(())
        }
    }
}

} // verus!

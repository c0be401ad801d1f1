//! The compositor state that protocol events act on: the shell and the seats.

use crate::input::add_seat;
use crate::input::Device;
use crate::input::DeviceCapability;
use crate::input::Seat;
use crate::layer::LayerSurface;
use crate::messages::SeatId;
use crate::messages::Serial;
use crate::seq_facts::first_index;
use crate::seq_facts::lemma_first_index_absent;
use crate::seq_facts::lemma_first_index_found;
use crate::shell::activation::focus_granted;
use crate::shell::seat_is;
use crate::shell::seat_position;
use crate::shell::waits_as_layer;
use crate::shell::waits_as_window;
use crate::shell::handshake::CommitOutcome;
use crate::shell::PositionerState;
use crate::shell::handshake::ProtocolError;
use crate::shell::Shell;
use crate::shell::ShellView;
use crate::surface::SurfaceId;
use vstd::prelude::*;

verus! {

/// What is kept for each connected client.
pub struct ClientState {}

/// An event of the input backend, already classified.
pub enum InputEvent {
    DeviceAdded { device: Device },
    DeviceRemoved { device: Device },
    Keyboard,
    PointerMotion,
    PointerMotionAbsolute,
    PointerButton,
    PointerAxis,
    TouchDown,
    TouchMotion,
    TouchUp,
    TouchCancel,
    TouchFrame,
    TabletToolAxis,
    TabletToolProximity,
    TabletToolTip,
    TabletToolButton,
    Special,
}

/// The state shared by all backends.
pub struct CommonState {
    pub shell: Shell,
    pub seats: Vec<Seat>,
    /// The seat that new toplevels and devices are attributed to.
    pub last_active_seat: SeatId,
    /// Set when the display failed; the event loop stops at its next turn.
    pub should_stop: bool,
}

pub struct State {
    pub common: CommonState,
}

/// The predicate that holds of the seats to which the device `id` is attached.
pub open spec fn has_device(id: Seq<char>) -> spec_fn(Seat) -> bool {
    |s: Seat| s.devices@.contains_key(id)
}

/// Whether `after` is `before` in all but its devices.
pub open spec fn same_but_devices(before: Seat, after: Seat) -> bool {
    &&& after.id == before.id
    &&& after.name == before.name
    &&& after.pointer == before.pointer
    &&& after.focus == before.focus
    &&& after.suppressed_keys == before.suppressed_keys
    &&& after.active_focus == before.active_focus
}

impl CommonState {
    pub open spec fn wf(&self) -> bool {
        &&& self.shell.wf()
        &&& forall|i: int| 0 <= i < self.seats@.len() ==> (#[trigger] self.seats@[i]).wf()
    }

    /// Gives the keyboard focus of the seat `active_seat` to `surface`, then
    /// reconciles the foci of all seats. See `Shell::set_focus` and
    /// `Shell::update_active`.
    pub fn set_focus(&mut self, surface: Option<SurfaceId>, active_seat: SeatId)
        requires
            old(self).wf(),
        ensures
            final(self).wf(),
            final(self).seats@.len() == old(self).seats@.len(),
            forall|i: int|
                0 <= i < final(self).seats@.len() ==> if first_index(
                    old(self).seats@,
                    seat_is(active_seat),
                ) == Some(i) {
                    focus_granted(
                        old(self).shell@,
                        old(self).seats@[i],
                        #[trigger] final(self).seats@[i],
                        surface,
                    )
                } else {
                    final(self).seats@[i] == old(self).seats@[i]
                },
            final(self).shell@ == old(self).shell@.update_active(final(self).seats@),
            final(self).last_active_seat == old(self).last_active_seat,
            final(self).should_stop == old(self).should_stop,
    {
        match seat_position(&self.seats, active_seat) {
            Some(i) => {
                self.shell.set_focus(surface, &mut self.seats[i]);
            },
            None => {},
        }
        self.shell.update_active(&self.seats);
    }

    /// Notes that reading from or writing to the display failed. The event
    /// loop is to stop at its next turn.
    pub fn display_failed(&mut self)
        ensures
            final(self).should_stop,
            final(self).shell == old(self).shell,
            final(self).seats == old(self).seats,
            final(self).last_active_seat == old(self).last_active_seat,
    {
        self.should_stop = true;
    }

    /// Whether the event loop is to shut down at this turn: when the display
    /// failed, or when no output is left to show anything on.
    pub fn should_shut_down(&self) -> (b: bool)
        ensures
            b == (self.should_stop || self.shell.outputs@.len() == 0),
    {
        self.should_stop || self.shell.outputs.len() == 0
    }

    /// Nothing is done here: how the focus follows changes of the scene is
    /// the policy engine's to decide.
    pub fn refresh_focus(&mut self)
        ensures
            *final(self) == *old(self),
    {
    }
}

impl State {
    pub open spec fn wf(&self) -> bool {
        self.common.wf()
    }

    /// A state with an empty shell and one seat, called "seat-0", which is
    /// the active one.
    pub fn new() -> (state: State)
        ensures
            state.wf(),
            state.common.shell@ == Shell::new_view(),
            state.common.seats@.len() == 1,
            state.common.seats@[0].id == 0,
            state.common.seats@[0].name@ == "seat-0"@,
            state.common.last_active_seat == 0,
            !state.common.should_stop,
    {
        let mut seats: Vec<Seat> = Vec::new();
        seats.push(add_seat(0, "seat-0".to_owned()));
        State {
            common: CommonState {
                shell: Shell::new(),
                seats,
                last_active_seat: 0,
                should_stop: false,
            },
        }
    }

    pub fn new_client_state(&self) -> ClientState {
        ClientState {  }
    }

    /// A client created the toplevel `surface`. It waits for its first commit
    /// on behalf of the active seat.
    pub fn new_toplevel(&mut self, surface: SurfaceId)
        requires
            old(self).wf(),
        ensures
            final(self).wf(),
            final(self).common.shell@ == old(self).common.shell@.new_toplevel(
                surface,
                old(self).common.last_active_seat,
            ),
            final(self).common.seats == old(self).common.seats,
            final(self).common.last_active_seat == old(self).common.last_active_seat,
            final(self).common.should_stop == old(self).common.should_stop,
    {
        let seat = self.common.last_active_seat;
        self.common.shell.new_toplevel(surface, seat);
    }

    /// A client created a layer surface for the output called `output`. It
    /// waits for its first commit on behalf of the active seat.
    pub fn new_layer_surface(&mut self, layer: LayerSurface, output: String)
        requires
            old(self).wf(),
        ensures
            final(self).wf(),
            final(self).common.shell@ == old(self).common.shell@.new_layer_surface(
                layer,
                output@,
                old(self).common.last_active_seat,
            ),
            final(self).common.seats == old(self).common.seats,
            final(self).common.last_active_seat == old(self).common.last_active_seat,
            final(self).common.should_stop == old(self).common.should_stop,
    {
        let seat = self.common.last_active_seat;
        self.common.shell.new_layer_surface(layer, output, seat);
    }

    /// A client created the popup `surface` on `parent`.
    pub fn new_popup(&mut self, surface: SurfaceId, parent: SurfaceId, positioner: PositionerState)
        requires
            old(self).wf(),
        ensures
            final(self).wf(),
            final(self).common.shell@ == old(self).common.shell@.new_popup(
                surface,
                parent,
                positioner,
            ),
            final(self).common.seats == old(self).common.seats,
            final(self).common.last_active_seat == old(self).common.last_active_seat,
            final(self).common.should_stop == old(self).common.should_stop,
    {
        self.common.shell.new_popup(surface, parent, positioner);
    }

    /// A client asks to start a grab for a popup. Before the popup's initial
    /// configure this breaks the protocol.
    pub fn grab(&self, popup: SurfaceId, seat: SeatId, serial: Serial) -> (r: Result<
        (),
        ProtocolError,
    >)
        ensures
            r == self.common.shell@.grab(popup),
    {
        self.common.shell.grab(popup, seat, serial)
    }

    /// Sends the initial configure of a toplevel, leaving its size to the
    /// client, unless it was sent before. Says whether it had been sent before.
    pub fn toplevel_ensure_initial_configure(&mut self, toplevel: SurfaceId) -> (sent: bool)
        requires
            old(self).wf(),
        ensures
            final(self).wf(),
            sent == old(self).common.shell@.registry.configured(toplevel),
            final(self).common.shell@ == old(self).common.shell@.ensure_initial_configure(
                toplevel,
                true,
            ),
            final(self).common.seats == old(self).common.seats,
            final(self).common.last_active_seat == old(self).common.last_active_seat,
            final(self).common.should_stop == old(self).common.should_stop,
    {
        self.common.shell.ensure_initial_configure(toplevel, true)
    }

    /// Sends the initial configure of a layer surface unless it was sent
    /// before. Says whether it had been sent before.
    pub fn layer_surface_ensure_inital_configure(&mut self, surface: SurfaceId) -> (sent: bool)
        requires
            old(self).wf(),
        ensures
            final(self).wf(),
            sent == old(self).common.shell@.registry.configured(surface),
            final(self).common.shell@ == old(self).common.shell@.ensure_initial_configure(
                surface,
                false,
            ),
            final(self).common.seats == old(self).common.seats,
            final(self).common.last_active_seat == old(self).common.last_active_seat,
            final(self).common.should_stop == old(self).common.should_stop,
    {
        self.common.shell.ensure_initial_configure(surface, false)
    }

    /// Unconstrains a popup and sends its configure, unless it was configured before.
    pub fn xdg_popup_ensure_initial_configure(&mut self, popup: SurfaceId)
        requires
            old(self).wf(),
        ensures
            final(self).wf(),
            final(self).common.shell@ == old(self).common.shell@.configure_popup(popup),
            final(self).common.seats == old(self).common.seats,
            final(self).common.last_active_seat == old(self).common.last_active_seat,
            final(self).common.should_stop == old(self).common.should_stop,
    {
        self.common.shell.configure_popup(popup);
    }

    /// A client committed `surface`; `has_buffer` says whether the surface
    /// carries content.
    ///
    /// A surface that waits to be mapped and was never configured is sent its
    /// initial configure, and nothing else happens. One that was configured
    /// but carries no content keeps waiting. One that was configured and
    /// carries content is promoted: a toplevel is mapped at the origin of the
    /// active workspace and raised; a layer surface is mapped on its output,
    /// and the seat of its creation gets the keyboard focus if the layer asks
    /// for it. A popup is unconstrained and configured at its first commit.
    /// At last the layer map that holds the surface is due for arranging.
    pub fn commit(&mut self, surface: SurfaceId, has_buffer: bool) -> (outcome: CommitOutcome)
        requires
            old(self).wf(),
        ensures
            final(self).wf(),
            outcome == old(self).common.shell@.commit_outcome(surface, has_buffer),
            final(self).common.shell@ == old(self).common.shell@.commit(surface, has_buffer),
            final(self).common.seats@.len() == old(self).common.seats@.len(),
            forall|i: int|
                0 <= i < final(self).common.seats@.len() ==> if old(
                    self,
                ).common.shell@.commit_grant(surface, has_buffer) matches Some(id) && first_index(
                    old(self).common.seats@,
                    seat_is(id),
                ) == Some(i) {
                    focus_granted(
                        old(self).common.shell@.promote_window(surface),
                        old(self).common.seats@[i],
                        #[trigger] final(self).common.seats@[i],
                        Some(surface),
                    )
                } else {
                    final(self).common.seats@[i] == old(self).common.seats@[i]
                },
            final(self).common.last_active_seat == old(self).common.last_active_seat,
            final(self).common.should_stop == old(self).common.should_stop,
    {
        let window_waits = self.common.shell.pending_window_position(surface).is_some();
        let layer_waits = self.common.shell.pending_layer_position(surface).is_some();
        if window_waits || layer_waits {
            let sent = if window_waits {
                self.toplevel_ensure_initial_configure(surface)
            } else {
                self.layer_surface_ensure_inital_configure(surface)
            };
            if !sent {
                return CommitOutcome::InitialConfigure;
            }
            if !has_buffer {
                return CommitOutcome::Waiting;
            }
        }
        self.common.shell.promote_window(surface);
        self.common.shell.promote_layer(surface, &mut self.common.seats);
        self.xdg_popup_ensure_initial_configure(surface);
        self.common.shell.arrange_for(surface);
        if window_waits || layer_waits {
            CommitOutcome::Mapped
        } else {
            CommitOutcome::Applied
        }
    }

    /// An event of the input backend arrived. A device that was added is
    /// attached to the active seat; one that was removed is detached from the
    /// first seat that has it. Every other event is ignored here.
    pub fn process_input_event(&mut self, event: InputEvent)
        requires
            old(self).wf(),
        ensures
            final(self).wf(),
            final(self).common.shell == old(self).common.shell,
            final(self).common.last_active_seat == old(self).common.last_active_seat,
            final(self).common.should_stop == old(self).common.should_stop,
            final(self).common.seats@.len() == old(self).common.seats@.len(),
            forall|i: int|
                0 <= i < final(self).common.seats@.len() ==> same_but_devices(
                    old(self).common.seats@[i],
                    #[trigger] final(self).common.seats@[i],
                ),
            forall|i: int|
                0 <= i < final(self).common.seats@.len() ==> (#[trigger] final(self).common.seats@[i]).devices@ == match event {
                    InputEvent::DeviceAdded { device } => if first_index(
                        old(self).common.seats@,
                        seat_is(old(self).common.last_active_seat),
                    ) == Some(i) {
                        old(self).common.seats@[i].devices@.insert(
                            device.id@,
                            crate::input::tracked_capabilities(device.capabilities@),
                        )
                    } else {
                        old(self).common.seats@[i].devices@
                    },
                    InputEvent::DeviceRemoved { device } => if first_index(
                        old(self).common.seats@,
                        has_device(device.id@),
                    ) == Some(i) {
                        old(self).common.seats@[i].devices@.remove(device.id@)
                    } else {
                        old(self).common.seats@[i].devices@
                    },
                    _ => old(self).common.seats@[i].devices@,
                },
    {
        match &event {
            InputEvent::DeviceAdded { device } => {
                match seat_position(&self.common.seats, self.common.last_active_seat) {
                    Some(i) => {
                        let _gained: Vec<DeviceCapability> = self.common.seats[i].devices.add_device(
                            device,
                        );
                    },
                    None => {},
                }
            },
            InputEvent::DeviceRemoved { device } => {
                let mut i: usize = 0;
                while i < self.common.seats.len()
                    invariant
                        *self == *old(self),
                        self.wf(),
                        event is DeviceRemoved,
                        event->DeviceRemoved_device == *device,
                        i <= self.common.seats@.len(),
                        forall|j: int|
                            0 <= j < i ==> !(has_device(device.id@))(
                                #[trigger] self.common.seats@[j],
                            ),
                    decreases self.common.seats@.len() - i,
                {
                    if self.common.seats[i].devices.has_device(&device.id) {
                        proof {
                            lemma_first_index_found(
                                self.common.seats@,
                                has_device(device.id@),
                                i as int,
                            );
                        }
                        let _lost: Vec<DeviceCapability> =
                            self.common.seats[i].devices.remove_device(&device.id);
                        return ;
                    }
                    i += 1;
                }
                proof {
                    lemma_first_index_absent(self.common.seats@, has_device(device.id@));
                }
            },
            _ => {},
        }
    }
}

} // verus!

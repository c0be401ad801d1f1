//! The bridge to the policy engine: what is handed to it, and what is
//! dropped instead.

use crate::input::Seat;
use crate::messages::CompositorMessage;
use crate::messages::PointerGrabStartData;
use crate::messages::RuntimeMessage;
use crate::messages::SeatId;
use crate::messages::Serial;
use crate::seq_facts::first_index;
use crate::shell::Shell;
use crate::shell::ShellView;
use crate::shell::holds_window;
use crate::surface::SurfaceId;
use crate::workspace::WorkspaceView;
use crate::workspace::fullscreen_anywhere;
use vstd::prelude::*;

verus! {

impl ShellView {
    /// The shell after the policy engine was found to be gone: every
    /// workspace refuses what is sent from now on.
    pub open spec fn engine_gone(self) -> ShellView {
        ShellView {
            workspaces: Seq::new(
                self.workspaces.len(),
                |i: int|
                    WorkspaceView {
                        outbox: crate::messages::OutboxView {
                            closed: true,
                            ..self.workspaces[i].outbox
                        },
                        ..self.workspaces[i]
                    },
            ),
            ..self
        }
    }

    /// The shell after a message of the policy engine arrived: a ping is
    /// answered by a ping.
    pub open spec fn handle_compositor_message(self, message: CompositorMessage) -> ShellView {
        self.with_active(self.active().send(RuntimeMessage::Ping))
    }

    /// The shell after a seat asked to move `window` interactively. The
    /// request goes to the policy engine through the workspace that holds the
    /// window, unless the seat has no pointer, no workspace holds the window,
    /// or the window fills an output there.
    pub open spec fn move_request(
        self,
        window: SurfaceId,
        seat: SeatId,
        pointer: bool,
        serial: Serial,
        start_data: PointerGrabStartData,
    ) -> ShellView {
        match first_index(self.workspaces, holds_window(window)) {
            Some(i) => if pointer && !fullscreen_anywhere(self.workspaces[i].fullscreen, window) {
                ShellView {
                    workspaces: self.workspaces.update(
                        i,
                        self.workspaces[i].send(
                            RuntimeMessage::MoveRequest { window, seat, serial, start_data },
                        ),
                    ),
                    ..self
                }
            } else {
                self
            },
            None => self,
        }
    }
}

impl Shell {
    /// A seat asks to move `window` interactively. The request is handed to
    /// the policy engine, unless the seat has no pointer, no workspace holds
    /// the window, or the window fills an output: then it is dropped.
    pub fn move_request(
        &mut self,
        window: SurfaceId,
        seat: &Seat,
        serial: Serial,
        start_data: PointerGrabStartData,
    )
        requires
            old(self).wf(),
        ensures
            final(self).wf(),
            final(self)@ == old(self)@.move_request(
                window,
                seat.id,
                seat.pointer,
                serial,
                start_data,
            ),
    {
        if seat.pointer {
            match self.workspace_of(window) {
                Some(i) => {
                    if !self.workspaces[i].is_fullscreen(window) {
                        self.workspaces[i].runtime_sender.send(
                            RuntimeMessage::MoveRequest {
                                window,
                                seat: seat.id,
                                serial,
                                start_data,
                            },
                        );
                        assert(self@.workspaces =~= old(self)@.move_request(
                            window,
                            seat.id,
                            seat.pointer,
                            serial,
                            start_data,
                        ).workspaces);
                    }
                },
                None => {},
            }
        }
        assert(self@.outputs =~= old(self)@.outputs);
        assert(self@.pending_layers =~= old(self)@.pending_layers);
    }

    /// The policy engine is gone. From now on the requests meant for it are
    /// refused and set aside instead of queued; nothing else changes.
    pub fn engine_gone(&mut self)
        requires
            old(self).wf(),
        ensures
            final(self).wf(),
            final(self)@ == old(self)@.engine_gone(),
    {
        let mut i: usize = 0;
        while i < self.workspaces.len()
            invariant
                self.wf(),
                i <= self.workspaces@.len(),
                self.workspaces@.len() == old(self).workspaces@.len(),
                self.outputs == old(self).outputs,
                self.popups == old(self).popups,
                self.pending_windows == old(self).pending_windows,
                self.pending_layers == old(self).pending_layers,
                self.surfaces == old(self).surfaces,
                forall|k: int|
                    0 <= k < i ==> (#[trigger] self.workspaces@[k])@ == old(
                        self,
                    )@.engine_gone().workspaces[k],
                forall|k: int|
                    i <= k < self.workspaces@.len() ==> #[trigger] self.workspaces@[k] == old(
                        self,
                    ).workspaces@[k],
            decreases self.workspaces@.len() - i,
        {
            self.workspaces[i].runtime_sender.close();
            i += 1;
        }
        assert(self@.workspaces =~= old(self)@.engine_gone().workspaces);
    }

    /// A message of the policy engine arrived. A ping is answered by a ping.
    pub fn handle_compositor_message(&mut self, message: CompositorMessage)
        requires
            old(self).wf(),
        ensures
            final(self).wf(),
            final(self)@ == old(self)@.handle_compositor_message(message),
    {
        match message {
            CompositorMessage::Ping => {
                self.workspaces[0].runtime_sender.send(RuntimeMessage::Ping);
            },
        }
        proof {
            let spec = old(self)@.handle_compositor_message(message);
            assert(self@.workspaces =~= spec.workspaces);
            assert(self@.outputs =~= spec.outputs);
            assert(self@.pending_layers =~= spec.pending_layers);
        }
    }
}

} // verus!

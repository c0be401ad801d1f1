//! The messages exchanged with the policy engine, and the queue in which
//! outgoing ones wait to be sent.

use crate::surface::SurfaceId;
use vstd::prelude::*;

verus! {

/// Identity of a seat.
pub type SeatId = u64;

/// The serial number of an input event.
#[derive(Clone, Copy, Debug, PartialEq, Eq)]
pub struct Serial(pub u32);

/// A pointer position in 1/256 of a logical unit, as the wire carries it.
#[derive(Clone, Copy, Debug, PartialEq, Eq)]
pub struct FixedPoint {
    pub x: i32,
    pub y: i32,
}

/// Where the pointer was when a grab started.
#[derive(Clone, Copy, Debug, PartialEq, Eq)]
pub struct PointerGrabStartData {
    /// The surface under the pointer, if any.
    pub focus: Option<SurfaceId>,
    /// The button that started the grab.
    pub button: u32,
    pub location: FixedPoint,
}

/// The edges of a window that an interactive resize moves.
#[derive(Clone, Copy, Debug, PartialEq, Eq)]
pub enum ResizeEdge {
    NoEdge,
    Top,
    Bottom,
    Left,
    TopLeft,
    BottomLeft,
    Right,
    TopRight,
    BottomRight,
}

/// A request of a user that the policy engine has to decide on.
#[derive(Clone, Debug, PartialEq, Eq)]
pub enum RuntimeMessage {
    Ping,
    MoveRequest { window: SurfaceId, seat: SeatId, serial: Serial, start_data: PointerGrabStartData },
    MaximizeRequest { window: SurfaceId, output: String },
    UnmaximizeRequest { window: SurfaceId },
    ResizeRequest {
        window: SurfaceId,
        seat: SeatId,
        serial: Serial,
        start_data: PointerGrabStartData,
        edges: ResizeEdge,
    },
    UnfullscreenRequest { window: SurfaceId },
}

/// A message of the policy engine to the compositor.
#[derive(Clone, Copy, Debug, PartialEq, Eq)]
pub enum CompositorMessage {
    Ping,
}

/// An event that the policy engine's scripts can poll for.
#[derive(Clone, Copy, Debug, PartialEq, Eq)]
pub enum Event {
    Ping,
}

/// What the engine's side answers to a message that reaches it: a ping is
/// answered by a ping, nothing else is answered.
pub open spec fn spec_answer(message: RuntimeMessage) -> Option<CompositorMessage> {
    if message is Ping {
        Some(CompositorMessage::Ping)
    } else {
        None
    }
}

/// The answer to a message on the engine's side of the channel.
pub fn answer(message: &RuntimeMessage) -> (reply: Option<CompositorMessage>)
    ensures
        reply == spec_answer(*message),
{
    match message {
        RuntimeMessage::Ping => Some(CompositorMessage::Ping),
        _ => None,
    }
}

/// The sending end as plain mathematics.
pub struct OutboxView {
    /// The messages sent and not yet taken, oldest first.
    pub queue: Seq<RuntimeMessage>,
    /// The messages refused because the engine was gone, oldest first.
    pub refused: Seq<RuntimeMessage>,
    /// Whether the policy engine is gone.
    pub closed: bool,
}

impl OutboxView {
    /// The sending end after `message` was sent: it is queued, or, if the
    /// engine is gone, refused.
    pub open spec fn send(self, message: RuntimeMessage) -> OutboxView {
        if self.closed {
            OutboxView { refused: self.refused.push(message), ..self }
        } else {
            OutboxView { queue: self.queue.push(message), ..self }
        }
    }
}

/// The sending end of the channel to the policy engine. A message sent is
/// queued at once; whoever drives the event loop takes the queue and
/// delivers it. Once the engine is gone, messages are refused: they are set
/// aside, so that the user can be told, and nothing is queued any more.
pub struct Outbox {
    pub queue: Vec<RuntimeMessage>,
    pub refused: Vec<RuntimeMessage>,
    pub closed: bool,
}

impl Outbox {
    pub open spec fn view(&self) -> OutboxView {
        OutboxView { queue: self.queue@, refused: self.refused@, closed: self.closed }
    }

    /// The sending end of an open channel on which nothing was sent yet.
    pub open spec fn new_view() -> OutboxView {
        OutboxView { queue: Seq::empty(), refused: Seq::empty(), closed: false }
    }

    pub fn new() -> (outbox: Outbox)
        ensures
            outbox@ == Outbox::new_view(),
    {
        Outbox { queue: Vec::new(), refused: Vec::new(), closed: false }
    }

    /// Sends a message and says whether it was accepted. This never blocks.
    pub fn send(&mut self, message: RuntimeMessage) -> (accepted: bool)
        ensures
            final(self)@ == old(self)@.send(message),
            accepted == !old(self).closed,
    {
        if self.closed {
            self.refused.push(message);
            false
        } else {
            self.queue.push(message);
            true
        }
    }

    /// Notes that the policy engine is gone. What was queued stays queued.
    pub fn close(&mut self)
        ensures
            final(self)@ == (OutboxView { closed: true, ..old(self)@ }),
    {
        self.closed = true;
    }

    /// Whether no message waits to be delivered.
    pub fn is_empty(&self) -> (b: bool)
        ensures
            b == (self@.queue.len() == 0),
    {
        self.queue.len() == 0
    }

    /// Hands out the queued messages, oldest first, and empties the queue.
    pub fn take(&mut self) -> (messages: Vec<RuntimeMessage>)
        ensures
            messages@ == old(self)@.queue,
            final(self)@ == (OutboxView { queue: Seq::empty(), ..old(self)@ }),
    {
        let mut messages: Vec<RuntimeMessage> = Vec::new();
        std::mem::swap(&mut messages, &mut self.queue);
        messages
    }

    /// Hands out the refused messages, oldest first, and forgets them.
    pub fn take_refused(&mut self) -> (messages: Vec<RuntimeMessage>)
        ensures
            messages@ == old(self)@.refused,
            final(self)@ == (OutboxView { refused: Seq::empty(), ..old(self)@ }),
    {
        let mut messages: Vec<RuntimeMessage> = Vec::new();
        std::mem::swap(&mut messages, &mut self.refused);
        messages
    }
}

} // verus!

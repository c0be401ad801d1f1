//! The registry of client surfaces: role, liveness, handshake phase and the
//! state that configure events carry.

use std::collections::HashMap;
use vstd::prelude::*;

verus! {

broadcast use vstd::std_specs::hash::group_hash_axioms;

/// Identity of a client surface.
pub type SurfaceId = u64;

/// The protocol role a surface was given.
#[derive(Clone, Copy, Debug, PartialEq, Eq)]
pub enum Role {
    Toplevel,
    Layer,
    Popup,
}

/// Where a surface stands in the commit handshake.
#[derive(Clone, Copy, Debug, PartialEq, Eq)]
pub enum Phase {
    /// No configure was sent yet.
    Pending,
    /// The initial configure was sent; content has not been accepted yet.
    ConfigurePending,
    /// Content was accepted (for a popup: the popup is configured).
    Mapped,
}

/// A size in logical units.
#[derive(Clone, Copy, Debug, PartialEq, Eq)]
pub struct Size {
    pub w: i32,
    pub h: i32,
}

/// The negotiable state of a toplevel, as the next configure will carry it.
#[derive(Clone, Copy, Debug, PartialEq, Eq)]
pub struct ToplevelState {
    pub activated: bool,
    pub fullscreen: bool,
    pub size: Option<Size>,
}

/// Everything the shell records about one surface.
#[derive(Clone, Copy, Debug, PartialEq, Eq)]
pub struct SurfaceState {
    pub role: Role,
    pub alive: bool,
    pub phase: Phase,
    pub pending: ToplevelState,
}

/// A configure event issued to a client.
#[derive(Clone, Copy, Debug, PartialEq, Eq)]
pub struct Configure {
    pub surface: SurfaceId,
    /// Whether this is the surface's initial configure.
    pub initial: bool,
    pub state: ToplevelState,
}

/// The state of a surface that was just created with `role`.
pub open spec fn fresh_state(role: Role) -> SurfaceState {
    SurfaceState {
        role,
        alive: true,
        phase: Phase::Pending,
        pending: ToplevelState { activated: false, fullscreen: false, size: None },
    }
}

/// The state of a surface after a configure was issued for it.
pub open spec fn configured_state(s: SurfaceState) -> SurfaceState {
    SurfaceState {
        phase: if s.phase == Phase::Pending {
            Phase::ConfigurePending
        } else {
            s.phase
        },
        ..s
    }
}

/// The configure event that is issued for `surface` while it is in state `s`.
pub open spec fn configure_of(surface: SurfaceId, s: SurfaceState) -> Configure {
    Configure { surface, initial: s.phase == Phase::Pending, state: s.pending }
}

/// What a registry holds, as plain mathematics: the state of each known
/// surface and the configure events issued and not yet delivered.
pub struct Registry {
    pub states: Map<SurfaceId, SurfaceState>,
    pub sent: Seq<Configure>,
}

impl Registry {
    /// Whether `surface` is known and its client has not destroyed it.
    pub open spec fn alive(self, surface: SurfaceId) -> bool {
        self.states.contains_key(surface) && self.states[surface].alive
    }

    /// Whether the initial configure of `surface` was sent.
    pub open spec fn configured(self, surface: SurfaceId) -> bool {
        self.states.contains_key(surface) && self.states[surface].phase != Phase::Pending
    }

    /// The registry after the pending state of `surface` was replaced. An
    /// unknown surface stays unknown.
    pub open spec fn set_pending(self, surface: SurfaceId, pending: ToplevelState) -> Registry {
        if self.states.contains_key(surface) {
            Registry {
                states: self.states.insert(
                    surface,
                    SurfaceState { pending, ..self.states[surface] },
                ),
                ..self
            }
        } else {
            self
        }
    }

    /// The registry after the handshake phase of `surface` was replaced.
    pub open spec fn set_phase(self, surface: SurfaceId, phase: Phase) -> Registry {
        if self.states.contains_key(surface) {
            Registry {
                states: self.states.insert(surface, SurfaceState { phase, ..self.states[surface] }),
                ..self
            }
        } else {
            self
        }
    }

    /// The registry after a configure was issued for `surface`. Nothing is
    /// issued for a surface that is unknown or dead.
    pub open spec fn send_configure(self, surface: SurfaceId) -> Registry {
        if self.alive(surface) {
            Registry {
                states: self.states.insert(surface, configured_state(self.states[surface])),
                sent: self.sent.push(configure_of(surface, self.states[surface])),
            }
        } else {
            self
        }
    }
}

/// Keyed registry from surface identity to surface state, with the queue of
/// configure events that were issued and not yet delivered.
pub struct SurfaceRegistry {
    states: HashMap<u64, SurfaceState>,
    sent: Vec<Configure>,
}

impl SurfaceRegistry {
    /// The recorded state of each known surface.
    pub closed spec fn view(&self) -> Map<SurfaceId, SurfaceState> {
        self.states@
    }

    /// The configure events issued and not yet taken, oldest first.
    pub closed spec fn sent(&self) -> Seq<Configure> {
        self.sent@
    }

    /// The registry as plain mathematics.
    pub open spec fn model(&self) -> Registry {
        Registry { states: self@, sent: self.sent() }
    }

    /// Whether `surface` is known and its client has not destroyed it.
    pub open spec fn alive(&self, surface: SurfaceId) -> bool {
        self@.contains_key(surface) && self@[surface].alive
    }

    /// Whether the initial configure of `surface` was sent.
    pub open spec fn configured(&self, surface: SurfaceId) -> bool {
        self@.contains_key(surface) && self@[surface].phase != Phase::Pending
    }

    pub fn new() -> (r: Self)
        ensures
            r@ == Map::<SurfaceId, SurfaceState>::empty(),
            r.sent() == Seq::<Configure>::empty(),
    {
        SurfaceRegistry { states: HashMap::new(), sent: Vec::new() }
    }

    /// Records a newly created surface with its role.
    pub fn register(&mut self, surface: SurfaceId, role: Role)
        ensures
            final(self)@ == old(self)@.insert(surface, fresh_state(role)),
            final(self).sent() == old(self).sent(),
    {
        self.states.insert(
            surface,
            SurfaceState {
                role,
                alive: true,
                phase: Phase::Pending,
                pending: ToplevelState { activated: false, fullscreen: false, size: None },
            },
        );
    }

    pub fn get(&self, surface: SurfaceId) -> (r: Option<SurfaceState>)
        ensures
            r == if self@.contains_key(surface) {
                Some(self@[surface])
            } else {
                None::<SurfaceState>
            },
    {
        match self.states.get(&surface) {
            Some(s) => Some(*s),
            None => None,
        }
    }

    /// Replaces the recorded state of a known surface; an unknown one stays unknown.
    pub fn update(&mut self, surface: SurfaceId, state: SurfaceState)
        ensures
            final(self)@ == if old(self)@.contains_key(surface) {
                old(self)@.insert(surface, state)
            } else {
                old(self)@
            },
            final(self).sent() == old(self).sent(),
    {
        if self.states.contains_key(&surface) {
            self.states.insert(surface, state);
        }
    }

    pub fn is_alive(&self, surface: SurfaceId) -> (b: bool)
        ensures
            b == self.alive(surface),
    {
        match self.get(surface) {
            Some(s) => s.alive,
            None => false,
        }
    }

    pub fn initial_configure_sent(&self, surface: SurfaceId) -> (b: bool)
        ensures
            b == self.configured(surface),
    {
        match self.get(surface) {
            Some(s) => match s.phase {
                Phase::Pending => false,
                _ => true,
            },
            None => false,
        }
    }

    /// Marks a surface as destroyed by its client. The entry stays, so that
    /// holders of the identity can see that it is dead.
    pub fn destroyed(&mut self, surface: SurfaceId)
        ensures
            final(self)@ == if old(self)@.contains_key(surface) {
                old(self)@.insert(surface, SurfaceState { alive: false, ..old(self)@[surface] })
            } else {
                old(self)@
            },
            final(self).sent() == old(self).sent(),
    {
        match self.get(surface) {
            Some(s) => {
                self.update(surface, SurfaceState { alive: false, ..s });
            },
            None => {},
        }
    }

    /// Drops the entry of a surface altogether.
    pub fn forget(&mut self, surface: SurfaceId)
        ensures
            final(self)@ == old(self)@.remove(surface),
            final(self).sent() == old(self).sent(),
    {
        self.states.remove(&surface);
    }

    /// Replaces the state that the next configure of a known surface will carry.
    pub fn set_pending(&mut self, surface: SurfaceId, pending: ToplevelState)
        ensures
            final(self).model() == old(self).model().set_pending(surface, pending),
    {
        match self.get(surface) {
            Some(s) => {
                self.update(surface, SurfaceState { pending, ..s });
            },
            None => {},
        }
    }

    /// Replaces the handshake phase of a known surface.
    pub fn set_phase(&mut self, surface: SurfaceId, phase: Phase)
        ensures
            final(self).model() == old(self).model().set_phase(surface, phase),
    {
        match self.get(surface) {
            Some(s) => {
                self.update(surface, SurfaceState { phase, ..s });
            },
            None => {},
        }
    }

    /// Issues a configure for a live surface, carrying its pending state. The
    /// first one issued for a surface is its initial configure. A dead
    /// surface is sent nothing.
    pub fn send_configure(&mut self, surface: SurfaceId)
        ensures
            final(self).model() == old(self).model().send_configure(surface),
    {
        match self.get(surface) {
            Some(s) => if s.alive {
                let initial = match s.phase {
                    Phase::Pending => true,
                    _ => false,
                };
                let phase = match s.phase {
                    Phase::Pending => Phase::ConfigurePending,
                    other => other,
                };
                self.sent.push(Configure { surface, initial, state: s.pending });
                self.update(surface, SurfaceState { phase, ..s });
            },
            None => {},
        }
    }

    /// Hands out the configure events issued so far, oldest first, and empties the queue.
    pub fn take_configures(&mut self) -> (events: Vec<Configure>)
        ensures
            events@ == old(self).sent(),
            final(self).sent() == Seq::<Configure>::empty(),
            final(self)@ == old(self)@,
    {
        let mut events: Vec<Configure> = Vec::new();
        std::mem::swap(&mut events, &mut self.sent);
        events
    }
}

/// The predicate that holds of the windows that `registry` records as alive.
pub open spec fn live_in(registry: Registry) -> spec_fn(SurfaceId) -> bool {
    |w: SurfaceId| registry.alive(w)
}

/// The predicate that holds of the windows that `surfaces` records as alive.
pub open spec fn is_live(surfaces: SurfaceRegistry) -> spec_fn(SurfaceId) -> bool {
    live_in(surfaces.model())
}

/// The predicate that holds of every window but `window`.
pub open spec fn is_not(window: SurfaceId) -> spec_fn(SurfaceId) -> bool {
    |w: SurfaceId| w != window
}

/// A rule for which windows stay when a collection of windows is thinned out.
pub enum WindowFilter<'a> {
    /// The windows stay that the registry records as alive.
    Alive(&'a SurfaceRegistry),
    /// Every window stays but this one.
    Other(SurfaceId),
}

impl<'a> WindowFilter<'a> {
    /// The predicate that holds of the windows that stay.
    pub open spec fn pred(&self) -> spec_fn(SurfaceId) -> bool {
        match self {
            WindowFilter::Alive(surfaces) => is_live(**surfaces),
            WindowFilter::Other(window) => is_not(*window),
        }
    }

    /// Whether `window` stays.
    pub fn keeps(&self, window: SurfaceId) -> (b: bool)
        ensures
            b == (self.pred())(window),
    {
        match self {
            WindowFilter::Alive(surfaces) => surfaces.is_alive(window),
            WindowFilter::Other(other) => window != *other,
        }
    }
}

/// Whether `window` occurs in `list`.
pub fn contains_window(list: &Vec<SurfaceId>, window: SurfaceId) -> (b: bool)
    ensures
        b == list@.contains(window),
{
    let mut i: usize = 0;
    while i < list.len()
        invariant
            i <= list@.len(),
            forall|j: int| 0 <= j < i ==> list@[j] != window,
        decreases list@.len() - i,
    {
        if list[i] == window {
            return true;
        }
        i += 1;
    }
    false
}

/// Keeps the windows of `list` that `filter` lets stay, in their order.
pub fn retain_windows(list: &mut Vec<SurfaceId>, filter: &WindowFilter)
    ensures
        final(list)@ == old(list)@.filter(filter.pred()),
{
    let mut kept: Vec<SurfaceId> = Vec::new();
    let mut i: usize = 0;
    assert(list@.take(0) =~= Seq::<SurfaceId>::empty());
    while i < list.len()
        invariant
            i <= list@.len(),
            *list == *old(list),
            kept@ == list@.take(i as int).filter(filter.pred()),
        decreases list@.len() - i,
    {
        let w = list[i];
        proof {
            assert(list@.take(i + 1) =~= list@.take(i as int).push(w));
            list@.take(i as int).lemma_filter_push(w, filter.pred());
        }
        if filter.keeps(w) {
            kept.push(w);
        }
        i += 1;
    }
    assert(list@.take(i as int) =~= list@);
    *list = kept;
}

} // verus!

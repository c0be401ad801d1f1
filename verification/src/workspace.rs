//! A workspace: its scene, the window that fills each output, and the
//! requests it hands to the policy engine.

use crate::focus::FocusStack;
use crate::focus::FocusStackMut;
use crate::input::Seat;
use crate::messages::Outbox;
use crate::messages::OutboxView;
use crate::messages::PointerGrabStartData;
use crate::messages::ResizeEdge;
use crate::messages::RuntimeMessage;
use crate::messages::SeatId;
use crate::messages::Serial;
use crate::name_map::NameMap;
use crate::output::Output;
use crate::output::Point;
use crate::space::Space;
use crate::surface::Registry;
use crate::surface::Size;
use crate::surface::SurfaceId;
use crate::surface::SurfaceRegistry;
use crate::surface::ToplevelState;
use crate::surface::WindowFilter;
use vstd::prelude::*;

verus! {

/// Whether `window` fills some output according to `fullscreen`.
pub open spec fn fullscreen_anywhere(fullscreen: Map<Seq<char>, SurfaceId>, window: SurfaceId) -> bool {
    exists|name: Seq<char>| #[trigger] fullscreen.contains_key(name) && fullscreen[name] == window
}

/// The entries of `fullscreen` whose window satisfies `keep`.
pub open spec fn keeping(
    fullscreen: Map<Seq<char>, SurfaceId>,
    keep: spec_fn(SurfaceId) -> bool,
) -> Map<Seq<char>, SurfaceId> {
    Map::new(
        |name: Seq<char>| fullscreen.contains_key(name) && keep(fullscreen[name]),
        |name: Seq<char>| fullscreen[name],
    )
}

/// The pending state of a toplevel that is told to fill an area of `size`.
pub open spec fn filling(state: ToplevelState, size: Size) -> ToplevelState {
    ToplevelState { fullscreen: true, size: Some(size), ..state }
}

/// The pending state of a toplevel that is told to stop filling an output.
pub open spec fn windowed(state: ToplevelState) -> ToplevelState {
    ToplevelState { fullscreen: false, size: None, ..state }
}

/// The registry after `window` was told to fill an area of `size`.
pub open spec fn enter_fullscreen(registry: Registry, window: SurfaceId, size: Size) -> Registry {
    if registry.states.contains_key(window) {
        registry.set_pending(window, filling(registry.states[window].pending, size)).send_configure(
            window,
        )
    } else {
        registry
    }
}

/// The registry after `window` was told to stop filling an output.
pub open spec fn leave_fullscreen(registry: Registry, window: SurfaceId) -> Registry {
    if registry.states.contains_key(window) {
        registry.set_pending(window, windowed(registry.states[window].pending)).send_configure(
            window,
        )
    } else {
        registry
    }
}

/// The windows of the entries of `order` that cannot stay: those whose output
/// is not among `outputs`, and those that `registry` does not record as
/// alive; in the order of `order`.
pub open spec fn stale(
    order: Seq<Seq<char>>,
    fullscreen: Map<Seq<char>, SurfaceId>,
    outputs: Map<Seq<char>, Point>,
    registry: Registry,
) -> Seq<SurfaceId>
    decreases order.len(),
{
    if order.len() == 0 {
        Seq::empty()
    } else if outputs.contains_key(order.last()) && registry.alive(fullscreen[order.last()]) {
        stale(order.drop_last(), fullscreen, outputs, registry)
    } else {
        stale(order.drop_last(), fullscreen, outputs, registry).push(fullscreen[order.last()])
    }
}

/// What the fullscreen protocol reads and changes: the fullscreen entries,
/// the surface registry and the queue to the policy engine.
pub struct Shown {
    pub fullscreen: Map<Seq<char>, SurfaceId>,
    pub registry: Registry,
    pub outbox: OutboxView,
}

impl Shown {
    /// A request to let `window` fill the output `name`, whose logical size is
    /// `size`. The first window to ask for an output keeps it.
    pub open spec fn fullscreen(self, window: SurfaceId, name: Seq<char>, size: Size) -> Shown {
        if self.fullscreen.contains_key(name) {
            self
        } else {
            Shown {
                fullscreen: self.fullscreen.insert(name, window),
                registry: enter_fullscreen(self.registry, window, size),
                outbox: self.outbox,
            }
        }
    }

    /// A request to stop `window` from filling any output.
    pub open spec fn unfullscreen(self, window: SurfaceId) -> Shown {
        if fullscreen_anywhere(self.fullscreen, window) {
            Shown {
                fullscreen: keeping(self.fullscreen, crate::surface::is_not(window)),
                registry: leave_fullscreen(self.registry, window),
                outbox: self.outbox.send(RuntimeMessage::UnfullscreenRequest { window }),
            }
        } else {
            self
        }
    }

    /// `unfullscreen` for each of `windows` in turn.
    pub open spec fn unfullscreen_each(self, windows: Seq<SurfaceId>) -> Shown
        decreases windows.len(),
    {
        if windows.len() == 0 {
            self
        } else {
            self.unfullscreen_each(windows.drop_last()).unfullscreen(windows.last())
        }
    }

    /// The housekeeping of one frame: every window whose output is not among
    /// `outputs`, and every window that is dead, stops being fullscreen as if
    /// it had been asked to.
    pub open spec fn refreshed(self, order: Seq<Seq<char>>, outputs: Map<Seq<char>, Point>) -> Shown {
        self.unfullscreen_each(stale(order, self.fullscreen, outputs, self.registry))
    }
}

/// Leaving fullscreen changes neither which surfaces are known nor which are alive.
pub proof fn lemma_leave_fullscreen_keeps_liveness(registry: Registry, window: SurfaceId)
    ensures
        forall|s: SurfaceId|
            leave_fullscreen(registry, window).alive(s) == #[trigger] registry.alive(s),
{
}

/// After `unfullscreen_each`, the entries left are those whose window is not
/// among `windows`; liveness is as before.
pub proof fn lemma_unfullscreen_each(shown: Shown, windows: Seq<SurfaceId>)
    ensures
        shown.unfullscreen_each(windows).fullscreen == keeping(
            shown.fullscreen,
            |w: SurfaceId| !windows.contains(w),
        ),
        forall|s: SurfaceId|
            shown.unfullscreen_each(windows).registry.alive(s) == #[trigger] shown.registry.alive(
                s,
            ),
    decreases windows.len(),
{
    if windows.len() == 0 {
        assert(shown.fullscreen =~= keeping(shown.fullscreen, |w: SurfaceId| !windows.contains(w)));
    } else {
        let rest = windows.drop_last();
        let last = windows.last();
        lemma_unfullscreen_each(shown, rest);
        let mid = shown.unfullscreen_each(rest);
        lemma_leave_fullscreen_keeps_liveness(mid.registry, last);
        assert(windows =~= rest.push(last));
        assert forall|w: SurfaceId| windows.contains(w) <==> rest.contains(w) || w == last by {
            if rest.contains(w) {
                let i = choose|i: int| 0 <= i < rest.len() && rest[i] == w;
                assert(windows[i] == w);
            }
            if w == last {
                assert(windows[windows.len() - 1] == w);
            }
        }
        assert(mid.unfullscreen(last).fullscreen =~= keeping(
            shown.fullscreen,
            |w: SurfaceId| !windows.contains(w),
        ));
    }
}

/// Every entry of `order` whose output is not among `outputs`, or whose
/// window is dead, has its window among the stale ones.
pub proof fn lemma_stale(
    order: Seq<Seq<char>>,
    fullscreen: Map<Seq<char>, SurfaceId>,
    outputs: Map<Seq<char>, Point>,
    registry: Registry,
)
    ensures
        forall|i: int|
            0 <= i < order.len() && !(outputs.contains_key(#[trigger] order[i]) && registry.alive(
                fullscreen[order[i]],
            )) ==> stale(order, fullscreen, outputs, registry).contains(fullscreen[order[i]]),
    decreases order.len(),
{
    if order.len() > 0 {
        let rest = order.drop_last();
        lemma_stale(rest, fullscreen, outputs, registry);
        let all = stale(order, fullscreen, outputs, registry);
        let before = stale(rest, fullscreen, outputs, registry);
        assert forall|i: int|
            0 <= i < order.len() && !(outputs.contains_key(#[trigger] order[i]) && registry.alive(
                fullscreen[order[i]],
            )) implies all.contains(fullscreen[order[i]]) by {
            if i < rest.len() {
                assert(rest[i] == order[i]);
                let j = choose|j: int|
                    0 <= j < before.len() && before[j] == fullscreen[order[i]];
                assert(all[j] == fullscreen[order[i]]);
            } else {
                assert(all[before.len() as int] == fullscreen[order[i]]);
            }
        }
    }
}

/// A workspace as plain mathematics.
pub struct WorkspaceView {
    pub idx: u8,
    /// The mapped windows in z-order, the topmost last.
    pub windows: Seq<SurfaceId>,
    /// Where each mapped window is placed.
    pub locations: Map<SurfaceId, Point>,
    /// The mapped outputs, each with its logical position.
    pub outputs: Map<Seq<char>, Point>,
    /// The window that fills each output.
    pub fullscreen: Map<Seq<char>, SurfaceId>,
    /// The sending end of the channel to the policy engine.
    pub outbox: OutboxView,
}

impl WorkspaceView {
    /// The workspace after the output `name` was mapped at `location`.
    pub open spec fn map_output(self, name: Seq<char>, location: Point) -> WorkspaceView {
        WorkspaceView { outputs: self.outputs.insert(name, location), ..self }
    }

    /// The workspace after the output `name` was unmapped.
    pub open spec fn unmap_output(self, name: Seq<char>) -> WorkspaceView {
        WorkspaceView { outputs: self.outputs.remove(name), ..self }
    }

    /// The workspace after `window` was placed at `location` and raised.
    pub open spec fn map_window(self, window: SurfaceId, location: Point) -> WorkspaceView {
        WorkspaceView {
            windows: crate::space::raised(self.windows, window),
            locations: self.locations.insert(window, location),
            ..self
        }
    }

    /// The workspace after `window` was taken out of its scene.
    pub open spec fn unmap_window(self, window: SurfaceId) -> WorkspaceView {
        WorkspaceView {
            windows: self.windows.filter(crate::surface::is_not(window)),
            locations: self.locations.remove(window),
            ..self
        }
    }

    /// The workspace after `message` was sent to the policy engine.
    pub open spec fn send(self, message: RuntimeMessage) -> WorkspaceView {
        WorkspaceView { outbox: self.outbox.send(message), ..self }
    }

    /// The part that the fullscreen protocol works on, beside `registry`.
    pub open spec fn shown(self, registry: Registry) -> Shown {
        Shown { fullscreen: self.fullscreen, registry, outbox: self.outbox }
    }

    /// The workspace with the fullscreen entries and the queue of `shown`.
    pub open spec fn with_shown(self, shown: Shown) -> WorkspaceView {
        WorkspaceView { fullscreen: shown.fullscreen, outbox: shown.outbox, ..self }
    }

    /// The workspace after the housekeeping of one frame, which `registry`
    /// sees as well: see `Shown::refreshed`; then dead windows leave the scene.
    pub open spec fn refreshed(self, registry: Registry, order: Seq<Seq<char>>) -> WorkspaceView {
        WorkspaceView {
            windows: self.windows.filter(crate::surface::live_in(registry)),
            locations: self.locations.restrict(Set::new(|w: SurfaceId| registry.alive(w))),
            ..self.with_shown(self.shown(registry).refreshed(order, self.outputs))
        }
    }
}

/// A numbered container of mapped windows.
pub struct Workspace {
    pub idx: u8,
    pub space: Space,
    /// The window that fills each output, by the output's name.
    pub fullscreen: NameMap<SurfaceId>,
    pub runtime_sender: Outbox,
}

/// Keeps the fullscreen entries whose window `filter` lets stay.
fn retain_fullscreen(fullscreen: &mut NameMap<SurfaceId>, filter: &WindowFilter)
    requires
        old(fullscreen).wf(),
    ensures
        final(fullscreen).wf(),
        final(fullscreen)@ == keeping(old(fullscreen)@, filter.pred()),
{
    let ghost before = fullscreen@;
    let mut i: usize = 0;
    while i < fullscreen.len()
        invariant
            fullscreen.wf(),
            i <= fullscreen.order().len(),
            forall|k: Seq<char>| #[trigger]
                fullscreen@.contains_key(k) ==> before.contains_key(k) && fullscreen@[k]
                    == before[k],
            forall|k: Seq<char>|
                before.contains_key(k) && (filter.pred())(before[k]) ==> #[trigger]
                fullscreen@.contains_key(k),
            forall|j: int|
                0 <= j < i ==> (filter.pred())(fullscreen@[#[trigger] fullscreen.order()[j]]),
        decreases fullscreen.order().len() - i,
    {
        let window = *fullscreen.value_at(i);
        if filter.keeps(window) {
            i += 1;
        } else {
            proof {
                fullscreen.lemma_order();
            }
            let ghost order = fullscreen.order();
            fullscreen.remove_at(i);
            assert forall|j: int| 0 <= j < i implies (filter.pred())(
                fullscreen@[#[trigger] fullscreen.order()[j]],
            ) by {
                assert(fullscreen.order()[j] == order[j]);
                assert(order[j] != order[i as int]);
            }
        }
    }
    proof {
        fullscreen.lemma_order();
        assert forall|k: Seq<char>| #[trigger] fullscreen@.contains_key(k) implies (
        filter.pred())(before[k]) by {
            let j = fullscreen.order().index_of(k);
            assert(fullscreen.order().contains(k));
            assert(0 <= j < i && fullscreen.order()[j] == k);
        }
        assert(fullscreen@ =~= keeping(before, filter.pred()));
    }
}

impl Workspace {
    pub open spec fn wf(&self) -> bool {
        self.space.wf() && self.fullscreen.wf()
    }

    pub open spec fn view(&self) -> WorkspaceView {
        WorkspaceView {
            idx: self.idx,
            windows: self.space.windows@,
            locations: self.space.locations@,
            outputs: self.space.outputs@,
            fullscreen: self.fullscreen@,
            outbox: self.runtime_sender@,
        }
    }

    /// The part of the state that the fullscreen protocol works on.
    pub open spec fn shown(&self, surfaces: &SurfaceRegistry) -> Shown {
        Shown {
            fullscreen: self.fullscreen@,
            registry: surfaces.model(),
            outbox: self.runtime_sender@,
        }
    }

    /// An empty workspace with number `idx`.
    pub fn new(idx: u8) -> (workspace: Workspace)
        ensures
            workspace.wf(),
            workspace.idx == idx,
            workspace.space.windows@ == Seq::<SurfaceId>::empty(),
            workspace.space.locations@ == Map::<SurfaceId, Point>::empty(),
            workspace.space.outputs@ == Map::<Seq<char>, Point>::empty(),
            workspace.fullscreen@ == Map::<Seq<char>, SurfaceId>::empty(),
            workspace.runtime_sender@ == Outbox::new_view(),
    {
        Workspace {
            idx,
            space: Space::new(),
            fullscreen: NameMap::new(),
            runtime_sender: Outbox::new(),
        }
    }

    /// Whether `window` fills some output of this workspace.
    pub fn is_fullscreen(&self, window: SurfaceId) -> (b: bool)
        requires
            self.wf(),
        ensures
            b == fullscreen_anywhere(self.fullscreen@, window),
    {
        let mut i: usize = 0;
        while i < self.fullscreen.len()
            invariant
                self.wf(),
                i <= self.fullscreen.order().len(),
                forall|j: int|
                    0 <= j < i ==> self.fullscreen@[#[trigger] self.fullscreen.order()[j]]
                        != window,
            decreases self.fullscreen.order().len() - i,
        {
            if *self.fullscreen.value_at(i) == window {
                return true;
            }
            i += 1;
        }
        proof {
            self.fullscreen.lemma_order();
            if fullscreen_anywhere(self.fullscreen@, window) {
                let k = choose|k: Seq<char>| #[trigger]
                    self.fullscreen@.contains_key(k) && self.fullscreen@[k] == window;
                let j = self.fullscreen.order().index_of(k);
                assert(self.fullscreen.order().contains(k));
                assert(self.fullscreen.order()[j] == k);
            }
        }
        false
    }

    /// Lets `window` fill `output`, unless another window (or this one) fills
    /// it already: the toplevel is resized to the output's logical size and
    /// told so by a configure, and the entry is recorded.
    pub fn fullscreen_request(
        &mut self,
        window: SurfaceId,
        output: &Output,
        surfaces: &mut SurfaceRegistry,
    )
        requires
            old(self).wf(),
        ensures
            final(self).wf(),
            final(self).shown(final(surfaces)) == old(self).shown(old(surfaces)).fullscreen(
                window,
                output.name@,
                output.logical_size(),
            ),
            final(self).space == old(self).space,
            final(self).idx == old(self).idx,
    {
        if self.fullscreen.contains_key(&output.name) {
            return ;
        }
        match surfaces.get(window) {
            Some(state) => {
                let size = output.fullscreen_size();
                surfaces.set_pending(
                    window,
                    ToplevelState { fullscreen: true, size: Some(size), ..state.pending },
                );
                surfaces.send_configure(window);
            },
            None => {},
        }
        self.fullscreen.insert(output.name.clone(), window);
    }

    /// Stops `window` from filling any output: the size override is cleared,
    /// the client is told so by a configure, the policy engine is told, and
    /// the entries of the window go. For a window that fills no output
    /// nothing happens.
    pub fn unfullscreen_request(&mut self, window: SurfaceId, surfaces: &mut SurfaceRegistry)
        requires
            old(self).wf(),
        ensures
            final(self).wf(),
            final(self).shown(final(surfaces)) == old(self).shown(old(surfaces)).unfullscreen(
                window,
            ),
            final(self).space == old(self).space,
            final(self).idx == old(self).idx,
    {
        if self.is_fullscreen(window) {
            match surfaces.get(window) {
                Some(state) => {
                    surfaces.set_pending(
                        window,
                        ToplevelState { fullscreen: false, size: None, ..state.pending },
                    );
                    surfaces.send_configure(window);
                },
                None => {},
            }
            self.runtime_sender.send(RuntimeMessage::UnfullscreenRequest { window });
            retain_fullscreen(&mut self.fullscreen, &WindowFilter::Other(window));
        }
    }

    /// The housekeeping of one frame. A window whose output is no longer
    /// mapped into the scene, and a window that died, leaves fullscreen as if
    /// it had been asked to; then dead windows leave the scene. Afterwards
    /// every entry names a mapped output and a live window.
    pub fn refresh(&mut self, surfaces: &mut SurfaceRegistry)
        requires
            old(self).wf(),
        ensures
            final(self).wf(),
            final(self).shown(final(surfaces)) == old(self).shown(old(surfaces)).refreshed(
                old(self).fullscreen.order(),
                old(self).space.outputs@,
            ),
            final(self).space.windows@ == old(self).space.windows@.filter(
                crate::surface::is_live(*old(surfaces)),
            ),
            final(self).space.locations@ == old(self).space.locations@.restrict(
                Set::new(|w: SurfaceId| old(surfaces).alive(w)),
            ),
            final(self).space.outputs == old(self).space.outputs,
            final(self).idx == old(self).idx,
            forall|s: SurfaceId| final(surfaces).alive(s) == #[trigger] old(surfaces).alive(s),
            forall|name: Seq<char>| #[trigger]
                final(self).fullscreen@.contains_key(name) ==> {
                    &&& old(self).space.outputs@.contains_key(name)
                    &&& old(self).fullscreen@.contains_key(name)
                    &&& final(self).fullscreen@[name] == old(self).fullscreen@[name]
                    &&& final(surfaces).alive(final(self).fullscreen@[name])
                },
    {
        let ghost start = self.shown(surfaces);
        let ghost order = self.fullscreen.order();
        let ghost outputs = self.space.outputs@;
        let mut leaving: Vec<SurfaceId> = Vec::new();
        let mut i: usize = 0;
        assert(order.take(0) =~= Seq::<Seq<char>>::empty());
        while i < self.fullscreen.len()
            invariant
                *self == *old(self),
                *surfaces == *old(surfaces),
                self.wf(),
                order == self.fullscreen.order(),
                outputs == self.space.outputs@,
                i <= order.len(),
                leaving@ == stale(
                    order.take(i as int),
                    self.fullscreen@,
                    outputs,
                    surfaces.model(),
                ),
            decreases order.len() - i,
        {
            proof {
                assert(order.take(i + 1).drop_last() =~= order.take(i as int));
            }
            let window = *self.fullscreen.value_at(i);
            let mapped = self.space.has_output(self.fullscreen.name_at(i));
            if !mapped || !surfaces.is_alive(window) {
                leaving.push(window);
            }
            i += 1;
        }
        assert(order.take(i as int) =~= order);
        let mut j: usize = 0;
        assert(leaving@.take(0) =~= Seq::<SurfaceId>::empty());
        while j < leaving.len()
            invariant
                self.wf(),
                self.space == old(self).space,
                self.idx == old(self).idx,
                j <= leaving@.len(),
                self.shown(surfaces) == start.unfullscreen_each(leaving@.take(j as int)),
            decreases leaving@.len() - j,
        {
            proof {
                assert(leaving@.take(j + 1).drop_last() =~= leaving@.take(j as int));
            }
            self.unfullscreen_request(leaving[j], surfaces);
            j += 1;
        }
        assert(leaving@.take(j as int) =~= leaving@);
        proof {
            let after = self.shown(surfaces);
            lemma_unfullscreen_each(start, leaving@);
            lemma_stale(order, start.fullscreen, outputs, start.registry);
            old(self).fullscreen.lemma_order();
            assert forall|name: Seq<char>| #[trigger]
                self.fullscreen@.contains_key(name) implies outputs.contains_key(name)
                && start.registry.alive(start.fullscreen[name]) by {
                let k = order.index_of(name);
                assert(order.contains(name));
                assert(order[k] == name);
            }
            assert forall|s: SurfaceId| surfaces.alive(s) == #[trigger] old(surfaces).alive(
                s,
            ) by {
                assert(start.registry.alive(s) == old(surfaces).alive(s));
                assert(after.registry.alive(s) == surfaces.alive(s));
            }
            assert forall|w: SurfaceId|
                surfaces.model().alive(w) == #[trigger] old(surfaces).model().alive(w) by {
                assert(surfaces.alive(w) == old(surfaces).alive(w));
            }
            assert(crate::surface::is_live(*surfaces) =~= crate::surface::is_live(*old(surfaces)));
            assert(Set::new(|w: SurfaceId| surfaces.alive(w)) =~= Set::new(
                |w: SurfaceId| old(surfaces).alive(w),
            ));
        }
        self.space.refresh(surfaces);
    }

    /// The window that fills `output`, if the output is mapped into this
    /// workspace and the window is alive.
    pub fn get_fullscreen(&self, output: &Output, surfaces: &SurfaceRegistry) -> (window: Option<
        SurfaceId,
    >)
        requires
            self.wf(),
        ensures
            window == if self.space.outputs@.contains_key(output.name@)
                && self.fullscreen@.contains_key(output.name@) && surfaces.alive(
                self.fullscreen@[output.name@],
            ) {
                Some(self.fullscreen@[output.name@])
            } else {
                None::<SurfaceId>
            },
    {
        if !self.space.has_output(&output.name) {
            return None;
        }
        match self.fullscreen.get(&output.name) {
            Some(window) => if surfaces.is_alive(*window) {
                Some(*window)
            } else {
                None
            },
            None => None,
        }
    }

    /// Asks the policy engine to maximize `window` on `output`. The request
    /// of a fullscreen window is dropped.
    pub fn maximize_request(&mut self, window: SurfaceId, output: &Output)
        requires
            old(self).wf(),
        ensures
            final(self).wf(),
            final(self).runtime_sender@ == if fullscreen_anywhere(old(self).fullscreen@, window) {
                old(self).runtime_sender@
            } else {
                old(self).runtime_sender@.send(
                    RuntimeMessage::MaximizeRequest { window, output: output.name },
                )
            },
            final(self).fullscreen == old(self).fullscreen,
            final(self).space == old(self).space,
            final(self).idx == old(self).idx,
    {
        if self.is_fullscreen(window) {
            return ;
        }
        self.runtime_sender.send(
            RuntimeMessage::MaximizeRequest { window, output: output.name.clone() },
        );
    }

    /// Asks the policy engine to restore `window`. A fullscreen window
    /// leaves fullscreen instead.
    pub fn unmaximize_request(&mut self, window: SurfaceId, surfaces: &mut SurfaceRegistry)
        requires
            old(self).wf(),
        ensures
            final(self).wf(),
            fullscreen_anywhere(old(self).fullscreen@, window) ==> final(self).shown(
                final(surfaces),
            ) == old(self).shown(old(surfaces)).unfullscreen(window),
            !fullscreen_anywhere(old(self).fullscreen@, window) ==> final(self).shown(
                final(surfaces),
            ) == (Shown {
                outbox: old(self).runtime_sender@.send(
                    RuntimeMessage::UnmaximizeRequest { window },
                ),
                ..old(self).shown(old(surfaces))
            }),
            final(self).space == old(self).space,
            final(self).idx == old(self).idx,
    {
        if self.is_fullscreen(window) {
            self.unfullscreen_request(window, surfaces);
            return ;
        }
        self.runtime_sender.send(RuntimeMessage::UnmaximizeRequest { window });
    }

    /// Asks the policy engine to start an interactive resize of `window`.
    /// The request of a fullscreen window is dropped.
    pub fn resize_request(
        &mut self,
        window: SurfaceId,
        seat: SeatId,
        serial: Serial,
        start_data: PointerGrabStartData,
        edges: ResizeEdge,
    )
        requires
            old(self).wf(),
        ensures
            final(self).wf(),
            final(self).runtime_sender@ == if fullscreen_anywhere(old(self).fullscreen@, window) {
                old(self).runtime_sender@
            } else {
                old(self).runtime_sender@.send(
                    RuntimeMessage::ResizeRequest { window, seat, serial, start_data, edges },
                )
            },
            final(self).fullscreen == old(self).fullscreen,
            final(self).space == old(self).space,
            final(self).idx == old(self).idx,
    {
        if self.is_fullscreen(window) {
            return ;
        }
        self.runtime_sender.send(
            RuntimeMessage::ResizeRequest { window, seat, serial, start_data, edges },
        );
    }
    /// Read access to the focus stack that `seat` has for this workspace.
    pub fn focus_stack<'a>(&self, seat: &'a Seat) -> (stack: FocusStack<'a>)
        requires
            seat.wf(),
        ensures
            stack@ == seat.focus.stack(self.idx),
    {
        seat.focus.get(self.idx)
    }

    /// Write access to the focus stack that `seat` has for this workspace;
    /// the stack is created empty if the seat had none.
    pub fn focus_stack_mut<'a>(&self, seat: &'a mut Seat) -> (stack: FocusStackMut<'a>)
        ensures
            stack@ == old(seat).focus.stack(self.idx),
            final(seat).focus.stacks@ == old(seat).focus.stacks@.insert(
                self.idx,
                *final(stack.0),
            ),
            final(seat).focus.unfocused == old(seat).focus.unfocused,
            final(seat).id == old(seat).id,
            final(seat).name == old(seat).name,
            final(seat).pointer == old(seat).pointer,
            final(seat).devices == old(seat).devices,
            final(seat).suppressed_keys == old(seat).suppressed_keys,
            final(seat).active_focus == old(seat).active_focus,
    {
        seat.focus.get_mut(self.idx)
    }
}

} // verus!

//! Focus: what a seat remembers, and how the foci of all seats decide which
//! windows are activated.

use crate::focus::appended;
use crate::focus::last_alive;
use crate::input::Seat;
use crate::seq_facts::first_index;
use crate::seq_facts::lemma_first_index_absent;
use crate::seq_facts::lemma_first_index_found;
use crate::shell::Shell;
use crate::shell::ShellView;
use crate::shell::holds_window;
use crate::shell::waits_as_window;
use crate::space::raised;
use crate::surface::Registry;
use crate::surface::SurfaceId;
use crate::surface::ToplevelState;
use crate::surface::contains_window;
use crate::workspace::WorkspaceView;
use vstd::prelude::*;

verus! {

/// The windows that the seats focus on workspace `idx`: for each seat in
/// turn, the last live window of its focus stack, if it has one.
pub open spec fn focused_windows(seats: Seq<Seat>, idx: u8, registry: Registry) -> Seq<SurfaceId>
    decreases seats.len(),
{
    if seats.len() == 0 {
        Seq::empty()
    } else {
        let before = focused_windows(seats.drop_last(), idx, registry);
        match last_alive(seats.last().focus.stack(idx), registry) {
            Some(window) => before.push(window),
            None => before,
        }
    }
}

/// The z-order after each of `focused` that is mapped was raised, in turn.
pub open spec fn raise_each(order: Seq<SurfaceId>, focused: Seq<SurfaceId>) -> Seq<SurfaceId>
    decreases focused.len(),
{
    if focused.len() == 0 {
        order
    } else {
        let before = raise_each(order, focused.drop_last());
        if before.contains(focused.last()) {
            raised(before, focused.last())
        } else {
            before
        }
    }
}

/// The registry after `window` was told whether it is activated.
pub open spec fn activate(registry: Registry, window: SurfaceId, activated: bool) -> Registry {
    if registry.states.contains_key(window) {
        registry.set_pending(
            window,
            ToplevelState { activated, ..registry.states[window].pending },
        ).send_configure(window)
    } else {
        registry
    }
}

/// The registry after each of `windows` was told, in turn, that it is
/// activated exactly if it is among `focused`.
pub open spec fn activate_each(
    registry: Registry,
    windows: Seq<SurfaceId>,
    focused: Seq<SurfaceId>,
) -> Registry
    decreases windows.len(),
{
    if windows.len() == 0 {
        registry
    } else {
        activate(
            activate_each(registry, windows.drop_last(), focused),
            windows.last(),
            focused.contains(windows.last()),
        )
    }
}

/// What `set_focus` does to a seat: `before` is the seat when `surface` is
/// focused on the shell `shell`, `after` is the seat afterwards.
pub open spec fn focus_granted(
    shell: ShellView,
    before: Seat,
    after: Seat,
    surface: Option<SurfaceId>,
) -> bool {
    &&& after.active_focus.0 == surface
    &&& forall|idx: u8| #[trigger]
        after.focus.stack(idx) == shell.stack_after_focus(before.focus.stack(idx), idx, surface)
    &&& after.id == before.id
    &&& after.name == before.name
    &&& after.pointer == before.pointer
    &&& after.devices == before.devices
    &&& after.suppressed_keys == before.suppressed_keys
}

impl ShellView {
    /// What the focus stack `stack`, which a seat has for workspace `idx`,
    /// becomes when the seat focuses `surface`. It changes only if the
    /// surface is a window mapped in the workspace numbered `idx` and is not
    /// the last live window of the stack already.
    pub open spec fn stack_after_focus(
        self,
        stack: Seq<SurfaceId>,
        idx: u8,
        surface: Option<SurfaceId>,
    ) -> Seq<SurfaceId> {
        match surface {
            Some(window) => match first_index(self.workspaces, holds_window(window)) {
                Some(i) => if self.workspaces[i].idx == idx && last_alive(stack, self.registry)
                    != Some(window) {
                    appended(stack, window, self.registry)
                } else {
                    stack
                },
                None => stack,
            },
            None => stack,
        }
    }

    /// The shell after the foci of `seats` were reconciled in the workspace at
    /// index `i`: the windows that the seats focus there are raised, and every
    /// window of the workspace is told whether it is activated, which it is
    /// exactly if some seat focuses it.
    pub open spec fn reconcile(self, seats: Seq<Seat>, i: int) -> ShellView {
        let workspace = self.workspaces[i];
        let focused = focused_windows(seats, workspace.idx, self.registry);
        let order = raise_each(workspace.windows, focused);
        ShellView {
            workspaces: self.workspaces.update(i, WorkspaceView { windows: order, ..workspace }),
            registry: activate_each(self.registry, order, focused),
            ..self
        }
    }

    /// The shell after the foci of `seats` were reconciled in the first `n`
    /// workspaces, one after the other.
    pub open spec fn reconcile_first(self, seats: Seq<Seat>, n: nat) -> ShellView
        decreases n,
    {
        if n == 0 {
            self
        } else {
            self.reconcile_first(seats, (n - 1) as nat).reconcile(seats, n - 1)
        }
    }

    /// The shell after the foci of `seats` were reconciled in every workspace.
    pub open spec fn update_active(self, seats: Seq<Seat>) -> ShellView {
        self.reconcile_first(seats, self.workspaces.len())
    }
}

impl Shell {
    /// Gives the keyboard focus of `seat` to `surface`. If the surface is a
    /// mapped window and not the seat's current one, it becomes the most
    /// recent entry of the seat's focus stack for the window's workspace.
    pub fn set_focus(&self, surface: Option<SurfaceId>, seat: &mut Seat)
        requires
            old(seat).wf(),
        ensures
            final(seat).wf(),
            focus_granted(self@, *old(seat), *final(seat), surface),
    {
        seat.active_focus = crate::input::ActiveFocus(surface);
        match surface {
            Some(window) => match self.workspace_of(window) {
                Some(i) => {
                    let ghost idx = self.workspaces@[i as int].idx;
                    let mut stack = self.workspaces[i].focus_stack_mut(seat);
                    let current = stack.last(&self.surfaces);
                    let differs = match current {
                        Some(w) => w != window,
                        None => true,
                    };
                    if differs {
                        stack.append(window, &self.surfaces);
                    }
                    proof {
                        crate::seq_facts::lemma_filter_no_duplicates(
                            old(seat).focus.stack(idx),
                            crate::surface::live_in(self@.registry),
                        );
                    }
                    assert(seat.focus.stack(idx) == self@.stack_after_focus(
                        old(seat).focus.stack(idx),
                        idx,
                        surface,
                    ));
                    assert forall|other: u8| other != idx implies #[trigger] seat.focus.stack(other)
                        == old(seat).focus.stack(other) by {}
                },
                None => {},
            },
            None => {},
        }
    }

    /// Reconciles the foci of all seats into one flag per window, in every
    /// workspace. The window that each seat focuses is raised, the seats
    /// taken in order; then every window of the workspace is told by a
    /// configure whether it is activated, which it is exactly if some seat
    /// focuses it. Nothing is remembered from earlier calls.
    pub fn update_active(&mut self, seats: &Vec<Seat>)
        requires
            old(self).wf(),
            forall|i: int| 0 <= i < seats@.len() ==> (#[trigger] seats@[i]).wf(),
        ensures
            final(self).wf(),
            final(self)@ == old(self)@.update_active(seats@),
    {
        let mut n: usize = 0;
        while n < self.workspaces.len()
            invariant
                self.wf(),
                n <= self.workspaces@.len(),
                self.workspaces@.len() == old(self).workspaces@.len(),
                forall|i: int| 0 <= i < seats@.len() ==> (#[trigger] seats@[i]).wf(),
                self@ == old(self)@.reconcile_first(seats@, n as nat),
            decreases self.workspaces@.len() - n,
        {
            self.reconcile(n, seats);
            n += 1;
        }
    }

    /// Reconciles the foci of all seats in the workspace at index `n`.
    pub fn reconcile(&mut self, n: usize, seats: &Vec<Seat>)
        requires
            old(self).wf(),
            n < old(self).workspaces@.len(),
            forall|i: int| 0 <= i < seats@.len() ==> (#[trigger] seats@[i]).wf(),
        ensures
            final(self).wf(),
            final(self)@ == old(self)@.reconcile(seats@, n as int),
            final(self).workspaces@.len() == old(self).workspaces@.len(),
    {
        let ghost idx = self.workspaces@[n as int].idx;
        let ghost registry = self.surfaces.model();
        let mut focused: Vec<SurfaceId> = Vec::new();
        let mut i: usize = 0;
        assert(seats@.take(0) =~= Seq::<Seat>::empty());
        while i < seats.len()
            invariant
                *self == *old(self),
                self.wf(),
                idx == self.workspaces@[n as int].idx,
                n < self.workspaces@.len(),
                registry == self.surfaces.model(),
                i <= seats@.len(),
                forall|k: int| 0 <= k < seats@.len() ==> (#[trigger] seats@[k]).wf(),
                focused@ == focused_windows(seats@.take(i as int), idx, registry),
            decreases seats@.len() - i,
        {
            proof {
                assert(seats@.take(i + 1).drop_last() =~= seats@.take(i as int));
            }
            match self.workspaces[n].focus_stack(&seats[i]).last(&self.surfaces) {
                Some(window) => {
                    focused.push(window);
                },
                None => {},
            }
            i += 1;
        }
        assert(seats@.take(i as int) =~= seats@);
        let mut j: usize = 0;
        assert(focused@.take(0) =~= Seq::<SurfaceId>::empty());
        while j < focused.len()
            invariant
                self.wf(),
                j <= focused@.len(),
                self.workspaces@.len() == old(self).workspaces@.len(),
                n < self.workspaces@.len(),
                self.workspaces@ == old(self).workspaces@.update(n as int, self.workspaces@[n as int]),
                self.outputs == old(self).outputs,
                self.popups == old(self).popups,
                self.pending_windows == old(self).pending_windows,
                self.pending_layers == old(self).pending_layers,
                self.surfaces == old(self).surfaces,
                self.workspaces@[n as int]@ == (WorkspaceView {
                    windows: raise_each(
                        old(self)@.workspaces[n as int].windows,
                        focused@.take(j as int),
                    ),
                    ..old(self)@.workspaces[n as int]
                }),
            decreases focused@.len() - j,
        {
            proof {
                assert(focused@.take(j + 1).drop_last() =~= focused@.take(j as int));
            }
            self.workspaces[n].space.raise_window(focused[j]);
            j += 1;
        }
        assert(focused@.take(j as int) =~= focused@);
        let ghost order = self.workspaces@[n as int].space.windows@;
        let mut k: usize = 0;
        assert(order.take(0) =~= Seq::<SurfaceId>::empty());
        while k < self.workspaces[n].space.windows.len()
            invariant
                self.wf(),
                k <= order.len(),
                self.workspaces@.len() == old(self).workspaces@.len(),
                order == self.workspaces@[n as int].space.windows@,
                self.workspaces@[n as int]@ == (WorkspaceView {
                    windows: order,
                    ..old(self)@.workspaces[n as int]
                }),
                n < self.workspaces@.len(),
                self.workspaces@ == old(self).workspaces@.update(n as int, self.workspaces@[n as int]),
                self.outputs == old(self).outputs,
                self.popups == old(self).popups,
                self.pending_windows == old(self).pending_windows,
                self.pending_layers == old(self).pending_layers,
                self.surfaces.model() == activate_each(registry, order.take(k as int), focused@),
            decreases order.len() - k,
        {
            proof {
                assert(order.take(k + 1).drop_last() =~= order.take(k as int));
            }
            let window = self.workspaces[n].space.windows[k];
            let activated = contains_window(&focused, window);
            match self.surfaces.get(window) {
                Some(state) => {
                    self.surfaces.set_pending(
                        window,
                        ToplevelState { activated, ..state.pending },
                    );
                    self.surfaces.send_configure(window);
                },
                None => {},
            }
            k += 1;
        }
        proof {
            assert(order.take(k as int) =~= order);
            let spec = old(self)@.reconcile(seats@, n as int);
            assert(self@.workspaces =~= spec.workspaces);
            assert(self@.outputs =~= spec.outputs);
            assert(self@.pending_layers =~= spec.pending_layers);
        }
    }
    /// The position of the first waiting toplevel with surface `surface`.
    pub fn pending_window_position(&self, surface: SurfaceId) -> (found: Option<usize>)
        ensures
            match found {
                Some(i) => first_index(self@.pending_windows, waits_as_window(surface)) == Some(
                    i as int,
                ) && i < self.pending_windows@.len(),
                None => first_index(self@.pending_windows, waits_as_window(surface)) is None,
            },
    {
        let mut i: usize = 0;
        while i < self.pending_windows.len()
            invariant
                i <= self.pending_windows@.len(),
                forall|j: int|
                    0 <= j < i ==> !(waits_as_window(surface))(#[trigger] self@.pending_windows[j]),
            decreases self.pending_windows@.len() - i,
        {
            if self.pending_windows[i].window == surface {
                proof {
                    lemma_first_index_found(
                        self@.pending_windows,
                        waits_as_window(surface),
                        i as int,
                    );
                }
                return Some(i);
            }
            i += 1;
        }
        proof {
            lemma_first_index_absent(self@.pending_windows, waits_as_window(surface));
        }
        None
    }
}

} // verus!

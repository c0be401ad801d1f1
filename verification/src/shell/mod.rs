//! The shell: outputs, workspaces, surfaces that wait to be mapped, and the
//! operations that clients and the policy engine drive.

use crate::input::Seat;
use crate::layer::LayerSurface;
use crate::layer::has_layer;
use crate::messages::SeatId;
use crate::output::Output;
use crate::output::OutputView;
use crate::output::Point;
use crate::seq_facts::first_index;
use crate::seq_facts::lemma_first_index_absent;
use crate::seq_facts::lemma_first_index_found;
use crate::shell::outputs::placed;
use crate::shell::outputs::remap_output;
use crate::surface::Registry;
use crate::surface::Size;
use crate::surface::SurfaceId;
use crate::surface::SurfaceRegistry;
use crate::workspace::Workspace;
use crate::workspace::WorkspaceView;
use vstd::prelude::*;

pub mod activation;
pub mod handshake;
pub mod outputs;
pub mod policy;
pub mod scene;

verus! {

/// How a popup asked to be placed.
#[derive(Clone, Copy, Debug, PartialEq, Eq)]
pub struct PositionerState {
    pub size: Size,
    pub offset: Point,
}

/// A popup with the surface it belongs to.
#[derive(Clone, Copy, Debug, PartialEq, Eq)]
pub struct Popup {
    pub surface: SurfaceId,
    pub parent: SurfaceId,
    pub positioner: PositionerState,
    /// Whether the popup was unconstrained against its parent.
    pub unconstrained: bool,
}

/// The popups that clients created.
pub struct PopupManager {
    pub popups: Vec<Popup>,
}

/// A toplevel that waits for its first commit with content.
#[derive(Clone, Copy, Debug, PartialEq, Eq)]
pub struct PendingWindow {
    pub window: SurfaceId,
    /// The seat that was active when the toplevel was created.
    pub seat: SeatId,
}

/// A layer surface that waits for its first commit with content.
pub struct PendingLayer {
    pub layer: LayerSurface,
    /// The name of the output that the layer surface is bound to.
    pub output: String,
    pub seat: SeatId,
}

/// A layer surface that waits, as plain mathematics.
pub struct PendingLayerView {
    pub layer: LayerSurface,
    pub output: Seq<char>,
    pub seat: SeatId,
}

impl PendingLayer {
    pub open spec fn view(&self) -> PendingLayerView {
        PendingLayerView { layer: self.layer, output: self.output@, seat: self.seat }
    }
}

/// The shell as plain mathematics.
pub struct ShellView {
    pub workspaces: Seq<WorkspaceView>,
    pub outputs: Seq<OutputView>,
    pub popups: Seq<Popup>,
    pub pending_windows: Seq<PendingWindow>,
    pub pending_layers: Seq<PendingLayerView>,
    pub registry: Registry,
}

/// The predicate that holds of the workspaces whose scene holds `window`.
pub open spec fn holds_window(window: SurfaceId) -> spec_fn(WorkspaceView) -> bool {
    |w: WorkspaceView| w.windows.contains(window)
}

/// The predicate that holds of the pending entry of the toplevel `surface`.
pub open spec fn waits_as_window(surface: SurfaceId) -> spec_fn(PendingWindow) -> bool {
    |p: PendingWindow| p.window == surface
}

/// The predicate that holds of the pending entry of the layer surface `surface`.
pub open spec fn waits_as_layer(surface: SurfaceId) -> spec_fn(PendingLayerView) -> bool {
    |p: PendingLayerView| p.layer.surface == surface
}

/// The predicate that holds of the popup with surface `surface`.
pub open spec fn is_popup(surface: SurfaceId) -> spec_fn(Popup) -> bool {
    |p: Popup| p.surface == surface
}

/// The predicate that holds of the outputs called `name`.
pub open spec fn is_named(name: Seq<char>) -> spec_fn(OutputView) -> bool {
    |o: OutputView| o.name == name
}

/// The predicate that holds of the outputs whose layer map holds `surface`.
pub open spec fn has_layer_of(surface: SurfaceId) -> spec_fn(OutputView) -> bool {
    |o: OutputView| has_layer(o.layers, surface)
}

/// The predicate that holds of the seat with identity `id`.
pub open spec fn seat_is(id: SeatId) -> spec_fn(Seat) -> bool {
    |s: Seat| s.id == id
}

pub struct Shell {
    pub workspaces: Vec<Workspace>,
    pub outputs: Vec<Output>,
    pub popups: PopupManager,
    pub pending_windows: Vec<PendingWindow>,
    pub pending_layers: Vec<PendingLayer>,
    pub surfaces: SurfaceRegistry,
}

/// Whether `window` is mapped into the scene of some workspace.
pub open spec fn mapped_somewhere(workspaces: Seq<Workspace>, window: SurfaceId) -> bool {
    exists|i: int| 0 <= i < workspaces.len() && (#[trigger] workspaces[i]).space.windows@.contains(window)
}

/// The position of the first seat with identity `id`.
pub fn seat_position(seats: &Vec<Seat>, id: SeatId) -> (found: Option<usize>)
    ensures
        match found {
            Some(i) => first_index(seats@, seat_is(id)) == Some(i as int) && i < seats@.len(),
            None => first_index(seats@, seat_is(id)) is None,
        },
{
    let mut i: usize = 0;
    while i < seats.len()
        invariant
            i <= seats@.len(),
            forall|j: int| 0 <= j < i ==> !(seat_is(id))(#[trigger] seats@[j]),
        decreases seats@.len() - i,
    {
        if seats[i].id == id {
            proof {
                lemma_first_index_found(seats@, seat_is(id), i as int);
            }
            return Some(i);
        }
        i += 1;
    }
    proof {
        lemma_first_index_absent(seats@, seat_is(id));
    }
    None
}

impl ShellView {
    /// The workspace that new windows are mapped into.
    pub open spec fn active(self) -> WorkspaceView {
        self.workspaces[0]
    }

    /// The shell with `workspace` in place of the active workspace.
    pub open spec fn with_active(self, workspace: WorkspaceView) -> ShellView {
        ShellView { workspaces: self.workspaces.update(0, workspace), ..self }
    }
}

impl Shell {
    /// There is an active workspace, and every workspace is well-formed.
    pub open spec fn wf(&self) -> bool {
        &&& self.workspaces@.len() >= 1
        &&& forall|i: int| 0 <= i < self.workspaces@.len() ==> (#[trigger] self.workspaces@[i]).wf()
    }

    pub open spec fn view(&self) -> ShellView {
        ShellView {
            workspaces: Seq::new(self.workspaces@.len(), |i: int| self.workspaces@[i]@),
            outputs: Seq::new(self.outputs@.len(), |i: int| self.outputs@[i]@),
            popups: self.popups.popups@,
            pending_windows: self.pending_windows@,
            pending_layers: Seq::new(
                self.pending_layers@.len(),
                |i: int| self.pending_layers@[i]@,
            ),
            registry: self.surfaces.model(),
        }
    }

    /// The shell that `new` makes: one empty workspace, numbered 0, and
    /// nothing else.
    pub open spec fn new_view() -> ShellView {
        ShellView {
            workspaces: seq![
                WorkspaceView {
                    idx: 0,
                    windows: Seq::empty(),
                    locations: Map::empty(),
                    outputs: Map::empty(),
                    fullscreen: Map::empty(),
                    outbox: crate::messages::Outbox::new_view(),
                },
            ],
            outputs: Seq::empty(),
            popups: Seq::empty(),
            pending_windows: Seq::empty(),
            pending_layers: Seq::empty(),
            registry: Registry { states: Map::empty(), sent: Seq::empty() },
        }
    }

    /// A shell with one empty workspace, numbered 0, and nothing else.
    pub fn new() -> (shell: Shell)
        ensures
            shell.wf(),
            shell@ == Shell::new_view(),
            shell.workspaces@.len() == 1,
            shell.workspaces@[0].idx == 0,
            shell.workspaces@[0].space.windows@ == Seq::<SurfaceId>::empty(),
            shell.workspaces@[0].space.outputs@ == Map::<Seq<char>, Point>::empty(),
            shell.workspaces@[0].fullscreen@ == Map::<Seq<char>, SurfaceId>::empty(),
            shell.workspaces@[0].runtime_sender@ == crate::messages::Outbox::new_view(),
            shell.outputs@ == Seq::<Output>::empty(),
            shell.popups.popups@ == Seq::<Popup>::empty(),
            shell.pending_windows@ == Seq::<PendingWindow>::empty(),
            shell.pending_layers@ == Seq::<PendingLayer>::empty(),
            shell.surfaces.model() == (crate::surface::Registry {
                states: Map::empty(),
                sent: Seq::empty(),
            }),
    {
        let mut workspaces: Vec<Workspace> = Vec::new();
        workspaces.push(Workspace::new(0));
        let shell = Shell {
            workspaces,
            outputs: Vec::new(),
            popups: PopupManager { popups: Vec::new() },
            pending_windows: Vec::new(),
            pending_layers: Vec::new(),
            surfaces: SurfaceRegistry::new(),
        };
        proof {
            assert(shell@.workspaces[0] =~~= Shell::new_view().workspaces[0]);
            assert(shell@.workspaces =~= Shell::new_view().workspaces);
            assert(shell@.outputs =~= Shell::new_view().outputs);
            assert(shell@.pending_layers =~= Shell::new_view().pending_layers);
        }
        shell
    }

    /// The registered outputs, in the order in which they were added.
    pub fn outputs(&self) -> (outputs: &Vec<Output>)
        ensures
            outputs == &self.outputs,
    {
        &self.outputs
    }

    /// The workspace that new windows are mapped into.
    pub fn active_workspace(&self) -> (workspace: &Workspace)
        requires
            self.wf(),
        ensures
            *workspace == self.workspaces@[0],
    {
        &self.workspaces[0]
    }

    /// The workspace that new windows are mapped into, for changing it.
    pub fn active_workspace_mut(&mut self) -> (workspace: &mut Workspace)
        requires
            old(self).wf(),
        ensures
            *workspace == old(self).workspaces@[0],
            final(self).workspaces@ == old(self).workspaces@.update(0, *final(workspace)),
            final(self).outputs == old(self).outputs,
            final(self).popups == old(self).popups,
            final(self).pending_windows == old(self).pending_windows,
            final(self).pending_layers == old(self).pending_layers,
            final(self).surfaces == old(self).surfaces,
    {
        &mut self.workspaces[0]
    }

    /// The index of the first workspace whose scene holds the window of `surface`.
    pub fn workspace_of(&self, surface: SurfaceId) -> (found: Option<usize>)
        ensures
            match found {
                Some(i) => {
                    &&& i < self.workspaces@.len()
                    &&& self.workspaces@[i as int].space.windows@.contains(surface)
                    &&& forall|j: int|
                        0 <= j < i ==> !(#[trigger] self.workspaces@[j]).space.windows@.contains(
                            surface,
                        )
                    &&& first_index(self@.workspaces, holds_window(surface)) == Some(i as int)
                },
                None => {
                    &&& !mapped_somewhere(self.workspaces@, surface)
                    &&& first_index(self@.workspaces, holds_window(surface)) is None
                },
            },
    {
        let mut i: usize = 0;
        while i < self.workspaces.len()
            invariant
                i <= self.workspaces@.len(),
                forall|j: int|
                    0 <= j < i ==> !(#[trigger] self.workspaces@[j]).space.windows@.contains(
                        surface,
                    ),
            decreases self.workspaces@.len() - i,
        {
            if self.workspaces[i].space.window_for_surface(surface).is_some() {
                proof {
                    assert forall|j: int| 0 <= j < i implies !(holds_window(surface))(
                        #[trigger] self@.workspaces[j],
                    ) by {
                        assert(!self.workspaces@[j].space.windows@.contains(surface));
                    }
                    lemma_first_index_found(self@.workspaces, holds_window(surface), i as int);
                }
                return Some(i);
            }
            i += 1;
        }
        proof {
            assert forall|j: int| 0 <= j < self@.workspaces.len() implies !(holds_window(
                surface,
            ))(#[trigger] self@.workspaces[j]) by {
                assert(!self.workspaces@[j].space.windows@.contains(surface));
            }
            lemma_first_index_absent(self@.workspaces, holds_window(surface));
        }
        None
    }

    /// The first workspace whose scene holds the window of `surface`, for changing it.
    pub fn space_for_window_mut(&mut self, surface: SurfaceId) -> (found: Option<&mut Workspace>)
        ensures
            match found {
                Some(workspace) => exists|i: int|
                    {
                        &&& 0 <= i < old(self).workspaces@.len()
                        &&& #[trigger] old(self).workspaces@[i] == *workspace
                        &&& workspace.space.windows@.contains(surface)
                        &&& forall|j: int|
                            0 <= j < i ==> !(#[trigger] old(self).workspaces@[j]).space.windows@.contains(
                            surface)
                        &&& final(self).workspaces@ == old(self).workspaces@.update(
                            i,
                            *final(workspace),
                        )
                    },
                None => {
                    &&& !mapped_somewhere(old(self).workspaces@, surface)
                    &&& final(self).workspaces == old(self).workspaces
                },
            },
            final(self).outputs == old(self).outputs,
            final(self).popups == old(self).popups,
            final(self).pending_windows == old(self).pending_windows,
            final(self).pending_layers == old(self).pending_layers,
            final(self).surfaces == old(self).surfaces,
    {
        match self.workspace_of(surface) {
            Some(i) => Some(&mut self.workspaces[i]),
            None => None,
        }
    }
    /// Registers an output and maps it into the active workspace at the
    /// position it reports.
    pub fn add_output(&mut self, output: Output)
        requires
            old(self).wf(),
        ensures
            final(self).wf(),
            final(self)@ == old(self)@.add_output(output@),
    {
        let name = output.name.clone();
        let location = output.location;
        self.outputs.push(output);
        let mut i: usize = 0;
        while i < self.workspaces.len()
            invariant
                self.wf(),
                i <= self.workspaces@.len(),
                self.workspaces@.len() == old(self).workspaces@.len(),
                self.outputs@ == old(self).outputs@.push(output),
                self.popups == old(self).popups,
                self.pending_windows == old(self).pending_windows,
                self.pending_layers == old(self).pending_layers,
                self.surfaces == old(self).surfaces,
                forall|k: int|
                    0 <= k < i ==> (#[trigger] self.workspaces@[k])@ == old(
                        self,
                    ).workspaces@[k]@.unmap_output(name@),
                forall|k: int|
                    i <= k < self.workspaces@.len() ==> (#[trigger] self.workspaces@[k])@ == old(
                        self,
                    ).workspaces@[k]@,
            decreases self.workspaces@.len() - i,
        {
            remap_output(&name, &mut self.workspaces, Some(i), None, None);
            i += 1;
        }
        remap_output(&name, &mut self.workspaces, None, Some(0), Some(location));
        assert(self@.workspaces =~= old(self)@.add_output(output@).workspaces);
        assert(self@.outputs =~= old(self)@.add_output(output@).outputs);
        assert(self@.pending_layers =~= old(self)@.pending_layers);
    }

    /// The position of the first waiting layer surface with surface `surface`.
    pub fn pending_layer_position(&self, surface: SurfaceId) -> (found: Option<usize>)
        ensures
            match found {
                Some(i) => first_index(self@.pending_layers, waits_as_layer(surface)) == Some(
                    i as int,
                ) && i < self.pending_layers@.len(),
                None => first_index(self@.pending_layers, waits_as_layer(surface)) is None,
            },
    {
        let mut i: usize = 0;
        while i < self.pending_layers.len()
            invariant
                i <= self.pending_layers@.len(),
                forall|j: int|
                    0 <= j < i ==> !(waits_as_layer(surface))(#[trigger] self@.pending_layers[j]),
            decreases self.pending_layers@.len() - i,
        {
            if self.pending_layers[i].layer.surface == surface {
                proof {
                    lemma_first_index_found(
                        self@.pending_layers,
                        waits_as_layer(surface),
                        i as int,
                    );
                }
                return Some(i);
            }
            i += 1;
        }
        proof {
            lemma_first_index_absent(self@.pending_layers, waits_as_layer(surface));
        }
        None
    }

    /// The position of the first popup with surface `surface`.
    pub fn find_popup(&self, surface: SurfaceId) -> (found: Option<usize>)
        ensures
            match found {
                Some(i) => first_index(self@.popups, is_popup(surface)) == Some(i as int) && i
                    < self.popups.popups@.len(),
                None => first_index(self@.popups, is_popup(surface)) is None,
            },
    {
        let mut i: usize = 0;
        while i < self.popups.popups.len()
            invariant
                i <= self.popups.popups@.len(),
                forall|j: int| 0 <= j < i ==> !(is_popup(surface))(#[trigger] self@.popups[j]),
            decreases self.popups.popups@.len() - i,
        {
            if self.popups.popups[i].surface == surface {
                proof {
                    lemma_first_index_found(self@.popups, is_popup(surface), i as int);
                }
                return Some(i);
            }
            i += 1;
        }
        proof {
            lemma_first_index_absent(self@.popups, is_popup(surface));
        }
        None
    }

    /// The position of the first registered output called `name`.
    pub fn output_position(&self, name: &String) -> (found: Option<usize>)
        ensures
            match found {
                Some(i) => first_index(self@.outputs, is_named(name@)) == Some(i as int) && i
                    < self.outputs@.len(),
                None => first_index(self@.outputs, is_named(name@)) is None,
            },
    {
        let mut i: usize = 0;
        while i < self.outputs.len()
            invariant
                i <= self.outputs@.len(),
                forall|j: int| 0 <= j < i ==> !(is_named(name@))(#[trigger] self@.outputs[j]),
            decreases self.outputs@.len() - i,
        {
            if self.outputs[i].name == *name {
                proof {
                    lemma_first_index_found(self@.outputs, is_named(name@), i as int);
                }
                return Some(i);
            }
            i += 1;
        }
        proof {
            lemma_first_index_absent(self@.outputs, is_named(name@));
        }
        None
    }

    /// The position of the first registered output whose layer map holds `surface`.
    pub fn output_with_layer(&self, surface: SurfaceId) -> (found: Option<usize>)
        ensures
            match found {
                Some(i) => first_index(self@.outputs, has_layer_of(surface)) == Some(i as int) && i
                    < self.outputs@.len(),
                None => first_index(self@.outputs, has_layer_of(surface)) is None,
            },
    {
        let mut i: usize = 0;
        while i < self.outputs.len()
            invariant
                i <= self.outputs@.len(),
                forall|j: int| 0 <= j < i ==> !(has_layer_of(surface))(#[trigger] self@.outputs[j]),
            decreases self.outputs@.len() - i,
        {
            match self.outputs[i].layers.layer_for_surface(surface) {
                Some(layer) => {
                    proof {
                        let layers = self.outputs@[i as int].layers.layers@;
                        let k = choose|k: int| 0 <= k < layers.len() && layers[k] == layer;
                        assert(layers[k].surface == surface);
                        lemma_first_index_found(self@.outputs, has_layer_of(surface), i as int);
                    }
                    return Some(i);
                },
                None => {},
            }
            i += 1;
        }
        proof {
            lemma_first_index_absent(self@.outputs, has_layer_of(surface));
        }
        None
    }
}

} // verus!

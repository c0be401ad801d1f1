//! Output topology: which outputs are registered, and where each is mapped.

use crate::output::Output;
use crate::output::OutputView;
use crate::output::Point;
use crate::shell::Shell;
use crate::shell::ShellView;
use crate::workspace::Workspace;
use crate::workspace::WorkspaceView;
use vstd::prelude::*;

verus! {

/// The outputs of a scene after each of `outputs` was mapped at the position
/// it reports, in turn.
pub open spec fn placed(scene: Map<Seq<char>, Point>, outputs: Seq<OutputView>) -> Map<
    Seq<char>,
    Point,
>
    decreases outputs.len(),
{
    if outputs.len() == 0 {
        scene
    } else {
        placed(scene, outputs.drop_last()).insert(outputs.last().name, outputs.last().location)
    }
}

/// The scene outputs of a workspace after an output was remapped: unmapped if
/// `unmap`, then mapped at `pos` if `map`.
pub open spec fn remapped(
    workspace: WorkspaceView,
    name: Seq<char>,
    unmap: bool,
    map: bool,
    pos: Option<Point>,
) -> WorkspaceView {
    let cleared = if unmap {
        workspace.unmap_output(name)
    } else {
        workspace
    };
    if map && pos is Some {
        cleared.map_output(name, pos->0)
    } else {
        cleared
    }
}

/// Whether `index` is given and equals `i`.
pub open spec fn is_index(index: Option<usize>, i: int) -> bool {
    index matches Some(v) && v == i
}

/// Moves the output called `name` between workspaces: it is unmapped from the
/// workspace at index `from`, if one is given, and mapped at `pos` into the
/// workspace at index `to`, if one is given.
pub fn remap_output(
    name: &String,
    spaces: &mut Vec<Workspace>,
    from: Option<usize>,
    to: Option<usize>,
    pos: Option<Point>,
)
    requires
        forall|i: int| 0 <= i < old(spaces)@.len() ==> (#[trigger] old(spaces)@[i]).wf(),
        from matches Some(i) ==> i < old(spaces)@.len(),
        to matches Some(j) ==> j < old(spaces)@.len() && pos is Some,
    ensures
        final(spaces)@.len() == old(spaces)@.len(),
        forall|i: int| 0 <= i < final(spaces)@.len() ==> (#[trigger] final(spaces)@[i]).wf(),
        forall|i: int|
            0 <= i < final(spaces)@.len() ==> (#[trigger] final(spaces)@[i])@ == remapped(
                old(spaces)@[i]@,
                name@,
                is_index(from, i),
                is_index(to, i),
                pos,
            ),
{
    match from {
        Some(i) => {
            spaces[i].space.unmap_output(name);
        },
        None => {},
    }
    let ghost cleared = spaces@;
    match to {
        Some(j) => match pos {
            Some(p) => {
                spaces[j].space.map_output(name.clone(), p);
            },
            None => {},
        },
        None => {},
    }
    assert forall|i: int| 0 <= i < spaces@.len() implies (#[trigger] spaces@[i])@ == remapped(
        old(spaces)@[i]@,
        name@,
        is_index(from, i),
        is_index(to, i),
        pos,
    ) by {
        assert(cleared[i]@ =~~= if is_index(from, i) {
            old(spaces)@[i]@.unmap_output(name@)
        } else {
            old(spaces)@[i]@
        });
        assert(spaces@[i]@ =~~= if is_index(to, i) {
            cleared[i]@.map_output(name@, pos->0)
        } else {
            cleared[i]@
        });
    }
}

impl ShellView {
    /// The shell after the output `name` was unmapped from every workspace.
    pub open spec fn unmap_everywhere(self, name: Seq<char>) -> ShellView {
        ShellView {
            workspaces: Seq::new(
                self.workspaces.len(),
                |i: int| self.workspaces[i].unmap_output(name),
            ),
            ..self
        }
    }

    /// The shell after `output` was registered: it is unmapped from every
    /// workspace and mapped into the active one at the position it reports.
    pub open spec fn add_output(self, output: OutputView) -> ShellView {
        let cleared = self.unmap_everywhere(output.name);
        ShellView {
            outputs: self.outputs.push(output),
            ..cleared.with_active(cleared.active().map_output(output.name, output.location))
        }
    }

    /// The shell after the outputs called `name` were unregistered and
    /// unmapped from every workspace.
    pub open spec fn remove_output(self, name: Seq<char>) -> ShellView {
        ShellView {
            outputs: self.outputs.filter(|o: OutputView| o.name != name),
            ..self.unmap_everywhere(name)
        }
    }

    /// The shell after every registered output was mapped into the active
    /// workspace at the position it reports.
    pub open spec fn refresh_outputs(self) -> ShellView {
        self.with_active(
            WorkspaceView {
                outputs: placed(self.active().outputs, self.outputs),
                ..self.active()
            },
        )
    }
}

impl Shell {
    /// Unregisters the outputs that carry the name of `output` and unmaps
    /// that name from every workspace. Nothing else moves.
    pub fn remove_output(&mut self, output: &Output)
        requires
            old(self).wf(),
        ensures
            final(self).wf(),
            final(self)@ == old(self)@.remove_output(output.name@),
    {
        let ghost before = self@.outputs;
        let ghost differs = |o: OutputView| o.name != output.name@;
        let ghost mut done: int = 0;
        let mut i: usize = 0;
        assert(before.take(0).filter(differs) =~= Seq::<OutputView>::empty()) by {
            reveal(Seq::filter);
        }
        assert(before.skip(0) =~= before);
        while i < self.outputs.len()
            invariant
                self.workspaces == old(self).workspaces,
                self.popups == old(self).popups,
                self.pending_windows == old(self).pending_windows,
                self.pending_layers == old(self).pending_layers,
                self.surfaces == old(self).surfaces,
                before == old(self)@.outputs,
                differs == |o: OutputView| o.name != output.name@,
                0 <= done <= before.len(),
                i == before.take(done).filter(differs).len(),
                self@.outputs =~= before.take(done).filter(differs) + before.skip(done),
            decreases before.len() - done,
        {
            proof {
                assert(self@.outputs[i as int] == before.skip(done)[0]);
                assert(before.take(done + 1) =~= before.take(done).push(before[done]));
                before.take(done).lemma_filter_push(before[done], differs);
                assert(before.skip(done + 1) =~= before.skip(done).skip(1));
            }
            let ghost shown = self@.outputs;
            if self.outputs[i].name == output.name {
                self.outputs.remove(i);
                assert(self@.outputs =~= shown.remove(i as int));
            } else {
                i += 1;
            }
            proof {
                done = done + 1;
            }
        }
        assert(before.take(done) =~= before);
        let mut k: usize = 0;
        while k < self.workspaces.len()
            invariant
                self.wf(),
                k <= self.workspaces@.len(),
                self.workspaces@.len() == old(self).workspaces@.len(),
                self@.outputs == before.filter(differs),
                self.popups == old(self).popups,
                self.pending_windows == old(self).pending_windows,
                self.pending_layers == old(self).pending_layers,
                self.surfaces == old(self).surfaces,
                forall|j: int|
                    0 <= j < k ==> (#[trigger] self.workspaces@[j])@ == old(
                        self,
                    ).workspaces@[j]@.unmap_output(output.name@),
                forall|j: int|
                    k <= j < self.workspaces@.len() ==> (#[trigger] self.workspaces@[j])@ == old(
                        self,
                    ).workspaces@[j]@,
            decreases self.workspaces@.len() - k,
        {
            remap_output(&output.name, &mut self.workspaces, Some(k), None, None);
            k += 1;
        }
        assert(self@.workspaces =~= old(self)@.remove_output(output.name@).workspaces);
    }

    /// Maps every registered output into the active workspace at the position
    /// it reports. Doing so twice changes nothing more.
    pub fn refresh_outputs(&mut self)
        requires
            old(self).wf(),
        ensures
            final(self).wf(),
            final(self)@ == old(self)@.refresh_outputs(),
    {
        let mut i: usize = 0;
        assert(self@.outputs.take(0) =~= Seq::<OutputView>::empty());
        while i < self.outputs.len()
            invariant
                self.wf(),
                i <= self.outputs@.len(),
                self.outputs == old(self).outputs,
                self.popups == old(self).popups,
                self.pending_windows == old(self).pending_windows,
                self.pending_layers == old(self).pending_layers,
                self.surfaces == old(self).surfaces,
                self.workspaces@.len() == old(self).workspaces@.len(),
                forall|k: int|
                    1 <= k < self.workspaces@.len() ==> (#[trigger] self.workspaces@[k])@ == old(
                        self,
                    ).workspaces@[k]@,
                self.workspaces@[0]@ == (WorkspaceView {
                    outputs: placed(old(self)@.active().outputs, self@.outputs.take(i as int)),
                    ..old(self)@.active()
                }),
            decreases self.outputs@.len() - i,
        {
            proof {
                assert(self@.outputs.take(i + 1).drop_last() =~= self@.outputs.take(i as int));
            }
            let name = self.outputs[i].name.clone();
            let location = self.outputs[i].location;
            remap_output(&name, &mut self.workspaces, None, Some(0), Some(location));
            i += 1;
        }
        assert(self@.outputs.take(i as int) =~= self@.outputs);
        assert(self@.workspaces =~= old(self)@.refresh_outputs().workspaces);
    }
}

} // verus!

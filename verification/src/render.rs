//! What the renderer is asked to draw for an output.

use crate::output::Output;
use crate::output::OutputView;
use crate::seq_facts::first_index;
use crate::shell::is_named;
use crate::shell::ShellView;
use crate::state::CommonState;
use crate::surface::SurfaceId;
use vstd::prelude::*;

verus! {

/// What is drawn on an output for one frame.
#[derive(Clone, Copy, Debug, PartialEq, Eq)]
pub enum RenderPlan {
    /// The window that fills the output, alone.
    Window { window: SurfaceId },
    /// The scene of the active workspace. With age 0 the whole frame is
    /// drawn, else what was damaged since the buffer of that age.
    Desktop { age: u8 },
}

/// The window to draw alone on the output called `name`: the one that fills
/// it in the active workspace, if the output is mapped there and the window
/// is alive.
pub open spec fn fullscreen_on(shell: ShellView, name: Seq<char>) -> Option<SurfaceId> {
    let active = shell.active();
    if active.outputs.contains_key(name) && active.fullscreen.contains_key(name)
        && shell.registry.alive(active.fullscreen[name]) {
        Some(active.fullscreen[name])
    } else {
        None
    }
}

/// The shell after the output called `name` noted whether it shows a
/// fullscreen window.
pub open spec fn buffer_reset_noted(shell: ShellView, name: Seq<char>) -> ShellView {
    match first_index(shell.outputs, is_named(name)) {
        Some(k) => ShellView {
            outputs: shell.outputs.update(
                k,
                OutputView {
                    custom_rendering: fullscreen_on(shell, name) is Some,
                    ..shell.outputs[k]
                },
            ),
            ..shell
        },
        None => shell,
    }
}

/// Whether the output called `name` changes between showing the desktop and
/// showing a fullscreen window.
pub open spec fn buffer_reset_needed(shell: ShellView, name: Seq<char>) -> bool {
    match first_index(shell.outputs, is_named(name)) {
        Some(k) => shell.outputs[k].custom_rendering != (fullscreen_on(shell, name) is Some),
        None => false,
    }
}

/// Decides what to draw on `output`: the window that fills it, or the desktop.
pub fn render_output(state: &CommonState, output: &Output, age: u8) -> (plan: RenderPlan)
    requires
        state.wf(),
    ensures
        plan == match fullscreen_on(state.shell@, output.name@) {
            Some(window) => RenderPlan::Window { window },
            None => RenderPlan::Desktop { age },
        },
{
    match state.shell.active_workspace().get_fullscreen(output, &state.shell.surfaces) {
        Some(window) => RenderPlan::Window { window },
        None => RenderPlan::Desktop { age },
    }
}

/// Says whether the buffers of the output called `output` have to be reset
/// because it changes between showing the desktop and showing a fullscreen
/// window, and notes what it shows now. For an output that is not registered
/// the answer is no.
pub fn needs_buffer_reset(output: &String, state: &mut CommonState) -> (reset: bool)
    requires
        old(state).wf(),
    ensures
        final(state).wf(),
        reset == buffer_reset_needed(old(state).shell@, output@),
        final(state).shell@ == buffer_reset_noted(old(state).shell@, output@),
        final(state).seats == old(state).seats,
        final(state).last_active_seat == old(state).last_active_seat,
        final(state).should_stop == old(state).should_stop,
{
    match state.shell.output_position(output) {
        Some(k) => {
            proof {
                crate::seq_facts::lemma_first_index(state.shell@.outputs, is_named(output@));
            }
            let will_render_custom = state.shell.workspaces[0].get_fullscreen(
                &state.shell.outputs[k],
                &state.shell.surfaces,
            ).is_some();
            let did_render_custom = state.shell.outputs[k].custom_rendering;
            state.shell.outputs[k].custom_rendering = will_render_custom;
            proof {
                let spec = buffer_reset_noted(old(state).shell@, output@);
                assert(state.shell@.workspaces =~= spec.workspaces);
                assert(state.shell@.outputs =~= spec.outputs);
                assert(state.shell@.pending_layers =~= spec.pending_layers);
            }
            did_render_custom != will_render_custom
        },
        None => false,
    }
}

} // verus!

use electrum::layer::KeyboardInteractivity;
use electrum::layer::Layer;
use electrum::layer::LayerSurface;
use electrum::output::Mode;
use electrum::output::Output;
use electrum::output::PhysicalSize;
use electrum::output::Point;
use electrum::output::Scale;
use electrum::output::Transform;
use electrum::shell::handshake::CommitOutcome;
use electrum::shell::PositionerState;
use electrum::shell::handshake::ProtocolError;
use electrum::messages::Serial;
use electrum::state::State;
use electrum::surface::Phase;
use electrum::surface::Size;

fn output(name: &str) -> Output {
    Output::new(
        name.to_string(),
        Some(Mode { size: PhysicalSize { w: 1920, h: 1080 }, refresh: 60_000 }),
        Scale::one(),
        Transform::Normal,
        Point { x: 0, y: 0 },
    )
}

#[test]
fn first_commit_without_buffer_sends_configure_and_maps_nothing() {
    let mut state = State::new();
    state.new_toplevel(7);
    let outcome = state.commit(7, false);
    assert_eq!(outcome, CommitOutcome::InitialConfigure);
    let sent = state.common.shell.surfaces.take_configures();
    assert_eq!(sent.len(), 1);
    assert_eq!(sent[0].surface, 7);
    assert!(sent[0].initial);
    assert_eq!(sent[0].state.size, None);
    assert!(sent[0].state.activated);
    assert!(state.common.shell.workspaces[0].space.windows.is_empty());
    assert_eq!(state.common.shell.pending_windows.len(), 1);
    assert_eq!(state.common.shell.surfaces.get(7).unwrap().phase, Phase::ConfigurePending);
}

#[test]
fn second_commit_with_buffer_promotes_the_window() {
    let mut state = State::new();
    state.new_toplevel(7);
    assert_eq!(state.commit(7, false), CommitOutcome::InitialConfigure);
    assert_eq!(state.commit(7, true), CommitOutcome::Mapped);
    let workspace = &state.common.shell.workspaces[0];
    assert_eq!(workspace.space.windows, vec![7]);
    assert_eq!(workspace.space.window_location(7), Some(Point { x: 0, y: 0 }));
    assert!(state.common.shell.pending_windows.is_empty());
    let recorded = state.common.shell.surfaces.get(7).unwrap();
    assert_eq!(recorded.phase, Phase::Mapped);
    assert!(recorded.pending.activated);
    assert_eq!(state.common.shell.surfaces.take_configures().len(), 1);
}

#[test]
fn promoted_window_is_raised_above_older_windows() {
    let mut state = State::new();
    for surface in [1u64, 2, 3] {
        state.new_toplevel(surface);
        state.commit(surface, false);
    }
    state.commit(2, true);
    state.commit(1, true);
    state.commit(3, true);
    assert_eq!(state.common.shell.workspaces[0].space.windows, vec![2, 1, 3]);
}

#[test]
fn configured_surface_without_buffer_keeps_waiting() {
    let mut state = State::new();
    state.new_toplevel(7);
    state.commit(7, false);
    assert_eq!(state.commit(7, false), CommitOutcome::Waiting);
    assert_eq!(state.commit(7, false), CommitOutcome::Waiting);
    assert!(state.common.shell.workspaces[0].space.windows.is_empty());
    assert_eq!(state.common.shell.surfaces.take_configures().len(), 1);
}

#[test]
fn first_commit_with_buffer_is_not_accepted() {
    let mut state = State::new();
    state.new_toplevel(7);
    assert_eq!(state.commit(7, true), CommitOutcome::InitialConfigure);
    assert!(state.common.shell.workspaces[0].space.windows.is_empty());
    assert_eq!(state.commit(7, true), CommitOutcome::Mapped);
}

#[test]
fn any_run_of_commits_sends_one_initial_configure() {
    let mut state = State::new();
    state.new_toplevel(9);
    for has_buffer in [false, false, true, false, true, true, false] {
        state.commit(9, has_buffer);
    }
    let sent = state.common.shell.surfaces.take_configures();
    let initial = sent.iter().filter(|c| c.surface == 9 && c.initial).count();
    assert_eq!(initial, 1);
}

#[test]
fn commit_of_unknown_surface_is_applied() {
    let mut state = State::new();
    assert_eq!(state.commit(42, true), CommitOutcome::Applied);
    assert!(state.common.shell.workspaces[0].space.windows.is_empty());
    assert!(state.common.shell.surfaces.take_configures().is_empty());
}

fn panel(surface: u64, layer: Layer, keyboard: KeyboardInteractivity) -> LayerSurface {
    LayerSurface { surface, layer, keyboard_interactivity: keyboard, exclusive_zone: 32 }
}

#[test]
fn layer_surface_goes_through_the_same_handshake() {
    let mut state = State::new();
    state.common.shell.add_output(output("WINIT-0"));
    state.new_layer_surface(
        panel(5, Layer::Top, KeyboardInteractivity::Exclusive),
        "WINIT-0".to_string(),
    );
    assert_eq!(state.commit(5, false), CommitOutcome::InitialConfigure);
    assert!(state.common.shell.outputs[0].layers.layers.is_empty());
    assert_eq!(state.common.seats[0].active_focus.0, None);
    assert_eq!(state.commit(5, true), CommitOutcome::Mapped);
    assert_eq!(state.common.shell.outputs[0].layers.layers.len(), 1);
    assert_eq!(state.common.shell.outputs[0].layers.layers[0].surface, 5);
    assert!(state.common.shell.outputs[0].layers.needs_arrange);
    assert!(state.common.shell.pending_layers.is_empty());
    assert_eq!(state.common.seats[0].active_focus.0, Some(5));
    assert_eq!(state.common.shell.surfaces.get(5).unwrap().phase, Phase::Mapped);
}

#[test]
fn layer_without_keyboard_interest_gets_no_focus() {
    let mut state = State::new();
    state.common.shell.add_output(output("WINIT-0"));
    state.new_layer_surface(
        panel(5, Layer::Top, KeyboardInteractivity::Disabled),
        "WINIT-0".to_string(),
    );
    state.new_layer_surface(
        panel(6, Layer::Bottom, KeyboardInteractivity::Exclusive),
        "WINIT-0".to_string(),
    );
    for surface in [5u64, 6] {
        state.commit(surface, false);
        state.commit(surface, true);
    }
    assert_eq!(state.common.shell.outputs[0].layers.layers.len(), 2);
    assert_eq!(state.common.seats[0].active_focus.0, None);
}

#[test]
fn commit_of_mapped_layer_marks_its_output_for_arranging() {
    let mut state = State::new();
    state.common.shell.add_output(output("A"));
    state.common.shell.add_output(output("B"));
    state.new_layer_surface(panel(5, Layer::Overlay, KeyboardInteractivity::OnDemand), "B".to_string());
    state.commit(5, false);
    state.commit(5, true);
    assert!(state.common.shell.outputs[1].layers.take_arrange());
    assert!(!state.common.shell.outputs[1].layers.needs_arrange);
    assert_eq!(state.commit(5, true), CommitOutcome::Applied);
    assert!(state.common.shell.outputs[1].layers.needs_arrange);
    assert!(!state.common.shell.outputs[0].layers.needs_arrange);
}

#[test]
fn layer_for_missing_output_is_mapped_nowhere() {
    let mut state = State::new();
    state.common.shell.add_output(output("A"));
    state.new_layer_surface(panel(5, Layer::Top, KeyboardInteractivity::Disabled), "GONE".to_string());
    state.commit(5, false);
    assert_eq!(state.commit(5, true), CommitOutcome::Mapped);
    assert!(state.common.shell.outputs[0].layers.layers.is_empty());
    assert!(state.common.shell.pending_layers.is_empty());
}

#[test]
fn popup_is_configured_once_at_its_first_commit() {
    let mut state = State::new();
    let positioner = PositionerState { size: Size { w: 100, h: 50 }, offset: Point { x: 4, y: 8 } };
    state.new_popup(11, 7, positioner);
    assert!(!state.common.shell.popups.popups[0].unconstrained);
    assert_eq!(state.commit(11, false), CommitOutcome::Applied);
    assert!(state.common.shell.popups.popups[0].unconstrained);
    assert_eq!(state.commit(11, true), CommitOutcome::Applied);
    let sent = state.common.shell.surfaces.take_configures();
    assert_eq!(sent.len(), 1);
    assert!(sent[0].initial);
    assert_eq!(sent[0].surface, 11);
}

#[test]
fn grab_before_configure_is_a_protocol_error() {
    let mut state = State::new();
    let positioner = PositionerState { size: Size { w: 1, h: 1 }, offset: Point { x: 0, y: 0 } };
    assert_eq!(state.grab(11, 0, Serial(1)), Err(ProtocolError::UnknownPopup));
    state.new_popup(11, 7, positioner);
    assert_eq!(state.grab(11, 0, Serial(1)), Err(ProtocolError::GrabBeforeConfigure));
    state.commit(11, false);
    assert_eq!(state.grab(11, 0, Serial(2)), Ok(()));
}

#[test]
fn ensure_initial_configure_reports_what_was_sent_before() {
    let mut state = State::new();
    state.new_toplevel(3);
    assert!(!state.toplevel_ensure_initial_configure(3));
    assert!(state.toplevel_ensure_initial_configure(3));
    assert!(!state.layer_surface_ensure_inital_configure(99));
    assert_eq!(state.common.shell.surfaces.take_configures().len(), 1);
}

#[test]
fn waiting_layer_is_mapped_with_its_latest_state() {
    let mut state = State::new();
    state.common.shell.add_output(output("A"));
    state.new_layer_surface(panel(5, Layer::Top, KeyboardInteractivity::Disabled), "A".to_string());
    state.commit(5, false);
    state.common.shell.layer_state_changed(panel(5, Layer::Overlay, KeyboardInteractivity::OnDemand));
    state.common.shell.layer_state_changed(panel(6, Layer::Overlay, KeyboardInteractivity::OnDemand));
    state.commit(5, true);
    assert_eq!(state.common.shell.outputs[0].layers.layers[0].layer, Layer::Overlay);
    assert_eq!(state.common.seats[0].active_focus.0, Some(5));
    assert_eq!(state.common.shell.outputs[0].layers.layers.len(), 1);
}

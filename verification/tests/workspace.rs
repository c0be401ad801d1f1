use electrum::input::add_seat;
use electrum::messages::answer;
use electrum::messages::CompositorMessage;
use electrum::messages::FixedPoint;
use electrum::messages::PointerGrabStartData;
use electrum::messages::ResizeEdge;
use electrum::messages::RuntimeMessage;
use electrum::messages::Serial;
use electrum::output::Mode;
use electrum::output::Output;
use electrum::output::PhysicalSize;
use electrum::output::Point;
use electrum::output::Scale;
use electrum::output::Transform;
use electrum::render::needs_buffer_reset;
use electrum::render::render_output;
use electrum::render::RenderPlan;
use electrum::state::State;
use electrum::surface::Size;

fn output(name: &str, w: i32, h: i32, scale: Scale, x: i32) -> Output {
    Output::new(
        name.to_string(),
        Some(Mode { size: PhysicalSize { w, h }, refresh: 60_000 }),
        scale,
        Transform::Normal,
        Point { x, y: 0 },
    )
}

fn state_with(windows: &[u64]) -> State {
    let mut state = State::new();
    state.common.shell.add_output(output("A", 1920, 1080, Scale::one(), 0));
    state.common.shell.add_output(output("B", 2560, 1440, Scale::integer(2).unwrap(), 1920));
    for window in windows {
        state.new_toplevel(*window);
        state.commit(*window, false);
        state.commit(*window, true);
    }
    state.common.shell.surfaces.take_configures();
    state
}

fn start() -> PointerGrabStartData {
    PointerGrabStartData { focus: Some(1), button: 272, location: FixedPoint { x: 256, y: 512 } }
}

#[test]
fn fullscreen_resizes_to_the_logical_size_of_the_output() {
    let mut state = state_with(&[1]);
    let shell = &mut state.common.shell;
    let b = output("B", 2560, 1440, Scale::integer(2).unwrap(), 1920);
    shell.workspaces[0].fullscreen_request(1, &b, &mut shell.surfaces);
    assert_eq!(shell.workspaces[0].fullscreen.get(&"B".to_string()), Some(&1));
    let sent = shell.surfaces.take_configures();
    assert_eq!(sent.len(), 1);
    assert_eq!(sent[0].surface, 1);
    assert!(sent[0].state.fullscreen);
    assert_eq!(sent[0].state.size, Some(Size { w: 1280, h: 720 }));
    assert!(shell.workspaces[0].runtime_sender.is_empty());
}

#[test]
fn second_fullscreen_request_for_an_output_is_ignored() {
    let mut state = state_with(&[1, 2]);
    let shell = &mut state.common.shell;
    let a = output("A", 1920, 1080, Scale::one(), 0);
    shell.workspaces[0].fullscreen_request(1, &a, &mut shell.surfaces);
    shell.surfaces.take_configures();
    shell.workspaces[0].fullscreen_request(2, &a, &mut shell.surfaces);
    assert_eq!(shell.workspaces[0].fullscreen.get(&"A".to_string()), Some(&1));
    assert_eq!(shell.workspaces[0].fullscreen.len(), 1);
    assert!(shell.surfaces.take_configures().is_empty());
    assert!(!shell.surfaces.get(2).unwrap().pending.fullscreen);
    assert_eq!(shell.workspaces[0].get_fullscreen(&a, &shell.surfaces), Some(1));
}

#[test]
fn unfullscreen_frees_the_output_and_tells_the_engine() {
    let mut state = state_with(&[1, 2]);
    let shell = &mut state.common.shell;
    let a = output("A", 1920, 1080, Scale::one(), 0);
    shell.workspaces[0].fullscreen_request(1, &a, &mut shell.surfaces);
    shell.surfaces.take_configures();
    shell.workspaces[0].unfullscreen_request(1, &mut shell.surfaces);
    assert_eq!(shell.workspaces[0].fullscreen.len(), 0);
    let sent = shell.surfaces.take_configures();
    assert_eq!(sent.len(), 1);
    assert!(!sent[0].state.fullscreen);
    assert_eq!(sent[0].state.size, None);
    assert_eq!(
        shell.workspaces[0].runtime_sender.take(),
        vec![RuntimeMessage::UnfullscreenRequest { window: 1 }]
    );
    shell.workspaces[0].fullscreen_request(2, &a, &mut shell.surfaces);
    assert_eq!(shell.workspaces[0].get_fullscreen(&a, &shell.surfaces), Some(2));
}

#[test]
fn unfullscreen_of_a_windowed_window_does_nothing() {
    let mut state = state_with(&[1]);
    let shell = &mut state.common.shell;
    shell.workspaces[0].unfullscreen_request(1, &mut shell.surfaces);
    assert!(shell.surfaces.take_configures().is_empty());
    assert!(shell.workspaces[0].runtime_sender.is_empty());
}

#[test]
fn move_request_of_a_fullscreen_window_sends_nothing() {
    let mut state = state_with(&[1]);
    let a = output("A", 1920, 1080, Scale::one(), 0);
    {
        let shell = &mut state.common.shell;
        shell.workspaces[0].fullscreen_request(1, &a, &mut shell.surfaces);
    }
    let seat = add_seat(0, "seat-0".to_string());
    state.common.shell.move_request(1, &seat, Serial(5), start());
    assert!(state.common.shell.workspaces[0].runtime_sender.is_empty());
    assert!(state.common.shell.workspaces[0].runtime_sender.take().is_empty());
}

#[test]
fn move_request_of_a_windowed_window_reaches_the_engine() {
    let mut state = state_with(&[1]);
    let seat = add_seat(3, "seat-3".to_string());
    state.common.shell.move_request(1, &seat, Serial(5), start());
    assert_eq!(
        state.common.shell.workspaces[0].runtime_sender.take(),
        vec![RuntimeMessage::MoveRequest {
            window: 1,
            seat: 3,
            serial: Serial(5),
            start_data: start(),
        }]
    );
}

#[test]
fn move_request_without_pointer_or_window_sends_nothing() {
    let mut state = state_with(&[1]);
    let mut seat = add_seat(3, "seat-3".to_string());
    state.common.shell.move_request(9, &seat, Serial(5), start());
    seat.pointer = false;
    state.common.shell.move_request(1, &seat, Serial(5), start());
    assert!(state.common.shell.workspaces[0].runtime_sender.is_empty());
}

#[test]
fn maximize_and_resize_are_guarded_by_fullscreen() {
    let mut state = state_with(&[1, 2]);
    let shell = &mut state.common.shell;
    let a = output("A", 1920, 1080, Scale::one(), 0);
    shell.workspaces[0].fullscreen_request(1, &a, &mut shell.surfaces);
    shell.workspaces[0].maximize_request(1, &a);
    shell.workspaces[0].resize_request(1, 0, Serial(1), start(), ResizeEdge::TopLeft);
    assert!(shell.workspaces[0].runtime_sender.is_empty());
    shell.workspaces[0].maximize_request(2, &a);
    shell.workspaces[0].resize_request(2, 0, Serial(1), start(), ResizeEdge::TopLeft);
    shell.workspaces[0].unmaximize_request(2, &mut shell.surfaces);
    assert_eq!(
        shell.workspaces[0].runtime_sender.take(),
        vec![
            RuntimeMessage::MaximizeRequest { window: 2, output: "A".to_string() },
            RuntimeMessage::ResizeRequest {
                window: 2,
                seat: 0,
                serial: Serial(1),
                start_data: start(),
                edges: ResizeEdge::TopLeft,
            },
            RuntimeMessage::UnmaximizeRequest { window: 2 },
        ]
    );
}

#[test]
fn unmaximize_of_a_fullscreen_window_leaves_fullscreen() {
    let mut state = state_with(&[1]);
    let shell = &mut state.common.shell;
    let a = output("A", 1920, 1080, Scale::one(), 0);
    shell.workspaces[0].fullscreen_request(1, &a, &mut shell.surfaces);
    shell.workspaces[0].unmaximize_request(1, &mut shell.surfaces);
    assert_eq!(shell.workspaces[0].fullscreen.len(), 0);
    assert_eq!(
        shell.workspaces[0].runtime_sender.take(),
        vec![RuntimeMessage::UnfullscreenRequest { window: 1 }]
    );
}

#[test]
fn removed_output_loses_its_fullscreen_window_at_refresh() {
    let mut state = state_with(&[1]);
    let a = output("A", 1920, 1080, Scale::one(), 0);
    {
        let shell = &mut state.common.shell;
        shell.workspaces[0].fullscreen_request(1, &a, &mut shell.surfaces);
        shell.surfaces.take_configures();
    }
    state.common.shell.remove_output(&a);
    assert_eq!(state.common.shell.outputs.len(), 1);
    assert_eq!(state.common.shell.workspaces[0].fullscreen.len(), 1);
    {
        let shell = &state.common.shell;
        assert_eq!(shell.workspaces[0].get_fullscreen(&a, &shell.surfaces), None);
    }
    state.common.shell.refresh();
    let shell = &mut state.common.shell;
    assert_eq!(shell.workspaces[0].fullscreen.len(), 0);
    assert_eq!(
        shell.workspaces[0].runtime_sender.take(),
        vec![RuntimeMessage::UnfullscreenRequest { window: 1 }]
    );
    let sent = shell.surfaces.take_configures();
    assert_eq!(sent.len(), 1);
    assert!(!sent[0].state.fullscreen);
    assert_eq!(shell.workspaces[0].space.windows, vec![1]);
}

#[test]
fn refresh_drops_dead_windows_and_their_fullscreen_entries() {
    let mut state = state_with(&[1, 2]);
    let a = output("A", 1920, 1080, Scale::one(), 0);
    {
        let shell = &mut state.common.shell;
        shell.workspaces[0].fullscreen_request(1, &a, &mut shell.surfaces);
        shell.surfaces.take_configures();
        shell.surfaces.destroyed(1);
        assert_eq!(shell.workspaces[0].get_fullscreen(&a, &shell.surfaces), None);
    }
    state.common.shell.refresh();
    let shell = &mut state.common.shell;
    assert_eq!(shell.workspaces[0].fullscreen.len(), 0);
    assert_eq!(shell.workspaces[0].space.windows, vec![2]);
    assert_eq!(shell.workspaces[0].space.window_location(1), None);
    assert_eq!(
        shell.workspaces[0].runtime_sender.take(),
        vec![RuntimeMessage::UnfullscreenRequest { window: 1 }]
    );
    assert!(shell.surfaces.take_configures().is_empty());
    let a_again = output("A", 1920, 1080, Scale::one(), 0);
    shell.workspaces[0].fullscreen_request(2, &a_again, &mut shell.surfaces);
    assert_eq!(shell.workspaces[0].get_fullscreen(&a_again, &shell.surfaces), Some(2));
}

#[test]
fn add_output_maps_it_at_its_location() {
    let state = state_with(&[]);
    let shell = &state.common.shell;
    assert_eq!(shell.outputs().len(), 2);
    assert_eq!(shell.active_workspace().space.outputs.get(&"A".to_string()), Some(&Point { x: 0, y: 0 }));
    assert_eq!(
        shell.active_workspace().space.outputs.get(&"B".to_string()),
        Some(&Point { x: 1920, y: 0 })
    );
}

#[test]
fn remove_output_unmaps_it_and_keeps_the_rest() {
    let mut state = state_with(&[1]);
    let a = output("A", 1920, 1080, Scale::one(), 0);
    state.common.shell.remove_output(&a);
    let shell = &state.common.shell;
    assert_eq!(shell.outputs.len(), 1);
    assert_eq!(shell.outputs[0].name, "B");
    assert!(!shell.workspaces[0].space.has_output(&"A".to_string()));
    assert_eq!(
        shell.workspaces[0].space.outputs.get(&"B".to_string()),
        Some(&Point { x: 1920, y: 0 })
    );
    assert_eq!(shell.workspaces[0].space.windows, vec![1]);
}

#[test]
fn refresh_outputs_applies_the_reported_location() {
    let mut state = state_with(&[]);
    state.common.shell.outputs[1].location = Point { x: -2560, y: 10 };
    state.common.shell.refresh_outputs();
    let first = state.common.shell.workspaces[0].space.outputs.get(&"B".to_string()).copied();
    assert_eq!(first, Some(Point { x: -2560, y: 10 }));
    state.common.shell.refresh_outputs();
    let second = state.common.shell.workspaces[0].space.outputs.get(&"B".to_string()).copied();
    assert_eq!(second, first);
    assert_eq!(state.common.shell.workspaces[0].space.outputs.len(), 2);
}

#[test]
fn render_plan_follows_the_fullscreen_entry() {
    let mut state = state_with(&[1]);
    let a = output("A", 1920, 1080, Scale::one(), 0);
    assert_eq!(render_output(&state.common, &a, 2), RenderPlan::Desktop { age: 2 });
    assert!(!needs_buffer_reset(&"A".to_string(), &mut state.common));
    {
        let shell = &mut state.common.shell;
        shell.workspaces[0].fullscreen_request(1, &a, &mut shell.surfaces);
    }
    assert_eq!(render_output(&state.common, &a, 2), RenderPlan::Window { window: 1 });
    assert!(needs_buffer_reset(&"A".to_string(), &mut state.common));
    assert!(!needs_buffer_reset(&"A".to_string(), &mut state.common));
    assert!(!needs_buffer_reset(&"NONE".to_string(), &mut state.common));
    {
        let shell = &mut state.common.shell;
        shell.workspaces[0].unfullscreen_request(1, &mut shell.surfaces);
    }
    assert!(needs_buffer_reset(&"A".to_string(), &mut state.common));
}

#[test]
fn ping_is_answered_by_ping() {
    assert_eq!(answer(&RuntimeMessage::Ping), Some(CompositorMessage::Ping));
    assert_eq!(answer(&RuntimeMessage::UnmaximizeRequest { window: 1 }), None);
    let mut state = state_with(&[]);
    state.common.shell.handle_compositor_message(CompositorMessage::Ping);
    assert_eq!(state.common.shell.workspaces[0].runtime_sender.take(), vec![RuntimeMessage::Ping]);
}

#[test]
fn space_for_window_finds_the_holding_workspace() {
    let mut state = state_with(&[1]);
    assert_eq!(state.common.shell.workspace_of(1), Some(0));
    assert_eq!(state.common.shell.workspace_of(2), None);
    assert!(state.common.shell.space_for_window_mut(2).is_none());
    let workspace = state.common.shell.space_for_window_mut(1).unwrap();
    assert_eq!(workspace.idx, 0);
    workspace.space.unmap_window(1);
    assert_eq!(state.common.shell.workspace_of(1), None);
    assert_eq!(state.common.shell.active_workspace_mut().space.windows.len(), 0);
}

#[test]
fn requests_are_refused_once_the_engine_is_gone() {
    let mut state = state_with(&[1]);
    let seat = add_seat(0, "seat-0".to_string());
    state.common.shell.move_request(1, &seat, Serial(1), start());
    state.common.shell.engine_gone();
    state.common.shell.move_request(1, &seat, Serial(2), start());
    let a = output("A", 1920, 1080, Scale::one(), 0);
    state.common.shell.workspaces[0].maximize_request(1, &a);
    let outbox = &mut state.common.shell.workspaces[0].runtime_sender;
    assert!(outbox.closed);
    assert_eq!(
        outbox.take(),
        vec![RuntimeMessage::MoveRequest {
            window: 1,
            seat: 0,
            serial: Serial(1),
            start_data: start(),
        }]
    );
    assert_eq!(
        outbox.take_refused(),
        vec![
            RuntimeMessage::MoveRequest { window: 1, seat: 0, serial: Serial(2), start_data: start() },
            RuntimeMessage::MaximizeRequest { window: 1, output: "A".to_string() },
        ]
    );
    assert!(!outbox.send(RuntimeMessage::Ping));
    assert!(outbox.is_empty());
    assert_eq!(outbox.take_refused(), vec![RuntimeMessage::Ping]);
}

#[test]
fn mapping_a_window_takes_it_out_of_other_workspaces() {
    let mut state = state_with(&[1]);
    let mut other = electrum::workspace::Workspace::new(1);
    other.space.map_window(2, Point { x: 5, y: 5 });
    other.space.map_window(3, Point { x: 6, y: 6 });
    state.common.shell.workspaces.push(other);
    assert_eq!(state.common.shell.workspace_of(2), Some(1));
    state.common.shell.map_window(2, None);
    assert_eq!(state.common.shell.workspaces[0].space.windows, vec![1, 2]);
    assert_eq!(state.common.shell.workspaces[1].space.windows, vec![3]);
    assert_eq!(state.common.shell.workspaces[1].space.window_location(2), None);
    assert_eq!(
        state.common.shell.workspaces[0].space.window_location(2),
        Some(Point { x: 0, y: 0 })
    );
}

#[test]
fn every_workspace_is_reconciled_with_its_own_stacks() {
    let mut state = state_with(&[1]);
    let mut other = electrum::workspace::Workspace::new(1);
    other.space.map_window(8, Point { x: 0, y: 0 });
    other.space.map_window(9, Point { x: 0, y: 0 });
    state.common.shell.workspaces.push(other);
    for window in [8u64, 9] {
        state.common.shell.surfaces.register(window, electrum::surface::Role::Toplevel);
    }
    state.common.set_focus(Some(1), 0);
    state.common.set_focus(Some(8), 0);
    let activated = |window: u64| state.common.shell.surfaces.get(window).unwrap().pending.activated;
    assert!(activated(1));
    assert!(activated(8));
    assert!(!activated(9));
    assert_eq!(state.common.shell.workspaces[1].space.windows, vec![9, 8]);
}

use electrum::input::Device;
use electrum::input::DeviceCapability;
use electrum::input::Devices;
use electrum::name_map::NameMap;
use electrum::output::Scale;
use electrum::state::InputEvent;
use electrum::state::State;
use electrum::surface::Role;
use electrum::surface::SurfaceRegistry;
use electrum::surface::ToplevelState;
use electrum::surface::Size;

#[test]
fn integer_scale_divides_and_rounds_half_away_from_zero() {
    let two = Scale::integer(2).unwrap();
    assert_eq!(two.fractional_scale(), 240);
    assert_eq!(two.to_logical(1920), 960);
    assert_eq!(two.to_logical(3), 2);
    assert_eq!(two.to_logical(-3), -2);
    assert_eq!(two.to_logical(1), 1);
    assert_eq!(two.to_logical(0), 0);
    assert_eq!(Scale::one().to_logical(1080), 1080);
    assert_eq!(Scale::integer(3).unwrap().to_logical(4), 1);
    assert_eq!(Scale::integer(3).unwrap().to_logical(5), 2);
}

#[test]
fn fractional_scale_is_exact_in_120ths() {
    let one_and_a_half = Scale::fractional(180).unwrap();
    assert_eq!(one_and_a_half.to_logical(1920), 1280);
    assert_eq!(one_and_a_half.to_logical(1080), 720);
    assert_eq!(one_and_a_half.to_logical(1), 1);
    let half = Scale::fractional(60).unwrap();
    assert_eq!(half.to_logical(1000), 2000);
}

#[test]
fn conversion_saturates_at_the_bounds() {
    let half = Scale::fractional(60).unwrap();
    assert_eq!(half.to_logical(i32::MAX), i32::MAX);
    assert_eq!(half.to_logical(i32::MIN), i32::MIN);
    assert_eq!(Scale::one().to_logical(i32::MIN), i32::MIN);
    assert_eq!(Scale::one().to_logical(i32::MAX), i32::MAX);
}

#[test]
fn zero_and_oversized_scales_are_refused() {
    assert!(Scale::integer(0).is_none());
    assert!(Scale::fractional(0).is_none());
    assert!(Scale::integer(u32::MAX).is_none());
    assert!(Scale::integer(35_791_394).is_some());
    assert!(Scale::integer(35_791_395).is_none());
}

#[test]
fn name_map_keeps_insertion_order_and_latest_value() {
    let mut map: NameMap<u32> = NameMap::new();
    assert_eq!(map.insert("b".to_string(), 1), None);
    assert_eq!(map.insert("a".to_string(), 2), None);
    assert_eq!(map.insert("b".to_string(), 3), Some(1));
    assert_eq!(map.len(), 2);
    assert_eq!(map.name_at(0), "b");
    assert_eq!(map.value_at(0), &3);
    assert_eq!(map.name_at(1), "a");
    assert_eq!(map.get(&"a".to_string()), Some(&2));
    assert_eq!(map.get(&"c".to_string()), None);
    assert_eq!(map.position(&"a".to_string()), Some(1));
    assert!(map.contains_key(&"b".to_string()));
    assert_eq!(map.remove(&"b".to_string()), Some(3));
    assert_eq!(map.remove(&"b".to_string()), None);
    assert_eq!(map.len(), 1);
    assert_eq!(map.remove_at(0), ("a".to_string(), 2));
    assert_eq!(map.len(), 0);
}

fn device(id: &str, capabilities: &[DeviceCapability]) -> Device {
    Device { id: id.to_string(), capabilities: capabilities.to_vec() }
}

#[test]
fn add_device_reports_the_capabilities_gained() {
    let mut devices = Devices::new();
    let gained = devices.add_device(&device(
        "kbd",
        &[DeviceCapability::Touch, DeviceCapability::Keyboard],
    ));
    assert_eq!(gained, vec![DeviceCapability::Keyboard]);
    let gained = devices.add_device(&device(
        "combo",
        &[DeviceCapability::Pointer, DeviceCapability::Keyboard],
    ));
    assert_eq!(gained, vec![DeviceCapability::Pointer]);
    let gained = devices.add_device(&device("mouse", &[DeviceCapability::Pointer]));
    assert_eq!(gained, Vec::<DeviceCapability>::new());
    assert!(devices.has_device(&"combo".to_string()));
    assert!(!devices.has_device(&"pen".to_string()));
    assert!(devices.provides(DeviceCapability::Keyboard));
    assert!(!devices.provides(DeviceCapability::Touch));
}

#[test]
fn remove_device_reports_the_capabilities_lost() {
    let mut devices = Devices::new();
    devices.add_device(&device("kbd", &[DeviceCapability::Keyboard]));
    devices.add_device(&device(
        "combo",
        &[DeviceCapability::Keyboard, DeviceCapability::Pointer],
    ));
    assert_eq!(devices.remove_device(&"combo".to_string()), vec![DeviceCapability::Pointer]);
    assert_eq!(devices.remove_device(&"combo".to_string()), Vec::<DeviceCapability>::new());
    assert_eq!(devices.remove_device(&"kbd".to_string()), vec![DeviceCapability::Keyboard]);
}

#[test]
fn device_events_reach_the_right_seat() {
    let mut state = State::new();
    state.common.seats.push(electrum::input::add_seat(1, "seat-1".to_string()));
    state.common.last_active_seat = 1;
    state.process_input_event(InputEvent::DeviceAdded {
        device: device("kbd", &[DeviceCapability::Keyboard]),
    });
    assert!(!state.common.seats[0].devices.has_device(&"kbd".to_string()));
    assert!(state.common.seats[1].devices.has_device(&"kbd".to_string()));
    state.process_input_event(InputEvent::PointerMotion);
    state.process_input_event(InputEvent::DeviceRemoved { device: device("kbd", &[]) });
    assert!(!state.common.seats[1].devices.has_device(&"kbd".to_string()));
    state.process_input_event(InputEvent::DeviceRemoved { device: device("kbd", &[]) });
    assert_eq!(state.common.seats.len(), 2);
}

#[test]
fn registry_records_liveness_and_configures() {
    let mut surfaces = SurfaceRegistry::new();
    assert!(!surfaces.is_alive(1));
    surfaces.register(1, Role::Toplevel);
    assert!(surfaces.is_alive(1));
    assert!(!surfaces.initial_configure_sent(1));
    surfaces.set_pending(
        1,
        ToplevelState { activated: true, fullscreen: false, size: Some(Size { w: 3, h: 4 }) },
    );
    surfaces.send_configure(1);
    surfaces.send_configure(1);
    surfaces.send_configure(2);
    assert!(surfaces.initial_configure_sent(1));
    let sent = surfaces.take_configures();
    assert_eq!(sent.len(), 2);
    assert!(sent[0].initial);
    assert!(!sent[1].initial);
    assert_eq!(sent[1].state.size, Some(Size { w: 3, h: 4 }));
    assert!(surfaces.take_configures().is_empty());
    surfaces.destroyed(1);
    assert!(!surfaces.is_alive(1));
    assert!(surfaces.get(1).is_some());
    surfaces.send_configure(1);
    assert!(surfaces.take_configures().is_empty());
    surfaces.forget(1);
    assert!(surfaces.get(1).is_none());
}

#[test]
fn new_state_has_one_seat_and_one_workspace() {
    let state = State::new();
    assert_eq!(state.common.seats.len(), 1);
    assert_eq!(state.common.seats[0].name, "seat-0");
    assert_eq!(state.common.last_active_seat, 0);
    assert!(!state.common.should_stop);
    assert_eq!(state.common.shell.workspaces.len(), 1);
    assert_eq!(state.common.shell.workspaces[0].idx, 0);
    let _client = state.new_client_state();
}

#[test]
fn loop_shuts_down_without_outputs_or_after_a_display_failure() {
    let mut state = State::new();
    assert!(state.common.should_shut_down());
    state.common.shell.add_output(electrum::output::Output::new(
        "A".to_string(),
        None,
        Scale::one(),
        electrum::output::Transform::Normal,
        electrum::output::Point { x: 0, y: 0 },
    ));
    assert!(!state.common.should_shut_down());
    state.common.display_failed();
    assert!(state.common.should_stop);
    assert!(state.common.should_shut_down());
}

#[test]
fn fullscreen_size_without_a_mode_is_empty() {
    let output = electrum::output::Output::new(
        "A".to_string(),
        None,
        Scale::integer(2).unwrap(),
        electrum::output::Transform::Normal,
        electrum::output::Point { x: 0, y: 0 },
    );
    assert_eq!(output.fullscreen_size(), Size { w: 0, h: 0 });
}

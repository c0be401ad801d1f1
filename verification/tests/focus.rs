use electrum::focus::FocusStackData;
use electrum::input::add_seat;
use electrum::input::ActiveFocus;
use electrum::input::Seat;
use electrum::state::State;
use electrum::surface::Role;
use electrum::surface::SurfaceRegistry;

fn order(data: &FocusStackData, idx: u8) -> Vec<u64> {
    data.get(idx).0.iter().copied().collect()
}

fn registry(alive: &[u64]) -> SurfaceRegistry {
    let mut surfaces = SurfaceRegistry::new();
    for surface in alive {
        surfaces.register(*surface, Role::Toplevel);
    }
    surfaces
}

#[test]
fn append_puts_the_window_last() {
    let surfaces = registry(&[1, 2, 3]);
    let mut data = FocusStackData::new();
    for window in [1u64, 2, 3] {
        data.get_mut(0).append(window, &surfaces);
    }
    assert_eq!(order(&data, 0), vec![1, 2, 3]);
    assert_eq!(data.get(0).last(&surfaces), Some(3));
}

#[test]
fn append_of_the_tail_changes_nothing() {
    let surfaces = registry(&[1, 2, 3]);
    let mut data = FocusStackData::new();
    for window in [1u64, 2, 3, 3] {
        data.get_mut(0).append(window, &surfaces);
    }
    assert_eq!(order(&data, 0), vec![1, 2, 3]);
}

#[test]
fn append_of_a_member_moves_it_to_the_tail() {
    let surfaces = registry(&[1, 2, 3]);
    let mut data = FocusStackData::new();
    for window in [1u64, 2, 3, 1] {
        data.get_mut(0).append(window, &surfaces);
    }
    assert_eq!(order(&data, 0), vec![2, 3, 1]);
}

#[test]
fn last_skips_dead_windows_without_removing_them() {
    let mut surfaces = registry(&[1, 2, 3]);
    let mut data = FocusStackData::new();
    for window in [1u64, 2, 3] {
        data.get_mut(0).append(window, &surfaces);
    }
    surfaces.destroyed(3);
    assert_eq!(data.get(0).last(&surfaces), Some(2));
    assert_eq!(order(&data, 0), vec![1, 2, 3]);
    surfaces.destroyed(2);
    surfaces.destroyed(1);
    assert_eq!(data.get(0).last(&surfaces), None);
    assert_eq!(data.get_mut(0).last(&surfaces), None);
}

#[test]
fn append_compacts_dead_windows() {
    let mut surfaces = registry(&[1, 2, 3, 4]);
    let mut data = FocusStackData::new();
    for window in [1u64, 2, 3] {
        data.get_mut(0).append(window, &surfaces);
    }
    surfaces.destroyed(2);
    data.get_mut(0).append(4, &surfaces);
    assert_eq!(order(&data, 0), vec![1, 3, 4]);
}

#[test]
fn stacks_of_different_workspaces_are_independent() {
    let surfaces = registry(&[1, 2]);
    let mut data = FocusStackData::new();
    data.get_mut(0).append(1, &surfaces);
    data.get_mut(1).append(2, &surfaces);
    assert_eq!(order(&data, 0), vec![1]);
    assert_eq!(order(&data, 1), vec![2]);
    assert_eq!(order(&data, 2), Vec::<u64>::new());
}

fn mapped(state: &mut State, windows: &[u64]) {
    for window in windows {
        state.new_toplevel(*window);
        state.commit(*window, false);
        state.commit(*window, true);
    }
    state.common.shell.surfaces.take_configures();
}

fn activated(state: &State, window: u64) -> bool {
    state.common.shell.surfaces.get(window).unwrap().pending.activated
}

#[test]
fn two_seats_activate_two_windows() {
    let mut state = State::new();
    state.common.seats.push(add_seat(1, "seat-1".to_string()));
    mapped(&mut state, &[1, 2, 3]);
    state.common.set_focus(Some(1), 0);
    state.common.set_focus(Some(2), 1);
    assert!(activated(&state, 1));
    assert!(activated(&state, 2));
    assert!(!activated(&state, 3));
    assert_eq!(state.common.shell.workspaces[0].space.windows, vec![3, 1, 2]);
    assert_eq!(order(&state.common.seats[0].focus, 0), vec![1]);
    assert_eq!(order(&state.common.seats[1].focus, 0), vec![2]);
}

#[test]
fn update_active_configures_every_window_once() {
    let mut state = State::new();
    mapped(&mut state, &[1, 2, 3]);
    state.common.set_focus(Some(2), 0);
    let sent = state.common.shell.surfaces.take_configures();
    assert_eq!(sent.len(), 3);
    let surfaces: Vec<u64> = sent.iter().map(|c| c.surface).collect();
    assert_eq!(surfaces, vec![1, 3, 2]);
    let flags: Vec<bool> = sent.iter().map(|c| c.state.activated).collect();
    assert_eq!(flags, vec![false, false, true]);
    assert!(sent.iter().all(|c| !c.initial));
}

#[test]
fn activation_follows_the_current_tails_only() {
    let mut state = State::new();
    mapped(&mut state, &[1, 2]);
    state.common.set_focus(Some(1), 0);
    assert!(activated(&state, 1));
    state.common.set_focus(Some(2), 0);
    assert!(!activated(&state, 1));
    assert!(activated(&state, 2));
    state.common.shell.surfaces.destroyed(2);
    state.common.shell.update_active(&state.common.seats);
    assert!(activated(&state, 1));
}

#[test]
fn one_seat_activates_one_window_at_most() {
    let mut state = State::new();
    mapped(&mut state, &[1, 2, 3, 4]);
    for window in [1u64, 2, 3, 4, 2] {
        state.common.set_focus(Some(window), 0);
        let count = [1u64, 2, 3, 4].iter().filter(|w| activated(&state, **w)).count();
        assert_eq!(count, 1);
    }
    assert!(activated(&state, 2));
}

#[test]
fn focus_of_an_unmapped_surface_leaves_the_stack_alone() {
    let mut state = State::new();
    mapped(&mut state, &[1]);
    state.common.set_focus(Some(1), 0);
    state.common.set_focus(Some(77), 0);
    assert_eq!(order(&state.common.seats[0].focus, 0), vec![1]);
    assert_eq!(ActiveFocus::get(&state.common.seats[0]), Some(77));
    state.common.set_focus(None, 0);
    assert_eq!(ActiveFocus::get(&state.common.seats[0]), None);
    assert!(activated(&state, 1));
}

#[test]
fn focus_for_an_unknown_seat_changes_no_seat() {
    let mut state = State::new();
    mapped(&mut state, &[1]);
    state.common.set_focus(Some(1), 9);
    assert_eq!(order(&state.common.seats[0].focus, 0), Vec::<u64>::new());
    assert!(!activated(&state, 1));
}

#[test]
fn new_seat_has_a_pointer_and_no_history() {
    let seat: Seat = add_seat(4, "seat-4".to_string());
    assert_eq!(seat.id, 4);
    assert_eq!(seat.name, "seat-4");
    assert!(seat.pointer);
    assert_eq!(order(&seat.focus, 0), Vec::<u64>::new());
    assert_eq!(ActiveFocus::get(&seat), None);
    assert!(seat.suppressed_keys.0.is_empty());
}

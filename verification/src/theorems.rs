//! What holds of the shell whatever clients, seats and the policy engine do.

use crate::focus::appended;
use crate::input::Seat;
use crate::output::Point;
use crate::seq_facts::lemma_filter_absent;
use crate::seq_facts::lemma_filter_members;
use crate::seq_facts::lemma_filter_no_duplicates;
use crate::seq_facts::lemma_first_index;
use crate::shell::activation::activate;
use crate::shell::activation::activate_each;
use crate::shell::activation::focused_windows;
use crate::output::OutputView;
use crate::shell::holds_window;
use crate::shell::outputs::placed;
use crate::shell::activation::raise_each;
use crate::space::lemma_raised;
use crate::space::raised;
use crate::shell::handshake::CommitOutcome;
use crate::shell::ShellView;
use crate::seq_facts::first_index;
use crate::surface::is_not;
use crate::surface::live_in;
use crate::surface::Configure;
use crate::surface::Registry;
use crate::surface::Size;
use crate::surface::SurfaceId;
use crate::workspace::fullscreen_anywhere;
use crate::workspace::lemma_stale;
use crate::workspace::lemma_unfullscreen_each;
use crate::workspace::stale;
use crate::workspace::Shown;
use crate::messages::PointerGrabStartData;
use crate::messages::SeatId;
use crate::messages::Serial;
use vstd::prelude::*;

verus! {

/// The shell after the commits `flags` of `surface`, each flag saying whether
/// the commit carries content.
pub open spec fn commits(shell: ShellView, surface: SurfaceId, flags: Seq<bool>) -> ShellView
    decreases flags.len(),
{
    if flags.len() == 0 {
        shell
    } else {
        commits(shell, surface, flags.drop_last()).commit(surface, flags.last())
    }
}

/// The predicate that holds of the initial configures of `surface`.
pub open spec fn is_initial_of(surface: SurfaceId) -> spec_fn(Configure) -> bool {
    |c: Configure| c.surface == surface && c.initial
}

/// How many initial configures of `surface` are among `sent`.
pub open spec fn initial_configures(sent: Seq<Configure>, surface: SurfaceId) -> nat {
    sent.filter(is_initial_of(surface)).len()
}

/// One commit sends at most one initial configure, and only to a surface that
/// had none; a surface that got one counts as configured from then on.
pub proof fn lemma_commit_configures(shell: ShellView, surface: SurfaceId, has_buffer: bool)
    ensures
        shell.registry.configured(surface) ==> {
            &&& shell.commit(surface, has_buffer).registry.configured(surface)
            &&& initial_configures(shell.commit(surface, has_buffer).registry.sent, surface)
                == initial_configures(shell.registry.sent, surface)
        },
        initial_configures(shell.commit(surface, has_buffer).registry.sent, surface)
            <= initial_configures(shell.registry.sent, surface) + 1,
        initial_configures(shell.commit(surface, has_buffer).registry.sent, surface)
            == initial_configures(shell.registry.sent, surface) + 1 ==> shell.commit(
            surface,
            has_buffer,
        ).registry.configured(surface),
{
    let sent = shell.registry.sent;
    let pred = is_initial_of(surface);
    if shell.registry.states.contains_key(surface) {
        let state = shell.registry.states[surface];
        sent.lemma_filter_push(crate::surface::configure_of(surface, state), pred);
        let cleared = crate::surface::SurfaceState {
            pending: crate::surface::ToplevelState { size: None, ..state.pending },
            ..state
        };
        sent.lemma_filter_push(crate::surface::configure_of(surface, cleared), pred);
    }
    match shell.commit_outcome(surface, has_buffer) {
        CommitOutcome::InitialConfigure => {},
        CommitOutcome::Waiting => {},
        _ => {
            let a = shell.promote_window(surface);
            let b = a.promote_layer(surface);
            assert(b.registry.sent == sent);
            assert(shell.registry.configured(surface) ==> b.registry.configured(surface));
            if b.registry.states.contains_key(surface) {
                sent.lemma_filter_push(
                    crate::surface::configure_of(surface, b.registry.states[surface]),
                    pred,
                );
            }
        },
    }
}

/// However often a surface is committed, with or without content, it is sent
/// its initial configure once at most; and never again once it was configured.
pub proof fn theorem_one_initial_configure(shell: ShellView, surface: SurfaceId, flags: Seq<bool>)
    ensures
        initial_configures(commits(shell, surface, flags).registry.sent, surface)
            <= initial_configures(shell.registry.sent, surface) + 1,
        initial_configures(commits(shell, surface, flags).registry.sent, surface)
            == initial_configures(shell.registry.sent, surface) + 1 ==> commits(
            shell,
            surface,
            flags,
        ).registry.configured(surface),
        shell.registry.configured(surface) ==> {
            &&& commits(shell, surface, flags).registry.configured(surface)
            &&& initial_configures(commits(shell, surface, flags).registry.sent, surface)
                == initial_configures(shell.registry.sent, surface)
        },
    decreases flags.len(),
{
    if flags.len() > 0 {
        theorem_one_initial_configure(shell, surface, flags.drop_last());
        lemma_commit_configures(commits(shell, surface, flags.drop_last()), surface, flags.last());
    }
}

/// Until its initial configure was sent, a waiting surface is not mapped by
/// any commit: the scene of every workspace stays as it is.
pub proof fn theorem_no_map_before_configure(shell: ShellView, surface: SurfaceId, has_buffer: bool)
    requires
        shell.waits(surface),
        !shell.registry.configured(surface),
    ensures
        shell.commit(surface, has_buffer).workspaces == shell.workspaces,
        shell.commit(surface, has_buffer).pending_windows == shell.pending_windows,
        shell.commit(surface, has_buffer).pending_layers == shell.pending_layers,
        shell.commit(surface, has_buffer).outputs == shell.outputs,
{
}

/// The first window that asks for an output keeps it: while its entry
/// stands, the request of any window for that output changes nothing.
pub proof fn theorem_fullscreen_first_wins(
    shown: Shown,
    first: SurfaceId,
    first_size: Size,
    second: SurfaceId,
    second_size: Size,
    name: Seq<char>,
)
    ensures
        shown.fullscreen(first, name, first_size).fullscreen.contains_key(name),
        !shown.fullscreen.contains_key(name) ==> shown.fullscreen(
            first,
            name,
            first_size,
        ).fullscreen[name] == first,
        shown.fullscreen(first, name, first_size).fullscreen(second, name, second_size)
            == shown.fullscreen(first, name, first_size),
{
}

/// Once the window that fills an output was told to leave fullscreen, the
/// output is free: the next window that asks for it gets it.
pub proof fn theorem_fullscreen_frees_on_leave(
    shown: Shown,
    name: Seq<char>,
    next: SurfaceId,
    size: Size,
)
    requires
        shown.fullscreen.contains_key(name),
    ensures
        !shown.unfullscreen(shown.fullscreen[name]).fullscreen.contains_key(name),
        shown.unfullscreen(shown.fullscreen[name]).fullscreen(next, name, size).fullscreen[name]
            == next,
{
    assert(fullscreen_anywhere(shown.fullscreen, shown.fullscreen[name]));
}

/// After the housekeeping of a frame no fullscreen entry is left whose output
/// is not mapped or whose window is dead. `order` lists the outputs that have
/// an entry.
pub proof fn theorem_refresh_clears_stale(
    shown: Shown,
    order: Seq<Seq<char>>,
    outputs: Map<Seq<char>, Point>,
    name: Seq<char>,
)
    requires
        forall|k: Seq<char>| shown.fullscreen.contains_key(k) ==> order.contains(k),
        shown.refreshed(order, outputs).fullscreen.contains_key(name),
    ensures
        outputs.contains_key(name),
        shown.registry.alive(shown.refreshed(order, outputs).fullscreen[name]),
        shown.fullscreen.contains_key(name),
        shown.refreshed(order, outputs).fullscreen[name] == shown.fullscreen[name],
{
    let leaving = stale(order, shown.fullscreen, outputs, shown.registry);
    lemma_unfullscreen_each(shown, leaving);
    lemma_stale(order, shown.fullscreen, outputs, shown.registry);
    assert(shown.fullscreen.contains_key(name));
    assert(order.contains(name));
    if !(outputs.contains_key(name) && shown.registry.alive(shown.fullscreen[name])) {
        let i = choose|i: int| 0 <= i < order.len() && order[i] == name;
        assert(leaving.contains(shown.fullscreen[order[i]]));
    }
}

/// When an output is removed, the window that filled it is no longer
/// fullscreen after the next housekeeping. `order` lists the outputs that
/// have a fullscreen entry in the active workspace.
pub proof fn theorem_removed_output_loses_fullscreen(
    shell: ShellView,
    name: Seq<char>,
    order: Seq<Seq<char>>,
)
    requires
        shell.workspaces.len() >= 1,
        forall|k: Seq<char>| shell.active().fullscreen.contains_key(k) ==> order.contains(k),
    ensures
        !shell.remove_output(name).refresh(order).active().fullscreen.contains_key(name),
{
    let removed = shell.remove_output(name);
    let active = removed.active();
    assert(!active.outputs.contains_key(name));
    assert(active.fullscreen == shell.active().fullscreen);
    let shown = active.shown(removed.registry);
    if shown.refreshed(order, active.outputs).fullscreen.contains_key(name) {
        theorem_refresh_clears_stale(shown, order, active.outputs, name);
    }
}

/// Appending puts the window last and leaves no window twice.
pub proof fn theorem_append_deduplicates(
    order: Seq<SurfaceId>,
    window: SurfaceId,
    registry: Registry,
)
    requires
        order.no_duplicates(),
    ensures
        appended(order, window, registry).no_duplicates(),
        appended(order, window, registry).last() == window,
        order.contains(window) && registry.alive(window) ==> appended(
            order,
            window,
            registry,
        ).len() <= order.len(),
{
    let live = order.filter(live_in(registry));
    let rest = live.filter(is_not(window));
    lemma_filter_no_duplicates(order, live_in(registry));
    lemma_filter_no_duplicates(live, is_not(window));
    lemma_filter_members(order, live_in(registry));
    lemma_filter_members(live, is_not(window));
    assert(!rest.contains(window));
    order.lemma_filter_len(live_in(registry));
    if order.contains(window) && registry.alive(window) {
        assert(live.contains(window));
        lemma_filter_drops_one(live, window);
    }
}

/// Dropping a member from a sequence makes it shorter.
proof fn lemma_filter_drops_one(s: Seq<SurfaceId>, window: SurfaceId)
    requires
        s.contains(window),
    ensures
        s.filter(is_not(window)).len() < s.len(),
    decreases s.len(),
{
    let t = s.drop_last();
    assert(s =~= t.push(s.last()));
    t.lemma_filter_push(s.last(), is_not(window));
    t.lemma_filter_len(is_not(window));
    if s.last() != window {
        let i = choose|i: int| 0 <= i < s.len() && s[i] == window;
        assert(t[i] == window);
        lemma_filter_drops_one(t, window);
    }
}

/// Appending the same window twice in a row is the same as appending it once.
pub proof fn theorem_append_idempotent(order: Seq<SurfaceId>, window: SurfaceId, registry: Registry)
    ensures
        appended(appended(order, window, registry), window, registry) == appended(
            order,
            window,
            registry,
        ),
{
    let live = order.filter(live_in(registry));
    let rest = live.filter(is_not(window));
    let once = rest.push(window);
    lemma_filter_members(order, live_in(registry));
    lemma_filter_members(live, is_not(window));
    assert forall|i: int| 0 <= i < rest.len() implies (live_in(registry))(#[trigger] rest[i]) by {
        assert(rest.contains(rest[i]));
        assert(live.contains(rest[i]));
    }
    lemma_filter_absent(rest, live_in(registry));
    rest.lemma_filter_push(window, live_in(registry));
    assert forall|i: int| 0 <= i < rest.len() implies (is_not(window))(#[trigger] rest[i]) by {
        assert(rest.contains(rest[i]));
    }
    lemma_filter_absent(rest, is_not(window));
    if registry.alive(window) {
        rest.lemma_filter_push(window, is_not(window));
    }
}

/// Appending the window that is last already, to a stack of live windows,
/// leaves the stack as it is.
pub proof fn theorem_append_tail_keeps_order(
    order: Seq<SurfaceId>,
    window: SurfaceId,
    registry: Registry,
)
    requires
        order.no_duplicates(),
        order.len() > 0,
        order.last() == window,
        forall|i: int| 0 <= i < order.len() ==> registry.alive(#[trigger] order[i]),
    ensures
        appended(order, window, registry) == order,
{
    lemma_filter_absent(order, live_in(registry));
    let head = order.drop_last();
    assert(order =~= head.push(window));
    head.lemma_filter_push(window, is_not(window));
    assert forall|i: int| 0 <= i < head.len() implies (is_not(window))(#[trigger] head[i]) by {
        assert(order[i] != order[order.len() - 1]);
    }
    lemma_filter_absent(head, is_not(window));
}

/// Each seat focuses one window at most: there are no more focused windows
/// than seats.
pub proof fn theorem_one_focus_per_seat(seats: Seq<Seat>, idx: u8, registry: Registry)
    ensures
        focused_windows(seats, idx, registry).len() <= seats.len(),
    decreases seats.len(),
{
    if seats.len() > 0 {
        theorem_one_focus_per_seat(seats.drop_last(), idx, registry);
    }
}

/// Telling one window whether it is activated leaves every other surface
/// as it was, and keeps every surface known.
proof fn lemma_activate(registry: Registry, window: SurfaceId, activated: bool)
    ensures
        forall|s: SurfaceId|
            activate(registry, window, activated).states.contains_key(s)
                == #[trigger] registry.states.contains_key(s),
        forall|s: SurfaceId|
            s != window && registry.states.contains_key(s) ==> #[trigger] activate(
                registry,
                window,
                activated,
            ).states[s] == registry.states[s],
        registry.states.contains_key(window) ==> activate(
            registry,
            window,
            activated,
        ).states[window].pending.activated == activated,
{
}

/// After the foci were reconciled, a window of the workspace is activated
/// exactly if some seat focuses it; which windows are activated depends on
/// nothing but the windows that the seats focus now.
pub proof fn theorem_activation_is_membership(
    registry: Registry,
    windows: Seq<SurfaceId>,
    focused: Seq<SurfaceId>,
    window: SurfaceId,
)
    requires
        windows.contains(window),
        registry.states.contains_key(window),
    ensures
        activate_each(registry, windows, focused).states.contains_key(window),
        activate_each(registry, windows, focused).states[window].pending.activated
            == focused.contains(window),
    decreases windows.len(),
{
    lemma_activate_each_keeps_known(registry, windows, focused);
    let head = windows.drop_last();
    let before = activate_each(registry, head, focused);
    lemma_activate_each_keeps_known(registry, head, focused);
    lemma_activate(before, windows.last(), focused.contains(windows.last()));
    if windows.last() != window {
        let i = choose|i: int| 0 <= i < windows.len() && windows[i] == window;
        assert(head[i] == window);
        theorem_activation_is_membership(registry, head, focused, window);
    }
}

/// Reconciling the foci keeps every surface known.
proof fn lemma_activate_each_keeps_known(
    registry: Registry,
    windows: Seq<SurfaceId>,
    focused: Seq<SurfaceId>,
)
    ensures
        forall|s: SurfaceId|
            activate_each(registry, windows, focused).states.contains_key(s)
                == #[trigger] registry.states.contains_key(s),
    decreases windows.len(),
{
    if windows.len() > 0 {
        let head = windows.drop_last();
        lemma_activate_each_keeps_known(registry, head, focused);
        lemma_activate(
            activate_each(registry, head, focused),
            windows.last(),
            focused.contains(windows.last()),
        );
    }
}

/// A request to move a window that fills an output never reaches the policy
/// engine: the shell stays as it is.
pub proof fn theorem_fullscreen_window_is_not_moved(
    shell: ShellView,
    window: SurfaceId,
    seat: SeatId,
    pointer: bool,
    serial: Serial,
    start_data: PointerGrabStartData,
)
    requires
        forall|i: int|
            0 <= i < shell.workspaces.len() && (#[trigger] shell.workspaces[i]).windows.contains(
                window,
            ) ==> fullscreen_anywhere(shell.workspaces[i].fullscreen, window),
    ensures
        shell.move_request(window, seat, pointer, serial, start_data) == shell,
{
    lemma_first_index(shell.workspaces, holds_window(window));
}

/// The position of the last of `outputs` that is called `name`, if there is one.
pub open spec fn last_named(outputs: Seq<OutputView>, name: Seq<char>) -> Option<int>
    decreases outputs.len(),
{
    if outputs.len() == 0 {
        None
    } else if outputs.last().name == name {
        Some(outputs.len() - 1)
    } else {
        last_named(outputs.drop_last(), name)
    }
}

/// After the outputs were placed, each sits where the last output of its name
/// reports it; what was mapped under another name stays where it was.
pub proof fn lemma_placed(scene: Map<Seq<char>, Point>, outputs: Seq<OutputView>, name: Seq<char>)
    ensures
        match last_named(outputs, name) {
            Some(i) => 0 <= i < outputs.len() && placed(scene, outputs).contains_key(name)
                && placed(scene, outputs)[name] == outputs[i].location,
            None => placed(scene, outputs).contains_key(name) == scene.contains_key(name) && (
            scene.contains_key(name) ==> placed(scene, outputs)[name] == scene[name]),
        },
    decreases outputs.len(),
{
    if outputs.len() > 0 {
        lemma_placed(scene, outputs.drop_last(), name);
    }
}

/// Placing the registered outputs is idempotent: doing it again changes nothing.
pub proof fn theorem_refresh_outputs_idempotent(shell: ShellView)
    requires
        shell.workspaces.len() >= 1,
    ensures
        shell.refresh_outputs().refresh_outputs() == shell.refresh_outputs(),
{
    let once = placed(shell.active().outputs, shell.outputs);
    let twice = placed(once, shell.outputs);
    assert forall|name: Seq<char>|
        #[trigger] twice.contains_key(name) == once.contains_key(name) && (once.contains_key(
            name,
        ) ==> twice[name] == once[name]) by {
        lemma_placed(shell.active().outputs, shell.outputs, name);
        lemma_placed(once, shell.outputs, name);
    }
    assert(twice.dom() =~= once.dom());
    assert(twice =~= once);
    assert(shell.refresh_outputs().refresh_outputs().workspaces
        =~= shell.refresh_outputs().workspaces);
}

/// A removed output is mapped into no workspace and registered no longer.
pub proof fn theorem_removed_output_is_unmapped(shell: ShellView, name: Seq<char>, i: int)
    requires
        0 <= i < shell.workspaces.len(),
    ensures
        !shell.remove_output(name).workspaces[i].outputs.contains_key(name),
        forall|k: int|
            0 <= k < shell.remove_output(name).outputs.len() ==> (#[trigger] shell.remove_output(
                name,
            ).outputs[k]).name != name,
{
    let kept = shell.outputs.filter(|o: OutputView| o.name != name);
    assert forall|k: int| 0 <= k < kept.len() implies (#[trigger] kept[k]).name != name by {
        shell.outputs.lemma_filter_pred(|o: OutputView| o.name != name, k);
    }
}

/// No window is in the scene of two workspaces.
pub open spec fn scenes_disjoint(shell: ShellView) -> bool {
    forall|i: int, j: int, window: SurfaceId|
        0 <= i < j < shell.workspaces.len() && #[trigger] shell.workspaces[i].windows.contains(
            window,
        ) ==> !#[trigger] shell.workspaces[j].windows.contains(window)
}

/// Raising focused windows neither adds a window to a scene nor takes one out.
pub proof fn lemma_raise_each_members(order: Seq<SurfaceId>, focused: Seq<SurfaceId>)
    requires
        order.no_duplicates(),
    ensures
        raise_each(order, focused).no_duplicates(),
        forall|w: SurfaceId| #[trigger] raise_each(order, focused).contains(w) == order.contains(w),
    decreases focused.len(),
{
    if focused.len() > 0 {
        lemma_raise_each_members(order, focused.drop_last());
        let before = raise_each(order, focused.drop_last());
        if before.contains(focused.last()) {
            lemma_raised(before, focused.last());
        }
    }
}

/// Mapping a window leaves it in the scene of the active workspace and of no
/// other; and if no window was in two scenes before, none is afterwards.
pub proof fn theorem_map_window_keeps_scenes_disjoint(shell: ShellView, window: SurfaceId)
    requires
        shell.workspaces.len() >= 1,
        scenes_disjoint(shell),
        forall|i: int|
            0 <= i < shell.workspaces.len() ==> (#[trigger] shell.workspaces[i]).windows.no_duplicates(),
    ensures
        scenes_disjoint(shell.map_window(window)),
        shell.map_window(window).workspaces[0].windows.contains(window),
        forall|i: int|
            1 <= i < shell.workspaces.len() ==> !(#[trigger] shell.map_window(
                window,
            ).workspaces[i]).windows.contains(window),
{
    let after = shell.map_window(window);
    lemma_raised(shell.workspaces[0].windows, window);
    assert forall|i: int, w: SurfaceId|
        1 <= i < shell.workspaces.len() implies (#[trigger] after.workspaces[i].windows.contains(
        w,
    )) == (shell.workspaces[i].windows.contains(w) && w != window) by {
        lemma_filter_members(shell.workspaces[i].windows, is_not(window));
    }
    assert forall|i: int, j: int, w: SurfaceId|
        0 <= i < j < after.workspaces.len() && #[trigger] after.workspaces[i].windows.contains(
            w,
        ) implies !#[trigger] after.workspaces[j].windows.contains(w) by {
        assert(after.workspaces[j].windows.contains(w) == (shell.workspaces[j].windows.contains(w)
            && w != window));
        if i == 0 {
            assert(shell.workspaces[0].windows.contains(w) || w == window);
        } else {
            assert(after.workspaces[i].windows.contains(w) == (
            shell.workspaces[i].windows.contains(w) && w != window));
        }
        if shell.workspaces[i].windows.contains(w) && shell.workspaces[j].windows.contains(w) {
            assert(!shell.workspaces[j].windows.contains(w));
        }
    }
}

/// Reconciling the foci moves windows within their scenes only: if no window
/// was in two scenes before, none is afterwards.
pub proof fn theorem_reconcile_keeps_scenes_disjoint(shell: ShellView, seats: Seq<Seat>, n: int)
    requires
        0 <= n < shell.workspaces.len(),
        scenes_disjoint(shell),
        shell.workspaces[n].windows.no_duplicates(),
    ensures
        scenes_disjoint(shell.reconcile(seats, n)),
        shell.reconcile(seats, n).workspaces[n].windows.no_duplicates(),
{
    let after = shell.reconcile(seats, n);
    let focused = focused_windows(seats, shell.workspaces[n].idx, shell.registry);
    lemma_raise_each_members(shell.workspaces[n].windows, focused);
    assert forall|i: int, j: int, w: SurfaceId|
        0 <= i < j < after.workspaces.len() && #[trigger] after.workspaces[i].windows.contains(
            w,
        ) implies !#[trigger] after.workspaces[j].windows.contains(w) by {
        assert(after.workspaces[i].windows.contains(w) == shell.workspaces[i].windows.contains(w));
        assert(after.workspaces[j].windows.contains(w) == shell.workspaces[j].windows.contains(w));
        if shell.workspaces[i].windows.contains(w) && shell.workspaces[j].windows.contains(w) {
            assert(!shell.workspaces[j].windows.contains(w));
        }
    }
}

/// Once the policy engine is gone, no request is queued for it any more,
/// whatever is asked: what is sent is refused and set aside.
pub proof fn theorem_gone_engine_gets_nothing(
    outbox: crate::messages::OutboxView,
    message: crate::messages::RuntimeMessage,
)
    requires
        outbox.closed,
    ensures
        outbox.send(message).queue == outbox.queue,
        outbox.send(message).refused == outbox.refused.push(message),
        outbox.send(message).closed,
{
}

} // verus!

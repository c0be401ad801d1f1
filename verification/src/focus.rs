//! Per-seat focus history: an ordered set of windows, most recently focused last.

use crate::surface::is_live;
use crate::surface::live_in;
use crate::surface::Registry;
use crate::surface::is_not;
use crate::surface::SurfaceId;
use crate::surface::SurfaceRegistry;
use indexmap::IndexSet;
use std::collections::HashMap;
use vstd::prelude::*;

verus! {

broadcast use vstd::std_specs::hash::group_hash_axioms;

/// `indexmap::IndexSet`, an insertion-ordered hash set. Verus sees nothing inside it.
#[verifier::external_type_specification]
#[verifier::external_body]
#[verifier::reject_recursive_types(T)]
#[verifier::reject_recursive_types(S)]
pub struct ExIndexSet<T, S>(IndexSet<T, S>);

/// The items of an `IndexSet`, in its iteration order.
pub uninterp spec fn items(set: IndexSet<u64>) -> Seq<u64>;

/// `IndexSet::new`: the new set holds nothing.
#[verifier::external_body]
pub(crate) fn set_new() -> (set: IndexSet<u64>)
    ensures
        items(set) == Seq::<u64>::empty(),
{
    IndexSet::new()
}

/// `IndexSet::len`: the number of items.
#[verifier::external_body]
pub(crate) fn set_len(set: &IndexSet<u64>) -> (n: usize)
    ensures
        n == items(*set).len(),
{
    set.len()
}

/// `IndexSet::get_index`: the item at a position of the iteration order, for
/// positions below the length.
#[verifier::external_body]
pub(crate) fn set_get_index(set: &IndexSet<u64>, index: usize) -> (item: Option<u64>)
    ensures
        item == if index < items(*set).len() {
            Some(items(*set)[index as int])
        } else {
            None::<u64>
        },
{
    set.get_index(index).copied()
}

/// `IndexSet::insert`: an item not yet held is put last and `true` is returned;
/// for an item already held nothing changes and `false` is returned. Being a
/// set, it holds no item twice afterwards.
#[verifier::external_body]
pub(crate) fn set_insert(set: &mut IndexSet<u64>, item: u64) -> (fresh: bool)
    ensures
        fresh == !items(*old(set)).contains(item),
        items(*final(set)) == if items(*old(set)).contains(item) {
            items(*old(set))
        } else {
            items(*old(set)).push(item)
        },
        items(*final(set)).no_duplicates(),
{
    set.insert(item)
}

/// `IndexSet::shift_remove`: the item leaves, the others keep their relative
/// order; returns whether the item was held.
#[verifier::external_body]
pub(crate) fn set_shift_remove(set: &mut IndexSet<u64>, item: u64) -> (held: bool)
    ensures
        held == items(*old(set)).contains(item),
        items(*final(set)) == items(*old(set)).filter(is_not(item)),
        items(*final(set)).no_duplicates(),
{
    set.shift_remove(&item)
}

/// `IndexSet::retain`, keeping the windows that the registry holds alive: the
/// items kept stay in their order.
#[verifier::external_body]
pub(crate) fn set_retain_alive(set: &mut IndexSet<u64>, surfaces: &SurfaceRegistry)
    ensures
        items(*final(set)) == items(*old(set)).filter(is_live(*surfaces)),
        items(*final(set)).no_duplicates(),
{
    set.retain(|w| surfaces.is_alive(*w))
}

/// Read access to the focus stack of one seat on one workspace.
pub struct FocusStack<'a>(pub &'a IndexSet<u64>);

/// Write access to the focus stack of one seat on one workspace.
pub struct FocusStackMut<'a>(pub &'a mut IndexSet<u64>);

/// The last live window of a focus order, if there is one.
pub open spec fn last_alive(order: Seq<SurfaceId>, registry: Registry) -> Option<SurfaceId>
    decreases order.len(),
{
    if order.len() == 0 {
        None
    } else if registry.alive(order.last()) {
        Some(order.last())
    } else {
        last_alive(order.drop_last(), registry)
    }
}

/// The focus order after `window` was appended: dead windows are dropped, an
/// earlier occurrence of `window` is removed, and `window` is put last.
pub open spec fn appended(order: Seq<SurfaceId>, window: SurfaceId, registry: Registry) -> Seq<
    SurfaceId,
> {
    order.filter(live_in(registry)).filter(is_not(window)).push(window)
}

impl<'a> FocusStack<'a> {
    /// The windows of the stack, least recently focused first.
    pub open spec fn view(&self) -> Seq<SurfaceId> {
        items(*self.0)
    }

    /// The most recently focused window that is still alive.
    pub fn last(&self, surfaces: &SurfaceRegistry) -> (window: Option<SurfaceId>)
        ensures
            window == last_alive(self@, surfaces.model()),
    {
        last_alive_of(self.0, surfaces)
    }
}

/// Scans a stack from its tail for the first live window.
fn last_alive_of(set: &IndexSet<u64>, surfaces: &SurfaceRegistry) -> (window: Option<SurfaceId>)
    ensures
        window == last_alive(items(*set), surfaces.model()),
{
    let mut n: usize = set_len(set);
    assert(items(*set).take(n as int) =~= items(*set));
    while n > 0
        invariant
            n <= items(*set).len(),
            last_alive(items(*set), surfaces.model()) == last_alive(
                items(*set).take(n as int),
                surfaces.model(),
            ),
        decreases n,
    {
        let ghost prefix = items(*set).take(n as int);
        match set_get_index(set, n - 1) {
            Some(w) => {
                assert(prefix.last() == w);
                if surfaces.is_alive(w) {
                    return Some(w);
                }
                assert(prefix.drop_last() =~= items(*set).take(n - 1));
            },
            None => {},
        }
        n -= 1;
    }
    assert(items(*set).take(0).len() == 0);
    None
}

impl<'a> FocusStackMut<'a> {
    /// The windows of the stack, least recently focused first.
    pub open spec fn view(&self) -> Seq<SurfaceId> {
        items(*self.0)
    }

    /// Makes `window` the most recently focused one. Dead entries are
    /// compacted away on this occasion.
    pub fn append(&mut self, window: SurfaceId, surfaces: &SurfaceRegistry)
        ensures
            final(self)@ == appended(old(self)@, window, surfaces.model()),
            final(self)@.no_duplicates(),
            *final(final(self).0) == *final(old(self).0),
    {
        set_retain_alive(self.0, surfaces);
        set_shift_remove(self.0, window);
        set_insert(self.0, window);
        proof {
            let live = old(self)@.filter(is_live(*surfaces));
            let kept = live.filter(is_not(window));
            if kept.contains(window) {
                let i = choose|i: int| 0 <= i < kept.len() && kept[i] == window;
                live.lemma_filter_pred(is_not(window), i);
            }
        }
    }

    /// The most recently focused window that is still alive.
    pub fn last(&self, surfaces: &SurfaceRegistry) -> (window: Option<SurfaceId>)
        ensures
            window == last_alive(self@, surfaces.model()),
    {
        last_alive_of(self.0, surfaces)
    }
}

/// The focus stacks of one seat: one per workspace number, and an empty one
/// that is handed out for workspaces on which the seat never focused anything.
pub struct FocusStackData {
    pub stacks: HashMap<u8, IndexSet<u64>>,
    pub unfocused: IndexSet<u64>,
}

impl FocusStackData {
    /// The focus order of the seat on workspace `idx`, least recent first.
    pub open spec fn stack(&self, idx: u8) -> Seq<SurfaceId> {
        if self.stacks@.contains_key(idx) {
            items(self.stacks@[idx])
        } else {
            Seq::empty()
        }
    }

    /// No stack holds a window twice, and the stack for unvisited workspaces is empty.
    pub open spec fn wf(&self) -> bool {
        &&& items(self.unfocused) == Seq::<SurfaceId>::empty()
        &&& forall|idx: u8| #[trigger] self.stack(idx).no_duplicates()
    }

    pub fn new() -> (data: Self)
        ensures
            data.wf(),
            forall|idx: u8| #[trigger] data.stack(idx) == Seq::<SurfaceId>::empty(),
    {
        FocusStackData { stacks: HashMap::new(), unfocused: set_new() }
    }

    /// Read access to the stack of workspace `idx`.
    pub fn get<'a>(&'a self, idx: u8) -> (stack: FocusStack<'a>)
        requires
            self.wf(),
        ensures
            stack@ == self.stack(idx),
    {
        match self.stacks.get(&idx) {
            Some(set) => FocusStack(set),
            None => FocusStack(&self.unfocused),
        }
    }

    /// Write access to the stack of workspace `idx`, which is created empty if
    /// the seat had none there.
    pub fn get_mut<'a>(&'a mut self, idx: u8) -> (stack: FocusStackMut<'a>)
        ensures
            stack@ == old(self).stack(idx),
            final(self).stacks@ == old(self).stacks@.insert(idx, *final(stack.0)),
            final(self).unfocused == old(self).unfocused,
    {
        let set = self.stacks.entry(idx).or_insert(set_new());
        FocusStackMut(set)
    }
}

} // verus!

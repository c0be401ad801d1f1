//! The scene of a workspace: the windows mapped into it, bottom to top, and
//! the outputs mapped into it with their logical positions.

use crate::name_map::NameMap;
use crate::output::Point;
use crate::seq_facts::lemma_filter_members;
use crate::seq_facts::lemma_filter_no_duplicates;
use crate::surface::contains_window;
use crate::surface::is_live;
use crate::surface::is_not;
use crate::surface::retain_windows;
use crate::surface::WindowFilter;
use crate::surface::SurfaceId;
use crate::surface::SurfaceRegistry;
use std::collections::HashMap;
use vstd::prelude::*;

verus! {

broadcast use vstd::std_specs::hash::group_hash_axioms;

/// The scene graph of one workspace.
pub struct Space {
    /// The mapped windows in z-order, the topmost last.
    pub windows: Vec<SurfaceId>,
    /// Where each mapped window is placed.
    pub locations: HashMap<u64, Point>,
    /// The mapped outputs, each with the logical position of its top left corner.
    pub outputs: NameMap<Point>,
}

/// The z-order after `window` was brought to the top.
pub open spec fn raised(order: Seq<SurfaceId>, window: SurfaceId) -> Seq<SurfaceId> {
    order.filter(is_not(window)).push(window)
}

impl Space {
    /// A window is in the z-order once at most, and it has a location exactly
    /// when it is mapped.
    pub open spec fn wf(&self) -> bool {
        &&& self.windows@.no_duplicates()
        &&& forall|w: SurfaceId|
            self.locations@.contains_key(w) <==> #[trigger] self.windows@.contains(w)
        &&& self.outputs.wf()
    }

    pub fn new() -> (space: Space)
        ensures
            space.wf(),
            space.windows@ == Seq::<SurfaceId>::empty(),
            space.locations@ == Map::<SurfaceId, Point>::empty(),
            space.outputs@ == Map::<Seq<char>, Point>::empty(),
    {
        Space { windows: Vec::new(), locations: HashMap::new(), outputs: NameMap::new() }
    }

    /// Places `window` at `location` and brings it to the top, whether it
    /// was mapped before or not.
    pub fn map_window(&mut self, window: SurfaceId, location: Point)
        requires
            old(self).wf(),
        ensures
            final(self).wf(),
            final(self).windows@ == raised(old(self).windows@, window),
            final(self).locations@ == old(self).locations@.insert(window, location),
            final(self).outputs == old(self).outputs,
    {
        proof {
            lemma_raised(self.windows@, window);
        }
        retain_windows(&mut self.windows, &WindowFilter::Other(window));
        self.windows.push(window);
        self.locations.insert(window, location);
        proof {
            lemma_filter_members(old(self).windows@, is_not(window));
            assert forall|w: SurfaceId|
                self.locations@.contains_key(w) <==> #[trigger] self.windows@.contains(w) by {
                if w != window {
                    assert(old(self).windows@.contains(w) <==> old(self).windows@.filter(
                        is_not(window),
                    ).contains(w));
                }
            }
        }
    }

    /// Brings a mapped window to the top; for any other window nothing changes.
    pub fn raise_window(&mut self, window: SurfaceId)
        requires
            old(self).wf(),
        ensures
            final(self).wf(),
            final(self).windows@ == if old(self).windows@.contains(window) {
                raised(old(self).windows@, window)
            } else {
                old(self).windows@
            },
            final(self).locations == old(self).locations,
            final(self).outputs == old(self).outputs,
    {
        if contains_window(&self.windows, window) {
            proof {
                lemma_raised(self.windows@, window);
            }
            retain_windows(&mut self.windows, &WindowFilter::Other(window));
            self.windows.push(window);
        }
    }

    /// Takes a window out of the scene.
    pub fn unmap_window(&mut self, window: SurfaceId)
        requires
            old(self).wf(),
        ensures
            final(self).wf(),
            final(self).windows@ == old(self).windows@.filter(is_not(window)),
            final(self).locations@ == old(self).locations@.remove(window),
            final(self).outputs == old(self).outputs,
    {
        proof {
            lemma_filter_members(self.windows@, is_not(window));
            lemma_filter_no_duplicates(self.windows@, is_not(window));
        }
        retain_windows(&mut self.windows, &WindowFilter::Other(window));
        self.locations.remove(&window);
    }

    /// The window that `surface` belongs to, if it is mapped here.
    pub fn window_for_surface(&self, surface: SurfaceId) -> (window: Option<SurfaceId>)
        ensures
            window == if self.windows@.contains(surface) {
                Some(surface)
            } else {
                None::<SurfaceId>
            },
    {
        if contains_window(&self.windows, surface) {
            Some(surface)
        } else {
            None
        }
    }

    /// Where a mapped window is placed.
    pub fn window_location(&self, window: SurfaceId) -> (location: Option<Point>)
        ensures
            location == if self.locations@.contains_key(window) {
                Some(self.locations@[window])
            } else {
                None::<Point>
            },
    {
        match self.locations.get(&window) {
            Some(p) => Some(*p),
            None => None,
        }
    }

    /// Maps an output at `location`, or moves it there if it is mapped already.
    pub fn map_output(&mut self, name: String, location: Point)
        requires
            old(self).wf(),
        ensures
            final(self).wf(),
            final(self).outputs@ == old(self).outputs@.insert(name@, location),
            final(self).windows == old(self).windows,
            final(self).locations == old(self).locations,
    {
        self.outputs.insert(name, location);
    }

    /// Takes an output out of the scene.
    pub fn unmap_output(&mut self, name: &String)
        requires
            old(self).wf(),
        ensures
            final(self).wf(),
            final(self).outputs@ == old(self).outputs@.remove(name@),
            final(self).windows == old(self).windows,
            final(self).locations == old(self).locations,
    {
        self.outputs.remove(name);
    }

    /// Whether the output called `name` is mapped into this scene.
    pub fn has_output(&self, name: &String) -> (b: bool)
        requires
            self.wf(),
        ensures
            b == self.outputs@.contains_key(name@),
    {
        self.outputs.contains_key(name)
    }

    /// Drops the windows whose surface is dead.
    pub fn refresh(&mut self, surfaces: &SurfaceRegistry)
        requires
            old(self).wf(),
        ensures
            final(self).wf(),
            final(self).windows@ == old(self).windows@.filter(is_live(*surfaces)),
            final(self).locations@ == old(self).locations@.restrict(
                Set::new(|w: SurfaceId| surfaces.alive(w)),
            ),
            final(self).outputs == old(self).outputs,
    {
        let ghost live = Set::new(|w: SurfaceId| surfaces.alive(w));
        let mut i: usize = 0;
        while i < self.windows.len()
            invariant
                i <= self.windows@.len(),
                self.windows == old(self).windows,
                self.outputs == old(self).outputs,
                old(self).wf(),
                forall|w: SurfaceId| #[trigger]
                    self.locations@.contains_key(w) <==> old(self).locations@.contains_key(w) && (
                    surfaces.alive(w) || !self.windows@.take(i as int).contains(w)),
                forall|w: SurfaceId| #[trigger]
                    self.locations@.contains_key(w) ==> self.locations@[w] == old(
                        self,
                    ).locations@[w],
            decreases self.windows@.len() - i,
        {
            let w = self.windows[i];
            proof {
                assert(self.windows@.take(i + 1) =~= self.windows@.take(i as int).push(w));
                assert forall|x: SurfaceId|
                    self.windows@.take(i + 1).contains(x) <==> self.windows@.take(
                        i as int,
                    ).contains(x) || x == w by {
                    if self.windows@.take(i as int).contains(x) {
                        let j = choose|j: int|
                            0 <= j < i && self.windows@.take(i as int)[j] == x;
                        assert(self.windows@.take(i + 1)[j] == x);
                    }
                    if x == w {
                        assert(self.windows@.take(i + 1)[i as int] == x);
                    }
                }
            }
            if !surfaces.is_alive(w) {
                self.locations.remove(&w);
            }
            i += 1;
        }
        proof {
            assert(self.windows@.take(i as int) =~= self.windows@);
            assert(self.locations@ =~= old(self).locations@.restrict(live));
            lemma_filter_members(self.windows@, is_live(*surfaces));
            lemma_filter_no_duplicates(self.windows@, is_live(*surfaces));
        }
        retain_windows(&mut self.windows, &WindowFilter::Alive(surfaces));
    }
}

/// Raising a window in a z-order without duplicates leaves no duplicates, and
/// the windows of the order are the old ones and the raised one.
pub proof fn lemma_raised(order: Seq<SurfaceId>, window: SurfaceId)
    requires
        order.no_duplicates(),
    ensures
        raised(order, window).no_duplicates(),
        raised(order, window).last() == window,
        forall|w: SurfaceId| #[trigger]
            raised(order, window).contains(w) <==> order.contains(w) || w == window,
{
    let rest = order.filter(is_not(window));
    lemma_filter_members(order, is_not(window));
    lemma_filter_no_duplicates(order, is_not(window));
    assert(!rest.contains(window));
    assert forall|w: SurfaceId| #[trigger]
        raised(order, window).contains(w) <==> order.contains(w) || w == window by {
        if raised(order, window).contains(w) {
            let i = choose|i: int|
                0 <= i < raised(order, window).len() && raised(order, window)[i] == w;
            if i < rest.len() {
                assert(rest[i] == w);
                assert(rest.contains(w));
            }
        }
        if w == window {
            assert(raised(order, window)[rest.len() as int] == w);
        } else if order.contains(w) {
            assert(rest.contains(w));
            let i = choose|i: int| 0 <= i < rest.len() && rest[i] == w;
            assert(raised(order, window)[i] == w);
        }
    }
}

} // verus!

//! Seats: the input devices attached to each, and what each remembers about focus.

use crate::focus::FocusStackData;
use crate::messages::SeatId;
use crate::name_map::NameMap;
use crate::surface::SurfaceId;
use vstd::prelude::*;

verus! {

/// What an input device can do.
#[derive(Clone, Copy, Debug, PartialEq, Eq, Structural)]
pub enum DeviceCapability {
    Keyboard,
    Pointer,
    Touch,
    TabletTool,
    TabletPad,
    Gesture,
    Switch,
}

/// An input device as the backend reports it.
pub struct Device {
    pub id: String,
    pub capabilities: Vec<DeviceCapability>,
}

/// The key codes whose release is not to be forwarded to clients.
pub struct SupressedKeys(pub Vec<u32>);

/// The surface that has the keyboard focus of a seat.
pub struct ActiveFocus(pub Option<SurfaceId>);

/// The devices attached to a seat, each with the capabilities it adds.
pub struct Devices {
    pub map: NameMap<Vec<DeviceCapability>>,
}

/// The capabilities that a seat tracks, out of those a device has: keyboard
/// and pointer, in this order.
pub open spec fn tracked_capabilities(capabilities: Seq<DeviceCapability>) -> Seq<DeviceCapability> {
    (if capabilities.contains(DeviceCapability::Keyboard) {
        seq![DeviceCapability::Keyboard]
    } else {
        Seq::empty()
    }) + (if capabilities.contains(DeviceCapability::Pointer) {
        seq![DeviceCapability::Pointer]
    } else {
        Seq::empty()
    })
}

/// Whether some device of `devices` has capability `c`.
pub open spec fn provided(
    devices: Map<Seq<char>, Seq<DeviceCapability>>,
    c: DeviceCapability,
) -> bool {
    exists|id: Seq<char>| #[trigger] devices.contains_key(id) && devices[id].contains(c)
}

/// The predicate that holds of the capabilities that no device of `devices` has.
pub open spec fn missing_from(devices: Map<Seq<char>, Seq<DeviceCapability>>) -> spec_fn(
    DeviceCapability,
) -> bool {
    |c: DeviceCapability| !provided(devices, c)
}

/// Whether `c` occurs in `list`.
pub fn has_capability(list: &Vec<DeviceCapability>, c: DeviceCapability) -> (b: bool)
    ensures
        b == list@.contains(c),
{
    let mut i: usize = 0;
    while i < list.len()
        invariant
            i <= list@.len(),
            forall|j: int| 0 <= j < i ==> list@[j] != c,
        decreases list@.len() - i,
    {
        if list[i] == c {
            return true;
        }
        i += 1;
    }
    false
}

impl Devices {
    pub open spec fn wf(&self) -> bool {
        self.map.wf()
    }

    /// The capabilities recorded for each attached device, by the device's id.
    pub open spec fn view(&self) -> Map<Seq<char>, Seq<DeviceCapability>> {
        Map::new(|id: Seq<char>| self.map@.contains_key(id), |id: Seq<char>| self.map@[id]@)
    }

    pub fn new() -> (devices: Devices)
        ensures
            devices.wf(),
            devices@ == Map::<Seq<char>, Seq<DeviceCapability>>::empty(),
    {
        let devices = Devices { map: NameMap::new() };
        assert(devices@ =~= Map::<Seq<char>, Seq<DeviceCapability>>::empty());
        devices
    }

    /// Whether some attached device has capability `c`.
    pub fn provides(&self, c: DeviceCapability) -> (b: bool)
        requires
            self.wf(),
        ensures
            b == provided(self@, c),
    {
        let mut i: usize = 0;
        while i < self.map.len()
            invariant
                self.wf(),
                i <= self.map.order().len(),
                forall|j: int|
                    0 <= j < i ==> !self.map@[#[trigger] self.map.order()[j]]@.contains(c),
            decreases self.map.order().len() - i,
        {
            if has_capability(self.map.value_at(i), c) {
                assert(self@.contains_key(self.map.order()[i as int]));
                return true;
            }
            i += 1;
        }
        proof {
            self.map.lemma_order();
            if provided(self@, c) {
                let id = choose|id: Seq<char>| #[trigger]
                    self@.contains_key(id) && self@[id].contains(c);
                let j = self.map.order().index_of(id);
                assert(self.map.order().contains(id));
                assert(self.map.order()[j] == id);
            }
        }
        false
    }

    /// The capabilities among `list` that no attached device has, in the order of `list`.
    fn missing(&self, list: &Vec<DeviceCapability>) -> (fresh: Vec<DeviceCapability>)
        requires
            self.wf(),
        ensures
            fresh@ == list@.filter(missing_from(self@)),
    {
        let mut fresh: Vec<DeviceCapability> = Vec::new();
        let mut i: usize = 0;
        assert(list@.take(0) =~= Seq::<DeviceCapability>::empty());
        while i < list.len()
            invariant
                self.wf(),
                i <= list@.len(),
                fresh@ == list@.take(i as int).filter(missing_from(self@)),
            decreases list@.len() - i,
        {
            let c = list[i];
            proof {
                assert(list@.take(i + 1) =~= list@.take(i as int).push(c));
                list@.take(i as int).lemma_filter_push(c, missing_from(self@));
            }
            if !self.provides(c) {
                fresh.push(c);
            }
            i += 1;
        }
        assert(list@.take(i as int) =~= list@);
        fresh
    }

    /// Attaches a device, or replaces what was recorded for it. Returns the
    /// capabilities that the seat gains: those tracked capabilities of the device
    /// that no device attached so far had.
    pub fn add_device(&mut self, device: &Device) -> (gained: Vec<DeviceCapability>)
        requires
            old(self).wf(),
        ensures
            final(self).wf(),
            final(self)@ == old(self)@.insert(
                device.id@,
                tracked_capabilities(device.capabilities@),
            ),
            gained@ == tracked_capabilities(device.capabilities@).filter(
                missing_from(old(self)@),
            ),
    {
        let mut capabilities: Vec<DeviceCapability> = Vec::new();
        if has_capability(&device.capabilities, DeviceCapability::Keyboard) {
            capabilities.push(DeviceCapability::Keyboard);
        }
        if has_capability(&device.capabilities, DeviceCapability::Pointer) {
            capabilities.push(DeviceCapability::Pointer);
        }
        assert(capabilities@ =~= tracked_capabilities(device.capabilities@));
        let gained = self.missing(&capabilities);
        self.map.insert(device.id.clone(), capabilities);
        assert(self@ =~= old(self)@.insert(device.id@, tracked_capabilities(device.capabilities@)));
        gained
    }

    /// Detaches a device. Returns the capabilities that the seat loses: those
    /// recorded for the device that no device still attached has.
    pub fn remove_device(&mut self, id: &String) -> (lost: Vec<DeviceCapability>)
        requires
            old(self).wf(),
        ensures
            final(self).wf(),
            final(self)@ == old(self)@.remove(id@),
            lost@ == (if old(self)@.contains_key(id@) {
                old(self)@[id@]
            } else {
                Seq::<DeviceCapability>::empty()
            }).filter(missing_from(final(self)@)),
    {
        let removed = match self.map.remove(id) {
            Some(capabilities) => capabilities,
            None => Vec::new(),
        };
        assert(self@ =~= old(self)@.remove(id@));
        self.missing(&removed)
    }

    /// Whether the device with this id is attached.
    pub fn has_device(&self, id: &String) -> (b: bool)
        requires
            self.wf(),
        ensures
            b == self@.contains_key(id@),
    {
        self.map.contains_key(id)
    }
}

/// An input-focus endpoint.
pub struct Seat {
    pub id: SeatId,
    pub name: String,
    /// Whether the seat has a pointer.
    pub pointer: bool,
    pub focus: FocusStackData,
    pub devices: Devices,
    pub suppressed_keys: SupressedKeys,
    pub active_focus: ActiveFocus,
}

impl Seat {
    pub open spec fn wf(&self) -> bool {
        self.focus.wf() && self.devices.wf()
    }
}

impl ActiveFocus {
    /// The surface that has the keyboard focus of `seat`.
    pub fn get(seat: &Seat) -> (surface: Option<SurfaceId>)
        ensures
            surface == seat.active_focus.0,
    {
        seat.active_focus.0
    }
}

/// A new seat with a pointer, no devices, no focus history and no keyboard focus.
pub fn add_seat(id: SeatId, name: String) -> (seat: Seat)
    ensures
        seat.wf(),
        seat.id == id,
        seat.name == name,
        seat.pointer,
        seat.devices@ == Map::<Seq<char>, Seq<DeviceCapability>>::empty(),
        seat.suppressed_keys.0@ == Seq::<u32>::empty(),
        seat.active_focus.0 == None::<SurfaceId>,
        forall|idx: u8| #[trigger] seat.focus.stack(idx) == Seq::<SurfaceId>::empty(),
{
    Seat {
        id,
        name,
        pointer: true,
        focus: FocusStackData::new(),
        devices: Devices::new(),
        suppressed_keys: SupressedKeys(Vec::new()),
        active_focus: ActiveFocus(None),
    }
}

} // verus!

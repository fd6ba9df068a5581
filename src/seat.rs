//! Seats: their input devices, following the advertised capabilities.
use vstd::prelude::*;

verus! {

/// Capability bit: the seat has a pointer
pub const CAPABILITY_POINTER: u32 = 1;

/// Capability bit: the seat has a keyboard
pub const CAPABILITY_KEYBOARD: u32 = 2;

/// Capability bit: the seat has a touch screen
pub const CAPABILITY_TOUCH: u32 = 4;

/// Lowest protocol version of a pointer, keyboard or touch object that has a
/// release request.
pub const DEVICE_RELEASE_VERSION: u32 = 3;

/// Lowest protocol version of a seat that has a release request.
pub const SEAT_RELEASE_VERSION: u32 = 5;

/// An input device of a seat
#[derive(Clone, Copy, Debug, PartialEq, Eq, Structural)]
pub enum DeviceKind {
    Pointer,
    Keyboard,
    Touch,
}

/// A request to issue on a seat's devices
#[derive(Clone, Copy, Debug, PartialEq, Eq, Structural)]
pub enum SeatRequest {
    /// Create the device
    Get(DeviceKind),
    /// Release the device
    Release(DeviceKind),
}

/// One device's slot after a capabilities event: `present` is the version of
/// the device held, if any; `wanted` whether the capability is advertised.
/// A wanted device that is missing is created at the seat's `version`; an
/// unwanted one that is held is dropped, with a release request from
/// version 3 on.
pub open spec fn device_step(kind: DeviceKind, present: Option<u32>, wanted: bool, version: u32) -> (
    Option<u32>,
    Seq<SeatRequest>,
) {
    if wanted {
        match present {
            Some(v) => (Some(v), Seq::empty()),
            None => (Some(version), seq![SeatRequest::Get(kind)]),
        }
    } else {
        match present {
            Some(v) => (None, if v >= DEVICE_RELEASE_VERSION {
                seq![SeatRequest::Release(kind)]
            } else {
                Seq::empty()
            }),
            None => (None, Seq::empty()),
        }
    }
}

fn device_update(kind: DeviceKind, present: Option<u32>, wanted: bool, version: u32, requests: &mut Vec<SeatRequest>) -> (r:
    Option<u32>)
    ensures
        r == device_step(kind, present, wanted, version).0,
        final(requests)@ == old(requests)@ + device_step(kind, present, wanted, version).1,
{
    let ghost before = requests@;
    let r = if wanted {
        match present {
            Some(v) => Some(v),
            None => {
                requests.push(SeatRequest::Get(kind));
                Some(version)
            },
        }
    } else {
        match present {
            Some(v) => {
                if v >= DEVICE_RELEASE_VERSION {
                    requests.push(SeatRequest::Release(kind));
                }
                None
            },
            None => None,
        }
    };
    assert(requests@ =~= before + device_step(kind, present, wanted, version).1);
    r
}

/// The `wl_seat` user data: its name and the versions of the devices held.
pub struct SeatUserData {
    name: String,
    pointer: Option<u32>,
    keyboard: Option<u32>,
    touch: Option<u32>,
    data_device: bool,
}

impl SeatUserData {
    pub closed spec fn name_spec(&self) -> Seq<char> {
        self.name@
    }

    /// Version of the pointer held, if any.
    pub closed spec fn pointer_spec(&self) -> Option<u32> {
        self.pointer
    }

    /// Version of the keyboard held, if any.
    pub closed spec fn keyboard_spec(&self) -> Option<u32> {
        self.keyboard
    }

    /// Version of the touch device held, if any.
    pub closed spec fn touch_spec(&self) -> Option<u32> {
        self.touch
    }

    /// Whether a data device was created for the seat.
    pub closed spec fn data_device_spec(&self) -> bool {
        self.data_device
    }

    /// A seat without a name and without devices.
    pub fn new() -> (r: Self)
        ensures
            r.name_spec() == Seq::<char>::empty(),
            r.pointer_spec() is None,
            r.keyboard_spec() is None,
            r.touch_spec() is None,
            !r.data_device_spec(),
    {
        SeatUserData { name: String::new(), pointer: None, keyboard: None, touch: None, data_device: false }
    }

    /// The seat's name.
    pub fn name(&self) -> (r: &str)
        ensures
            r@ == self.name_spec(),
    {
        self.name.as_str()
    }

    /// Version of the pointer held, if any.
    pub fn pointer(&self) -> (r: Option<u32>)
        ensures
            r == self.pointer_spec(),
    {
        self.pointer
    }

    /// Version of the keyboard held, if any.
    pub fn keyboard(&self) -> (r: Option<u32>)
        ensures
            r == self.keyboard_spec(),
    {
        self.keyboard
    }

    /// Version of the touch device held, if any.
    pub fn touch(&self) -> (r: Option<u32>)
        ensures
            r == self.touch_spec(),
    {
        self.touch
    }

    /// Whether a data device was created for the seat.
    pub fn data_device(&self) -> (r: bool)
        ensures
            r == self.data_device_spec(),
    {
        self.data_device
    }

    /// Records the seat's name.
    pub fn set_name(&mut self, name: String)
        ensures
            final(self).name_spec() == name@,
            final(self).pointer_spec() == old(self).pointer_spec(),
            final(self).keyboard_spec() == old(self).keyboard_spec(),
            final(self).touch_spec() == old(self).touch_spec(),
            final(self).data_device_spec() == old(self).data_device_spec(),
    {
        self.name = name;
    }

    /// Any event of the seat: its data device is to be created, once.
    /// Returns whether to create it now.
    pub fn ensure_data_device(&mut self) -> (r: bool)
        ensures
            r == !old(self).data_device_spec(),
            final(self).data_device_spec(),
            final(self).name_spec() == old(self).name_spec(),
            final(self).pointer_spec() == old(self).pointer_spec(),
            final(self).keyboard_spec() == old(self).keyboard_spec(),
            final(self).touch_spec() == old(self).touch_spec(),
    {
        let r = !self.data_device;
        self.data_device = true;
        r
    }

    /// The request to create a device of `kind` failed: the seat holds no
    /// such device.
    pub fn device_failed(&mut self, kind: DeviceKind)
        ensures
            final(self).pointer_spec() == if kind == DeviceKind::Pointer {
                None
            } else {
                old(self).pointer_spec()
            },
            final(self).keyboard_spec() == if kind == DeviceKind::Keyboard {
                None
            } else {
                old(self).keyboard_spec()
            },
            final(self).touch_spec() == if kind == DeviceKind::Touch {
                None
            } else {
                old(self).touch_spec()
            },
            final(self).name_spec() == old(self).name_spec(),
            final(self).data_device_spec() == old(self).data_device_spec(),
    {
        match kind {
            DeviceKind::Pointer => {
                self.pointer = None;
            },
            DeviceKind::Keyboard => {
                self.keyboard = None;
            },
            DeviceKind::Touch => {
                self.touch = None;
            },
        }
    }

    /// The request to create the data device failed: the seat holds none, so
    /// the next event asks for it again.
    pub fn data_device_failed(&mut self)
        ensures
            !final(self).data_device_spec(),
            final(self).name_spec() == old(self).name_spec(),
            final(self).pointer_spec() == old(self).pointer_spec(),
            final(self).keyboard_spec() == old(self).keyboard_spec(),
            final(self).touch_spec() == old(self).touch_spec(),
    {
        self.data_device = false;
    }

    /// A capabilities event of a seat bound at `version`: each device is
    /// created or dropped to match the capability bits. Returns the requests
    /// to issue, pointer first, then keyboard, then touch.
    pub fn set_capabilities(&mut self, capabilities: u32, version: u32) -> (r: Vec<SeatRequest>)
        ensures
            final(self).pointer_spec() == device_step(
                DeviceKind::Pointer,
                old(self).pointer_spec(),
                capabilities & CAPABILITY_POINTER != 0,
                version,
            ).0,
            final(self).keyboard_spec() == device_step(
                DeviceKind::Keyboard,
                old(self).keyboard_spec(),
                capabilities & CAPABILITY_KEYBOARD != 0,
                version,
            ).0,
            final(self).touch_spec() == device_step(
                DeviceKind::Touch,
                old(self).touch_spec(),
                capabilities & CAPABILITY_TOUCH != 0,
                version,
            ).0,
            r@ == device_step(
                DeviceKind::Pointer,
                old(self).pointer_spec(),
                capabilities & CAPABILITY_POINTER != 0,
                version,
            ).1 + device_step(
                DeviceKind::Keyboard,
                old(self).keyboard_spec(),
                capabilities & CAPABILITY_KEYBOARD != 0,
                version,
            ).1 + device_step(
                DeviceKind::Touch,
                old(self).touch_spec(),
                capabilities & CAPABILITY_TOUCH != 0,
                version,
            ).1,
            final(self).name_spec() == old(self).name_spec(),
            final(self).data_device_spec() == old(self).data_device_spec(),
    {
        let mut requests: Vec<SeatRequest> = Vec::new();
        self.pointer = device_update(
            DeviceKind::Pointer,
            self.pointer,
            capabilities & CAPABILITY_POINTER != 0,
            version,
            &mut requests,
        );
        self.keyboard = device_update(
            DeviceKind::Keyboard,
            self.keyboard,
            capabilities & CAPABILITY_KEYBOARD != 0,
            version,
            &mut requests,
        );
        self.touch = device_update(
            DeviceKind::Touch,
            self.touch,
            capabilities & CAPABILITY_TOUCH != 0,
            version,
            &mut requests,
        );
        assert(requests@ =~= Seq::<SeatRequest>::empty() + device_step(
            DeviceKind::Pointer,
            old(self).pointer,
            capabilities & CAPABILITY_POINTER != 0,
            version,
        ).1 + device_step(
            DeviceKind::Keyboard,
            old(self).keyboard,
            capabilities & CAPABILITY_KEYBOARD != 0,
            version,
        ).1 + device_step(DeviceKind::Touch, old(self).touch, capabilities & CAPABILITY_TOUCH != 0, version).1);
        requests
    }
}

/// Routes the events of one device of a seat to the surface the device last
/// entered; before any enter they have nowhere to go.
#[derive(Clone, Copy, Debug, PartialEq, Eq, Structural)]
pub struct SeatEventSource {
    /// The seat the device belongs to
    pub seat_id: u32,
    /// The surface last entered, if any
    pub surface: Option<u32>,
}

impl SeatEventSource {
    /// A router for a device of seat `seat_id` that has entered no surface.
    pub fn new(seat_id: u32) -> (r: Self)
        ensures
            r == (SeatEventSource { seat_id, surface: None }),
    {
        SeatEventSource { seat_id, surface: None }
    }

    /// The device entered surface `surface_id`: its later events go there.
    pub fn enter_surface(&mut self, surface_id: u32)
        ensures
            *final(self) == (SeatEventSource { seat_id: old(self).seat_id, surface: Some(surface_id) }),
    {
        self.surface = Some(surface_id);
    }

    /// Where an event of the device goes: the seat id to tag it with and the
    /// surface whose queue receives it, or `None` before any enter.
    pub fn queue_event(&self) -> (r: Option<(u32, u32)>)
        ensures
            match self.surface {
                Some(sid) => r == Some((self.seat_id, sid)),
                None => r is None,
            },
    {
        match self.surface {
            Some(sid) => Some((self.seat_id, sid)),
            None => None,
        }
    }
}

/// A seat known to the registry.
pub struct Seat {
    /// Protocol object id
    pub id: u32,
    /// Protocol version the seat was bound with
    pub version: u32,
    /// Its state
    pub data: SeatUserData,
}

/// Lifecycle events of seats, as the registry announces them.
#[derive(Clone, Copy, Debug, PartialEq, Eq, Structural)]
pub enum SeatManagerEvent {
    /// A new seat with object id `id` is advertised at `version`
    NewSeat { id: u32, version: u32 },
    /// The seat with object id `id` is gone
    RemoveSeat { id: u32 },
}

/// Some seat of `seats` has object id `id`.
pub open spec fn has_seat(seats: Seq<Seat>, id: u32) -> bool {
    exists|i: int| 0 <= i < seats.len() && #[trigger] seats[i].id == id
}

/// No two seats share an object id.
pub open spec fn seat_ids_unique(seats: Seq<Seat>) -> bool {
    forall|i: int, j: int|
        0 <= i < seats.len() && 0 <= j < seats.len() && #[trigger] seats[i].id == #[trigger] seats[j].id ==> i == j
}

/// The seats with the one of object id `id` taken out, if there is one.
pub open spec fn without_seat(seats: Seq<Seat>, id: u32) -> Seq<Seat> {
    if has_seat(seats, id) {
        seats.remove(choose|i: int| 0 <= i < seats.len() && #[trigger] seats[i].id == id)
    } else {
        seats
    }
}

/// Removing seat `id` from `seats` issues a release request.
pub open spec fn seat_release_on_removal(seats: Seq<Seat>, id: u32) -> bool {
    exists|i: int| 0 <= i < seats.len() && #[trigger] seats[i].id == id && seats[i].version >= SEAT_RELEASE_VERSION
}

/// Tracks the live seats, keyed by object id.
pub struct SeatManager {
    seats: Vec<Seat>,
}

impl View for SeatManager {
    type V = Seq<Seat>;

    closed spec fn view(&self) -> Seq<Seat> {
        self.seats@
    }
}

impl SeatManager {
    /// No two registered seats share an id.
    pub open spec fn wf(&self) -> bool {
        seat_ids_unique(self@)
    }

    /// An empty registry.
    pub fn new() -> (r: Self)
        ensures
            r.wf(),
            r@ == Seq::<Seat>::empty(),
    {
        SeatManager { seats: Vec::new() }
    }

    /// The registered seats, in the order they were advertised.
    pub fn seats(&self) -> (r: &Vec<Seat>)
        ensures
            r@ == self@,
    {
        &self.seats
    }

    /// Index of the seat with object id `id`.
    fn position(&self, id: u32) -> (r: Option<usize>)
        ensures
            r is None <==> !has_seat(self@, id),
            r matches Some(i) ==> i < self@.len() && self@[i as int].id == id,
    {
        let n = self.seats.len();
        let mut i: usize = 0;
        while i < n
            invariant
                n == self@.len(),
                0 <= i <= n,
                forall|j: int| 0 <= j < i ==> #[trigger] self@[j].id != id,
            decreases n - i,
        {
            if self.seats[i].id == id {
                return Some(i);
            }
            i = i + 1;
        }
        None
    }

    /// The seat with object id `id`, if it is registered.
    pub fn get_seat(&self, id: u32) -> (r: Option<&Seat>)
        requires
            self.wf(),
        ensures
            r is None <==> !has_seat(self@, id),
            r matches Some(s) ==> s.id == id && exists|i: int| 0 <= i < self@.len() && self@[i] == *s,
    {
        match self.position(id) {
            Some(i) => Some(&self.seats[i]),
            None => None,
        }
    }

    /// Registers a newly advertised seat; an id already registered is left
    /// as it is and `false` returned.
    pub fn new_seat(&mut self, id: u32, version: u32) -> (r: bool)
        requires
            old(self).wf(),
        ensures
            final(self).wf(),
            r == !has_seat(old(self)@, id),
            r ==> final(self)@.len() == old(self)@.len() + 1 && final(self)@.drop_last() == old(self)@
                && final(self)@.last().id == id && final(self)@.last().version == version
                && final(self)@.last().data.pointer_spec() is None
                && final(self)@.last().data.keyboard_spec() is None
                && final(self)@.last().data.touch_spec() is None,
            !r ==> final(self)@ == old(self)@,
    {
        if self.position(id).is_some() {
            return false;
        }
        self.seats.push(Seat { id, version, data: SeatUserData::new() });
        proof {
            assert(self@.drop_last() =~= old(self)@);
            assert forall|i: int, j: int|
                0 <= i < self@.len() && 0 <= j < self@.len() && #[trigger] self@[i].id == #[trigger] self@[j].id
                implies i == j by {
                if i < old(self)@.len() && j == old(self)@.len() {
                    assert(old(self)@[i].id == id);
                }
                if j < old(self)@.len() && i == old(self)@.len() {
                    assert(old(self)@[j].id == id);
                }
            }
        }
        true
    }

    /// Records the name of seat `id`. Returns whether the seat is registered;
    /// otherwise nothing changes.
    pub fn set_seat_name(&mut self, id: u32, name: String) -> (r: bool)
        requires
            old(self).wf(),
        ensures
            final(self).wf(),
            r == has_seat(old(self)@, id),
            !r ==> final(self)@ == old(self)@,
            r ==> exists|i: int|
                0 <= i < old(self)@.len() && old(self)@[i].id == id && final(self)@.len() == old(self)@.len()
                    && (forall|j: int| 0 <= j < old(self)@.len() && j != i ==> #[trigger] final(self)@[j] == old(self)@[j])
                    && final(self)@[i].id == id && final(self)@[i].data.name_spec() == name@
                    && final(self)@[i].data.pointer_spec() == old(self)@[i].data.pointer_spec()
                    && final(self)@[i].data.keyboard_spec() == old(self)@[i].data.keyboard_spec()
                    && final(self)@[i].data.touch_spec() == old(self)@[i].data.touch_spec(),
    {
        match self.position(id) {
            None => false,
            Some(i) => {
                self.seats[i].data.set_name(name);
                proof {
                    assert forall|a: int, b: int|
                        0 <= a < self@.len() && 0 <= b < self@.len() && #[trigger] self@[a].id == #[trigger] self@[b].id
                        implies a == b by {
                        assert(self@[a].id == old(self)@[a].id);
                        assert(self@[b].id == old(self)@[b].id);
                    }
                }
                true
            },
        }
    }

    /// The request to create a device of `kind` on seat `id` failed; see
    /// `SeatUserData::device_failed`. Returns whether the seat is registered;
    /// otherwise nothing changes.
    pub fn device_failed(&mut self, id: u32, kind: DeviceKind) -> (r: bool)
        requires
            old(self).wf(),
        ensures
            final(self).wf(),
            r == has_seat(old(self)@, id),
            !r ==> final(self)@ == old(self)@,
            r ==> exists|i: int|
                0 <= i < old(self)@.len() && old(self)@[i].id == id && final(self)@.len() == old(self)@.len()
                    && (forall|j: int| 0 <= j < old(self)@.len() && j != i ==> #[trigger] final(self)@[j] == old(self)@[j])
                    && final(self)@[i].id == id && final(self)@[i].version == old(self)@[i].version
                    && final(self)@[i].data.pointer_spec() == (if kind == DeviceKind::Pointer {
                    None
                } else {
                    old(self)@[i].data.pointer_spec()
                }) && final(self)@[i].data.keyboard_spec() == (if kind == DeviceKind::Keyboard {
                    None
                } else {
                    old(self)@[i].data.keyboard_spec()
                }) && final(self)@[i].data.touch_spec() == (if kind == DeviceKind::Touch {
                    None
                } else {
                    old(self)@[i].data.touch_spec()
                }) && final(self)@[i].data.data_device_spec() == old(self)@[i].data.data_device_spec(),
    {
        match self.position(id) {
            None => false,
            Some(i) => {
                self.seats[i].data.device_failed(kind);
                proof {
                    assert forall|a: int, b: int|
                        0 <= a < self@.len() && 0 <= b < self@.len() && #[trigger] self@[a].id == #[trigger] self@[b].id
                        implies a == b by {
                        assert(self@[a].id == old(self)@[a].id);
                        assert(self@[b].id == old(self)@[b].id);
                    }
                }
                true
            },
        }
    }

    /// The request to create the data device of seat `id` failed; see
    /// `SeatUserData::data_device_failed`. Returns whether the seat is
    /// registered; otherwise nothing changes.
    pub fn data_device_failed(&mut self, id: u32) -> (r: bool)
        requires
            old(self).wf(),
        ensures
            final(self).wf(),
            r == has_seat(old(self)@, id),
            !r ==> final(self)@ == old(self)@,
            r ==> exists|i: int|
                0 <= i < old(self)@.len() && old(self)@[i].id == id && final(self)@.len() == old(self)@.len()
                    && (forall|j: int| 0 <= j < old(self)@.len() && j != i ==> #[trigger] final(self)@[j] == old(self)@[j])
                    && final(self)@[i].id == id && !final(self)@[i].data.data_device_spec()
                    && final(self)@[i].data.pointer_spec() == old(self)@[i].data.pointer_spec()
                    && final(self)@[i].data.keyboard_spec() == old(self)@[i].data.keyboard_spec()
                    && final(self)@[i].data.touch_spec() == old(self)@[i].data.touch_spec(),
    {
        match self.position(id) {
            None => false,
            Some(i) => {
                self.seats[i].data.data_device_failed();
                proof {
                    assert forall|a: int, b: int|
                        0 <= a < self@.len() && 0 <= b < self@.len() && #[trigger] self@[a].id == #[trigger] self@[b].id
                        implies a == b by {
                        assert(self@[a].id == old(self)@[a].id);
                        assert(self@[b].id == old(self)@[b].id);
                    }
                }
                true
            },
        }
    }

    /// An event of seat `id` arrived: its data device is to exist. Returns
    /// `Some(true)` when it is to be created now, `Some(false)` when it
    /// exists, and `None` for a seat that is not registered (nothing changes).
    pub fn seat_data_device(&mut self, id: u32) -> (r: Option<bool>)
        requires
            old(self).wf(),
        ensures
            final(self).wf(),
            r is None <==> !has_seat(old(self)@, id),
            r is None ==> final(self)@ == old(self)@,
            r matches Some(create) ==> exists|i: int|
                0 <= i < old(self)@.len() && old(self)@[i].id == id && final(self)@.len() == old(self)@.len()
                    && (forall|j: int| 0 <= j < old(self)@.len() && j != i ==> #[trigger] final(self)@[j] == old(self)@[j])
                    && final(self)@[i].id == id && final(self)@[i].version == old(self)@[i].version
                    && create == !old(self)@[i].data.data_device_spec() && final(self)@[i].data.data_device_spec()
                    && final(self)@[i].data.pointer_spec() == old(self)@[i].data.pointer_spec()
                    && final(self)@[i].data.keyboard_spec() == old(self)@[i].data.keyboard_spec()
                    && final(self)@[i].data.touch_spec() == old(self)@[i].data.touch_spec(),
    {
        match self.position(id) {
            None => None,
            Some(i) => {
                let create = self.seats[i].data.ensure_data_device();
                proof {
                    assert forall|a: int, b: int|
                        0 <= a < self@.len() && 0 <= b < self@.len() && #[trigger] self@[a].id == #[trigger] self@[b].id
                        implies a == b by {
                        assert(self@[a].id == old(self)@[a].id);
                        assert(self@[b].id == old(self)@[b].id);
                    }
                }
                Some(create)
            },
        }
    }

    /// A capabilities event of seat `id`: see `SeatUserData::set_capabilities`.
    /// Returns `None` for a seat that is not registered, which changes nothing.
    pub fn seat_capabilities(&mut self, id: u32, capabilities: u32) -> (r: Option<Vec<SeatRequest>>)
        requires
            old(self).wf(),
        ensures
            final(self).wf(),
            r is None <==> !has_seat(old(self)@, id),
            r is None ==> final(self)@ == old(self)@,
            r matches Some(reqs) ==> exists|i: int|
                0 <= i < old(self)@.len() && old(self)@[i].id == id && final(self)@.len() == old(self)@.len()
                    && (forall|j: int| 0 <= j < old(self)@.len() && j != i ==> #[trigger] final(self)@[j] == old(self)@[j])
                    && final(self)@[i].id == id && final(self)@[i].version == old(self)@[i].version
                    && final(self)@[i].data.pointer_spec() == device_step(
                        DeviceKind::Pointer,
                        old(self)@[i].data.pointer_spec(),
                        capabilities & CAPABILITY_POINTER != 0,
                        old(self)@[i].version,
                    ).0 && final(self)@[i].data.keyboard_spec() == device_step(
                        DeviceKind::Keyboard,
                        old(self)@[i].data.keyboard_spec(),
                        capabilities & CAPABILITY_KEYBOARD != 0,
                        old(self)@[i].version,
                    ).0 && final(self)@[i].data.touch_spec() == device_step(
                        DeviceKind::Touch,
                        old(self)@[i].data.touch_spec(),
                        capabilities & CAPABILITY_TOUCH != 0,
                        old(self)@[i].version,
                    ).0 && reqs@ == device_step(
                        DeviceKind::Pointer,
                        old(self)@[i].data.pointer_spec(),
                        capabilities & CAPABILITY_POINTER != 0,
                        old(self)@[i].version,
                    ).1 + device_step(
                        DeviceKind::Keyboard,
                        old(self)@[i].data.keyboard_spec(),
                        capabilities & CAPABILITY_KEYBOARD != 0,
                        old(self)@[i].version,
                    ).1 + device_step(
                        DeviceKind::Touch,
                        old(self)@[i].data.touch_spec(),
                        capabilities & CAPABILITY_TOUCH != 0,
                        old(self)@[i].version,
                    ).1,
    {
        match self.position(id) {
            None => None,
            Some(i) => {
                let version = self.seats[i].version;
                let reqs = self.seats[i].data.set_capabilities(capabilities, version);
                proof {
                    assert forall|a: int, b: int|
                        0 <= a < self@.len() && 0 <= b < self@.len() && #[trigger] self@[a].id == #[trigger] self@[b].id
                        implies a == b by {
                        assert(self@[a].id == old(self)@[a].id);
                        assert(self@[b].id == old(self)@[b].id);
                    }
                }
                Some(reqs)
            },
        }
    }

    /// Takes seat `id` out of the registry. Returns whether a release request
    /// is due. Removing an id that is not registered changes nothing.
    pub fn remove_seat(&mut self, id: u32) -> (release: bool)
        requires
            old(self).wf(),
        ensures
            final(self).wf(),
            final(self)@ == without_seat(old(self)@, id),
            release == seat_release_on_removal(old(self)@, id),
    {
        match self.position(id) {
            None => false,
            Some(i) => {
                let removed = self.seats.remove(i);
                proof {
                    let o = old(self)@;
                    let c = choose|k: int| 0 <= k < o.len() && #[trigger] o[k].id == id;
                    assert(o[c].id == o[i as int].id);
                    assert forall|a: int, b: int|
                        0 <= a < self@.len() && 0 <= b < self@.len() && #[trigger] self@[a].id == #[trigger] self@[b].id
                        implies a == b by {
                        let a2 = if a < i { a } else { a + 1 };
                        let b2 = if b < i { b } else { b + 1 };
                        assert(self@[a] == o[a2]);
                        assert(self@[b] == o[b2]);
                    }
                    if seat_release_on_removal(o, id) {
                        let k = choose|k: int|
                            0 <= k < o.len() && #[trigger] o[k].id == id && o[k].version >= SEAT_RELEASE_VERSION;
                        assert(o[k].id == o[i as int].id);
                    }
                }
                removed.version >= SEAT_RELEASE_VERSION
            },
        }
    }
}

/// Removing the same seat twice leaves the registry as removing it once, and
/// only the first removal can ask for a release request.
pub proof fn lemma_seat_removal_idempotent(seats: Seq<Seat>, id: u32)
    requires
        seat_ids_unique(seats),
    ensures
        without_seat(without_seat(seats, id), id) == without_seat(seats, id),
        !seat_release_on_removal(without_seat(seats, id), id),
        seat_ids_unique(without_seat(seats, id)),
{
    let once = without_seat(seats, id);
    if has_seat(seats, id) {
        let c = choose|i: int| 0 <= i < seats.len() && #[trigger] seats[i].id == id;
        assert forall|k: int| 0 <= k < once.len() implies #[trigger] once[k].id != id by {
            let k2 = if k < c { k } else { k + 1 };
            assert(once[k] == seats[k2]);
        }
        assert forall|a: int, b: int|
            0 <= a < once.len() && 0 <= b < once.len() && #[trigger] once[a].id == #[trigger] once[b].id
            implies a == b by {
            let a2 = if a < c { a } else { a + 1 };
            let b2 = if b < c { b } else { b + 1 };
            assert(once[a] == seats[a2]);
            assert(once[b] == seats[b2]);
        }
    }
    assert(!has_seat(once, id));
}

} // verus!

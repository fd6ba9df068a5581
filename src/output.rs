//! Bookkeeping of the outputs (monitors) that the compositor advertises.
use vstd::prelude::*;
use crate::cursor::{registry_scale, CursorManagerEvent};
use crate::event_queue::{EventDrain, EventSource};
use crate::surface::SurfaceManagerEvent;

verus! {

/// Subpixel geometry of an output.
#[derive(Clone, Copy, Debug, PartialEq, Eq, Structural)]
pub enum Subpixel {
    Unknown,
    NoSubpixels,
    HorizontalRgb,
    HorizontalBgr,
    VerticalRgb,
    VerticalBgr,
}

/// Transformation applied to the content of an output.
#[derive(Clone, Copy, Debug, PartialEq, Eq, Structural)]
pub enum Transform {
    Normal,
    Rotated90,
    Rotated180,
    Rotated270,
    Flipped,
    Flipped90,
    Flipped180,
    Flipped270,
}

/// Flag bit of a mode event: this is the current mode.
pub const MODE_CURRENT: u32 = 1;

/// Flag bit of a mode event: this is the preferred mode.
pub const MODE_PREFERRED: u32 = 2;

/// A possible mode for an output
#[derive(Clone, Copy, Debug)]
pub struct Mode {
    /// Number of pixels of this mode as `(width, height)`
    pub dimensions: (u32, u32),
    /// Refresh rate for this mode, in mHz
    pub refresh_rate: u32,
    /// Whether this is the current mode for this output
    pub is_current: bool,
    /// Whether this is the preferred mode for this output
    pub is_preferred: bool,
}

/// Compiled information about an output
#[derive(Debug)]
pub struct OutputUserData {
    /// The model name of this output as advertised by the server
    pub model: String,
    /// The make name of this output as advertised by the server
    pub make: String,
    /// Location of the top-left corner of this output in compositor space
    pub location: (i32, i32),
    /// Physical dimensions of this output, in unspecified units
    pub physical_size: (i32, i32),
    /// The subpixel layout for this output
    pub subpixel: Subpixel,
    /// The current transformation applied to this output
    pub transform: Transform,
    /// The scaling factor of this output
    pub scale_factor: u32,
    /// Possible modes for an output
    pub modes: Vec<Mode>,
}

/// What the compositor sends about one output.
#[derive(Debug)]
pub enum OutputEvent {
    /// Position, physical size and identification
    Geometry {
        x: i32,
        y: i32,
        physical_width: i32,
        physical_height: i32,
        subpixel: Subpixel,
        model: String,
        make: String,
        transform: Transform,
    },
    /// A mode, with its flag bits (`MODE_CURRENT`, `MODE_PREFERRED`)
    Mode { width: i32, height: i32, refresh: i32, flags: u32 },
    /// The scale factor
    Scale { factor: i32 },
    /// End of a batch of information
    Done,
}

/// The mode that a mode event describes.
pub open spec fn mode_of_event(width: i32, height: i32, refresh: i32, flags: u32) -> Mode {
    Mode {
        dimensions: (width as u32, height as u32),
        refresh_rate: refresh as u32,
        is_current: flags & MODE_CURRENT != 0,
        is_preferred: flags & MODE_PREFERRED != 0,
    }
}

/// `after` is the output information `before` with `event` recorded.
pub open spec fn output_updated(before: OutputUserData, after: OutputUserData, event: OutputEvent) -> bool {
    match event {
        OutputEvent::Geometry { x, y, physical_width, physical_height, subpixel, model, make, transform } => {
            &&& after.location == (x, y)
            &&& after.physical_size == (physical_width, physical_height)
            &&& after.subpixel == subpixel
            &&& after.model == model
            &&& after.make == make
            &&& after.transform == transform
            &&& after.scale_factor == before.scale_factor
            &&& after.modes@ == before.modes@
        },
        OutputEvent::Mode { width, height, refresh, flags } => {
            &&& after.modes@ == modes_after(before.modes@, mode_of_event(width, height, refresh, flags))
            &&& same_identity(before, after)
            &&& after.scale_factor == before.scale_factor
        },
        OutputEvent::Scale { factor } => {
            &&& after.scale_factor == factor as u32
            &&& same_identity(before, after)
            &&& after.modes@ == before.modes@
        },
        OutputEvent::Done => {
            &&& same_identity(before, after)
            &&& after.scale_factor == before.scale_factor
            &&& after.modes@ == before.modes@
        },
    }
}

/// The geometry fields of `a` and `b` agree.
pub open spec fn same_identity(a: OutputUserData, b: OutputUserData) -> bool {
    &&& b.location == a.location
    &&& b.physical_size == a.physical_size
    &&& b.subpixel == a.subpixel
    &&& b.model == a.model
    &&& b.make == a.make
    &&& b.transform == a.transform
}

/// `m` is a mode of the given size and refresh rate.
pub open spec fn same_mode(m: Mode, dimensions: (u32, u32), refresh_rate: u32) -> bool {
    m.dimensions == dimensions && m.refresh_rate == refresh_rate
}

/// The modes after a mode event: the first mode of that size and rate gets the
/// new flags, or a new mode is appended when there is none.
pub open spec fn modes_after(modes: Seq<Mode>, m: Mode) -> Seq<Mode> {
    if exists|i: int| 0 <= i < modes.len() && same_mode(modes[i], m.dimensions, m.refresh_rate) {
        let i = choose|i: int|
            0 <= i < modes.len() && same_mode(modes[i], m.dimensions, m.refresh_rate) && forall|
                j: int,
            |
                0 <= j < i ==> !same_mode(#[trigger] modes[j], m.dimensions, m.refresh_rate);
        modes.update(i, m)
    } else {
        modes.push(m)
    }
}

impl OutputUserData {
    /// Information of an output of which nothing has been advertised yet.
    pub fn new() -> (r: Self)
        ensures
            r.model@ == Seq::<char>::empty(),
            r.make@ == Seq::<char>::empty(),
            r.location == (0i32, 0i32),
            r.physical_size == (0i32, 0i32),
            r.subpixel == Subpixel::Unknown,
            r.transform == Transform::Normal,
            r.scale_factor == 1,
            r.modes@ == Seq::<Mode>::empty(),
    {
        OutputUserData {
            model: String::new(),
            make: String::new(),
            location: (0, 0),
            physical_size: (0, 0),
            subpixel: Subpixel::Unknown,
            transform: Transform::Normal,
            scale_factor: 1,
            modes: Vec::new(),
        }
    }

    /// Records a geometry event.
    pub fn set_geometry(
        &mut self,
        location: (i32, i32),
        physical_size: (i32, i32),
        subpixel: Subpixel,
        model: String,
        make: String,
        transform: Transform,
    )
        ensures
            final(self).location == location,
            final(self).physical_size == physical_size,
            final(self).subpixel == subpixel,
            final(self).model == model,
            final(self).make == make,
            final(self).transform == transform,
            final(self).scale_factor == old(self).scale_factor,
            final(self).modes == old(self).modes,
    {
        self.location = location;
        self.physical_size = physical_size;
        self.subpixel = subpixel;
        self.model = model;
        self.make = make;
        self.transform = transform;
    }

    /// Records a mode event: size and refresh rate as the protocol sends them,
    /// and its flag bits (`MODE_CURRENT`, `MODE_PREFERRED`).
    pub fn add_mode(&mut self, width: i32, height: i32, refresh: i32, flags: u32)
        ensures
            final(self).modes@ == modes_after(
                old(self).modes@,
                Mode {
                    dimensions: (width as u32, height as u32),
                    refresh_rate: refresh as u32,
                    is_current: flags & MODE_CURRENT != 0,
                    is_preferred: flags & MODE_PREFERRED != 0,
                },
            ),
            final(self).scale_factor == old(self).scale_factor,
            final(self).location == old(self).location,
            final(self).physical_size == old(self).physical_size,
            final(self).subpixel == old(self).subpixel,
            final(self).transform == old(self).transform,
            final(self).model == old(self).model,
            final(self).make == old(self).make,
    {
        let mode = Mode {
            dimensions: (width as u32, height as u32),
            refresh_rate: refresh as u32,
            is_current: flags & MODE_CURRENT != 0,
            is_preferred: flags & MODE_PREFERRED != 0,
        };
        let n = self.modes.len();
        let mut i: usize = 0;
        let mut found: Option<usize> = None;
        while i < n && found.is_none()
            invariant
                n == self.modes@.len(),
                0 <= i <= n,
                forall|j: int| 0 <= j < i ==> !same_mode(#[trigger] self.modes@[j], mode.dimensions, mode.refresh_rate),
                found matches Some(k) ==> k < n && same_mode(self.modes@[k as int], mode.dimensions, mode.refresh_rate) && k == i,
            decreases n - i + if found is None { 1int } else { 0int },
        {
            let cur = self.modes[i];
            if cur.dimensions.0 == mode.dimensions.0 && cur.dimensions.1 == mode.dimensions.1
                && cur.refresh_rate == mode.refresh_rate {
                found = Some(i);
            } else {
                i = i + 1;
            }
        }
        match found {
            Some(k) => {
                proof {
                    let modes = self.modes@;
                    let ii = k as int;
                    assert(0 <= ii < modes.len() && same_mode(modes[ii], mode.dimensions, mode.refresh_rate));
                    let c = choose|c: int|
                        0 <= c < modes.len() && same_mode(modes[c], mode.dimensions, mode.refresh_rate) && forall|
                            j: int,
                        |
                            0 <= j < c ==> !same_mode(#[trigger] modes[j], mode.dimensions, mode.refresh_rate);
                    if c < ii {
                        assert(!same_mode(modes[c], mode.dimensions, mode.refresh_rate));
                    }
                    if ii < c {
                        assert(!same_mode(modes[ii], mode.dimensions, mode.refresh_rate));
                    }
                    assert(c == ii);
                }
                self.modes.set(k, mode);
            },
            None => {
                self.modes.push(mode);
            },
        }
    }

    /// Records `event`; returns the new scale factor when it is a scale event.
    pub fn apply(&mut self, event: OutputEvent) -> (r: Option<u32>)
        ensures
            output_updated(*old(self), *final(self), event),
            r == (match event {
                OutputEvent::Scale { factor } => Some(factor as u32),
                _ => None,
            }),
    {
        match event {
            OutputEvent::Geometry { x, y, physical_width, physical_height, subpixel, model, make, transform } => {
                self.set_geometry((x, y), (physical_width, physical_height), subpixel, model, make, transform);
                None
            },
            OutputEvent::Mode { width, height, refresh, flags } => {
                self.add_mode(width, height, refresh, flags);
                None
            },
            OutputEvent::Scale { factor } => Some(self.set_scale(factor)),
            OutputEvent::Done => None,
        }
    }

    /// Records a scale event and returns the new scale factor.
    pub fn set_scale(&mut self, factor: i32) -> (r: u32)
        ensures
            r == factor as u32,
            final(self).scale_factor == r,
            final(self).modes == old(self).modes,
            same_identity(*old(self), *final(self)),
    {
        self.scale_factor = factor as u32;
        self.scale_factor
    }
}

/// An output known to the registry.
#[derive(Debug)]
pub struct Output {
    /// Protocol object id
    pub id: u32,
    /// Protocol version the output was bound with
    pub version: u32,
    /// What the compositor advertised of it
    pub data: OutputUserData,
}

/// Lifecycle events of outputs, as the registry announces them.
#[derive(Clone, Copy, Debug, PartialEq, Eq, Structural)]
pub enum OutputManagerEvent {
    /// A new output with object id `id` is advertised at `version`
    NewOutput { id: u32, version: u32 },
    /// The output with object id `id` is gone
    RemoveOutput { id: u32 },
}

/// Lowest protocol version of an output that has a release request.
pub const OUTPUT_RELEASE_VERSION: u32 = 3;

/// Some output of `outputs` has object id `id`.
pub open spec fn has_output(outputs: Seq<Output>, id: u32) -> bool {
    exists|i: int| 0 <= i < outputs.len() && #[trigger] outputs[i].id == id
}

/// No two outputs share an object id.
pub open spec fn ids_unique(outputs: Seq<Output>) -> bool {
    forall|i: int, j: int|
        0 <= i < outputs.len() && 0 <= j < outputs.len() && #[trigger] outputs[i].id == #[trigger] outputs[j].id
            ==> i == j
}

/// The outputs with the one of object id `id` taken out, if there is one.
pub open spec fn without_output(outputs: Seq<Output>, id: u32) -> Seq<Output> {
    if has_output(outputs, id) {
        outputs.remove(choose|i: int| 0 <= i < outputs.len() && #[trigger] outputs[i].id == id)
    } else {
        outputs
    }
}

/// Removing output `id` from `outputs` issues a release request.
pub open spec fn release_on_removal(outputs: Seq<Output>, id: u32) -> bool {
    exists|i: int|
        0 <= i < outputs.len() && #[trigger] outputs[i].id == id && outputs[i].version >= OUTPUT_RELEASE_VERSION
}

/// The scale factor of output `id`, if the registry holds it.
pub open spec fn scale_of(outputs: Seq<Output>, id: u32) -> Option<u32> {
    if has_output(outputs, id) {
        Some(outputs[choose|i: int| 0 <= i < outputs.len() && #[trigger] outputs[i].id == id].data.scale_factor)
    } else {
        None
    }
}

/// Tracks the live outputs, keyed by object id.
pub struct OutputManager {
    outputs: Vec<Output>,
    surface_manager_source: EventSource<SurfaceManagerEvent>,
    cursor_manager_source: EventSource<CursorManagerEvent>,
}

impl View for OutputManager {
    type V = Seq<Output>;

    closed spec fn view(&self) -> Seq<Output> {
        self.outputs@
    }
}

impl OutputManager {
    /// No two registered outputs share an id.
    pub open spec fn wf(&self) -> bool {
        ids_unique(self@)
    }

    /// An empty registry that reports to the given surface and cursor queues.
    pub fn new(
        surface_manager_source: EventSource<SurfaceManagerEvent>,
        cursor_manager_source: EventSource<CursorManagerEvent>,
    ) -> (r: Self)
        ensures
            r.wf(),
            r@ == Seq::<Output>::empty(),
    {
        OutputManager { outputs: Vec::new(), surface_manager_source, cursor_manager_source }
    }

    /// The registered outputs, in the order they were advertised.
    pub fn outputs(&self) -> (r: &Vec<Output>)
        ensures
            r@ == self@,
    {
        &self.outputs
    }

    /// Index of the output with object id `id`.
    fn position(&self, id: u32) -> (r: Option<usize>)
        ensures
            r is None <==> !has_output(self@, id),
            r matches Some(i) ==> i < self@.len() && self@[i as int].id == id,
    {
        let n = self.outputs.len();
        let mut i: usize = 0;
        while i < n
            invariant
                n == self@.len(),
                0 <= i <= n,
                forall|j: int| 0 <= j < i ==> #[trigger] self@[j].id != id,
            decreases n - i,
        {
            if self.outputs[i].id == id {
                return Some(i);
            }
            i = i + 1;
        }
        None
    }

    /// The output with object id `id`, if it is registered.
    pub fn get_output(&self, id: u32) -> (r: Option<&Output>)
        requires
            self.wf(),
        ensures
            r is None <==> !has_output(self@, id),
            r matches Some(o) ==> o.id == id && exists|i: int| 0 <= i < self@.len() && self@[i] == *o,
    {
        match self.position(id) {
            Some(i) => Some(&self.outputs[i]),
            None => None,
        }
    }

    /// The scale factor of output `id`, if it is registered.
    pub fn scale_factor_of(&self, id: u32) -> (r: Option<u32>)
        requires
            self.wf(),
        ensures
            r == scale_of(self@, id),
    {
        match self.position(id) {
            Some(i) => {
                proof {
                    let c = choose|k: int| 0 <= k < self@.len() && #[trigger] self@[k].id == id;
                    assert(self@[c].id == self@[i as int].id);
                }
                Some(self.outputs[i].data.scale_factor)
            },
            None => None,
        }
    }

    /// The largest scale factor of the registered outputs, and at least 1.
    pub fn max_scale_factor(&self) -> (r: u32)
        ensures
            r == registry_scale(self@),
    {
        let n = self.outputs.len();
        let mut scale: u32 = 1;
        let mut i: usize = 0;
        while i < n
            invariant
                n == self@.len(),
                0 <= i <= n,
                scale == registry_scale(self@.subrange(0, i as int)),
            decreases n - i,
        {
            proof {
                let pre = self@.subrange(0, i as int + 1);
                assert(pre.drop_last() =~= self@.subrange(0, i as int));
            }
            let f = self.outputs[i].data.scale_factor;
            if f > scale {
                scale = f;
            }
            i = i + 1;
        }
        assert(self@.subrange(0, n as int) =~= self@);
        scale
    }

    /// Registers a newly advertised output; an id already registered is left
    /// as it is and `false` returned.
    pub fn new_output(&mut self, id: u32, version: u32) -> (r: bool)
        requires
            old(self).wf(),
        ensures
            final(self).wf(),
            r == !has_output(old(self)@, id),
            r ==> final(self)@.len() == old(self)@.len() + 1 && final(self)@.drop_last() == old(self)@
                && final(self)@.last().id == id && final(self)@.last().version == version
                && final(self)@.last().data.scale_factor == 1
                && final(self)@.last().data.modes@.len() == 0,
            !r ==> final(self)@ == old(self)@,
    {
        if self.position(id).is_some() {
            return false;
        }
        self.outputs.push(Output { id, version, data: OutputUserData::new() });
        proof {
            assert(self@.drop_last() =~= old(self)@);
            assert forall|i: int, j: int|
                0 <= i < self@.len() && 0 <= j < self@.len() && #[trigger] self@[i].id == #[trigger] self@[j].id
                implies i == j by {
                if i < old(self)@.len() && j == old(self)@.len() {
                    assert(old(self)@[i].id == id);
                }
                if j < old(self)@.len() && i == old(self)@.len() {
                    assert(old(self)@[j].id == id);
                }
            }
        }
        true
    }

    /// Records an event of output `id`. A scale event is passed on to the
    /// surface and cursor managers. Returns whether the output is registered;
    /// the event of an unknown output is dropped.
    pub fn handle_output_event(
        &mut self,
        id: u32,
        event: OutputEvent,
        surfaces: &mut EventDrain<SurfaceManagerEvent>,
        cursors: &mut EventDrain<CursorManagerEvent>,
    ) -> (r: bool)
        requires
            old(self).wf(),
            old(surfaces).wf(),
            old(cursors).wf(),
        ensures
            final(self).wf(),
            final(surfaces).wf(),
            final(cursors).wf(),
            r == has_output(old(self)@, id),
            !r ==> final(self)@ == old(self)@ && final(surfaces)@ == old(surfaces)@ && final(cursors)@ == old(cursors)@,
            r ==> exists|i: int|
                0 <= i < old(self)@.len() && old(self)@[i].id == id && final(self)@.len() == old(self)@.len()
                    && (forall|j: int| 0 <= j < old(self)@.len() && j != i ==> #[trigger] final(self)@[j] == old(self)@[j])
                    && final(self)@[i].id == id && final(self)@[i].version == old(self)@[i].version
                    && output_updated(old(self)@[i].data, final(self)@[i].data, event),
            r ==> match event {
                OutputEvent::Scale { factor } => final(surfaces)@ == old(surfaces)@.push(
                    SurfaceManagerEvent::OutputScale { output: id, factor: factor as u32 },
                ) && final(cursors)@ == old(cursors)@.push(
                    CursorManagerEvent::OutputScale { output: id, factor: factor as u32 },
                ),
                _ => final(surfaces)@ == old(surfaces)@ && final(cursors)@ == old(cursors)@,
            },
    {
        match self.position(id) {
            None => false,
            Some(i) => {
                let scaled = self.outputs[i].data.apply(event);
                if let Some(factor) = scaled {
                    self.surface_manager_source.push_event(surfaces, SurfaceManagerEvent::OutputScale { output: id, factor });
                    self.cursor_manager_source.push_event(cursors, CursorManagerEvent::OutputScale { output: id, factor });
                }
                proof {
                    assert forall|a: int, b: int|
                        0 <= a < self@.len() && 0 <= b < self@.len() && #[trigger] self@[a].id == #[trigger] self@[b].id
                        implies a == b by {
                        assert(self@[a].id == old(self)@[a].id);
                        assert(self@[b].id == old(self)@[b].id);
                    }
                }
                true
            },
        }
    }

    /// Takes output `id` out of the registry and tells the surface and cursor
    /// managers that it left. Returns whether a release request is due.
    /// Removing an id that is not registered changes nothing.
    pub fn remove_output(
        &mut self,
        id: u32,
        surfaces: &mut EventDrain<SurfaceManagerEvent>,
        cursors: &mut EventDrain<CursorManagerEvent>,
    ) -> (release: bool)
        requires
            old(self).wf(),
            old(surfaces).wf(),
            old(cursors).wf(),
        ensures
            final(self).wf(),
            final(self)@ == without_output(old(self)@, id),
            release == release_on_removal(old(self)@, id),
            final(surfaces).wf(),
            final(cursors).wf(),
            has_output(old(self)@, id) ==> final(surfaces)@ == old(surfaces)@.push(
                SurfaceManagerEvent::OutputLeave { output: id },
            ) && final(cursors)@ == old(cursors)@.push(CursorManagerEvent::OutputLeave { output: id }),
            !has_output(old(self)@, id) ==> final(surfaces)@ == old(surfaces)@ && final(cursors)@
                == old(cursors)@,
    {
        match self.position(id) {
            None => false,
            Some(i) => {
                self.surface_manager_source.push_event(surfaces, SurfaceManagerEvent::OutputLeave { output: id });
                self.cursor_manager_source.push_event(cursors, CursorManagerEvent::OutputLeave { output: id });
                let removed = self.outputs.remove(i);
                proof {
                    let o = old(self)@;
                    let c = choose|k: int| 0 <= k < o.len() && #[trigger] o[k].id == id;
                    assert(o[c].id == o[i as int].id);
                    assert(c == i);
                    assert forall|a: int, b: int|
                        0 <= a < self@.len() && 0 <= b < self@.len() && #[trigger] self@[a].id == #[trigger] self@[b].id
                        implies a == b by {
                        let a2 = if a < i { a } else { a + 1 };
                        let b2 = if b < i { b } else { b + 1 };
                        assert(self@[a] == o[a2]);
                        assert(self@[b] == o[b2]);
                    }
                    if release_on_removal(o, id) {
                        let k = choose|k: int|
                            0 <= k < o.len() && #[trigger] o[k].id == id && o[k].version >= OUTPUT_RELEASE_VERSION;
                        assert(o[k].id == o[i as int].id);
                    }
                }
                removed.version >= OUTPUT_RELEASE_VERSION
            },
        }
    }
}

/// Removing the same output twice leaves the registry as removing it once,
/// and only the first removal can ask for a release request.
pub proof fn lemma_removal_idempotent(outputs: Seq<Output>, id: u32)
    requires
        ids_unique(outputs),
    ensures
        without_output(without_output(outputs, id), id) == without_output(outputs, id),
        !release_on_removal(without_output(outputs, id), id),
        ids_unique(without_output(outputs, id)),
{
    let once = without_output(outputs, id);
    if has_output(outputs, id) {
        let c = choose|i: int| 0 <= i < outputs.len() && #[trigger] outputs[i].id == id;
        assert forall|k: int| 0 <= k < once.len() implies #[trigger] once[k].id != id by {
            let k2 = if k < c { k } else { k + 1 };
            assert(once[k] == outputs[k2]);
        }
        assert forall|a: int, b: int|
            0 <= a < once.len() && 0 <= b < once.len() && #[trigger] once[a].id == #[trigger] once[b].id
            implies a == b by {
            let a2 = if a < c { a } else { a + 1 };
            let b2 = if b < c { b } else { b + 1 };
            assert(once[a] == outputs[a2]);
            assert(once[b] == outputs[b2]);
        }
    }
    assert(!has_output(once, id));
}

} // verus!

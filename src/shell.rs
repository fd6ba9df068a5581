//! Shell surfaces: desktop toplevels and layer-shell surfaces.
use vstd::prelude::*;
use crate::event_queue::{EventDrain, EventQueue, EventSource};
use crate::output::Mode;
use crate::surface::SurfaceEvent;

verus! {

/// The size a configure event asks for: `None` when width or height is 0,
/// which leaves the size to the client.
pub fn configure_size(width: u32, height: u32) -> (r: Option<(u32, u32)>)
    ensures
        (width == 0 || height == 0) ==> r is None,
        (width != 0 && height != 0) ==> r == Some((width, height)),
{
    if width == 0 || height == 0 {
        None
    } else {
        Some((width, height))
    }
}

/// A state of a desktop toplevel surface
#[derive(Clone, Copy, Debug, PartialEq, Eq, Structural)]
pub enum XdgState {
    Maximized,
    Fullscreen,
    Resizing,
    Activated,
    TiledLeft,
    TiledRight,
    TiledTop,
    TiledBottom,
}

/// The state that protocol value `v` stands for, if any.
pub open spec fn xdg_state_of(v: u32) -> Option<XdgState> {
    if v == 1 {
        Some(XdgState::Maximized)
    } else if v == 2 {
        Some(XdgState::Fullscreen)
    } else if v == 3 {
        Some(XdgState::Resizing)
    } else if v == 4 {
        Some(XdgState::Activated)
    } else if v == 5 {
        Some(XdgState::TiledLeft)
    } else if v == 6 {
        Some(XdgState::TiledRight)
    } else if v == 7 {
        Some(XdgState::TiledTop)
    } else if v == 8 {
        Some(XdgState::TiledBottom)
    } else {
        None
    }
}

/// The states that `raw` lists, in order, unknown values skipped.
pub open spec fn xdg_states_of(raw: Seq<u32>) -> Seq<XdgState>
    decreases raw.len(),
{
    if raw.len() == 0 {
        Seq::empty()
    } else {
        let rest = xdg_states_of(raw.drop_last());
        match xdg_state_of(raw.last()) {
            Some(s) => rest.push(s),
            None => rest,
        }
    }
}

impl XdgState {
    /// The state that protocol value `v` stands for, if any.
    pub fn from_raw(v: u32) -> (r: Option<XdgState>)
        ensures
            r == xdg_state_of(v),
    {
        if v == 1 {
            Some(XdgState::Maximized)
        } else if v == 2 {
            Some(XdgState::Fullscreen)
        } else if v == 3 {
            Some(XdgState::Resizing)
        } else if v == 4 {
            Some(XdgState::Activated)
        } else if v == 5 {
            Some(XdgState::TiledLeft)
        } else if v == 6 {
            Some(XdgState::TiledRight)
        } else if v == 7 {
            Some(XdgState::TiledTop)
        } else if v == 8 {
            Some(XdgState::TiledBottom)
        } else {
            None
        }
    }
}

/// The states of a configure event's state array, unknown values skipped.
pub fn xdg_states(raw: &Vec<u32>) -> (r: Vec<XdgState>)
    ensures
        r@ == xdg_states_of(raw@),
{
    let n = raw.len();
    let mut out: Vec<XdgState> = Vec::new();
    let mut i: usize = 0;
    while i < n
        invariant
            n == raw@.len(),
            0 <= i <= n,
            out@ == xdg_states_of(raw@.subrange(0, i as int)),
        decreases n - i,
    {
        proof {
            let pre = raw@.subrange(0, i as int + 1);
            assert(pre.drop_last() =~= raw@.subrange(0, i as int));
        }
        match XdgState::from_raw(raw[i]) {
            Some(s) => out.push(s),
            None => {},
        }
        i = i + 1;
    }
    assert(raw@.subrange(0, n as int) =~= raw@);
    out
}

/// Possible events generated by a desktop shell surface
#[derive(Clone, Debug)]
pub enum XdgSurfaceEvent {
    /// The surface scale factor has changed
    Scale { scale_factor: u32 },
    /// The compositor asks for a size (`None`: the client chooses) and states.
    /// During an interactive resize many come in a row; only the last of a
    /// batch needs handling.
    Configure { size: Option<(u32, u32)>, states: Vec<XdgState> },
    /// A close request has been received
    Close,
}

/// The surface's own events as shell surface events, in order.
pub open spec fn scale_events_as_xdg(events: Seq<SurfaceEvent>) -> Seq<XdgSurfaceEvent>
    decreases events.len(),
{
    if events.len() == 0 {
        Seq::empty()
    } else {
        let rest = scale_events_as_xdg(events.drop_last());
        match events.last() {
            SurfaceEvent::Scale { scale_factor } => rest.push(XdgSurfaceEvent::Scale { scale_factor }),
        }
    }
}

/// A desktop toplevel surface
pub struct XdgShellSurface {
    surface_id: u32,
    event_source: EventSource<XdgSurfaceEvent>,
    event_drain: EventDrain<XdgSurfaceEvent>,
}

impl XdgShellSurface {
    pub closed spec fn wf(&self) -> bool {
        self.event_drain.wf()
    }

    /// Object id of the underlying surface.
    pub closed spec fn surface_spec(&self) -> u32 {
        self.surface_id
    }

    /// Events not yet polled, oldest first.
    pub closed spec fn pending(&self) -> Seq<XdgSurfaceEvent> {
        self.event_drain@
    }

    /// A toplevel on surface `surface_id`, with no events.
    pub fn new(surface_id: u32) -> (r: Self)
        ensures
            r.wf(),
            r.surface_spec() == surface_id,
            r.pending() == Seq::<XdgSurfaceEvent>::empty(),
    {
        let (event_source, event_drain) = EventQueue::new();
        XdgShellSurface { surface_id, event_source, event_drain }
    }

    /// Object id of the underlying surface.
    pub fn surface(&self) -> (r: u32)
        ensures
            r == self.surface_spec(),
    {
        self.surface_id
    }

    /// The compositor asked to close the toplevel.
    pub fn close(&mut self)
        requires
            old(self).wf(),
        ensures
            final(self).wf(),
            final(self).surface_spec() == old(self).surface_spec(),
            final(self).pending() == old(self).pending().push(XdgSurfaceEvent::Close),
    {
        self.event_source.push_event(&mut self.event_drain, XdgSurfaceEvent::Close);
    }

    /// The compositor configured the toplevel with a size and a state array.
    pub fn configure(&mut self, width: i32, height: i32, states: &Vec<u32>)
        requires
            old(self).wf(),
        ensures
            final(self).wf(),
            final(self).surface_spec() == old(self).surface_spec(),
            final(self).pending().len() == old(self).pending().len() + 1,
            final(self).pending().drop_last() == old(self).pending(),
            final(self).pending().last() matches XdgSurfaceEvent::Configure { size, states: s } && s@
                == xdg_states_of(states@) && ((width as u32 == 0 || height as u32 == 0) ==> size is None)
                && ((width as u32 != 0 && height as u32 != 0) ==> size == Some((width as u32, height as u32))),
    {
        let size = configure_size(width as u32, height as u32);
        let states = xdg_states(states);
        self.event_source.push_event(&mut self.event_drain, XdgSurfaceEvent::Configure { size, states });
        assert(self.event_drain@.drop_last() =~= old(self).event_drain@);
    }

    /// Removes and returns the pending events: first the scale changes of
    /// the underlying surface (`surface_events`, as polled from it), then the
    /// toplevel's own events, each in order.
    pub fn poll_events(&mut self, surface_events: Vec<SurfaceEvent>) -> (r: Vec<XdgSurfaceEvent>)
        requires
            old(self).wf(),
        ensures
            final(self).wf(),
            final(self).surface_spec() == old(self).surface_spec(),
            final(self).pending() == Seq::<XdgSurfaceEvent>::empty(),
            r@ == scale_events_as_xdg(surface_events@) + old(self).pending(),
    {
        let n = surface_events.len();
        let mut out: Vec<XdgSurfaceEvent> = Vec::new();
        let mut i: usize = 0;
        while i < n
            invariant
                n == surface_events@.len(),
                0 <= i <= n,
                out@ == scale_events_as_xdg(surface_events@.subrange(0, i as int)),
            decreases n - i,
        {
            proof {
                let pre = surface_events@.subrange(0, i as int + 1);
                assert(pre.drop_last() =~= surface_events@.subrange(0, i as int));
            }
            match surface_events[i] {
                SurfaceEvent::Scale { scale_factor } => out.push(XdgSurfaceEvent::Scale { scale_factor }),
            }
            i = i + 1;
        }
        assert(surface_events@.subrange(0, n as int) =~= surface_events@);
        let mut own = self.event_drain.poll_events();
        out.append(&mut own);
        out
    }
}

/// Anchor bit: the top edge
pub const ANCHOR_TOP: u32 = 1;

/// Anchor bit: the bottom edge
pub const ANCHOR_BOTTOM: u32 = 2;

/// Anchor bit: the left edge
pub const ANCHOR_LEFT: u32 = 4;

/// Anchor bit: the right edge
pub const ANCHOR_RIGHT: u32 = 8;

/// The desired layout of a layer-shell surface
#[derive(Clone, Copy, Debug, PartialEq, Eq, Structural)]
pub enum Layout {
    /// The surface will be anchored to the bottom of the screen
    BarBottom {
        /// The height of the bar
        height: u32,
    },
}

/// The first mode of `modes` that is current, if any.
pub open spec fn current_mode(modes: Seq<Mode>) -> Option<Mode>
    decreases modes.len(),
{
    if modes.len() == 0 {
        None
    } else {
        match current_mode(modes.drop_last()) {
            Some(m) => Some(m),
            None => if modes.last().is_current {
                Some(modes.last())
            } else {
                None
            },
        }
    }
}

impl Layout {
    /// The edges the surface is anchored to, as anchor bits.
    pub fn anchor(&self) -> (r: u32)
        ensures
            *self matches Layout::BarBottom { .. } ==> r == ANCHOR_BOTTOM | ANCHOR_LEFT | ANCHOR_RIGHT,
    {
        match self {
            Layout::BarBottom { .. } => ANCHOR_BOTTOM | ANCHOR_LEFT | ANCHOR_RIGHT,
        }
    }

    /// The exclusive zone the surface reserves: the bar's height.
    pub fn exclusive(&self) -> (r: i32)
        ensures
            *self matches Layout::BarBottom { height } ==> r == height as i32,
    {
        match self {
            Layout::BarBottom { height } => *height as i32,
        }
    }

    /// The surface size on an output with modes `modes`: the width of the
    /// output's current mode and the bar's height; `None` when no mode is
    /// current.
    pub fn size(&self, modes: &Vec<Mode>) -> (r: Option<(u32, u32)>)
        ensures
            current_mode(modes@) is None ==> r is None,
            current_mode(modes@) matches Some(m) ==> (*self matches Layout::BarBottom { height } && r == Some(
                (m.dimensions.0, height),
            )),
    {
        let n = modes.len();
        let mut i: usize = 0;
        let mut found: Option<Mode> = None;
        while i < n && found.is_none()
            invariant
                n == modes@.len(),
                0 <= i <= n,
                found is None ==> current_mode(modes@.subrange(0, i as int)) is None,
                found matches Some(m) ==> current_mode(modes@) == Some(m),
            decreases n - i + if found is None { 1int } else { 0int },
        {
            proof {
                let pre = modes@.subrange(0, i as int + 1);
                assert(pre.drop_last() =~= modes@.subrange(0, i as int));
            }
            let m = modes[i];
            if m.is_current {
                proof {
                    lemma_current_mode_prefix(modes@, i as int);
                }
                found = Some(m);
            } else {
                i = i + 1;
            }
        }
        if found.is_none() {
            assert(modes@.subrange(0, n as int) =~= modes@);
        }
        match found {
            None => None,
            Some(m) => match self {
                Layout::BarBottom { height } => Some((m.dimensions.0, *height)),
            },
        }
    }
}

proof fn lemma_current_mode_prefix(modes: Seq<Mode>, k: int)
    requires
        0 <= k < modes.len(),
        current_mode(modes.subrange(0, k + 1)) == Some(modes[k]),
    ensures
        current_mode(modes) == Some(modes[k]),
    decreases modes.len() - k,
{
    if k + 1 < modes.len() {
        let pre = modes.drop_last();
        assert(pre.subrange(0, k + 1) =~= modes.subrange(0, k + 1));
        lemma_current_mode_prefix(pre, k);
    } else {
        assert(modes.subrange(0, k + 1) =~= modes);
    }
}

/// Possible events generated by a layer-shell surface
#[derive(Clone, Copy, Debug)]
pub enum LayerSurfaceEvent {
    /// The surface scale factor has changed
    Scale { scale_factor: u32 },
    /// The compositor asks for a size (`None`: the client chooses)
    Configure { size: Option<(u32, u32)> },
    /// The surface was closed by the compositor
    Close,
}

/// The surface's own events as layer-shell surface events, in order.
pub open spec fn scale_events_as_layer(events: Seq<SurfaceEvent>) -> Seq<LayerSurfaceEvent>
    decreases events.len(),
{
    if events.len() == 0 {
        Seq::empty()
    } else {
        let rest = scale_events_as_layer(events.drop_last());
        match events.last() {
            SurfaceEvent::Scale { scale_factor } => rest.push(LayerSurfaceEvent::Scale { scale_factor }),
        }
    }
}

/// A layer-shell surface on one output
pub struct LayerShellSurface {
    surface_id: u32,
    output: u32,
    layout: Layout,
    event_source: EventSource<LayerSurfaceEvent>,
    event_drain: EventDrain<LayerSurfaceEvent>,
}

impl LayerShellSurface {
    pub closed spec fn wf(&self) -> bool {
        self.event_drain.wf()
    }

    /// Object id of the underlying surface.
    pub closed spec fn surface_spec(&self) -> u32 {
        self.surface_id
    }

    /// Global name of the output it is shown on.
    pub closed spec fn output_spec(&self) -> u32 {
        self.output
    }

    /// Its layout.
    pub closed spec fn layout_spec(&self) -> Layout {
        self.layout
    }

    /// Events not yet polled, oldest first.
    pub closed spec fn pending(&self) -> Seq<LayerSurfaceEvent> {
        self.event_drain@
    }

    /// A layer surface on surface `surface_id` and output `output`, laid out
    /// as `layout`, with no events.
    pub fn new(surface_id: u32, output: u32, layout: Layout) -> (r: Self)
        ensures
            r.wf(),
            r.surface_spec() == surface_id,
            r.output_spec() == output,
            r.layout_spec() == layout,
            r.pending().len() == 0,
    {
        let (event_source, event_drain) = EventQueue::new();
        LayerShellSurface { surface_id, output, layout, event_source, event_drain }
    }

    /// Object id of the underlying surface.
    pub fn surface(&self) -> (r: u32)
        ensures
            r == self.surface_spec(),
    {
        self.surface_id
    }

    /// Global name of the output it is shown on.
    pub fn output(&self) -> (r: u32)
        ensures
            r == self.output_spec(),
    {
        self.output
    }

    /// Its layout.
    pub fn layout(&self) -> (r: Layout)
        ensures
            r == self.layout_spec(),
    {
        self.layout
    }

    /// The compositor closed the surface.
    pub fn close(&mut self)
        requires
            old(self).wf(),
        ensures
            final(self).wf(),
            final(self).surface_spec() == old(self).surface_spec(),
            final(self).pending() == old(self).pending().push(LayerSurfaceEvent::Close),
    {
        self.event_source.push_event(&mut self.event_drain, LayerSurfaceEvent::Close);
    }

    /// The compositor configured the surface with a size.
    pub fn configure(&mut self, width: u32, height: u32)
        requires
            old(self).wf(),
        ensures
            final(self).wf(),
            final(self).surface_spec() == old(self).surface_spec(),
            (width == 0 || height == 0) ==> final(self).pending() == old(self).pending().push(
                LayerSurfaceEvent::Configure { size: None },
            ),
            (width != 0 && height != 0) ==> final(self).pending() == old(self).pending().push(
                LayerSurfaceEvent::Configure { size: Some((width, height)) },
            ),
    {
        let size = configure_size(width, height);
        self.event_source.push_event(&mut self.event_drain, LayerSurfaceEvent::Configure { size });
    }

    /// Removes and returns the pending events: first the scale changes of
    /// the underlying surface (`surface_events`, as polled from it), then the
    /// surface's own events, each in order.
    pub fn poll_events(&mut self, surface_events: Vec<SurfaceEvent>) -> (r: Vec<LayerSurfaceEvent>)
        requires
            old(self).wf(),
        ensures
            final(self).wf(),
            final(self).surface_spec() == old(self).surface_spec(),
            final(self).pending() == Seq::<LayerSurfaceEvent>::empty(),
            r@ == scale_events_as_layer(surface_events@) + old(self).pending(),
    {
        let n = surface_events.len();
        let mut out: Vec<LayerSurfaceEvent> = Vec::new();
        let mut i: usize = 0;
        while i < n
            invariant
                n == surface_events@.len(),
                0 <= i <= n,
                out@ == scale_events_as_layer(surface_events@.subrange(0, i as int)),
            decreases n - i,
        {
            proof {
                let pre = surface_events@.subrange(0, i as int + 1);
                assert(pre.drop_last() =~= surface_events@.subrange(0, i as int));
            }
            match surface_events[i] {
                SurfaceEvent::Scale { scale_factor } => out.push(LayerSurfaceEvent::Scale { scale_factor }),
            }
            i = i + 1;
        }
        assert(surface_events@.subrange(0, n as int) =~= surface_events@);
        let mut own = self.event_drain.poll_events();
        out.append(&mut own);
        out
    }
}

/// Events of a foreign toplevel
#[derive(Clone, Copy, Debug, PartialEq, Eq, Structural)]
pub enum ToplevelEvent {
    /// A batch of changes to title, app id or states is complete
    Configure,
    /// The toplevel was closed
    Closed,
}

} // verus!

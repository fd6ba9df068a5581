//! Surfaces and the scale factor derived from the outputs they overlap.
use vstd::prelude::*;
use crate::event_queue::{EventDrain, EventQueue, EventSource};
use crate::output::{scale_of, Output, OutputManager};

verus! {

/// Events the `SurfaceManager` needs to know about
#[derive(Clone, Copy, Debug, PartialEq, Eq, Structural)]
pub enum SurfaceManagerEvent {
    /// The scale factor of output `output` changed to `factor`
    OutputScale { output: u32, factor: u32 },
    /// Output `output` was disconnected
    OutputLeave { output: u32 },
}

/// Events generated by a surface
#[derive(Clone, Copy, Debug, PartialEq, Eq, Structural)]
pub enum SurfaceEvent {
    /// The surface scale factor has changed
    Scale { scale_factor: u32 },
}

/// The scale factor of a surface that overlaps the outputs `ids`: the largest
/// scale factor among those that the registry holds, and at least 1.
pub open spec fn effective_scale(ids: Seq<u32>, outputs: Seq<Output>) -> u32
    decreases ids.len(),
{
    if ids.len() == 0 {
        1
    } else {
        let rest = effective_scale(ids.drop_last(), outputs);
        match scale_of(outputs, ids.last()) {
            Some(f) => if f > rest {
                f
            } else {
                rest
            },
            None => rest,
        }
    }
}

/// What a recompute emits when the recorded scale is `current` and the
/// recomputed one is `target`: one `Scale` event if they differ, else none.
pub open spec fn scale_events(current: u32, target: u32) -> Seq<SurfaceEvent> {
    if current != target {
        seq![SurfaceEvent::Scale { scale_factor: target }]
    } else {
        Seq::empty()
    }
}

/// `ids` with every occurrence of `id` taken out.
pub open spec fn without_id(ids: Seq<u32>, id: u32) -> Seq<u32>
    decreases ids.len(),
{
    if ids.len() == 0 {
        Seq::empty()
    } else {
        let rest = without_id(ids.drop_last(), id);
        if ids.last() == id {
            rest
        } else {
            rest.push(ids.last())
        }
    }
}

/// The state of one surface
pub struct SurfaceUserData {
    event_source: EventSource<SurfaceEvent>,
    event_drain: EventDrain<SurfaceEvent>,
    scale_factor: u32,
    outputs: Vec<u32>,
}

impl SurfaceUserData {
    pub closed spec fn wf(&self) -> bool {
        self.event_drain.wf()
    }

    /// The scale factor last emitted (1 before any).
    pub closed spec fn scale(&self) -> u32 {
        self.scale_factor
    }

    /// The outputs the surface overlaps, in the order it entered them.
    pub closed spec fn overlapped(&self) -> Seq<u32> {
        self.outputs@
    }

    /// Events not yet polled.
    pub closed spec fn pending(&self) -> Seq<SurfaceEvent> {
        self.event_drain@
    }

    /// A surface on no output, with scale factor 1 and no events.
    pub fn new() -> (r: Self)
        ensures
            r.wf(),
            r.scale() == 1,
            r.overlapped() == Seq::<u32>::empty(),
            r.pending() == Seq::<SurfaceEvent>::empty(),
    {
        let (event_source, event_drain) = EventQueue::new();
        SurfaceUserData { event_source, event_drain, scale_factor: 1, outputs: Vec::new() }
    }

    /// The current scale factor.
    pub fn scale_factor(&self) -> (r: u32)
        ensures
            r == self.scale(),
    {
        self.scale_factor
    }

    /// Recomputes the scale factor from the overlapped outputs; emits a
    /// `Scale` event only when it changed.
    pub fn update_scale_factor(&mut self, registry: &OutputManager)
        requires
            old(self).wf(),
            registry.wf(),
        ensures
            final(self).wf(),
            final(self).scale() == effective_scale(old(self).overlapped(), registry@),
            final(self).overlapped() == old(self).overlapped(),
            final(self).pending() == old(self).pending() + scale_events(
                old(self).scale(),
                effective_scale(old(self).overlapped(), registry@),
            ),
    {
        let n = self.outputs.len();
        let mut scale: u32 = 1;
        let mut i: usize = 0;
        while i < n
            invariant
                n == self.outputs@.len(),
                0 <= i <= n,
                registry.wf(),
                scale == effective_scale(self.outputs@.subrange(0, i as int), registry@),
            decreases n - i,
        {
            let id = self.outputs[i];
            proof {
                let pre = self.outputs@.subrange(0, i as int + 1);
                assert(pre.drop_last() =~= self.outputs@.subrange(0, i as int));
                assert(pre.last() == id);
            }
            match registry.scale_factor_of(id) {
                Some(f) => {
                    if f > scale {
                        scale = f;
                    }
                },
                None => {},
            }
            i = i + 1;
        }
        assert(self.outputs@.subrange(0, n as int) =~= self.outputs@);
        if self.scale_factor != scale {
            self.scale_factor = scale;
            self.event_source.push_event(&mut self.event_drain, SurfaceEvent::Scale { scale_factor: scale });
            assert(self.event_drain@ =~= old(self).event_drain@ + scale_events(old(self).scale_factor, scale));
        } else {
            assert(self.event_drain@ =~= old(self).event_drain@ + scale_events(old(self).scale_factor, scale));
        }
    }

    /// The surface entered output `output`.
    pub fn enter(&mut self, output: u32, registry: &OutputManager)
        requires
            old(self).wf(),
            registry.wf(),
        ensures
            final(self).wf(),
            final(self).overlapped() == old(self).overlapped().push(output),
            final(self).scale() == effective_scale(final(self).overlapped(), registry@),
            final(self).pending() == old(self).pending() + scale_events(old(self).scale(), final(self).scale()),
    {
        self.outputs.push(output);
        self.update_scale_factor(registry);
    }

    /// The surface left output `output`.
    pub fn leave(&mut self, output: u32, registry: &OutputManager)
        requires
            old(self).wf(),
            registry.wf(),
        ensures
            final(self).wf(),
            final(self).overlapped() == without_id(old(self).overlapped(), output),
            final(self).scale() == effective_scale(final(self).overlapped(), registry@),
            final(self).pending() == old(self).pending() + scale_events(old(self).scale(), final(self).scale()),
    {
        let n = self.outputs.len();
        let mut kept: Vec<u32> = Vec::new();
        let mut i: usize = 0;
        while i < n
            invariant
                n == self.outputs@.len(),
                0 <= i <= n,
                kept@ == without_id(self.outputs@.subrange(0, i as int), output),
            decreases n - i,
        {
            let id = self.outputs[i];
            proof {
                let pre = self.outputs@.subrange(0, i as int + 1);
                assert(pre.drop_last() =~= self.outputs@.subrange(0, i as int));
                assert(pre.last() == id);
            }
            if id != output {
                kept.push(id);
            }
            i = i + 1;
        }
        assert(self.outputs@.subrange(0, n as int) =~= self.outputs@);
        self.outputs = kept;
        self.update_scale_factor(registry);
    }

    /// Removes and returns the pending events, oldest first.
    pub fn poll_events(&mut self) -> (r: Vec<SurfaceEvent>)
        requires
            old(self).wf(),
        ensures
            final(self).wf(),
            r@ == old(self).pending(),
            final(self).pending() == Seq::<SurfaceEvent>::empty(),
            final(self).scale() == old(self).scale(),
            final(self).overlapped() == old(self).overlapped(),
    {
        self.event_drain.poll_events()
    }
}

/// A surface known to the surface manager.
pub struct Surface {
    /// Protocol object id
    pub id: u32,
    /// Its state
    pub data: SurfaceUserData,
}

/// `after` is surface `before` once `event` is handled against `outputs`.
pub open spec fn surface_reacted(
    before: SurfaceUserData,
    after: SurfaceUserData,
    event: SurfaceManagerEvent,
    outputs: Seq<Output>,
) -> bool {
    &&& after.wf()
    &&& after.overlapped() == match event {
        SurfaceManagerEvent::OutputLeave { output } => without_id(before.overlapped(), output),
        SurfaceManagerEvent::OutputScale { .. } => before.overlapped(),
    }
    &&& after.scale() == effective_scale(after.overlapped(), outputs)
    &&& after.pending() == before.pending() + scale_events(before.scale(), after.scale())
}

/// Some surface of `surfaces` has id `id`.
pub open spec fn has_surface(surfaces: Seq<Surface>, id: u32) -> bool {
    exists|i: int| 0 <= i < surfaces.len() && #[trigger] surfaces[i].id == id
}

/// `surfaces` without those of id `id`.
pub open spec fn without_surface(surfaces: Seq<Surface>, id: u32) -> Seq<Surface>
    decreases surfaces.len(),
{
    if surfaces.len() == 0 {
        Seq::empty()
    } else {
        let rest = without_surface(surfaces.drop_last(), id);
        if surfaces.last().id == id {
            rest
        } else {
            rest.push(surfaces.last())
        }
    }
}

/// Tracks the live surfaces and keeps their scale factors current.
pub struct SurfaceManager {
    surfaces: Vec<Surface>,
}

impl View for SurfaceManager {
    type V = Seq<Surface>;

    closed spec fn view(&self) -> Seq<Surface> {
        self.surfaces@
    }
}

impl SurfaceManager {
    pub open spec fn wf(&self) -> bool {
        forall|i: int| 0 <= i < self@.len() ==> (#[trigger] self@[i]).data.wf()
    }

    /// A manager with no surfaces.
    pub fn new() -> (r: Self)
        ensures
            r.wf(),
            r@.len() == 0,
    {
        SurfaceManager { surfaces: Vec::new() }
    }

    /// Starts tracking surface `id`, on no output and at scale factor 1.
    /// An id already tracked is refused: nothing changes and `false` is
    /// returned.
    pub fn create_surface(&mut self, id: u32) -> (r: bool)
        requires
            old(self).wf(),
        ensures
            final(self).wf(),
            r == !has_surface(old(self)@, id),
            !r ==> final(self)@ == old(self)@,
            r ==> final(self)@.len() == old(self)@.len() + 1 && final(self)@.drop_last() == old(self)@
                && final(self)@.last().id == id && final(self)@.last().data.scale() == 1
                && final(self)@.last().data.overlapped().len() == 0
                && final(self)@.last().data.pending().len() == 0,
    {
        if self.position(id).is_some() {
            return false;
        }
        self.surfaces.push(Surface { id, data: SurfaceUserData::new() });
        assert(self@.drop_last() =~= old(self)@);
        true
    }

    /// Stops tracking surface `id`; an id not tracked changes nothing.
    pub fn remove_surface(&mut self, id: u32)
        requires
            old(self).wf(),
        ensures
            final(self).wf(),
            final(self)@ == without_surface(old(self)@, id),
            !has_surface(final(self)@, id),
    {
        let mut rest: Vec<Surface> = Vec::new();
        std::mem::swap(&mut self.surfaces, &mut rest);
        let ghost all = rest@;
        let n = rest.len();
        let mut k: usize = 0;
        assert(rest@ =~= all.subrange(0, n as int));
        assert(self@ =~= without_surface(all.subrange(0, 0), id));
        while k < n
            invariant
                n == all.len(),
                all == old(self)@,
                forall|i: int| 0 <= i < all.len() ==> (#[trigger] all[i]).data.wf(),
                0 <= k <= n,
                rest@ == all.subrange(k as int, n as int),
                self@ == without_surface(all.subrange(0, k as int), id),
                self.wf(),
                !has_surface(self@, id),
            decreases n - k,
        {
            proof {
                let pre = all.subrange(0, k as int + 1);
                assert(pre.drop_last() =~= all.subrange(0, k as int));
                assert(rest@[0] == all[k as int]);
            }
            let c = rest.remove(0);
            assert(rest@ =~= all.subrange(k as int + 1, n as int));
            if c.id != id {
                let ghost before = self@;
                self.surfaces.push(c);
                proof {
                    assert forall|i: int| 0 <= i < self@.len() implies (#[trigger] self@[i]).data.wf() by {
                        if i < before.len() {
                            assert(self@[i] == before[i]);
                        }
                    }
                    assert forall|i: int| 0 <= i < self@.len() implies #[trigger] self@[i].id != id by {
                        if i < before.len() {
                            assert(self@[i] == before[i]);
                        }
                    }
                }
            }
            k = k + 1;
        }
        assert(all.subrange(0, n as int) =~= all);
    }

    /// Index of the first surface with id `id`.
    fn position(&self, id: u32) -> (r: Option<usize>)
        ensures
            r is None ==> forall|j: int| 0 <= j < self@.len() ==> #[trigger] self@[j].id != id,
            r matches Some(i) ==> i < self@.len() && self@[i as int].id == id && forall|j: int|
                0 <= j < i ==> #[trigger] self@[j].id != id,
    {
        let n = self.surfaces.len();
        let mut i: usize = 0;
        while i < n
            invariant
                n == self@.len(),
                0 <= i <= n,
                forall|j: int| 0 <= j < i ==> #[trigger] self@[j].id != id,
            decreases n - i,
        {
            if self.surfaces[i].id == id {
                return Some(i);
            }
            i = i + 1;
        }
        None
    }

    /// The surface with id `id` entered (`entered`) or left output `output`.
    /// Returns whether the surface is tracked.
    pub fn surface_output(&mut self, id: u32, output: u32, entered: bool, registry: &OutputManager) -> (r: bool)
        requires
            old(self).wf(),
            registry.wf(),
        ensures
            final(self).wf(),
            r == exists|i: int| 0 <= i < old(self)@.len() && #[trigger] old(self)@[i].id == id,
            !r ==> final(self)@ == old(self)@,
            r ==> exists|i: int|
                0 <= i < old(self)@.len() && old(self)@[i].id == id && final(self)@.len() == old(self)@.len()
                    && (forall|j: int| 0 <= j < old(self)@.len() && j != i ==> #[trigger] final(self)@[j] == old(self)@[j])
                    && final(self)@[i].id == id
                    && final(self)@[i].data.overlapped() == (if entered {
                        old(self)@[i].data.overlapped().push(output)
                    } else {
                        without_id(old(self)@[i].data.overlapped(), output)
                    })
                    && final(self)@[i].data.scale() == effective_scale(final(self)@[i].data.overlapped(), registry@)
                    && final(self)@[i].data.pending() == old(self)@[i].data.pending() + scale_events(
                        old(self)@[i].data.scale(),
                        final(self)@[i].data.scale(),
                    ),
    {
        match self.position(id) {
            None => false,
            Some(i) => {
                assert(self@[i as int].data.wf());
                if entered {
                    self.surfaces[i].data.enter(output, registry);
                } else {
                    self.surfaces[i].data.leave(output, registry);
                }
                proof {
                    assert forall|j: int| 0 <= j < self@.len() implies (#[trigger] self@[j]).data.wf() by {
                        if j != i {
                            assert(self@[j] == old(self)@[j]);
                        }
                    }
                }
                true
            },
        }
    }

    /// Reacts to an output event: every surface leaves an output that is gone,
    /// and every surface recomputes its scale factor after a scale change.
    pub fn handle_event(&mut self, event: SurfaceManagerEvent, registry: &OutputManager)
        requires
            old(self).wf(),
            registry.wf(),
        ensures
            final(self).wf(),
            final(self)@.len() == old(self)@.len(),
            forall|i: int|
                0 <= i < old(self)@.len() ==> #[trigger] final(self)@[i].id == old(self)@[i].id && surface_reacted(
                    old(self)@[i].data,
                    final(self)@[i].data,
                    event,
                    registry@,
                ),
    {
        let n = self.surfaces.len();
        let mut i: usize = 0;
        while i < n
            invariant
                n == self@.len(),
                n == old(self)@.len(),
                0 <= i <= n,
                registry.wf(),
                forall|j: int|
                    0 <= j < i ==> #[trigger] self@[j].id == old(self)@[j].id && surface_reacted(
                        old(self)@[j].data,
                        self@[j].data,
                        event,
                        registry@,
                    ),
                forall|j: int| i <= j < n ==> #[trigger] self@[j] == old(self)@[j],
                forall|j: int| 0 <= j < n ==> (#[trigger] self@[j]).data.wf(),
            decreases n - i,
        {
            let ghost before = self@;
            match event {
                SurfaceManagerEvent::OutputLeave { output } => {
                    self.surfaces[i].data.leave(output, registry);
                },
                SurfaceManagerEvent::OutputScale { .. } => {
                    self.surfaces[i].data.update_scale_factor(registry);
                },
            }
            proof {
                assert forall|j: int| 0 <= j < n && j != i implies #[trigger] self@[j] == before[j] by {}
                assert(before[i as int] == old(self)@[i as int]);
                assert(self@[i as int].id == old(self)@[i as int].id);
                assert(surface_reacted(old(self)@[i as int].data, self@[i as int].data, event, registry@));
                assert forall|j: int| 0 <= j < i + 1 implies #[trigger] self@[j].id == old(self)@[j].id
                    && surface_reacted(old(self)@[j].data, self@[j].data, event, registry@) by {
                    if j < i {
                        assert(self@[j] == before[j]);
                        assert(before[j].id == old(self)@[j].id);
                    }
                }
            }
            i = i + 1;
        }
    }

    /// Removes and returns the pending events of surface `id`, oldest first;
    /// empty when the surface is not tracked.
    pub fn poll_surface(&mut self, id: u32) -> (r: Vec<SurfaceEvent>)
        requires
            old(self).wf(),
        ensures
            final(self).wf(),
            final(self)@.len() == old(self)@.len(),
            (forall|j: int| 0 <= j < old(self)@.len() ==> #[trigger] old(self)@[j].id != id) ==> r@.len() == 0
                && final(self)@ == old(self)@,
            forall|i: int|
                0 <= i < old(self)@.len() && #[trigger] old(self)@[i].id == id && (forall|j: int|
                    0 <= j < i ==> #[trigger] old(self)@[j].id != id) ==> r@ == old(self)@[i].data.pending()
                    && final(self)@[i].data.pending().len() == 0 && final(self)@[i].data.scale()
                    == old(self)@[i].data.scale() && final(self)@[i].data.overlapped()
                    == old(self)@[i].data.overlapped() && final(self)@[i].id == id && forall|j: int|
                    0 <= j < old(self)@.len() && j != i ==> #[trigger] final(self)@[j] == old(self)@[j],
    {
        match self.position(id) {
            None => Vec::new(),
            Some(i) => {
                assert(self@[i as int].data.wf());
                let r = self.surfaces[i].data.poll_events();
                proof {
                    assert forall|j: int| 0 <= j < self@.len() implies (#[trigger] self@[j]).data.wf() by {
                        if j != i {
                            assert(self@[j] == old(self)@[j]);
                        }
                    }
                    assert forall|k: int|
                        0 <= k < old(self)@.len() && #[trigger] old(self)@[k].id == id && (forall|j: int|
                            0 <= j < k ==> #[trigger] old(self)@[j].id != id) implies k == i by {
                        if k < i {
                        }
                        if i < k {
                            assert(old(self)@[i as int].id != id);
                        }
                    }
                }
                r
            },
        }
    }
}

/// A recompute right after another, with nothing changed, emits nothing;
/// and a recompute emits a `Scale` event exactly when the scale changes,
/// carrying the new value.
pub proof fn lemma_scale_deduplicated(current: u32, ids: Seq<u32>, outputs: Seq<Output>)
    ensures
        scale_events(effective_scale(ids, outputs), effective_scale(ids, outputs)).len() == 0,
        current == effective_scale(ids, outputs) <==> scale_events(current, effective_scale(ids, outputs)).len()
            == 0,
        current != effective_scale(ids, outputs) ==> scale_events(current, effective_scale(ids, outputs))
            == seq![SurfaceEvent::Scale { scale_factor: effective_scale(ids, outputs) }],
{
}

} // verus!

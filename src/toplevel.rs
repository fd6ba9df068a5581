//! Foreign toplevels: the windows of other clients that the compositor lists.
use vstd::prelude::*;
use crate::event_queue::{EventDrain, EventQueue, EventSource};
use crate::shell::ToplevelEvent;

verus! {

/// A state of a foreign toplevel
#[derive(Clone, Copy, Debug, PartialEq, Eq, Structural)]
pub enum ToplevelState {
    Maximized,
    Minimized,
    Activated,
}

/// The state that protocol value `v` stands for, if any.
pub open spec fn toplevel_state_of(v: u32) -> Option<ToplevelState> {
    if v == 0 {
        Some(ToplevelState::Maximized)
    } else if v == 1 {
        Some(ToplevelState::Minimized)
    } else if v == 2 {
        Some(ToplevelState::Activated)
    } else {
        None
    }
}

/// The states that `raw` lists, in order, unknown values skipped.
pub open spec fn toplevel_states_of(raw: Seq<u32>) -> Seq<ToplevelState>
    decreases raw.len(),
{
    if raw.len() == 0 {
        Seq::empty()
    } else {
        let rest = toplevel_states_of(raw.drop_last());
        match toplevel_state_of(raw.last()) {
            Some(s) => rest.push(s),
            None => rest,
        }
    }
}

/// The states of a state event's array, unknown values skipped.
pub fn toplevel_states(raw: &Vec<u32>) -> (r: Vec<ToplevelState>)
    ensures
        r@ == toplevel_states_of(raw@),
{
    let n = raw.len();
    let mut out: Vec<ToplevelState> = Vec::new();
    let mut i: usize = 0;
    while i < n
        invariant
            n == raw@.len(),
            0 <= i <= n,
            out@ == toplevel_states_of(raw@.subrange(0, i as int)),
        decreases n - i,
    {
        proof {
            let pre = raw@.subrange(0, i as int + 1);
            assert(pre.drop_last() =~= raw@.subrange(0, i as int));
        }
        let v = raw[i];
        if v == 0 {
            out.push(ToplevelState::Maximized);
        } else if v == 1 {
            out.push(ToplevelState::Minimized);
        } else if v == 2 {
            out.push(ToplevelState::Activated);
        }
        i = i + 1;
    }
    assert(raw@.subrange(0, n as int) =~= raw@);
    out
}

/// What the compositor sends about one foreign toplevel.
#[derive(Debug)]
pub enum ToplevelHandleEvent {
    Title(String),
    AppId(String),
    /// The state array
    State(Vec<u32>),
    /// A batch of changes is complete
    Done,
    Closed,
}

/// A foreign toplevel
pub struct Toplevel {
    id: u32,
    title: String,
    app_id: String,
    states: Vec<ToplevelState>,
    closed: bool,
    event_source: EventSource<ToplevelEvent>,
    event_drain: EventDrain<ToplevelEvent>,
}

impl Toplevel {
    pub closed spec fn wf(&self) -> bool {
        self.event_drain.wf()
    }

    pub closed spec fn id_spec(&self) -> u32 {
        self.id
    }

    pub closed spec fn title_spec(&self) -> Seq<char> {
        self.title@
    }

    pub closed spec fn app_id_spec(&self) -> Seq<char> {
        self.app_id@
    }

    pub closed spec fn states_spec(&self) -> Seq<ToplevelState> {
        self.states@
    }

    pub closed spec fn closed_spec(&self) -> bool {
        self.closed
    }

    /// Events not yet polled, oldest first.
    pub closed spec fn pending(&self) -> Seq<ToplevelEvent> {
        self.event_drain@
    }

    /// A toplevel with object id `id`, of which nothing is known yet.
    pub fn new(id: u32) -> (r: Self)
        ensures
            r.wf(),
            r.id_spec() == id,
            r.title_spec().len() == 0,
            r.app_id_spec().len() == 0,
            r.states_spec().len() == 0,
            !r.closed_spec(),
            r.pending().len() == 0,
    {
        let (event_source, event_drain) = EventQueue::new();
        Toplevel {
            id,
            title: String::new(),
            app_id: String::new(),
            states: Vec::new(),
            closed: false,
            event_source,
            event_drain,
        }
    }

    /// Object id of the toplevel.
    pub fn id(&self) -> (r: u32)
        ensures
            r == self.id_spec(),
    {
        self.id
    }

    /// Its title.
    pub fn title(&self) -> (r: &str)
        ensures
            r@ == self.title_spec(),
    {
        self.title.as_str()
    }

    /// Its application id.
    pub fn app_id(&self) -> (r: &str)
        ensures
            r@ == self.app_id_spec(),
    {
        self.app_id.as_str()
    }

    /// Its states.
    pub fn states(&self) -> (r: &Vec<ToplevelState>)
        ensures
            r@ == self.states_spec(),
    {
        &self.states
    }

    /// Whether the compositor closed it.
    pub fn closed(&self) -> (r: bool)
        ensures
            r == self.closed_spec(),
    {
        self.closed
    }

    /// Records an event of the toplevel: title, app id and states are kept,
    /// a done event queues `Configure`, a closed event queues `Closed` and
    /// marks it closed.
    pub fn handle_event(&mut self, event: ToplevelHandleEvent)
        requires
            old(self).wf(),
        ensures
            final(self).wf(),
            final(self).id_spec() == old(self).id_spec(),
            final(self).title_spec() == (match event {
                ToplevelHandleEvent::Title(t) => t@,
                _ => old(self).title_spec(),
            }),
            final(self).app_id_spec() == (match event {
                ToplevelHandleEvent::AppId(a) => a@,
                _ => old(self).app_id_spec(),
            }),
            final(self).states_spec() == (match event {
                ToplevelHandleEvent::State(raw) => toplevel_states_of(raw@),
                _ => old(self).states_spec(),
            }),
            final(self).closed_spec() == (old(self).closed_spec() || event is Closed),
            final(self).pending() == (match event {
                ToplevelHandleEvent::Done => old(self).pending().push(ToplevelEvent::Configure),
                ToplevelHandleEvent::Closed => old(self).pending().push(ToplevelEvent::Closed),
                _ => old(self).pending(),
            }),
    {
        match event {
            ToplevelHandleEvent::Title(t) => {
                self.title = t;
            },
            ToplevelHandleEvent::AppId(a) => {
                self.app_id = a;
            },
            ToplevelHandleEvent::State(raw) => {
                self.states = toplevel_states(&raw);
            },
            ToplevelHandleEvent::Done => {
                self.event_source.push_event(&mut self.event_drain, ToplevelEvent::Configure);
            },
            ToplevelHandleEvent::Closed => {
                self.event_source.push_event(&mut self.event_drain, ToplevelEvent::Closed);
                self.closed = true;
            },
        }
    }

    /// Removes and returns the pending events, oldest first.
    pub fn poll_events(&mut self) -> (r: Vec<ToplevelEvent>)
        requires
            old(self).wf(),
        ensures
            final(self).wf(),
            r@ == old(self).pending(),
            drained_copy(*old(self), *final(self)),
    {
        self.event_drain.poll_events()
    }
}

/// The pending events of `ts`, toplevel after toplevel, each tagged with its
/// toplevel's object id.
pub open spec fn all_pending(ts: Seq<Toplevel>) -> Seq<(u32, ToplevelEvent)>
    decreases ts.len(),
{
    if ts.len() == 0 {
        Seq::empty()
    } else {
        all_pending(ts.drop_last()) + ts.last().pending().map_values(|e: ToplevelEvent| (ts.last().id_spec(), e))
    }
}

/// The toplevels of `ts` that are not closed, in order.
pub open spec fn open_entries(ts: Seq<Toplevel>) -> Seq<Toplevel>
    decreases ts.len(),
{
    if ts.len() == 0 {
        Seq::empty()
    } else {
        let rest = open_entries(ts.drop_last());
        if ts.last().closed_spec() {
            rest
        } else {
            rest.push(ts.last())
        }
    }
}

/// `after` is toplevel `before` with its queue emptied and all else kept.
pub open spec fn drained_copy(before: Toplevel, after: Toplevel) -> bool {
    &&& after.wf()
    &&& after.id_spec() == before.id_spec()
    &&& after.title_spec() == before.title_spec()
    &&& after.app_id_spec() == before.app_id_spec()
    &&& after.states_spec() == before.states_spec()
    &&& after.closed_spec() == before.closed_spec()
    &&& after.pending().len() == 0
}

/// The object ids of the toplevels of `ts` that are not closed, in order.
pub open spec fn open_ids(ts: Seq<Toplevel>) -> Seq<u32>
    decreases ts.len(),
{
    if ts.len() == 0 {
        Seq::empty()
    } else {
        let rest = open_ids(ts.drop_last());
        if ts.last().closed_spec() {
            rest
        } else {
            rest.push(ts.last().id_spec())
        }
    }
}

/// Tracks the foreign toplevels that the compositor lists.
pub struct ToplevelManager {
    toplevels: Vec<Toplevel>,
}

impl View for ToplevelManager {
    type V = Seq<Toplevel>;

    closed spec fn view(&self) -> Seq<Toplevel> {
        self.toplevels@
    }
}

impl ToplevelManager {
    pub open spec fn wf(&self) -> bool {
        forall|i: int| 0 <= i < self@.len() ==> (#[trigger] self@[i]).wf()
    }

    /// A manager with no toplevels.
    pub fn new() -> (r: Self)
        ensures
            r.wf(),
            r@.len() == 0,
    {
        ToplevelManager { toplevels: Vec::new() }
    }

    /// The compositor listed a new toplevel with object id `id`.
    pub fn new_toplevel(&mut self, id: u32)
        requires
            old(self).wf(),
        ensures
            final(self).wf(),
            final(self)@.len() == old(self)@.len() + 1,
            final(self)@.drop_last() == old(self)@,
            final(self)@.last().id_spec() == id,
            !final(self)@.last().closed_spec(),
            final(self)@.last().pending().len() == 0,
    {
        self.toplevels.push(Toplevel::new(id));
        assert(self@.drop_last() =~= old(self)@);
    }

    /// The object ids of the toplevels that are not closed.
    pub fn toplevels(&self) -> (r: Vec<u32>)
        ensures
            r@ == open_ids(self@),
    {
        let n = self.toplevels.len();
        let mut out: Vec<u32> = Vec::new();
        let mut i: usize = 0;
        while i < n
            invariant
                n == self@.len(),
                0 <= i <= n,
                out@ == open_ids(self@.subrange(0, i as int)),
            decreases n - i,
        {
            proof {
                let pre = self@.subrange(0, i as int + 1);
                assert(pre.drop_last() =~= self@.subrange(0, i as int));
            }
            if !self.toplevels[i].closed() {
                out.push(self.toplevels[i].id());
            }
            i = i + 1;
        }
        assert(self@.subrange(0, n as int) =~= self@);
        out
    }

    /// The first toplevel with object id `id`, if any.
    pub fn get_toplevel(&self, id: u32) -> (r: Option<&Toplevel>)
        ensures
            r is None ==> forall|j: int| 0 <= j < self@.len() ==> #[trigger] self@[j].id_spec() != id,
            r matches Some(t) ==> exists|i: int|
                0 <= i < self@.len() && self@[i] == *t && t.id_spec() == id && forall|j: int|
                    0 <= j < i ==> #[trigger] self@[j].id_spec() != id,
    {
        let n = self.toplevels.len();
        let mut i: usize = 0;
        while i < n
            invariant
                n == self@.len(),
                0 <= i <= n,
                forall|j: int| 0 <= j < i ==> #[trigger] self@[j].id_spec() != id,
            decreases n - i,
        {
            if self.toplevels[i].id() == id {
                return Some(&self.toplevels[i]);
            }
            i = i + 1;
        }
        None
    }

    /// Records an event of toplevel `id` (the first with that id). Returns
    /// whether such a toplevel is tracked; otherwise nothing changes.
    pub fn toplevel_event(&mut self, id: u32, event: ToplevelHandleEvent) -> (r: bool)
        requires
            old(self).wf(),
        ensures
            final(self).wf(),
            final(self)@.len() == old(self)@.len(),
            r == exists|i: int| 0 <= i < old(self)@.len() && #[trigger] old(self)@[i].id_spec() == id,
            !r ==> final(self)@ == old(self)@,
            r ==> exists|i: int|
                0 <= i < old(self)@.len() && old(self)@[i].id_spec() == id && (forall|j: int|
                    0 <= j < i ==> #[trigger] old(self)@[j].id_spec() != id) && (forall|j: int|
                    0 <= j < old(self)@.len() && j != i ==> #[trigger] final(self)@[j] == old(self)@[j])
                    && final(self)@[i].id_spec() == id
                    && final(self)@[i].closed_spec() == (old(self)@[i].closed_spec() || event is Closed)
                    && final(self)@[i].title_spec() == (match event {
                    ToplevelHandleEvent::Title(t) => t@,
                    _ => old(self)@[i].title_spec(),
                })
                    && final(self)@[i].app_id_spec() == (match event {
                    ToplevelHandleEvent::AppId(a) => a@,
                    _ => old(self)@[i].app_id_spec(),
                })
                    && final(self)@[i].states_spec() == (match event {
                    ToplevelHandleEvent::State(raw) => toplevel_states_of(raw@),
                    _ => old(self)@[i].states_spec(),
                })
                    && final(self)@[i].pending() == (match event {
                    ToplevelHandleEvent::Done => old(self)@[i].pending().push(ToplevelEvent::Configure),
                    ToplevelHandleEvent::Closed => old(self)@[i].pending().push(ToplevelEvent::Closed),
                    _ => old(self)@[i].pending(),
                }),
    {
        let n = self.toplevels.len();
        let mut i: usize = 0;
        let mut found = false;
        while i < n && !found
            invariant
                n == self@.len(),
                0 <= i <= n,
                forall|j: int| 0 <= j < i ==> #[trigger] self@[j].id_spec() != id,
                found ==> i < n && self@[i as int].id_spec() == id,
            decreases n - i + if found { 0int } else { 1int },
        {
            if self.toplevels[i].id() == id {
                found = true;
            } else {
                i = i + 1;
            }
        }
        if !found {
            return false;
        }
        assert(self@[i as int].wf());
        self.toplevels[i].handle_event(event);
        proof {
            assert forall|j: int| 0 <= j < self@.len() implies (#[trigger] self@[j]).wf() by {
                if j != i {
                    assert(self@[j] == old(self)@[j]);
                }
            }
        }
        true
    }

    /// Removes and returns the pending events of every toplevel, tagged with
    /// its object id, toplevel after toplevel; closed toplevels are then
    /// forgotten.
    pub fn poll_events(&mut self) -> (r: Vec<(u32, ToplevelEvent)>)
        requires
            old(self).wf(),
        ensures
            final(self).wf(),
            r@ == all_pending(old(self)@),
            final(self)@.len() == open_entries(old(self)@).len(),
            forall|i: int| 0 <= i < final(self)@.len() ==> drained_copy(#[trigger] open_entries(old(self)@)[i], final(self)@[i]),
            open_ids(final(self)@) == open_ids(old(self)@),
            forall|i: int| 0 <= i < final(self)@.len() ==> !(#[trigger] final(self)@[i]).closed_spec(),
            forall|i: int| 0 <= i < final(self)@.len() ==> (#[trigger] final(self)@[i]).pending().len() == 0,
    {
        let mut rest: Vec<Toplevel> = Vec::new();
        std::mem::swap(&mut self.toplevels, &mut rest);
        let ghost all = rest@;
        let n = rest.len();
        let mut out: Vec<(u32, ToplevelEvent)> = Vec::new();
        let mut k: usize = 0;
        assert(rest@ =~= all.subrange(0, n as int));
        assert(all.subrange(0, 0) =~= Seq::<Toplevel>::empty());
        assert(self@ =~= Seq::<Toplevel>::empty());
        assert(all == old(self)@);
        assert forall|i: int| 0 <= i < all.len() implies (#[trigger] all[i]).wf() by {
            assert(old(self)@[i].wf());
        }
        while k < n
            invariant
                n == all.len(),
                0 <= k <= n,
                rest@ == all.subrange(k as int, n as int),
                forall|i: int| 0 <= i < all.len() ==> (#[trigger] all[i]).wf(),
                out@ == all_pending(all.subrange(0, k as int)),
                open_ids(self@) == open_ids(all.subrange(0, k as int)),
                self@.len() == open_entries(all.subrange(0, k as int)).len(),
                forall|i: int| 0 <= i < self@.len() ==> drained_copy(#[trigger] open_entries(all.subrange(0, k as int))[i], self@[i]),
                forall|i: int| 0 <= i < self@.len() ==> (#[trigger] self@[i]).wf(),
                forall|i: int| 0 <= i < self@.len() ==> !(#[trigger] self@[i]).closed_spec(),
                forall|i: int| 0 <= i < self@.len() ==> (#[trigger] self@[i]).pending().len() == 0,
            decreases n - k,
        {
            let ghost pre = all.subrange(0, k as int + 1);
            proof {
                assert(pre.drop_last() =~= all.subrange(0, k as int));
                assert(rest@[0] == all[k as int]);
            }
            let mut t = rest.remove(0);
            assert(t == all[k as int]);
            let ghost t_old = t;
            let events = t.poll_events();
            let m = events.len();
            let mut j: usize = 0;
            let ghost out_before = out@;
            while j < m
                invariant
                    m == events@.len(),
                    0 <= j <= m,
                    out@ == out_before + events@.subrange(0, j as int).map_values(
                        |e: ToplevelEvent| (t_old.id_spec(), e),
                    ),
                    t.id_spec() == t_old.id_spec(),
                decreases m - j,
            {
                proof {
                    assert(events@.subrange(0, j as int + 1).map_values(|e: ToplevelEvent| (t_old.id_spec(), e))
                        =~= events@.subrange(0, j as int).map_values(|e: ToplevelEvent| (t_old.id_spec(), e)).push(
                        (t_old.id_spec(), events@[j as int]),
                    ));
                }
                out.push((t.id(), events[j]));
                j = j + 1;
            }
            proof {
                assert(events@.subrange(0, m as int) =~= events@);
                assert(rest@ =~= all.subrange(k as int + 1, n as int));
            }
            let ghost kept_before = self@;
            if !t.closed() {
                self.toplevels.push(t);
                proof {
                    assert(self@.drop_last() =~= kept_before);
                    let oe = open_entries(all.subrange(0, k as int));
                    assert(open_entries(pre) == oe.push(t_old));
                    assert forall|i: int| 0 <= i < self@.len() implies drained_copy(#[trigger] open_entries(pre)[i], self@[i]) by {
                        if i < kept_before.len() {
                            assert(open_entries(pre)[i] == oe[i]);
                            assert(self@[i] == kept_before[i]);
                        }
                    }
                }
            } else {
                proof {
                    assert(open_entries(pre) == open_entries(all.subrange(0, k as int)));
                }
            }
            k = k + 1;
        }
        proof {
            assert(all.subrange(0, n as int) =~= all);
        }
        out
    }
}

} // verus!

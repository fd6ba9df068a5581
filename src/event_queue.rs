//! A FIFO of typed events, written by producer handles and drained by a consumer.
use vstd::prelude::*;

verus! {

/// Creates the producer and the consumer side of a new queue.
pub struct EventQueue;

/// A producer handle: it names the producer that pushes into a queue.
///
/// The buffer lives in the queue's `EventDrain`, which each push is handed,
/// so an event lands in exactly the queue passed to `push_event`. Clones of
/// one handle push as the same producer.
pub struct EventSource<T> {
    producer: u64,
    marker: std::marker::PhantomData<T>,
}

impl<T> Clone for EventSource<T> {
    fn clone(&self) -> (r: EventSource<T>)
        ensures
            r.id() == self.id(),
    {
        EventSource { producer: self.producer, marker: std::marker::PhantomData }
    }
}

/// The consumer side of a queue: it holds the buffered events in FIFO order.
///
/// It is not cloned: callers that consume from several places, or push from
/// several threads, share the one drain (for example behind a lock), and
/// every push and every drain then acts on the same buffer.
pub struct EventDrain<T> {
    events: Vec<T>,
    /// The producer of each buffered event, index for index.
    origins: Ghost<Seq<u64>>,
    next_producer: u64,
}

impl EventQueue {
    /// Returns a producer handle and an empty consumer.
    pub fn new<T>() -> (r: (EventSource<T>, EventDrain<T>))
        ensures
            r.1.wf(),
            r.1@ == Seq::<T>::empty(),
            r.0.id() < r.1.next_id(),
    {
        let source = EventSource { producer: 0, marker: std::marker::PhantomData };
        let drain = EventDrain { events: Vec::new(), origins: Ghost(Seq::empty()), next_producer: 1 };
        (source, drain)
    }
}

impl<T> EventSource<T> {
    /// The producer that this handle pushes as.
    pub closed spec fn id(&self) -> u64 {
        self.producer
    }

    /// Appends `event` to the tail of the queue; the queue never refuses one.
    pub fn push_event(&self, drain: &mut EventDrain<T>, event: T)
        requires
            old(drain).wf(),
        ensures
            final(drain).wf(),
            final(drain)@ == old(drain)@.push(event),
            final(drain).origins() == old(drain).origins().push(self.id()),
            final(drain).next_id() == old(drain).next_id(),
    {
        drain.events.push(event);
        drain.origins = Ghost(drain.origins@.push(self.producer));
    }
}

impl<T> View for EventDrain<T> {
    type V = Seq<T>;

    /// The buffered events, oldest first.
    closed spec fn view(&self) -> Seq<T> {
        self.events@
    }
}

impl<T> EventDrain<T> {
    /// The producer of each buffered event.
    pub closed spec fn origins(&self) -> Seq<u64> {
        self.origins@
    }

    /// The identity that the next new producer handle receives.
    pub closed spec fn next_id(&self) -> u64 {
        self.next_producer
    }

    pub closed spec fn wf(&self) -> bool {
        self.origins@.len() == self.events@.len()
    }

    /// Number of buffered events.
    pub fn len(&self) -> (r: usize)
        ensures
            r == self@.len(),
    {
        self.events.len()
    }

    /// A producer handle with an identity no earlier handle of this queue has,
    /// or `None` once identities are exhausted.
    pub fn new_source(&mut self) -> (r: Option<EventSource<T>>)
        requires
            old(self).wf(),
        ensures
            final(self).wf(),
            final(self)@ == old(self)@,
            final(self).origins() == old(self).origins(),
            old(self).next_id() < u64::MAX ==> (r matches Some(s) && s.id() == old(self).next_id()
                && final(self).next_id() == old(self).next_id() + 1),
            old(self).next_id() == u64::MAX ==> (r is None && final(self).next_id() == u64::MAX),
    {
        if self.next_producer == u64::MAX {
            None
        } else {
            let s = EventSource { producer: self.next_producer, marker: std::marker::PhantomData };
            self.next_producer = self.next_producer + 1;
            Some(s)
        }
    }

    /// Removes every buffered event and returns them in FIFO order.
    pub fn poll_events(&mut self) -> (r: Vec<T>)
        requires
            old(self).wf(),
        ensures
            final(self).wf(),
            (r@, final(self)@) == drained(old(self)@),
            final(self).next_id() == old(self).next_id(),
    {
        let mut out: Vec<T> = Vec::new();
        std::mem::swap(&mut self.events, &mut out);
        self.origins = Ghost(Seq::empty());
        out
    }
}

/// The queue contents after `events` are pushed one by one onto `queued`,
/// each push appending at the tail as `EventSource::push_event` states.
pub open spec fn queued_after<T>(queued: Seq<T>, events: Seq<T>) -> Seq<T>
    decreases events.len(),
{
    if events.len() == 0 {
        queued
    } else {
        queued_after(queued.push(events[0]), events.drop_first())
    }
}

/// What a drain of a queue holding `queued` delivers, and what the queue
/// holds afterwards: everything, in order, and nothing.
pub open spec fn drained<T>(queued: Seq<T>) -> (Seq<T>, Seq<T>) {
    (queued, Seq::empty())
}

/// The events of `pushes` that producer `p` made, in the order it made them.
pub open spec fn by_producer<T>(pushes: Seq<(u64, T)>, p: u64) -> Seq<T>
    decreases pushes.len(),
{
    if pushes.len() == 0 {
        Seq::empty()
    } else {
        let earlier = by_producer(pushes.drop_last(), p);
        if pushes.last().0 == p {
            earlier.push(pushes.last().1)
        } else {
            earlier
        }
    }
}

/// `s` merges `a` and `b`, keeping the order within each.
pub open spec fn is_interleaving<T>(s: Seq<T>, a: Seq<T>, b: Seq<T>) -> bool
    decreases s.len(),
{
    if s.len() == 0 {
        a.len() == 0 && b.len() == 0
    } else {
        (a.len() > 0 && a.last() == s.last() && is_interleaving(s.drop_last(), a.drop_last(), b))
            || (b.len() > 0 && b.last() == s.last() && is_interleaving(
            s.drop_last(),
            a,
            b.drop_last(),
        ))
    }
}

proof fn lemma_queued_after_appends<T>(queued: Seq<T>, events: Seq<T>)
    ensures
        queued_after(queued, events) == queued + events,
    decreases events.len(),
{
    if events.len() == 0 {
        assert(queued + events =~= queued);
    } else {
        lemma_queued_after_appends(queued.push(events[0]), events.drop_first());
        assert(queued.push(events[0]) + events.drop_first() =~= queued + events);
    }
}

/// Events pushed by one producer onto an empty queue are drained in the
/// order they were pushed.
pub proof fn lemma_fifo_order<T>(events: Seq<T>)
    ensures
        queued_after(Seq::<T>::empty(), events) == events,
{
    lemma_queued_after_appends(Seq::<T>::empty(), events);
    assert(Seq::<T>::empty() + events =~= events);
}

/// A drain after pushes onto an empty queue delivers each pushed event
/// exactly as often as it was pushed, and a second drain right after it
/// delivers nothing.
pub proof fn lemma_no_loss_no_duplication<T>(events: Seq<T>)
    ensures
        drained(queued_after(Seq::<T>::empty(), events)).0.to_multiset() == events.to_multiset(),
        drained(drained(queued_after(Seq::<T>::empty(), events)).1).0 == Seq::<T>::empty(),
{
    lemma_fifo_order(events);
}

/// When two producers push onto an empty queue, the drained sequence is an
/// interleaving of what each pushed, each producer's own order kept.
/// `pushes` lists the pushes in the order they took effect, each labelled
/// `a` or `b` by the handle that made it; the labels belong to this statement
/// alone, so it holds for two clones of one handle as for two handles from
/// `new_source`.
pub proof fn lemma_producer_order_kept<T>(pushes: Seq<(u64, T)>, a: u64, b: u64)
    requires
        a != b,
        forall|i: int| 0 <= i < pushes.len() ==> #[trigger] pushes[i].0 == a || pushes[i].0 == b,
    ensures
        is_interleaving(
            queued_after(Seq::<T>::empty(), pushes.map_values(|x: (u64, T)| x.1)),
            by_producer(pushes, a),
            by_producer(pushes, b),
        ),
    decreases pushes.len(),
{
    let events = pushes.map_values(|x: (u64, T)| x.1);
    lemma_fifo_order(events);
    if pushes.len() > 0 {
        let earlier = pushes.drop_last();
        assert forall|i: int| 0 <= i < earlier.len() implies #[trigger] earlier[i].0 == a
            || earlier[i].0 == b by {
            assert(i < pushes.len());
            assert(earlier[i] == pushes[i]);
        }
        lemma_producer_order_kept(earlier, a, b);
        let earlier_events = earlier.map_values(|x: (u64, T)| x.1);
        lemma_fifo_order(earlier_events);
        assert(events.drop_last() =~= earlier_events);
        let last = pushes.last();
        assert(events.last() == last.1);
        assert(last.0 == a || last.0 == b) by {
            assert(last == pushes[pushes.len() - 1]);
        }
        let sa = by_producer(pushes, a);
        let sb = by_producer(pushes, b);
        if last.0 == a {
            assert(sa.drop_last() =~= by_producer(earlier, a));
            assert(sb == by_producer(earlier, b));
        } else {
            assert(sb.drop_last() =~= by_producer(earlier, b));
            assert(sa == by_producer(earlier, a));
        }
    } else {
        assert(events.len() == 0);
    }
}

} // verus!

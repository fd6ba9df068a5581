//! Clipboard decisions: local sources per seat and mime-type negotiation.
use vstd::prelude::*;

verus! {

/// Some entry of `offered` is the mime type `m`.
pub open spec fn is_offered(offered: Seq<String>, m: String) -> bool {
    exists|j: int| 0 <= j < offered.len() && (#[trigger] offered[j])@ == m@
}

/// The mime type to ask for: the first of `local` (the client's preference
/// order) that `offered` also lists, by its index in `local`.
pub open spec fn negotiated(local: Seq<String>, offered: Seq<String>) -> Option<int> {
    if exists|i: int| 0 <= i < local.len() && is_offered(offered, #[trigger] local[i]) {
        Some(
            choose|i: int|
                0 <= i < local.len() && is_offered(offered, #[trigger] local[i]) && forall|k: int|
                    0 <= k < i ==> !is_offered(offered, #[trigger] local[k]),
        )
    } else {
        None
    }
}

fn offered_contains(offered: &Vec<String>, m: &String) -> (r: bool)
    ensures
        r == is_offered(offered@, *m),
{
    let n = offered.len();
    let mut j: usize = 0;
    while j < n
        invariant
            n == offered@.len(),
            0 <= j <= n,
            forall|k: int| 0 <= k < j ==> (#[trigger] offered@[k])@ != m@,
        decreases n - j,
    {
        if offered[j] == *m {
            return true;
        }
        j = j + 1;
    }
    false
}

/// Picks the mime type to receive: the index in `local` of the first local
/// type that `offered` lists too, so local order wins ties.
pub fn negotiate_mime(local: &Vec<String>, offered: &Vec<String>) -> (r: Option<usize>)
    ensures
        r matches Some(i) ==> i < local@.len() && negotiated(local@, offered@) == Some(i as int),
        r is None ==> negotiated(local@, offered@) is None,
{
    let n = local.len();
    let mut i: usize = 0;
    while i < n
        invariant
            n == local@.len(),
            0 <= i <= n,
            forall|k: int| 0 <= k < i ==> !is_offered(offered@, #[trigger] local@[k]),
        decreases n - i,
    {
        if offered_contains(offered, &local[i]) {
            proof {
                let ii = i as int;
                assert(0 <= ii < local@.len() && is_offered(offered@, local@[ii]));
                let c = choose|c: int|
                    0 <= c < local@.len() && is_offered(offered@, #[trigger] local@[c]) && forall|k: int|
                        0 <= k < c ==> !is_offered(offered@, #[trigger] local@[k]);
                if c < ii {
                    assert(!is_offered(offered@, local@[c]));
                }
                if ii < c {
                    assert(!is_offered(offered@, local@[ii]));
                }
            }
            return Some(i);
        }
        i = i + 1;
    }
    None
}

/// What a clipboard read turns into.
#[derive(Debug)]
pub enum ClipboardRead {
    /// The seat's selection is this client's own: serve it locally
    Local { seat_id: u32, mime_type: String },
    /// Receive the selection offer in this mime type
    Receive { seat_id: u32, mime_type: String },
    /// Nothing to read
    Nothing,
}

/// A data source this client set as the selection of a seat.
#[derive(Clone, Copy, Debug, PartialEq, Eq, Structural)]
pub struct LocalSource {
    /// The seat
    pub seat_id: u32,
    /// Object id of the data source
    pub source_id: u32,
}

/// Clipboard abstraction: the local sources not yet cancelled, and the mime
/// types the client offers and accepts, preferred first.
pub struct Clipboard {
    mime_types: Vec<String>,
    data_sources: Vec<LocalSource>,
}

/// Some local source of `sources` belongs to seat `seat_id`.
pub open spec fn has_local(sources: Seq<LocalSource>, seat_id: u32) -> bool {
    exists|i: int| 0 <= i < sources.len() && (#[trigger] sources[i]).seat_id == seat_id
}

/// `sources` without the entries of data source `source_id`.
pub open spec fn without_source(sources: Seq<LocalSource>, source_id: u32) -> Seq<LocalSource>
    decreases sources.len(),
{
    if sources.len() == 0 {
        Seq::empty()
    } else {
        let rest = without_source(sources.drop_last(), source_id);
        if sources.last().source_id == source_id {
            rest
        } else {
            rest.push(sources.last())
        }
    }
}

impl Clipboard {
    /// The client's mime types, preferred first.
    pub closed spec fn mime_spec(&self) -> Seq<String> {
        self.mime_types@
    }

    /// The local sources not yet cancelled, oldest first.
    pub closed spec fn sources(&self) -> Seq<LocalSource> {
        self.data_sources@
    }

    /// A clipboard with no local source.
    pub fn new(mime_types: Vec<String>) -> (r: Self)
        ensures
            r.mime_spec() == mime_types@,
            r.sources() == Seq::<LocalSource>::empty(),
    {
        Clipboard { mime_types, data_sources: Vec::new() }
    }

    /// The client set data source `source_id` as the selection of seat `seat_id`.
    pub fn set(&mut self, seat_id: u32, source_id: u32)
        ensures
            final(self).mime_spec() == old(self).mime_spec(),
            final(self).sources() == old(self).sources().push(LocalSource { seat_id, source_id }),
    {
        self.data_sources.push(LocalSource { seat_id, source_id });
    }

    /// The compositor cancelled data source `source_id`: it is forgotten.
    pub fn cancelled(&mut self, source_id: u32)
        ensures
            final(self).mime_spec() == old(self).mime_spec(),
            final(self).sources() == without_source(old(self).sources(), source_id),
    {
        let n = self.data_sources.len();
        let mut kept: Vec<LocalSource> = Vec::new();
        let mut i: usize = 0;
        while i < n
            invariant
                n == self.data_sources@.len(),
                0 <= i <= n,
                kept@ == without_source(self.data_sources@.subrange(0, i as int), source_id),
            decreases n - i,
        {
            proof {
                let pre = self.data_sources@.subrange(0, i as int + 1);
                assert(pre.drop_last() =~= self.data_sources@.subrange(0, i as int));
            }
            let s = self.data_sources[i];
            if s.source_id != source_id {
                kept.push(s);
            }
            i = i + 1;
        }
        assert(self.data_sources@.subrange(0, n as int) =~= self.data_sources@);
        self.data_sources = kept;
    }

    /// Whether seat `seat_id` has a local source.
    fn has_local_source(&self, seat_id: u32) -> (r: bool)
        ensures
            r == has_local(self.sources(), seat_id),
    {
        let n = self.data_sources.len();
        let mut i: usize = 0;
        while i < n
            invariant
                n == self.data_sources@.len(),
                0 <= i <= n,
                forall|k: int| 0 <= k < i ==> (#[trigger] self.data_sources@[k]).seat_id != seat_id,
            decreases n - i,
        {
            if self.data_sources[i].seat_id == seat_id {
                return true;
            }
            i = i + 1;
        }
        false
    }

    /// Decides a clipboard read on seat `seat_id`. When the seat's selection
    /// is a local source it is read locally, in the first mime type. Else the
    /// selection offer, with mime types `offered` (`None` when there is no
    /// selection), is received in the negotiated type, if there is one.
    pub fn get(&self, seat_id: u32, offered: Option<&Vec<String>>) -> (r: ClipboardRead)
        ensures
            has_local(self.sources(), seat_id) && self.mime_spec().len() > 0 ==> r == (ClipboardRead::Local {
                seat_id,
                mime_type: self.mime_spec()[0],
            }),
            has_local(self.sources(), seat_id) && self.mime_spec().len() == 0 ==> r is Nothing,
            !has_local(self.sources(), seat_id) ==> match offered {
                None => r is Nothing,
                Some(o) => match negotiated(self.mime_spec(), o@) {
                    Some(i) => r == (ClipboardRead::Receive { seat_id, mime_type: self.mime_spec()[i] }),
                    None => r is Nothing,
                },
            },
    {
        if self.has_local_source(seat_id) {
            if self.mime_types.len() == 0 {
                return ClipboardRead::Nothing;
            }
            return ClipboardRead::Local { seat_id, mime_type: self.mime_types[0].clone() };
        }
        match offered {
            None => ClipboardRead::Nothing,
            Some(o) => match negotiate_mime(&self.mime_types, o) {
                Some(i) => ClipboardRead::Receive { seat_id, mime_type: self.mime_types[i].clone() },
                None => ClipboardRead::Nothing,
            },
        }
    }
}

/// Events of a data source this client offers. The pipe of a send request
/// stays with the caller, who writes the data into it.
#[derive(Debug)]
pub enum DataSourceEvent {
    /// A target accepts this mime type, or none
    Target { mime_type: Option<String> },
    /// A target asks for the data in this mime type
    Send { mime_type: String },
    /// The drag'n'drop action the compositor selected, as protocol bits
    Action { action: u32 },
    /// The source is no longer in use: it was replaced or the drag failed
    Cancelled,
    /// The drop was performed
    Dropped,
    /// The drag'n'drop finished
    Finished,
}

impl DataSourceEvent {
    /// Whether the source is to be destroyed after this event: it is once it
    /// was cancelled or its drag'n'drop finished.
    pub fn destroys_source(&self) -> (r: bool)
        ensures
            r == (*self is Cancelled || *self is Finished),
    {
        match self {
            DataSourceEvent::Cancelled => true,
            DataSourceEvent::Finished => true,
            _ => false,
        }
    }
}

/// A target asks for the clipboard content of seat `seat_id` in `mime_type`.
#[derive(Debug)]
pub struct ClipboardServe {
    pub seat_id: u32,
    pub mime_type: String,
}

/// The seat of the first local source with id `source_id`, if any.
pub open spec fn source_seat(sources: Seq<LocalSource>, source_id: u32) -> Option<u32>
    decreases sources.len(),
{
    if sources.len() == 0 {
        None
    } else {
        match source_seat(sources.drop_last(), source_id) {
            Some(s) => Some(s),
            None => if sources.last().source_id == source_id {
                Some(sources.last().seat_id)
            } else {
                None
            },
        }
    }
}

proof fn lemma_source_seat_extend(sources: Seq<LocalSource>, source_id: u32, k: int)
    requires
        0 <= k < sources.len(),
        source_seat(sources.subrange(0, k + 1), source_id) is Some,
    ensures
        source_seat(sources, source_id) == source_seat(sources.subrange(0, k + 1), source_id),
    decreases sources.len() - k,
{
    if k + 1 < sources.len() {
        let pre = sources.drop_last();
        assert(pre.subrange(0, k + 1) =~= sources.subrange(0, k + 1));
        lemma_source_seat_extend(pre, source_id, k);
    } else {
        assert(sources.subrange(0, k + 1) =~= sources);
    }
}

impl Clipboard {
    /// The seat of local source `source_id`, if it is tracked.
    fn seat_of_source(&self, source_id: u32) -> (r: Option<u32>)
        ensures
            r == source_seat(self.sources(), source_id),
    {
        let n = self.data_sources.len();
        let mut i: usize = 0;
        while i < n
            invariant
                n == self.data_sources@.len(),
                0 <= i <= n,
                source_seat(self.data_sources@.subrange(0, i as int), source_id) is None,
            decreases n - i,
        {
            proof {
                let pre = self.data_sources@.subrange(0, i as int + 1);
                assert(pre.drop_last() =~= self.data_sources@.subrange(0, i as int));
            }
            let s = self.data_sources[i];
            if s.source_id == source_id {
                proof {
                    lemma_source_seat_extend(self.data_sources@, source_id, i as int);
                }
                return Some(s.seat_id);
            }
            i = i + 1;
        }
        assert(self.data_sources@.subrange(0, n as int) =~= self.data_sources@);
        None
    }

    /// Handles an event of local source `source_id`. A send request on a
    /// tracked source asks to serve its seat's clipboard in the requested
    /// type; a cancel forgets the source; the other events change nothing.
    pub fn source_event(&mut self, source_id: u32, event: DataSourceEvent) -> (r: Option<ClipboardServe>)
        ensures
            final(self).mime_spec() == old(self).mime_spec(),
            event is Cancelled ==> final(self).sources() == without_source(old(self).sources(), source_id),
            !(event is Cancelled) ==> final(self).sources() == old(self).sources(),
            match event {
                DataSourceEvent::Send { mime_type } => match source_seat(old(self).sources(), source_id) {
                    Some(seat_id) => r matches Some(c) && c.seat_id == seat_id && c.mime_type == mime_type,
                    None => r is None,
                },
                _ => r is None,
            },
    {
        match event {
            DataSourceEvent::Send { mime_type } => match self.seat_of_source(source_id) {
                Some(seat_id) => Some(ClipboardServe { seat_id, mime_type }),
                None => None,
            },
            DataSourceEvent::Cancelled => {
                self.cancelled(source_id);
                None
            },
            _ => None,
        }
    }
}

} // verus!

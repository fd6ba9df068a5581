//! Cursor theme sizing and the decisions of the cursor manager.
use vstd::prelude::*;
use crate::event_queue::EventDrain;
use crate::output::{Output, OutputManager};

verus! {

/// The events that a `CursorManager` needs to know about
#[derive(Clone, Copy, Debug, PartialEq, Eq, Structural)]
pub enum CursorManagerEvent {
    /// The scale factor of output `output` changed to `factor`
    OutputScale { output: u32, factor: u32 },
    /// Output `output` was disconnected
    OutputLeave { output: u32 },
}

/// Pixel size of the cursor theme loaded for `scale_factor`: a line through
/// 16 px at scale 1 and 48 px at scale 2.
pub open spec fn theme_size(scale_factor: u32) -> int {
    32 * scale_factor - 16
}

/// The pixel size to load a cursor theme at for `scale_factor`, or `None`
/// when the scale factor is 0 or the size does not fit in 32 bits.
pub fn cursor_theme_size(scale_factor: u32) -> (r: Option<u32>)
    ensures
        (1 <= scale_factor && theme_size(scale_factor) <= u32::MAX) ==> r == Some(theme_size(scale_factor) as u32),
        !(1 <= scale_factor && theme_size(scale_factor) <= u32::MAX) ==> r is None,
{
    if scale_factor == 0 || scale_factor > (u32::MAX - 16) / 32 + 1 {
        return None;
    }
    proof {
        assert(32 * scale_factor <= u32::MAX + 16) by (nonlinear_arith)
            requires scale_factor <= (u32::MAX - 16) / 32 + 1;
    }
    if 32 * (scale_factor as u64) - 16 > u32::MAX as u64 {
        return None;
    }
    Some((32 * (scale_factor as u64) - 16) as u32)
}

/// The scale factor of the cursor theme for the outputs of the registry: the
/// largest of their scale factors, and at least 1.
pub open spec fn registry_scale(outputs: Seq<Output>) -> u32
    decreases outputs.len(),
{
    if outputs.len() == 0 {
        1
    } else {
        let rest = registry_scale(outputs.drop_last());
        if outputs.last().data.scale_factor > rest {
            outputs.last().data.scale_factor
        } else {
            rest
        }
    }
}

/// Name of the cursor shown when none is asked for.
pub open spec fn default_cursor_name() -> Seq<char> {
    seq!['l', 'e', 'f', 't', '_', 'p', 't', 'r']
}

/// The cursor name to show: `name`, or the default one.
pub fn cursor_name_or_default(name: Option<String>) -> (r: String)
    ensures
        name matches Some(n) ==> r == n,
        name is None ==> r@ == default_cursor_name(),
{
    match name {
        Some(n) => n,
        None => {
            let d = String::from_str("left_ptr");
            proof {
                reveal_strlit("left_ptr");
                assert(d@ =~= default_cursor_name());
            }
            d
        },
    }
}

/// State of one cursor
pub struct Cursor {
    /// Protocol id of the pointer that last entered a surface, if any
    pub pointer: Option<u32>,
    /// Serial of that enter event
    pub enter_serial: u32,
    /// Name of the cursor image
    pub cursor_name: String,
    /// Hotspot of the cursor image
    pub hotspot: (i32, i32),
}

impl Cursor {
    /// A cursor showing `cursor_name` (the default one if `None`), on no
    /// pointer yet.
    pub fn new(cursor_name: Option<String>) -> (r: Self)
        ensures
            r.pointer is None,
            r.enter_serial == 0,
            r.hotspot == (0i32, 0i32),
            cursor_name matches Some(n) ==> r.cursor_name == n,
            cursor_name is None ==> r.cursor_name@ == default_cursor_name(),
    {
        Cursor { pointer: None, enter_serial: 0, cursor_name: cursor_name_or_default(cursor_name), hotspot: (0, 0) }
    }

    /// Pointer `pointer` entered a surface with serial `serial`; the cursor
    /// surface is then to be set on it.
    pub fn enter_surface(&mut self, pointer: u32, serial: u32)
        ensures
            final(self).pointer == Some(pointer),
            final(self).enter_serial == serial,
            final(self).cursor_name == old(self).cursor_name,
            final(self).hotspot == old(self).hotspot,
    {
        self.pointer = Some(pointer);
        self.enter_serial = serial;
    }

    /// Changes the cursor image to `cursor_name` (the default one if `None`).
    /// Returns whether the image is to be loaded again, which is the case
    /// when the name changed.
    pub fn change_cursor(&mut self, cursor_name: Option<String>) -> (reload: bool)
        ensures
            cursor_name matches Some(n) ==> final(self).cursor_name == n,
            cursor_name is None ==> final(self).cursor_name@ == default_cursor_name(),
            reload == (final(self).cursor_name@ != old(self).cursor_name@),
            final(self).pointer == old(self).pointer,
            final(self).enter_serial == old(self).enter_serial,
            final(self).hotspot == old(self).hotspot,
    {
        let new_name = cursor_name_or_default(cursor_name);
        let reload = !(new_name == self.cursor_name);
        self.cursor_name = new_name;
        reload
    }

    /// Records the hotspot of the loaded image.
    pub fn set_hotspot(&mut self, hx: i32, hy: i32)
        ensures
            final(self).hotspot == (hx, hy),
            final(self).pointer == old(self).pointer,
            final(self).enter_serial == old(self).enter_serial,
            final(self).cursor_name == old(self).cursor_name,
    {
        self.hotspot = (hx, hy);
    }
}

/// Keeps the cursor theme's scale factor in line with the outputs, and
/// tracks the cursors that use the theme, each under an identity it hands out.
pub struct CursorManager {
    scale_factor: u32,
    theme_name: Option<String>,
    cursors: Vec<(u64, Cursor)>,
    next_cursor: u64,
}

/// `cursors` without the one of identity `id`.
pub open spec fn without_cursor(cursors: Seq<(u64, Cursor)>, id: u64) -> Seq<(u64, Cursor)>
    decreases cursors.len(),
{
    if cursors.len() == 0 {
        Seq::empty()
    } else {
        let rest = without_cursor(cursors.drop_last(), id);
        if cursors.last().0 == id {
            rest
        } else {
            rest.push(cursors.last())
        }
    }
}

impl CursorManager {
    /// The scale factor the theme was last loaded with.
    pub closed spec fn scale(&self) -> u32 {
        self.scale_factor
    }

    /// Name of the cursor theme; the system's default theme if `None`.
    pub closed spec fn theme(&self) -> Option<String> {
        self.theme_name
    }

    /// Name of the cursor theme; the system's default theme if `None`.
    pub fn theme_name(&self) -> (r: &Option<String>)
        ensures
            *r == self.theme(),
    {
        &self.theme_name
    }

    /// The tracked cursors with their identities, oldest first.
    pub closed spec fn cursors_spec(&self) -> Seq<(u64, Cursor)> {
        self.cursors@
    }

    /// Every tracked identity is below the next one handed out.
    pub closed spec fn wf(&self) -> bool {
        forall|i: int| 0 <= i < self.cursors@.len() ==> (#[trigger] self.cursors@[i]).0 < self.next_cursor
    }

    /// The identity the next new cursor receives.
    pub closed spec fn next_cursor_id(&self) -> u64 {
        self.next_cursor
    }

    /// A manager at theme scale factor 1 (the scale the theme is to be
    /// loaded at before any output reports one), with no cursors.
    pub fn new(theme_name: Option<String>) -> (r: Self)
        ensures
            r.wf(),
            r.scale() == 1,
            r.theme() == theme_name,
            r.cursors_spec().len() == 0,
            r.next_cursor_id() == 0,
    {
        CursorManager { scale_factor: 1, theme_name, cursors: Vec::new(), next_cursor: 0 }
    }

    /// The tracked cursors with their identities, oldest first.
    pub fn cursors(&self) -> (r: &Vec<(u64, Cursor)>)
        ensures
            r@ == self.cursors_spec(),
    {
        &self.cursors
    }

    /// Starts tracking a new cursor showing `cursor_name` (the default one if
    /// `None`); returns its identity, or `None` once identities are exhausted.
    pub fn new_cursor(&mut self, cursor_name: Option<String>) -> (r: Option<u64>)
        requires
            old(self).wf(),
        ensures
            final(self).wf(),
            final(self).scale() == old(self).scale(),
            final(self).theme() == old(self).theme(),
            old(self).next_cursor_id() < u64::MAX <==> r is Some,
            r is None ==> final(self).cursors_spec() == old(self).cursors_spec()
                && final(self).next_cursor_id() == old(self).next_cursor_id(),
            r matches Some(id) ==> id == old(self).next_cursor_id() && final(self).next_cursor_id() == id + 1,
            r matches Some(id) ==> final(self).cursors_spec().len() == old(self).cursors_spec().len() + 1
                && final(self).cursors_spec().drop_last() == old(self).cursors_spec()
                && final(self).cursors_spec().last().0 == id
                && (forall|i: int| 0 <= i < old(self).cursors_spec().len() ==> #[trigger] old(self).cursors_spec()[i].0 != id)
                && final(self).cursors_spec().last().1.pointer is None
                && (cursor_name matches Some(n) ==> final(self).cursors_spec().last().1.cursor_name == n)
                && (cursor_name is None ==> final(self).cursors_spec().last().1.cursor_name@ == default_cursor_name()),
    {
        if self.next_cursor == u64::MAX {
            return None;
        }
        let id = self.next_cursor;
        self.cursors.push((id, Cursor::new(cursor_name)));
        self.next_cursor = id + 1;
        proof {
            assert(self.cursors@.drop_last() =~= old(self).cursors@);
            assert forall|i: int| 0 <= i < self.cursors@.len() implies (#[trigger] self.cursors@[i]).0 < self.next_cursor by {
                if i < old(self).cursors@.len() {
                    assert(self.cursors@[i] == old(self).cursors@[i]);
                }
            }
            assert forall|i: int| 0 <= i < old(self).cursors@.len() implies #[trigger] old(self).cursors@[i].0 != id by {
                assert(old(self).cursors@[i].0 < old(self).next_cursor);
            }
        }
        Some(id)
    }

    /// Stops tracking cursor `id`; an unknown identity changes nothing.
    pub fn remove_cursor(&mut self, id: u64)
        requires
            old(self).wf(),
        ensures
            final(self).wf(),
            final(self).scale() == old(self).scale(),
            final(self).theme() == old(self).theme(),
            final(self).next_cursor_id() == old(self).next_cursor_id(),
            final(self).cursors_spec() == without_cursor(old(self).cursors_spec(), id),
    {
        let mut rest: Vec<(u64, Cursor)> = Vec::new();
        std::mem::swap(&mut self.cursors, &mut rest);
        let ghost all = rest@;
        let n = rest.len();
        let mut k: usize = 0;
        assert(rest@ =~= all.subrange(0, n as int));
        assert(self.cursors@ =~= without_cursor(all.subrange(0, 0), id));
        while k < n
            invariant
                n == all.len(),
                all == old(self).cursors@,
                0 <= k <= n,
                rest@ == all.subrange(k as int, n as int),
                self.cursors@ == without_cursor(all.subrange(0, k as int), id),
                self.next_cursor == old(self).next_cursor,
                self.scale_factor == old(self).scale_factor,
                self.theme_name == old(self).theme_name,
            decreases n - k,
        {
            proof {
                let pre = all.subrange(0, k as int + 1);
                assert(pre.drop_last() =~= all.subrange(0, k as int));
                assert(rest@[0] == all[k as int]);
            }
            let c = rest.remove(0);
            assert(rest@ =~= all.subrange(k as int + 1, n as int));
            if c.0 != id {
                self.cursors.push(c);
            }
            k = k + 1;
        }
        proof {
            assert(all.subrange(0, n as int) =~= all);
            lemma_without_cursor_ids(all, id, old(self).next_cursor);
        }
    }

    /// The scale factor the theme was last loaded with.
    pub fn scale_factor(&self) -> (r: u32)
        ensures
            r == self.scale(),
    {
        self.scale_factor
    }

    /// Drains the manager's queue and recomputes the theme's scale factor from
    /// all registered outputs. Returns the new scale factor when it changed,
    /// in which case the theme and every cursor are to be loaded again.
    pub fn handle_events(&mut self, drain: &mut EventDrain<CursorManagerEvent>, registry: &OutputManager) -> (r:
        Option<u32>)
        requires
            old(self).wf(),
            old(drain).wf(),
        ensures
            final(self).wf(),
            final(drain).wf(),
            final(drain)@.len() == 0,
            final(self).scale() == registry_scale(registry@),
            final(self).theme() == old(self).theme(),
            final(self).next_cursor_id() == old(self).next_cursor_id(),
            final(self).cursors_spec() == old(self).cursors_spec(),
            r == if registry_scale(registry@) != old(self).scale() {
                Some(registry_scale(registry@))
            } else {
                None
            },
    {
        let _events = drain.poll_events();
        let scale = registry.max_scale_factor();
        if scale != self.scale_factor {
            self.scale_factor = scale;
            Some(scale)
        } else {
            None
        }
    }

    /// Pointer `pointer` entered a surface with serial `serial` while showing
    /// cursor `id`. Returns `false` for an unknown identity, which changes
    /// nothing.
    pub fn cursor_entered(&mut self, id: u64, pointer: u32, serial: u32) -> (r: bool)
        requires
            old(self).wf(),
        ensures
            final(self).wf(),
            final(self).scale() == old(self).scale(),
            final(self).theme() == old(self).theme(),
            final(self).next_cursor_id() == old(self).next_cursor_id(),
            r == exists|i: int| 0 <= i < old(self).cursors_spec().len() && #[trigger] old(self).cursors_spec()[i].0 == id,
            entered_upto(old(self).cursors_spec(), final(self).cursors_spec(), id, pointer, serial, old(self).cursors_spec().len() as int),
    {
        let n = self.cursors.len();
        let mut i: usize = 0;
        let mut found = false;
        while i < n
            invariant
                n == old(self).cursors@.len(),
                0 <= i <= n,
                self.next_cursor == old(self).next_cursor,
                self.scale_factor == old(self).scale_factor,
                self.theme_name == old(self).theme_name,
                found == exists|j: int| 0 <= j < i && #[trigger] old(self).cursors@[j].0 == id,
                entered_upto(old(self).cursors@, self.cursors@, id, pointer, serial, i as int),
            decreases n - i,
        {
            let ghost before = self.cursors@;
            proof {
                assert(self.cursors@[i as int] == old(self).cursors@[i as int]);
            }
            if self.cursors[i].0 == id {
                self.cursors[i].1.enter_surface(pointer, serial);
                found = true;
            }
            proof {
                assert forall|j: int| 0 <= j < n && j != i implies #[trigger] self.cursors@[j] == before[j] by {}
                if old(self).cursors@[i as int].0 == id {
                    assert(exists|j: int| 0 <= j < i + 1 && #[trigger] old(self).cursors@[j].0 == id);
                } else if found {
                    let j = choose|j: int| 0 <= j < i && #[trigger] old(self).cursors@[j].0 == id;
                    assert(0 <= j < i + 1 && old(self).cursors@[j].0 == id);
                } else {
                    assert forall|j: int| 0 <= j < i + 1 implies #[trigger] old(self).cursors@[j].0 != id by {
                        if j < i {
                            if old(self).cursors@[j].0 == id {
                                assert(exists|k: int| 0 <= k < i && #[trigger] old(self).cursors@[k].0 == id);
                            }
                        }
                    }
                }
            }
            i = i + 1;
        }
        proof {
            assert forall|j: int| 0 <= j < self.cursors@.len() implies (#[trigger] self.cursors@[j]).0 < self.next_cursor by {
                assert(self.cursors@[j].0 == old(self).cursors@[j].0);
                assert(old(self).cursors@[j].0 < old(self).next_cursor);
            }
            if found {
                let j = choose|j: int| 0 <= j < n && #[trigger] old(self).cursors@[j].0 == id;
                assert(old(self).cursors_spec()[j].0 == id);
            } else {
                assert forall|j: int| 0 <= j < n implies #[trigger] old(self).cursors_spec()[j].0 != id by {
                    if old(self).cursors@[j].0 == id {
                        assert(exists|k: int| 0 <= k < n && #[trigger] old(self).cursors@[k].0 == id);
                    }
                }
            }
        }
        found
    }
}

/// `after` is `before` with the enter recorded on cursor `id` among the
/// first `k` entries, and the rest unchanged.
pub open spec fn entered_upto(
    before: Seq<(u64, Cursor)>,
    after: Seq<(u64, Cursor)>,
    id: u64,
    pointer: u32,
    serial: u32,
    k: int,
) -> bool {
    &&& after.len() == before.len()
    &&& forall|j: int|
        0 <= j < before.len() ==> {
            let (b, a) = (#[trigger] before[j], after[j]);
            &&& a.0 == b.0
            &&& (j < k && b.0 == id) ==> (a.1.pointer == Some(pointer) && a.1.enter_serial == serial
                && a.1.cursor_name == b.1.cursor_name && a.1.hotspot == b.1.hotspot)
            &&& !(j < k && b.0 == id) ==> a == b
        }
}

proof fn lemma_without_cursor_ids(all: Seq<(u64, Cursor)>, id: u64, bound: u64)
    requires
        forall|i: int| 0 <= i < all.len() ==> (#[trigger] all[i]).0 < bound,
    ensures
        forall|i: int|
            0 <= i < without_cursor(all, id).len() ==> (#[trigger] without_cursor(all, id)[i]).0 < bound,
    decreases all.len(),
{
    if all.len() > 0 {
        let pre = all.drop_last();
        assert forall|i: int| 0 <= i < pre.len() implies (#[trigger] pre[i]).0 < bound by {
            assert(pre[i] == all[i]);
        }
        lemma_without_cursor_ids(pre, id, bound);
        assert(all.last() == all[all.len() - 1]);
        let rest = without_cursor(pre, id);
        let w = without_cursor(all, id);
        assert forall|i: int| 0 <= i < w.len() implies (#[trigger] w[i]).0 < bound by {
            if i < rest.len() {
                assert(w[i] == rest[i]);
            } else {
                assert(w[i] == all.last());
            }
        }
    }
}

} // verus!

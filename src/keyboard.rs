//! Keyboard state kept beside the keyboard-layout engine, and key repeat.
use vstd::prelude::*;

verus! {

/// State of a key
#[derive(Clone, Copy, Debug, PartialEq, Eq, Structural)]
pub enum KeyState {
    Released,
    Pressed,
}

/// Format of a keymap that the compositor sends
#[derive(Clone, Copy, Debug, PartialEq, Eq, Structural)]
pub enum KeymapFormat {
    /// No keymap; the client must interpret raw key codes itself
    NoKeymap,
    /// A text keymap of the XKB v1 format
    XkbV1,
}

/// Outcome of feeding a key symbol to the compose engine
#[derive(Clone, Copy, Debug, PartialEq, Eq, Structural)]
pub enum FeedResult {
    /// The symbol does not take part in composing
    Ignored,
    /// The symbol was taken by the compose state machine
    Accepted,
}

/// Status of the compose engine after a feed
#[derive(Clone, Copy, Debug, PartialEq, Eq, Structural)]
pub enum ComposeStatus {
    /// No sequence in progress
    Nothing,
    /// A sequence is in progress
    Composing,
    /// A sequence completed
    Composed,
    /// A sequence was cancelled
    Cancelled,
}

/// Represents the current state of the keyboard modifiers
///
/// Each field is `true` if that modifier is active.
#[derive(Clone, Copy, Debug, Default, PartialEq, Eq, Structural)]
pub struct ModifiersState {
    /// The "control" key
    pub ctrl: bool,
    /// The "alt" key
    pub alt: bool,
    /// The "shift" key
    pub shift: bool,
    /// The "Caps lock" key
    pub caps_lock: bool,
    /// The "logo" key, also known as the "windows" key
    pub logo: bool,
    /// The "Num lock" key
    pub num_lock: bool,
}

/// Offset between the protocol's evdev key codes and the engine's key codes.
pub const KEYCODE_OFFSET: u32 = 8;

/// What the library records of a keyboard; the keyboard-layout engine that
/// answers symbol, text and compose queries is driven by the caller.
pub struct KeyboardState {
    keymap_size: Option<u32>,
    modifiers: ModifiersState,
}

impl KeyboardState {
    /// Size of the keymap in use, if one was accepted.
    pub closed spec fn keymap(&self) -> Option<u32> {
        self.keymap_size
    }

    /// The modifiers last reported.
    pub closed spec fn modifiers_spec(&self) -> ModifiersState {
        self.modifiers
    }

    /// A keyboard without a keymap and with no modifier active.
    pub fn new() -> (r: Self)
        ensures
            r.keymap() is None,
            r.modifiers_spec() == (ModifiersState {
                ctrl: false,
                alt: false,
                shift: false,
                caps_lock: false,
                logo: false,
                num_lock: false,
            }),
    {
        KeyboardState {
            keymap_size: None,
            modifiers: ModifiersState {
                ctrl: false,
                alt: false,
                shift: false,
                caps_lock: false,
                logo: false,
                num_lock: false,
            },
        }
    }

    /// Records a keymap announcement; returns whether the engine is to load
    /// it, which is the case for an XKB v1 keymap only.
    pub fn load_keymap(&mut self, format: KeymapFormat, size: u32) -> (r: bool)
        ensures
            r == (format == KeymapFormat::XkbV1),
            r ==> final(self).keymap() == Some(size),
            !r ==> final(self).keymap() == old(self).keymap(),
            final(self).modifiers_spec() == old(self).modifiers_spec(),
    {
        match format {
            KeymapFormat::XkbV1 => {
                self.keymap_size = Some(size);
                true
            },
            KeymapFormat::NoKeymap => false,
        }
    }

    /// Whether a keymap was accepted.
    pub fn has_keymap(&self) -> (r: bool)
        ensures
            r == self.keymap() is Some,
    {
        self.keymap_size.is_some()
    }

    /// Records the effective modifiers that the engine computed from a
    /// modifiers event, and returns them.
    pub fn update_modifiers(&mut self, effective: ModifiersState) -> (r: ModifiersState)
        ensures
            r == effective,
            final(self).modifiers_spec() == effective,
            final(self).keymap() == old(self).keymap(),
    {
        self.modifiers = effective;
        effective
    }

    /// Records the effective modifiers of a modifiers event (as the engine
    /// computed them) and returns the event to queue.
    pub fn modifiers_event(&mut self, serial: u32, effective: ModifiersState) -> (r: KeyboardEvent)
        ensures
            r == (KeyboardEvent::Modifiers { serial, modifiers: effective }),
            final(self).modifiers_spec() == effective,
            final(self).keymap() == old(self).keymap(),
    {
        let modifiers = self.update_modifiers(effective);
        KeyboardEvent::Modifiers { serial, modifiers }
    }

    /// The event queued when the keyboard focus enters a surface with the
    /// keys `rawkeys` pressed; `keysyms` are the engine's symbols of those
    /// keys, index for index. Returns `None` when the two differ in length.
    pub fn enter_event(serial: u32, rawkeys: Vec<u32>, keysyms: Vec<u32>) -> (r: Option<KeyboardEvent>)
        ensures
            rawkeys@.len() == keysyms@.len() ==> r == Some(KeyboardEvent::Enter { serial, rawkeys, keysyms }),
            rawkeys@.len() != keysyms@.len() ==> r is None,
    {
        if rawkeys.len() == keysyms.len() {
            Some(KeyboardEvent::Enter { serial, rawkeys, keysyms })
        } else {
            None
        }
    }

    /// The modifiers last reported.
    pub fn modifiers(&self) -> (r: ModifiersState)
        ensures
            r == self.modifiers_spec(),
    {
        self.modifiers
    }

    /// The engine's key code of protocol key code `rawkey`, or `None` when it
    /// does not fit in 32 bits.
    pub fn engine_keycode(rawkey: u32) -> (r: Option<u32>)
        ensures
            rawkey as int + KEYCODE_OFFSET <= u32::MAX ==> r == Some((rawkey + KEYCODE_OFFSET) as u32),
            rawkey as int + KEYCODE_OFFSET > u32::MAX ==> r is None,
    {
        rawkey.checked_add(KEYCODE_OFFSET)
    }

    /// The text of a key as the engine gives it; an empty text means none.
    pub fn get_utf8(text: String) -> (r: Option<String>)
        ensures
            text@.len() == 0 ==> r is None,
            text@.len() > 0 ==> r == Some(text),
    {
        if text.as_str().is_empty() {
            None
        } else {
            Some(text)
        }
    }

    /// Interprets the compose engine's answer to a feed: `Err` when the
    /// symbol was ignored or no sequence is in progress, the composed text
    /// when a sequence completed, and `Ok(None)` while composing or after a
    /// cancel. `composed` is the engine's text for a completed sequence.
    pub fn compose(feed: FeedResult, status: ComposeStatus, composed: Option<String>) -> (r: Result<Option<String>, ()>)
        ensures
            feed == FeedResult::Ignored ==> r is Err,
            feed == FeedResult::Accepted ==> r == match status {
                ComposeStatus::Nothing => Err(()),
                ComposeStatus::Composed => Ok(composed),
                _ => Ok(None),
            },
    {
        match feed {
            FeedResult::Accepted => match status {
                ComposeStatus::Nothing => Err(()),
                ComposeStatus::Composed => Ok(composed),
                _ => Ok(None),
            },
            FeedResult::Ignored => Err(()),
        }
    }
}

/// Events received from a mapped keyboard
#[derive(Clone, Debug)]
pub enum KeyboardEvent {
    /// The keyboard focus has entered a surface
    Enter {
        /// serial number of the event
        serial: u32,
        /// raw values of the currently pressed keys
        rawkeys: Vec<u32>,
        /// interpreted symbols of the currently pressed keys
        keysyms: Vec<u32>,
    },
    /// The keyboard focus has left a surface
    Leave {
        /// serial number of the event
        serial: u32,
    },
    /// A key event occurred
    Key {
        /// serial number of the event
        serial: u32,
        /// time at which the keypress occurred
        time: u32,
        /// raw value of the key
        rawkey: u32,
        /// interpreted symbol of the key
        keysym: u32,
        /// new state of the key
        state: KeyState,
        /// text of the key; always `None` on release
        utf8: Option<String>,
    },
    /// Repetition information advertising
    RepeatInfo {
        /// rate (in milliseconds) at which the repetition should occur
        rate: i32,
        /// delay (in milliseconds) between a key press and the start of repetition
        delay: i32,
    },
    /// The key modifiers have changed state
    Modifiers {
        /// serial number of the event
        serial: u32,
        /// current state of the modifiers
        modifiers: ModifiersState,
    },
}

/// A key event
#[derive(Clone, Debug)]
pub struct KeyInfo {
    /// serial number of the event
    pub serial: u32,
    /// time at which the keypress occurred
    pub time: u32,
    /// raw value of the key
    pub rawkey: u32,
    /// interpreted symbol of the key
    pub keysym: u32,
    /// new state of the key
    pub state: KeyState,
    /// text of the key; always `None` on release
    pub utf8: Option<String>,
}

impl KeyInfo {
    /// The key event that this describes.
    pub fn into_event(self) -> (r: KeyboardEvent)
        ensures
            r == (KeyboardEvent::Key {
                serial: self.serial,
                time: self.time,
                rawkey: self.rawkey,
                keysym: self.keysym,
                state: self.state,
                utf8: self.utf8,
            }),
    {
        KeyboardEvent::Key {
            serial: self.serial,
            time: self.time,
            rawkey: self.rawkey,
            keysym: self.keysym,
            state: self.state,
            utf8: self.utf8,
        }
    }
}

/// The text reported for a key event: none on release; on press the composed
/// result when the compose engine gave one (`Ok`), else the key's own text.
pub fn key_text(state: KeyState, composed: Result<Option<String>, ()>, plain: Option<String>) -> (r: Option<String>)
    ensures
        state == KeyState::Released ==> r is None,
        state == KeyState::Pressed ==> r == match composed {
            Ok(c) => c,
            Err(_) => plain,
        },
{
    match state {
        KeyState::Released => None,
        KeyState::Pressed => match composed {
            Ok(c) => c,
            Err(_) => plain,
        },
    }
}

/// A repeat timer handed out by `Repeat::start`: after `delay` ms, and then
/// every `rate` ms, it asks `Repeat::is_current` and, while that holds,
/// queues the pair of `Repeat::repeat_events`.
#[derive(Clone, Debug)]
pub struct RepeatTimer {
    /// Identity of the timer
    pub id: u64,
    /// The key it repeats
    pub key: KeyInfo,
    /// Interval between repeats, in milliseconds
    pub rate: u32,
    /// Delay before the first repeat, in milliseconds
    pub delay: u32,
}

/// Keyboard repeat: at most one timer is current at any time.
pub struct Repeat {
    rate: u32,
    delay: u32,
    key_held: bool,
    active: Option<u64>,
    next_timer: u64,
}

/// A start in state `s` makes a new timer current: rate and delay are both
/// set, and timer identities are not exhausted.
pub open spec fn starts_timer(s: Repeat) -> bool {
    s.rate_spec() != 0 && s.delay_spec() != 0 && s.next_id() != u64::MAX
}

/// `after` is `before` once a new key starts repeating: any previous timer
/// stops being current, and a new one, with the next identity, becomes
/// current if `starts_timer(before)`.
pub open spec fn started(before: Repeat, after: Repeat) -> bool {
    &&& after.rate_spec() == before.rate_spec()
    &&& after.delay_spec() == before.delay_spec()
    &&& after.held()
    &&& if starts_timer(before) {
        after.current() == Some(before.next_id()) && after.next_id() == before.next_id() + 1
    } else {
        after.current() is None && after.next_id() == before.next_id()
    }
}

/// `after` is `before` once the repeat is aborted: no timer is current.
pub open spec fn aborted(before: Repeat, after: Repeat) -> bool {
    &&& after.rate_spec() == before.rate_spec()
    &&& after.delay_spec() == before.delay_spec()
    &&& !after.held()
    &&& after.current() is None
    &&& after.next_id() == before.next_id()
}

/// Timer `t` may queue events in state `s`.
pub open spec fn emits(s: Repeat, t: u64) -> bool {
    s.current() == Some(t)
}

impl Repeat {
    /// The current timer has an identity already handed out, and no timer
    /// is current unless a key is held.
    pub open spec fn wf(&self) -> bool {
        &&& (self.current() matches Some(t) ==> t < self.next_id())
        &&& (!self.held() ==> self.current() is None)
    }

    /// Interval between repeats, in milliseconds.
    pub closed spec fn rate_spec(&self) -> u32 {
        self.rate
    }

    /// Delay before the first repeat, in milliseconds.
    pub closed spec fn delay_spec(&self) -> u32 {
        self.delay
    }

    /// The timer that may queue events, if any.
    pub closed spec fn current(&self) -> Option<u64> {
        self.active
    }

    /// The identity of the next timer.
    pub closed spec fn next_id(&self) -> u64 {
        self.next_timer
    }

    /// A key is held down.
    pub closed spec fn held(&self) -> bool {
        self.key_held
    }

    /// A repeat with no rate and no delay: nothing repeats until `set_info`.
    pub fn new() -> (r: Self)
        ensures
            r.wf(),
            r.rate_spec() == 0,
            r.delay_spec() == 0,
            !r.held(),
            r.current() is None,
            r.next_id() == 0,
    {
        Repeat { rate: 0, delay: 0, key_held: false, active: None, next_timer: 0 }
    }

    /// Sets the repeat rate and delay, in milliseconds.
    pub fn set_info(&mut self, rate: u32, delay: u32)
        ensures
            final(self).wf() == old(self).wf(),
            final(self).rate_spec() == rate,
            final(self).delay_spec() == delay,
            final(self).held() == old(self).held(),
            final(self).current() == old(self).current(),
            final(self).next_id() == old(self).next_id(),
    {
        self.rate = rate;
        self.delay = delay;
    }

    /// Starts repeating `key`: the previous timer, if any, stops being
    /// current first. Returns the new timer to run, if repeat is enabled.
    pub fn start(&mut self, key: KeyInfo) -> (r: Option<RepeatTimer>)
        requires
            old(self).wf(),
        ensures
            final(self).wf(),
            started(*old(self), *final(self)),
            match final(self).current() {
                Some(t) => r matches Some(timer) && timer.id == t && timer.key == key && timer.rate
                    == old(self).rate_spec() && timer.delay == old(self).delay_spec(),
                None => r is None,
            },
    {
        self.abort();
        self.key_held = true;
        if self.rate == 0 || self.delay == 0 || self.next_timer == u64::MAX {
            return None;
        }
        let id = self.next_timer;
        self.active = Some(id);
        self.next_timer = id + 1;
        Some(RepeatTimer { id, key, rate: self.rate, delay: self.delay })
    }

    /// Stops the current timer, if a key is held; with no key held nothing
    /// changes.
    pub fn abort(&mut self)
        requires
            old(self).wf(),
        ensures
            final(self).wf(),
            aborted(*old(self), *final(self)),
            !old(self).held() ==> *final(self) == *old(self),
    {
        if self.key_held {
            self.key_held = false;
            self.active = None;
        }
    }

    /// Decides on a key event: every press and every release aborts the
    /// running repeat, and a press of a repeating key then starts its own. Returns the event to queue and the timer
    /// to run, if any.
    pub fn on_key(&mut self, key: KeyInfo, repeats: bool) -> (r: (KeyboardEvent, Option<RepeatTimer>))
        requires
            old(self).wf(),
        ensures
            final(self).wf(),
            r.0 == (KeyboardEvent::Key {
                serial: key.serial,
                time: key.time,
                rawkey: key.rawkey,
                keysym: key.keysym,
                state: key.state,
                utf8: key.utf8,
            }),
            key.state == KeyState::Pressed && repeats ==> started(*old(self), *final(self)) && match final(self).current() {
                Some(t) => r.1 matches Some(timer) && timer.id == t && timer.key == key,
                None => r.1 is None,
            },
            key.state == KeyState::Pressed && !repeats ==> aborted(*old(self), *final(self)) && r.1 is None,
            key.state == KeyState::Released ==> aborted(*old(self), *final(self)) && r.1 is None,
    {
        let event = KeyboardEvent::Key {
            serial: key.serial,
            time: key.time,
            rawkey: key.rawkey,
            keysym: key.keysym,
            state: key.state,
            utf8: key.utf8.clone(),
        };
        let timer = match key.state {
            KeyState::Pressed => {
                if repeats {
                    self.start(key)
                } else {
                    self.abort();
                    None
                }
            },
            KeyState::Released => {
                self.abort();
                None
            },
        };
        (event, timer)
    }

    /// The keyboard focus left a surface: the running repeat is aborted and
    /// the leave event is returned for queueing.
    pub fn on_leave(&mut self, serial: u32) -> (r: KeyboardEvent)
        requires
            old(self).wf(),
        ensures
            final(self).wf(),
            aborted(*old(self), *final(self)),
            r == (KeyboardEvent::Leave { serial }),
    {
        self.abort();
        KeyboardEvent::Leave { serial }
    }

    /// Whether timer `id` is the current one, and so may queue events.
    pub fn is_current(&self, id: u64) -> (r: bool)
        ensures
            r == emits(*self, id),
    {
        match self.active {
            Some(t) => t == id,
            None => false,
        }
    }

    /// The release and press pair that a repeat of `key` queues at `time`.
    pub fn repeat_events(key: &KeyInfo, time: u32) -> (r: (KeyboardEvent, KeyboardEvent))
        ensures
            r.0 == (KeyboardEvent::Key {
                serial: key.serial,
                time,
                rawkey: key.rawkey,
                keysym: key.keysym,
                state: KeyState::Released,
                utf8: None,
            }),
            r.1 == (KeyboardEvent::Key {
                serial: key.serial,
                time,
                rawkey: key.rawkey,
                keysym: key.keysym,
                state: KeyState::Pressed,
                utf8: key.utf8,
            }),
    {
        let release = KeyboardEvent::Key {
            serial: key.serial,
            time,
            rawkey: key.rawkey,
            keysym: key.keysym,
            state: KeyState::Released,
            utf8: None,
        };
        let press = KeyboardEvent::Key {
            serial: key.serial,
            time,
            rawkey: key.rawkey,
            keysym: key.keysym,
            state: KeyState::Pressed,
            utf8: key.utf8.clone(),
        };
        (release, press)
    }
}

/// Starting a repeat for one key and then for another leaves only the second
/// key's timer current: the first timer never queues again, whatever timer
/// is current later comes from the second start. After an abort no timer is
/// current.
pub proof fn lemma_repeat_single_flight(s0: Repeat, s1: Repeat, s2: Repeat, t: u64)
    requires
        started(s0, s1),
        started(s1, s2),
        emits(s1, t),
    ensures
        !emits(s2, t),
        forall|u: u64| emits(s2, u) ==> u != t && u == s1.next_id(),
{
}

/// After an abort no timer may queue events.
pub proof fn lemma_abort_silences(s0: Repeat, s1: Repeat)
    requires
        aborted(s0, s1),
    ensures
        forall|u: u64| !emits(s1, u),
{
}

} // verus!

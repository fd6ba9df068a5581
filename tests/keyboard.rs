use linux_toolkit::keyboard::{
    key_text, ComposeStatus, FeedResult, KeyInfo, KeyState, KeyboardEvent, KeyboardState, KeymapFormat,
    ModifiersState, Repeat,
};

fn key(rawkey: u32, state: KeyState) -> KeyInfo {
    KeyInfo { serial: 1, time: 100, rawkey, keysym: rawkey + 100, state, utf8: Some("a".to_string()) }
}

#[test]
fn repeat_is_single_flight() {
    let mut r = Repeat::new();
    r.set_info(25, 600);
    let a = r.start(key(30, KeyState::Pressed)).unwrap();
    let b = r.start(key(31, KeyState::Pressed)).unwrap();
    assert_ne!(a.id, b.id);
    assert!(!r.is_current(a.id));
    assert!(r.is_current(b.id));
    assert_eq!(b.key.rawkey, 31);
    assert_eq!((b.rate, b.delay), (25, 600));
    r.abort();
    assert!(!r.is_current(b.id));
}

#[test]
fn repeat_disabled_without_rate() {
    let mut r = Repeat::new();
    assert!(r.start(key(30, KeyState::Pressed)).is_none());
    r.set_info(0, 600);
    assert!(r.start(key(30, KeyState::Pressed)).is_none());
}

#[test]
fn release_aborts_repeat() {
    let mut r = Repeat::new();
    r.set_info(25, 600);
    let (_, timer) = r.on_key(key(30, KeyState::Pressed), true);
    let t = timer.unwrap();
    assert!(r.is_current(t.id));
    let (event, timer) = r.on_key(key(30, KeyState::Released), true);
    assert!(timer.is_none());
    assert!(!r.is_current(t.id));
    match event {
        KeyboardEvent::Key { rawkey, state, .. } => {
            assert_eq!(rawkey, 30);
            assert_eq!(state, KeyState::Released);
        }
        _ => panic!("not a key event"),
    }
}

#[test]
fn non_repeating_key_starts_nothing() {
    let mut r = Repeat::new();
    r.set_info(25, 600);
    let (_, timer) = r.on_key(key(42, KeyState::Pressed), false);
    assert!(timer.is_none());
}

#[test]
fn any_press_aborts_running_repeat() {
    let mut r = Repeat::new();
    r.set_info(25, 600);
    let (_, timer) = r.on_key(key(30, KeyState::Pressed), true);
    let t = timer.unwrap();
    let (_, timer) = r.on_key(key(42, KeyState::Pressed), false);
    assert!(timer.is_none());
    assert!(!r.is_current(t.id));
}

#[test]
fn enter_and_modifiers_events() {
    let mut s = KeyboardState::new();
    let m = ModifiersState { alt: true, ..ModifiersState::default() };
    match s.modifiers_event(12, m) {
        KeyboardEvent::Modifiers { serial, modifiers } => {
            assert_eq!(serial, 12);
            assert_eq!(modifiers, m);
        }
        _ => panic!("not a modifiers event"),
    }
    assert_eq!(s.modifiers(), m);
    match KeyboardState::enter_event(5, vec![30, 31], vec![38, 39]) {
        Some(KeyboardEvent::Enter { serial, rawkeys, keysyms }) => {
            assert_eq!(serial, 5);
            assert_eq!(rawkeys, vec![30, 31]);
            assert_eq!(keysyms, vec![38, 39]);
        }
        _ => panic!("not an enter event"),
    }
    assert!(KeyboardState::enter_event(5, vec![30], vec![]).is_none());
}

#[test]
fn repeat_pair_is_release_then_press() {
    let k = key(30, KeyState::Pressed);
    let (release, press) = Repeat::repeat_events(&k, 700);
    match release {
        KeyboardEvent::Key { state, utf8, time, .. } => {
            assert_eq!(state, KeyState::Released);
            assert_eq!(utf8, None);
            assert_eq!(time, 700);
        }
        _ => panic!("not a key event"),
    }
    match press {
        KeyboardEvent::Key { state, utf8, .. } => {
            assert_eq!(state, KeyState::Pressed);
            assert_eq!(utf8, Some("a".to_string()));
        }
        _ => panic!("not a key event"),
    }
}

#[test]
fn compose_outcomes() {
    assert_eq!(KeyboardState::compose(FeedResult::Ignored, ComposeStatus::Composed, None), Err(()));
    assert_eq!(KeyboardState::compose(FeedResult::Accepted, ComposeStatus::Nothing, None), Err(()));
    assert_eq!(KeyboardState::compose(FeedResult::Accepted, ComposeStatus::Composing, None), Ok(None));
    assert_eq!(KeyboardState::compose(FeedResult::Accepted, ComposeStatus::Cancelled, None), Ok(None));
    assert_eq!(
        KeyboardState::compose(FeedResult::Accepted, ComposeStatus::Composed, Some("ae".to_string())),
        Ok(Some("ae".to_string()))
    );
}

#[test]
fn key_text_choice() {
    assert_eq!(key_text(KeyState::Released, Ok(Some("x".to_string())), Some("y".to_string())), None);
    assert_eq!(key_text(KeyState::Pressed, Ok(None), Some("y".to_string())), None);
    assert_eq!(key_text(KeyState::Pressed, Err(()), Some("y".to_string())), Some("y".to_string()));
    assert_eq!(key_text(KeyState::Pressed, Ok(Some("x".to_string())), None), Some("x".to_string()));
}

#[test]
fn utf8_and_keycodes() {
    assert_eq!(KeyboardState::get_utf8(String::new()), None);
    assert_eq!(KeyboardState::get_utf8("q".to_string()), Some("q".to_string()));
    assert_eq!(KeyboardState::engine_keycode(30), Some(38));
    assert_eq!(KeyboardState::engine_keycode(u32::MAX), None);
}

#[test]
fn keymap_and_modifiers() {
    let mut s = KeyboardState::new();
    assert!(!s.has_keymap());
    assert!(!s.load_keymap(KeymapFormat::NoKeymap, 10));
    assert!(!s.has_keymap());
    assert!(s.load_keymap(KeymapFormat::XkbV1, 10));
    assert!(s.has_keymap());
    let m = ModifiersState { ctrl: true, shift: true, ..ModifiersState::default() };
    assert_eq!(s.update_modifiers(m), m);
    assert_eq!(s.modifiers(), m);
}

#[test]
fn leave_aborts_repeat() {
    let mut r = Repeat::new();
    r.set_info(25, 600);
    let t = r.start(key(30, KeyState::Pressed)).unwrap();
    match r.on_leave(8) {
        KeyboardEvent::Leave { serial } => assert_eq!(serial, 8),
        _ => panic!("not a leave event"),
    }
    assert!(!r.is_current(t.id));
}

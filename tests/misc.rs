use linux_toolkit::clipboard::{negotiate_mime, Clipboard, ClipboardRead, DataSourceEvent};
use linux_toolkit::data_device::{DataDeviceError, DataDeviceUserData};
use linux_toolkit::environment::{check_required_globals, route_new_global, route_removed_global, GlobalRoute, SetupError};
use linux_toolkit::frame::draw_frame;
use linux_toolkit::locale::{resolve_locale, EnvValue};
use linux_toolkit::output::{Mode, OutputManagerEvent};
use linux_toolkit::pointer::MouseButton;
use linux_toolkit::seat::{DeviceKind, SeatEventSource, SeatManager, SeatManagerEvent, SeatRequest};
use linux_toolkit::shell::{configure_size, xdg_states, Layout, XdgState};
use linux_toolkit::toplevel::{ToplevelHandleEvent, ToplevelManager, ToplevelState};
use linux_toolkit::shell::{LayerShellSurface, LayerSurfaceEvent, ToplevelEvent};
use linux_toolkit::surface::SurfaceEvent;

fn s(v: &str) -> String {
    v.to_string()
}

#[test]
fn locale_resolution_order() {
    assert_eq!(resolve_locale(EnvValue::Text(s("de_DE")), EnvValue::Text(s("fr_FR")), EnvValue::Text(s("en_US"))), "de_DE");
    assert_eq!(resolve_locale(EnvValue::Unset, EnvValue::Text(s("fr_FR")), EnvValue::Text(s("en_US"))), "fr_FR");
    assert_eq!(resolve_locale(EnvValue::Unset, EnvValue::Unset, EnvValue::Text(s("en_US"))), "en_US");
    assert_eq!(resolve_locale(EnvValue::Unset, EnvValue::Unset, EnvValue::Unset), "C");
    assert_eq!(resolve_locale(EnvValue::NotUnicode, EnvValue::Text(s("fr_FR")), EnvValue::Unset), "C");
}

#[test]
fn mime_negotiation_prefers_local_order() {
    let local = vec![s("text/plain;charset=utf-8"), s("UTF8_STRING"), s("text/plain")];
    let offered = vec![s("text/plain"), s("UTF8_STRING")];
    assert_eq!(negotiate_mime(&local, &offered), Some(1));
    assert_eq!(negotiate_mime(&local, &vec![s("image/png")]), None);
    assert_eq!(negotiate_mime(&vec![], &offered), None);
}

#[test]
fn clipboard_reads() {
    let mut c = Clipboard::new(vec![s("text/plain"), s("UTF8_STRING")]);
    let offered = vec![s("UTF8_STRING")];
    match c.get(1, Some(&offered)) {
        ClipboardRead::Receive { seat_id, mime_type } => {
            assert_eq!(seat_id, 1);
            assert_eq!(mime_type, "UTF8_STRING");
        }
        other => panic!("unexpected {:?}", other),
    }
    assert!(matches!(c.get(1, None), ClipboardRead::Nothing));
    c.set(1, 50);
    match c.get(1, Some(&offered)) {
        ClipboardRead::Local { seat_id, mime_type } => {
            assert_eq!(seat_id, 1);
            assert_eq!(mime_type, "text/plain");
        }
        other => panic!("unexpected {:?}", other),
    }
    c.cancelled(50);
    assert!(matches!(c.get(1, None), ClipboardRead::Nothing));
}

#[test]
fn data_offers_and_selection() {
    let mut d = DataDeviceUserData::new();
    d.add_offer(5);
    d.add_offer(6);
    d.add_offer(7);
    assert_eq!(d.set_selection(Some(5)), Ok(()));
    assert_eq!(d.selection(), Some(5));
    assert_eq!(d.offers(), &vec![7, 6]);
    assert_eq!(d.set_dnd(Some(9)), Err(DataDeviceError::UnknownOffer { offer: 9 }));
    assert_eq!(d.current_dnd(), None);
    assert_eq!(d.set_dnd(Some(6)), Ok(()));
    assert_eq!(d.current_dnd(), Some(6));
    assert_eq!(d.set_selection(None), Ok(()));
    assert_eq!(d.selection(), None);
    assert_eq!(d.offers(), &vec![7]);
}

#[test]
fn layout_of_bottom_bar() {
    let layout = Layout::BarBottom { height: 32 };
    assert_eq!(layout.anchor(), 2 | 4 | 8);
    assert_eq!(layout.exclusive(), 32);
    let modes = vec![
        Mode { dimensions: (1280, 720), refresh_rate: 60000, is_current: false, is_preferred: false },
        Mode { dimensions: (1920, 1080), refresh_rate: 60000, is_current: true, is_preferred: true },
    ];
    assert_eq!(layout.size(&modes), Some((1920, 32)));
    assert_eq!(layout.size(&vec![]), None);
}

#[test]
fn configure_sizes_and_states() {
    assert_eq!(configure_size(0, 600), None);
    assert_eq!(configure_size(800, 0), None);
    assert_eq!(configure_size(800, 600), Some((800, 600)));
    assert_eq!(xdg_states(&vec![4, 9, 1]), vec![XdgState::Activated, XdgState::Maximized]);
    assert_eq!(
        xdg_states(&vec![5, 6, 0, 7, 8, 2, 3]),
        vec![
            XdgState::TiledLeft,
            XdgState::TiledRight,
            XdgState::TiledTop,
            XdgState::TiledBottom,
            XdgState::Fullscreen,
            XdgState::Resizing
        ]
    );
}

#[test]
fn mouse_buttons() {
    assert_eq!(MouseButton::from(0x110), MouseButton::Left);
    assert_eq!(MouseButton::from(0x111), MouseButton::Right);
    assert_eq!(MouseButton::from(0x112), MouseButton::Middle);
    assert_eq!(MouseButton::from(0x113), MouseButton::Other(3));
}

#[test]
fn seat_capabilities() {
    let mut m = SeatManager::new();
    assert!(m.new_seat(3, 5));
    let reqs = m.seat_capabilities(3, 1 | 2).unwrap();
    assert_eq!(reqs, vec![SeatRequest::Get(DeviceKind::Pointer), SeatRequest::Get(DeviceKind::Keyboard)]);
    let reqs = m.seat_capabilities(3, 2 | 4).unwrap();
    assert_eq!(reqs, vec![SeatRequest::Release(DeviceKind::Pointer), SeatRequest::Get(DeviceKind::Touch)]);
    let seat = m.get_seat(3).unwrap();
    assert_eq!(seat.data.pointer(), None);
    assert_eq!(seat.data.keyboard(), Some(5));
    assert!(m.seat_capabilities(4, 1).is_none());
    assert!(m.remove_seat(3));
    assert!(!m.remove_seat(3));
    assert!(m.get_seat(3).is_none());
}

#[test]
fn old_seat_devices_are_dropped_silently() {
    let mut m = SeatManager::new();
    m.new_seat(3, 2);
    m.seat_capabilities(3, 1);
    assert_eq!(m.seat_capabilities(3, 0).unwrap(), vec![]);
    assert!(!m.remove_seat(3));
}

#[test]
fn globals_are_routed() {
    assert_eq!(
        route_new_global(5, &s("wl_output"), 3),
        GlobalRoute::Output(OutputManagerEvent::NewOutput { id: 5, version: 3 })
    );
    assert_eq!(route_new_global(6, &s("wl_seat"), 7), GlobalRoute::Seat(SeatManagerEvent::NewSeat { id: 6, version: 7 }));
    assert_eq!(route_new_global(7, &s("wl_shm"), 1), GlobalRoute::Ignored);
    assert_eq!(route_removed_global(5, &s("wl_output")), GlobalRoute::Output(OutputManagerEvent::RemoveOutput { id: 5 }));
    assert_eq!(route_removed_global(6, &s("wl_seat")), GlobalRoute::Seat(SeatManagerEvent::RemoveSeat { id: 6 }));
}

#[test]
fn missing_required_global() {
    let all = vec![s("wl_shm"), s("wl_compositor"), s("wl_data_device_manager"), s("wl_subcompositor")];
    assert!(check_required_globals(&all).is_ok());
    let some = vec![s("wl_compositor"), s("wl_data_device_manager")];
    match check_required_globals(&some) {
        Err(SetupError::MissingGlobal(m)) => assert_eq!(m, "wl_subcompositor"),
        Ok(()) => panic!("should be missing"),
    }
}

#[test]
fn toplevels_are_tracked() {
    let mut m = ToplevelManager::new();
    m.new_toplevel(1);
    m.new_toplevel(2);
    assert!(m.toplevel_event(1, ToplevelHandleEvent::Title(s("editor"))));
    assert!(m.toplevel_event(1, ToplevelHandleEvent::State(vec![2, 7, 0])));
    assert!(m.toplevel_event(1, ToplevelHandleEvent::Done));
    assert!(m.toplevel_event(2, ToplevelHandleEvent::Closed));
    assert!(!m.toplevel_event(3, ToplevelHandleEvent::Done));
    assert_eq!(m.toplevels(), vec![1]);
    let t = m.get_toplevel(1).unwrap();
    assert_eq!(t.title(), "editor");
    assert_eq!(t.states(), &vec![ToplevelState::Activated, ToplevelState::Maximized]);
    let events = m.poll_events();
    assert_eq!(events, vec![(1, ToplevelEvent::Configure), (2, ToplevelEvent::Closed)]);
    let kept = m.get_toplevel(1).unwrap();
    assert_eq!(kept.title(), "editor");
    assert_eq!(kept.states(), &vec![ToplevelState::Activated, ToplevelState::Maximized]);
    assert!(m.get_toplevel(2).is_none());
    assert!(m.poll_events().is_empty());
}

#[test]
fn frame_is_filled_in_machine_order() {
    let f = draw_frame(Some((4, 3)), 2).unwrap();
    assert_eq!((f.width, f.height, f.stride), (8, 6, 32));
    assert_eq!(f.pixels.len(), 4 * 8 * 6);
    for px in f.pixels.chunks(4) {
        assert_eq!(u32::from_ne_bytes([px[0], px[1], px[2], px[3]]), 0xFF000000);
    }
    let d = draw_frame(None, 1).unwrap();
    assert_eq!((d.width, d.height), (1024, 768));
    assert!(draw_frame(Some((u32::MAX, 2)), 1).is_none());
}

#[test]
fn layer_surface_events() {
    let mut l = LayerShellSurface::new(4, 9, Layout::BarBottom { height: 20 });
    assert_eq!(l.output(), 9);
    assert_eq!(l.layout(), Layout::BarBottom { height: 20 });
    l.configure(0, 20);
    l.configure(1920, 20);
    l.close();
    let events = l.poll_events(vec![SurfaceEvent::Scale { scale_factor: 2 }]);
    assert_eq!(events.len(), 4);
    assert!(matches!(events[0], LayerSurfaceEvent::Scale { scale_factor: 2 }));
    assert!(matches!(events[1], LayerSurfaceEvent::Configure { size: None }));
    assert!(matches!(events[2], LayerSurfaceEvent::Configure { size: Some((1920, 20)) }));
    assert!(matches!(events[3], LayerSurfaceEvent::Close));
}

#[test]
fn seat_events_follow_the_entered_surface() {
    let mut r = SeatEventSource::new(4);
    assert_eq!(r.queue_event(), None);
    r.enter_surface(10);
    assert_eq!(r.queue_event(), Some((4, 10)));
    r.enter_surface(11);
    assert_eq!(r.queue_event(), Some((4, 11)));
}

#[test]
fn second_seat_removal_is_a_no_op() {
    let mut m = SeatManager::new();
    m.new_seat(1, 7);
    m.new_seat(2, 7);
    assert!(m.remove_seat(1));
    assert!(!m.remove_seat(1));
    assert_eq!(m.seats().len(), 1);
}

#[test]
fn clipboard_serves_and_forgets_sources() {
    let mut c = Clipboard::new(vec![s("text/plain")]);
    c.set(2, 40);
    let serve = c.source_event(40, DataSourceEvent::Send { mime_type: s("text/plain") }).unwrap();
    assert_eq!(serve.seat_id, 2);
    assert_eq!(serve.mime_type, "text/plain");
    assert!(c.source_event(41, DataSourceEvent::Send { mime_type: s("text/plain") }).is_none());
    assert!(c.source_event(40, DataSourceEvent::Dropped).is_none());
    assert!(matches!(c.get(2, None), ClipboardRead::Local { .. }));
    assert!(c.source_event(40, DataSourceEvent::Cancelled).is_none());
    assert!(matches!(c.get(2, None), ClipboardRead::Nothing));
    assert!(c.source_event(40, DataSourceEvent::Send { mime_type: s("text/plain") }).is_none());
}

#[test]
fn data_source_teardown() {
    assert!(DataSourceEvent::Cancelled.destroys_source());
    assert!(DataSourceEvent::Finished.destroys_source());
    assert!(!DataSourceEvent::Dropped.destroys_source());
    assert!(!DataSourceEvent::Target { mime_type: None }.destroys_source());
}

#[test]
fn failed_device_requests_are_forgotten() {
    let mut m = SeatManager::new();
    m.new_seat(3, 5);
    m.seat_capabilities(3, 1 | 2);
    assert!(m.device_failed(3, DeviceKind::Pointer));
    assert_eq!(m.get_seat(3).unwrap().data.pointer(), None);
    assert_eq!(m.get_seat(3).unwrap().data.keyboard(), Some(5));
    assert_eq!(m.seat_capabilities(3, 1 | 2).unwrap(), vec![SeatRequest::Get(DeviceKind::Pointer)]);
    assert!(!m.device_failed(9, DeviceKind::Touch));
    assert_eq!(m.seat_data_device(3), Some(true));
    assert_eq!(m.seat_data_device(3), Some(false));
    assert!(m.data_device_failed(3));
    assert_eq!(m.seat_data_device(3), Some(true));
    assert_eq!(m.seat_data_device(8), None);
}

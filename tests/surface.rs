use linux_toolkit::cursor::{cursor_theme_size, Cursor, CursorManager, CursorManagerEvent};
use linux_toolkit::event_queue::{EventDrain, EventQueue};
use linux_toolkit::output::{OutputEvent, OutputManager};
use linux_toolkit::surface::{SurfaceEvent, SurfaceManager, SurfaceManagerEvent, SurfaceUserData};

fn outputs() -> (OutputManager, EventDrain<SurfaceManagerEvent>, EventDrain<CursorManagerEvent>) {
    let (ss, sd) = EventQueue::new();
    let (cs, cd) = EventQueue::new();
    (OutputManager::new(ss, cs), sd, cd)
}

#[test]
fn scale_is_deduplicated() {
    let (mut reg, mut sd, mut cd) = outputs();
    reg.new_output(1, 3);
    reg.new_output(2, 3);
    reg.handle_output_event(2, OutputEvent::Scale { factor: 2 }, &mut sd, &mut cd);
    let mut surfaces = SurfaceManager::new();
    surfaces.create_surface(10);
    assert!(surfaces.surface_output(10, 1, true, &reg));
    assert!(surfaces.surface_output(10, 2, true, &reg));
    assert_eq!(surfaces.poll_surface(10), vec![SurfaceEvent::Scale { scale_factor: 2 }]);

    // the factor-2 output reports factor 2 again: nothing to emit
    reg.handle_output_event(2, OutputEvent::Scale { factor: 2 }, &mut sd, &mut cd);
    for e in sd.poll_events() {
        surfaces.handle_event(e, &reg);
    }
    assert!(surfaces.poll_surface(10).is_empty());

    // a genuine change 2 -> 3: exactly one event
    reg.handle_output_event(2, OutputEvent::Scale { factor: 3 }, &mut sd, &mut cd);
    for e in sd.poll_events() {
        surfaces.handle_event(e, &reg);
    }
    assert_eq!(surfaces.poll_surface(10), vec![SurfaceEvent::Scale { scale_factor: 3 }]);
}

#[test]
fn leaving_output_lowers_scale() {
    let (mut reg, mut sd, mut cd) = outputs();
    reg.new_output(1, 3);
    reg.handle_output_event(1, OutputEvent::Scale { factor: 2 }, &mut sd, &mut cd);
    let mut s = SurfaceUserData::new();
    s.enter(1, &reg);
    assert_eq!(s.scale_factor(), 2);
    s.leave(1, &reg);
    assert_eq!(s.scale_factor(), 1);
    assert_eq!(
        s.poll_events(),
        vec![SurfaceEvent::Scale { scale_factor: 2 }, SurfaceEvent::Scale { scale_factor: 1 }]
    );
}

#[test]
fn removed_output_leaves_every_surface() {
    let (mut reg, mut sd, mut cd) = outputs();
    reg.new_output(1, 3);
    reg.handle_output_event(1, OutputEvent::Scale { factor: 3 }, &mut sd, &mut cd);
    sd.poll_events();
    let mut surfaces = SurfaceManager::new();
    surfaces.create_surface(10);
    surfaces.create_surface(11);
    surfaces.surface_output(10, 1, true, &reg);
    surfaces.surface_output(11, 1, true, &reg);
    surfaces.poll_surface(10);
    surfaces.poll_surface(11);
    reg.remove_output(1, &mut sd, &mut cd);
    for e in sd.poll_events() {
        surfaces.handle_event(e, &reg);
    }
    assert_eq!(surfaces.poll_surface(10), vec![SurfaceEvent::Scale { scale_factor: 1 }]);
    assert_eq!(surfaces.poll_surface(11), vec![SurfaceEvent::Scale { scale_factor: 1 }]);
}

#[test]
fn unknown_surface_is_ignored() {
    let (reg, _, _) = outputs();
    let mut surfaces = SurfaceManager::new();
    assert!(!surfaces.surface_output(5, 1, true, &reg));
    assert!(surfaces.poll_surface(5).is_empty());
}

#[test]
fn cursor_theme_sizes() {
    assert_eq!(cursor_theme_size(1), Some(16));
    assert_eq!(cursor_theme_size(2), Some(48));
    assert_eq!(cursor_theme_size(3), Some(80));
    assert_eq!(cursor_theme_size(0), None);
    assert_eq!(cursor_theme_size(u32::MAX), None);
}

#[test]
fn cursor_manager_reloads_on_change_only() {
    let (mut reg, mut sd, mut cd) = outputs();
    let mut cursors = CursorManager::new(None);
    reg.new_output(1, 3);
    assert_eq!(cursors.handle_events(&mut cd, &reg), None);
    reg.handle_output_event(1, OutputEvent::Scale { factor: 2 }, &mut sd, &mut cd);
    assert_eq!(cursors.handle_events(&mut cd, &reg), Some(2));
    assert_eq!(cd.len(), 0);
    assert_eq!(cursors.handle_events(&mut cd, &reg), None);
    reg.remove_output(1, &mut sd, &mut cd);
    assert_eq!(cursors.handle_events(&mut cd, &reg), Some(1));
    assert_eq!(cursors.scale_factor(), 1);
}

#[test]
fn cursor_name_changes() {
    let mut c = Cursor::new(None);
    assert_eq!(c.cursor_name, "left_ptr");
    assert!(!c.change_cursor(None));
    assert!(c.change_cursor(Some("grabbing".to_string())));
    assert_eq!(c.cursor_name, "grabbing");
    assert!(!c.change_cursor(Some("grabbing".to_string())));
    c.enter_surface(7, 42);
    assert_eq!(c.pointer, Some(7));
    assert_eq!(c.enter_serial, 42);
}

#[test]
fn cursor_registry() {
    let mut m = CursorManager::new(Some("Adwaita".to_string()));
    assert_eq!(m.theme_name(), &Some("Adwaita".to_string()));
    let a = m.new_cursor(None).unwrap();
    let b = m.new_cursor(Some("grabbing".to_string())).unwrap();
    assert_ne!(a, b);
    assert!(m.cursor_entered(b, 3, 99));
    assert!(!m.cursor_entered(77, 3, 99));
    let cursors = m.cursors();
    assert_eq!(cursors.len(), 2);
    assert_eq!(cursors[0].1.pointer, None);
    assert_eq!(cursors[1].1.pointer, Some(3));
    assert_eq!(cursors[1].1.enter_serial, 99);
    assert_eq!(cursors[1].1.cursor_name, "grabbing");
    m.remove_cursor(a);
    m.remove_cursor(a);
    assert_eq!(m.cursors().len(), 1);
    assert_eq!(m.cursors()[0].0, b);
}

#[test]
fn surfaces_refuse_duplicates_and_can_be_removed() {
    let (reg, _, _) = outputs();
    let mut surfaces = SurfaceManager::new();
    assert!(surfaces.create_surface(10));
    assert!(!surfaces.create_surface(10));
    surfaces.remove_surface(10);
    assert!(!surfaces.surface_output(10, 1, true, &reg));
    assert!(surfaces.create_surface(10));
    surfaces.remove_surface(99);
    assert!(surfaces.surface_output(10, 1, true, &reg));
}

#[test]
fn cursor_identities_are_fresh() {
    let mut m = CursorManager::new(None);
    assert_eq!(m.new_cursor(None), Some(0));
    assert_eq!(m.new_cursor(None), Some(1));
    m.remove_cursor(0);
    assert_eq!(m.new_cursor(None), Some(2));
}

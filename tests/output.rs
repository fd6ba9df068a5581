use linux_toolkit::cursor::CursorManagerEvent;
use linux_toolkit::event_queue::EventQueue;
use linux_toolkit::output::{OutputEvent, OutputManager, Subpixel, Transform, MODE_CURRENT, MODE_PREFERRED};
use linux_toolkit::surface::SurfaceManagerEvent;

fn manager() -> (
    OutputManager,
    linux_toolkit::event_queue::EventDrain<SurfaceManagerEvent>,
    linux_toolkit::event_queue::EventDrain<CursorManagerEvent>,
) {
    let (ss, sd) = EventQueue::new();
    let (cs, cd) = EventQueue::new();
    (OutputManager::new(ss, cs), sd, cd)
}

#[test]
fn new_output_rejects_duplicate_id() {
    let (mut m, _, _) = manager();
    assert!(m.new_output(4, 3));
    assert!(!m.new_output(4, 2));
    assert_eq!(m.get_output(4).unwrap().version, 3);
    assert_eq!(m.scale_factor_of(4), Some(1));
    assert_eq!(m.scale_factor_of(5), None);
}

#[test]
fn removing_twice_releases_once() {
    let (mut m, mut sd, mut cd) = manager();
    m.new_output(1, 3);
    m.new_output(2, 3);
    assert!(m.remove_output(1, &mut sd, &mut cd));
    assert!(!m.remove_output(1, &mut sd, &mut cd));
    assert!(m.get_output(1).is_none());
    assert!(m.get_output(2).is_some());
    assert_eq!(sd.poll_events(), vec![SurfaceManagerEvent::OutputLeave { output: 1 }]);
    assert_eq!(cd.poll_events(), vec![CursorManagerEvent::OutputLeave { output: 1 }]);
}

#[test]
fn old_output_is_removed_without_release() {
    let (mut m, mut sd, mut cd) = manager();
    m.new_output(1, 2);
    assert!(!m.remove_output(1, &mut sd, &mut cd));
    assert!(m.get_output(1).is_none());
    assert_eq!(sd.len(), 1);
}

#[test]
fn scale_event_is_passed_on() {
    let (mut m, mut sd, mut cd) = manager();
    m.new_output(1, 3);
    assert!(m.handle_output_event(1, OutputEvent::Scale { factor: 2 }, &mut sd, &mut cd));
    assert_eq!(m.scale_factor_of(1), Some(2));
    assert_eq!(m.max_scale_factor(), 2);
    assert_eq!(sd.poll_events(), vec![SurfaceManagerEvent::OutputScale { output: 1, factor: 2 }]);
    assert_eq!(cd.poll_events(), vec![CursorManagerEvent::OutputScale { output: 1, factor: 2 }]);
    assert!(!m.handle_output_event(9, OutputEvent::Scale { factor: 3 }, &mut sd, &mut cd));
    assert_eq!(sd.len(), 0);
}

#[test]
fn mode_events_update_or_append() {
    let (mut m, mut sd, mut cd) = manager();
    m.new_output(1, 3);
    m.handle_output_event(1, OutputEvent::Mode { width: 1920, height: 1080, refresh: 60000, flags: MODE_PREFERRED }, &mut sd, &mut cd);
    m.handle_output_event(1, OutputEvent::Mode { width: 1280, height: 720, refresh: 60000, flags: 0 }, &mut sd, &mut cd);
    m.handle_output_event(1, OutputEvent::Mode { width: 1920, height: 1080, refresh: 60000, flags: MODE_CURRENT | MODE_PREFERRED }, &mut sd, &mut cd);
    let modes = &m.get_output(1).unwrap().data.modes;
    assert_eq!(modes.len(), 2);
    assert_eq!(modes[0].dimensions, (1920, 1080));
    assert!(modes[0].is_current && modes[0].is_preferred);
    assert_eq!(modes[1].dimensions, (1280, 720));
    assert!(!modes[1].is_current);
    assert_eq!(sd.len(), 0);
}

#[test]
fn geometry_event_is_recorded() {
    let (mut m, mut sd, mut cd) = manager();
    m.new_output(1, 3);
    m.handle_output_event(
        1,
        OutputEvent::Geometry {
            x: 10,
            y: 20,
            physical_width: 300,
            physical_height: 200,
            subpixel: Subpixel::HorizontalRgb,
            model: "model".to_string(),
            make: "make".to_string(),
            transform: Transform::Rotated90,
        },
        &mut sd,
        &mut cd,
    );
    let data = &m.get_output(1).unwrap().data;
    assert_eq!(data.location, (10, 20));
    assert_eq!(data.physical_size, (300, 200));
    assert_eq!(data.subpixel, Subpixel::HorizontalRgb);
    assert_eq!(data.transform, Transform::Rotated90);
    assert_eq!(data.model, "model");
    assert_eq!(data.make, "make");
    assert_eq!(data.scale_factor, 1);
}

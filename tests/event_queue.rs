use linux_toolkit::event_queue::EventQueue;
use linux_toolkit::shell::{XdgShellSurface, XdgSurfaceEvent};

#[test]
fn fifo_order_single_producer() {
    let (source, mut drain) = EventQueue::new::<u32>();
    for e in 1..=5u32 {
        source.push_event(&mut drain, e);
    }
    assert_eq!(drain.poll_events(), vec![1, 2, 3, 4, 5]);
}

#[test]
fn second_drain_is_empty() {
    let (source, mut drain) = EventQueue::new::<u32>();
    source.push_event(&mut drain, 7);
    source.push_event(&mut drain, 7);
    source.push_event(&mut drain, 9);
    let mut first = drain.poll_events();
    first.sort();
    assert_eq!(first, vec![7, 7, 9]);
    assert!(drain.poll_events().is_empty());
    assert_eq!(drain.len(), 0);
}

#[test]
fn empty_drain_delivers_nothing() {
    let (_source, mut drain) = EventQueue::new::<u32>();
    assert!(drain.poll_events().is_empty());
}

#[test]
fn two_producers_keep_their_order() {
    let (first, mut drain) = EventQueue::new::<(u8, u32)>();
    let second = drain.new_source().unwrap();
    first.push_event(&mut drain, (1, 1));
    second.push_event(&mut drain, (2, 1));
    second.push_event(&mut drain, (2, 2));
    first.push_event(&mut drain, (1, 2));
    first.push_event(&mut drain, (1, 3));
    let out = drain.poll_events();
    assert_eq!(out.len(), 5);
    let from1: Vec<u32> = out.iter().filter(|e| e.0 == 1).map(|e| e.1).collect();
    let from2: Vec<u32> = out.iter().filter(|e| e.0 == 2).map(|e| e.1).collect();
    assert_eq!(from1, vec![1, 2, 3]);
    assert_eq!(from2, vec![1, 2]);
}

#[test]
fn cloned_source_pushes_into_same_queue() {
    let (first, mut drain) = EventQueue::new::<u32>();
    let second = first.clone();
    first.push_event(&mut drain, 1);
    second.push_event(&mut drain, 2);
    assert_eq!(drain.poll_events(), vec![1, 2]);
}

#[test]
fn configure_events_are_not_collapsed() {
    let mut shell = XdgShellSurface::new(3);
    shell.configure(800, 600, &vec![]);
    shell.configure(800, 600, &vec![]);
    shell.configure(1024, 768, &vec![]);
    let events = shell.poll_events(vec![]);
    assert_eq!(events.len(), 3);
    let sizes: Vec<Option<(u32, u32)>> = events
        .iter()
        .map(|e| match e {
            XdgSurfaceEvent::Configure { size, .. } => *size,
            _ => panic!("not a configure event"),
        })
        .collect();
    assert_eq!(sizes, vec![Some((800, 600)), Some((800, 600)), Some((1024, 768))]);
    assert!(shell.poll_events(vec![]).is_empty());
}

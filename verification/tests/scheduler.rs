#![allow(unused_imports)]

use nds_core::{Event, EventKind, Scheduler};

#[test]
fn test_min_heap_ordering() {
    let mut s = Scheduler::new();
    s.schedule(Event { fire_time: 100, kind: EventKind::VBlank });
    s.schedule(Event { fire_time: 50,  kind: EventKind::HBlank });
    s.schedule(Event { fire_time: 75,  kind: EventKind::AudioSample });
    assert_eq!(s.peek_time(), Some(50));
}

#[test]
fn test_pop_if_ready_respects_timestamp() {
    let mut s = Scheduler::new();
    s.schedule(Event { fire_time: 100, kind: EventKind::VBlank });
    assert!(s.pop_if_ready().is_none());
    s.advance_to(100);
    assert_eq!(s.pop_if_ready().unwrap().kind, EventKind::VBlank);
}

#[test]
fn test_cancel_removes_specific_event() {
    let mut s = Scheduler::new();
    s.schedule(Event { fire_time: 1, kind: EventKind::HBlank });
    s.schedule(Event { fire_time: 2, kind: EventKind::VBlank });
    s.schedule(Event { fire_time: 3, kind: EventKind::HBlank });
    s.cancel(EventKind::HBlank);
    s.advance_to(10);
    assert_eq!(s.pop_if_ready().unwrap().kind, EventKind::VBlank);
    assert!(s.pop_if_ready().is_none());
}

use infinite_echoes::scheduler::{ScheduledEvent, Scheduler};

#[test]
fn untimed_events_first_in_order_then_clear_discards() {
    let mut s: Scheduler<char> = Scheduler::new();
    s.schedule('A', None, 0);
    s.schedule('B', Some(1_000_000), 0);
    s.schedule('C', None, 0);
    s.begin_processing();
    assert_eq!(s.pop_due(0), Some('A'));
    assert_eq!(s.pop_due(0), Some('C'));
    assert_eq!(s.pop_due(0), None);
    assert_eq!(s.len(), 1);
    s.clear();
    s.schedule('D', None, 0);
    assert_eq!(s.len(), 2);
    s.begin_processing();
    assert_eq!(s.len(), 0);
    assert_eq!(s.pop_due(u64::MAX), None);
}

#[test]
fn timed_events_come_out_when_due_by_time() {
    let mut s: Scheduler<u32> = Scheduler::new();
    s.schedule(1, Some(300), 0);
    s.schedule(2, Some(100), 0);
    s.schedule(3, Some(200), 0);
    s.begin_processing();
    assert_eq!(s.pop_due(99), None);
    assert_eq!(s.pop_due(250), Some(2));
    assert_eq!(s.pop_due(250), Some(3));
    assert_eq!(s.pop_due(250), None);
    assert_eq!(s.pop_due(300), Some(1));
}

#[test]
fn untimed_event_beats_due_timed_event() {
    let mut s: Scheduler<u32> = Scheduler::new();
    s.schedule(1, Some(0), 0);
    s.schedule(2, None, 5);
    assert_eq!(s.pop_due(10), Some(2));
    assert_eq!(s.pop_due(10), Some(1));
}

#[test]
fn delay_past_end_of_time_never_falls_due_early() {
    let mut s: Scheduler<u32> = Scheduler::new();
    s.schedule(1, Some(u64::MAX), 10);
    assert_eq!(s.pop_due(u64::MAX - 1), None);
    assert_eq!(s.pop_due(u64::MAX), Some(1));
}

#[test]
fn clear_takes_effect_only_at_next_round() {
    let mut s: Scheduler<u32> = Scheduler::new();
    s.schedule(1, None, 0);
    s.clear();
    assert_eq!(s.pop_due(0), Some(1));
    s.schedule(2, None, 0);
    s.begin_processing();
    assert_eq!(s.pop_due(0), None);
    s.schedule(3, None, 0);
    s.begin_processing();
    assert_eq!(s.pop_due(0), Some(3));
}

#[test]
fn event_order() {
    let now = ScheduledEvent { trigger_time: None, event: 1 };
    let early = ScheduledEvent { trigger_time: Some(5), event: 2 };
    let late = ScheduledEvent { trigger_time: Some(9), event: 3 };
    assert!(now.comes_before(&early));
    assert!(!early.comes_before(&now));
    assert!(early.comes_before(&late));
    assert!(!late.comes_before(&early));
    assert!(!early.comes_before(&early));
    assert!(!now.comes_before(&now));
}

use pairswitch::heartbeat::{poll_timeout, tick_due, TICK_RATE};

#[test]
fn ticks_come_every_fifth_of_a_second() {
    assert_eq!(TICK_RATE, 200);
}

#[test]
fn worker_waits_for_what_is_left_of_the_beat() {
    assert_eq!(poll_timeout(0), 200);
    assert_eq!(poll_timeout(1), 199);
    assert_eq!(poll_timeout(150), 50);
    assert_eq!(poll_timeout(199), 1);
    assert_eq!(poll_timeout(200), 0);
    assert_eq!(poll_timeout(201), 0);
    assert_eq!(poll_timeout(u64::MAX), 0);
}

#[test]
fn tick_is_due_when_the_beat_is_over() {
    assert!(!tick_due(0));
    assert!(!tick_due(199));
    assert!(tick_due(200));
    assert!(tick_due(5000));
    assert!(tick_due(u64::MAX));
}

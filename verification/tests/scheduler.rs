use dtube_pinner::scheduler::{Scheduler, Wake};

#[test]
fn there_is_no_scheduler_with_a_zero_interval() {
    assert!(Scheduler::new(0, 0).is_none());
    assert!(Scheduler::new(17, 0).is_none());
    assert!(Scheduler::new(0, 1).is_some());
}

#[test]
fn the_first_cycle_is_due_at_once() {
    let mut scheduler = Scheduler::new(0, 5000).unwrap();
    assert_eq!(scheduler.next_due_ms(), Some(0));
    assert_eq!(scheduler.interval_ms(), 5000);
    assert_eq!(scheduler.poll(0), Wake::Fire);
    assert_eq!(scheduler.next_due_ms(), Some(5000));
}

#[test]
fn the_next_cycle_is_due_one_interval_after_the_start() {
    let mut scheduler = Scheduler::new(0, 5000).unwrap();
    assert_eq!(scheduler.poll(0), Wake::Fire);
    assert_eq!(scheduler.poll(0), Wake::Sleep(5000));
    assert_eq!(scheduler.poll(1), Wake::Sleep(4999));
    assert_eq!(scheduler.poll(4999), Wake::Sleep(1));
    assert_eq!(scheduler.poll(5000), Wake::Fire);
    assert_eq!(scheduler.poll(5000), Wake::Sleep(5000));
    assert_eq!(scheduler.next_due_ms(), Some(10000));
}

#[test]
fn a_slow_cycle_does_not_move_the_anchors() {
    let mut scheduler = Scheduler::new(0, 5000).unwrap();
    assert_eq!(scheduler.poll(0), Wake::Fire);
    // The first cycle took 7 seconds; the second was due at 5000 and fires
    // now, and the third stays due at 10000.
    assert_eq!(scheduler.poll(7000), Wake::Fire);
    assert_eq!(scheduler.next_due_ms(), Some(10000));
    assert_eq!(scheduler.poll(7000), Wake::Sleep(3000));
    assert_eq!(scheduler.poll(10000), Wake::Fire);
    assert_eq!(scheduler.next_due_ms(), Some(15000));
}

#[test]
fn missed_cycles_are_handed_out_one_by_one() {
    let mut scheduler = Scheduler::new(100, 10).unwrap();
    assert_eq!(scheduler.poll(99), Wake::Sleep(1));
    assert_eq!(scheduler.poll(135), Wake::Fire);
    assert_eq!(scheduler.poll(135), Wake::Fire);
    assert_eq!(scheduler.poll(135), Wake::Fire);
    assert_eq!(scheduler.poll(135), Wake::Fire);
    assert_eq!(scheduler.poll(135), Wake::Sleep(5));
    assert_eq!(scheduler.next_due_ms(), Some(140));
}

#[test]
fn anchors_depend_on_the_start_and_the_count_alone() {
    let mut early = Scheduler::new(1000, 250).unwrap();
    let mut late = Scheduler::new(1000, 250).unwrap();
    let mut fired = 0u64;
    for k in 0..20u64 {
        assert_eq!(early.poll(1000 + k * 250), Wake::Fire);
        fired += 1;
        assert_eq!(early.next_due_ms(), Some(1000 + fired * 250));
    }
    for k in 0..20u64 {
        assert_eq!(late.poll(1_000_000 + k), Wake::Fire);
        assert_eq!(late.next_due_ms(), Some(1000 + (k + 1) * 250));
    }
    assert_eq!(early.next_due_ms(), late.next_due_ms());
}

#[test]
fn an_anchor_beyond_the_clock_is_never_due() {
    let mut scheduler = Scheduler::new(u64::MAX - 5, 10).unwrap();
    assert_eq!(scheduler.poll(u64::MAX - 6), Wake::Sleep(1));
    assert_eq!(scheduler.poll(u64::MAX - 5), Wake::Fire);
    assert_eq!(scheduler.next_due_ms(), None);
    assert_eq!(scheduler.poll(u64::MAX - 1), Wake::Never);
    assert_eq!(scheduler.poll(u64::MAX), Wake::Never);
}

#[test]
fn the_last_anchor_may_be_the_end_of_the_clock() {
    let mut scheduler = Scheduler::new(u64::MAX - 10, 10).unwrap();
    assert_eq!(scheduler.poll(u64::MAX - 10), Wake::Fire);
    assert_eq!(scheduler.next_due_ms(), Some(u64::MAX));
    assert_eq!(scheduler.poll(u64::MAX - 1), Wake::Sleep(1));
    assert_eq!(scheduler.poll(u64::MAX), Wake::Fire);
    assert_eq!(scheduler.poll(u64::MAX), Wake::Never);
}

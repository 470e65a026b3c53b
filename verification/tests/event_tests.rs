use unlimited_power::signal::Event;

#[test]
fn manual_event_can_be_created() {
    Event::new(true, false);
}

#[test]
fn auto_event_can_be_created() {
    Event::new(false, false);
}

#[test]
fn manual_event_can_be_awaited() {
    let mut event = Event::new(true, false);
    event.set();
    let waiter = event.signaled();
    assert!(event.poll(waiter));
}

#[test]
fn auto_event_can_be_awaited() {
    let mut event = Event::new(false, false);
    event.set();
    let waiter = event.signaled();
    assert!(event.poll(waiter));
}

#[test]
fn manual_event_can_be_awaited_twice() {
    let mut event = Event::new(true, false);
    event.set();
    let first = event.signaled();
    assert!(event.poll(first));
    let second = event.signaled();
    assert!(event.poll(second));
}

#[test]
fn manual_event_future_can_be_dropped_without_awaiting() {
    let mut event = Event::new(true, false);
    let waiter = event.signaled();
    event.drop_waiter(waiter);
}

#[test]
fn auto_event_future_can_be_dropped_without_awaiting() {
    let mut event = Event::new(false, false);
    let waiter = event.signaled();
    event.drop_waiter(waiter);
}

#[test]
fn manual_event_future_doesnt_leak() {
    let mut event = Event::new(true, false);
    let waiter = event.signaled();
    event.drop_waiter(waiter);
    assert_eq!(event.live_waiters(), 0);
}

#[test]
fn auto_event_future_doesnt_leak() {
    let mut event = Event::new(false, false);
    let waiter = event.signaled();
    event.drop_waiter(waiter);
    assert_eq!(event.live_waiters(), 0);
}

#[test]
fn await_resolves_immediately_after_prior_set() {
    // A subscription made after `set` (and no reset since) is woken at
    // once; one made after a reset is not.
    let mut event = Event::new(true, false);
    event.set();
    let woken = event.signaled();
    assert!(event.poll(woken));
    event.reset();
    let pending = event.signaled();
    assert!(!event.poll(pending));
}

#[test]
fn reset_then_set_rearms() {
    let mut event = Event::new(true, false);
    event.set();
    event.reset();
    let pending = event.signaled();
    assert!(!event.poll(pending));
    event.set();
    assert!(event.poll(pending));
    let fresh = event.signaled();
    assert!(event.poll(fresh));
}

#[test]
fn reset_does_not_take_back_a_wake() {
    let mut event = Event::new(true, false);
    let waiter = event.signaled();
    event.set();
    event.reset();
    assert!(event.poll(waiter));
}

#[test]
fn auto_event_wakes_one_waiter_per_set() {
    let mut event = Event::new(false, false);
    let first = event.signaled();
    let second = event.signaled();
    event.set();
    assert!(event.poll(first));
    assert!(!event.poll(second));
    event.set();
    assert!(event.poll(second));
}

#[test]
fn dropping_one_waiter_leaves_the_others() {
    let mut event = Event::new(true, false);
    let first = event.signaled();
    let second = event.signaled();
    assert_eq!(event.live_waiters(), 2);
    event.drop_waiter(first);
    assert_eq!(event.live_waiters(), 1);
    event.set();
    assert!(event.poll(second));
    assert!(!event.poll(first));
}

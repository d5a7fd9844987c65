use rubic::broadcast::{first_send, hold_back, send_priority, SendPriority};

#[test]
fn first_sends_are_recognised() {
    assert!(first_send(None));
    assert!(first_send(Some("0")));
    assert!(first_send(Some("false")));
    assert!(!first_send(Some("1")));
    assert!(!first_send(Some("true")));
}

#[test]
fn only_resent_steps_wait() {
    assert!(!hold_back(true, true, Some("100"), 100));
    assert!(!hold_back(false, false, Some("100"), 100));
    assert!(hold_back(true, false, Some("100"), 102));
    assert!(!hold_back(true, false, Some("100"), 103));
    // An unreadable last send counts as tick 0.
    assert!(!hold_back(true, false, Some("x"), 3));
    assert!(hold_back(true, false, None, 2));
}

#[test]
fn sends_are_queued_by_urgency() {
    assert_eq!(send_priority(true, true), SendPriority::Urgent);
    assert_eq!(send_priority(false, true), SendPriority::High);
    assert_eq!(send_priority(false, false), SendPriority::Routine);
}

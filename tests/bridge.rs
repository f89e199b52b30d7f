use monoio::shared_fd::SharedFd;
use monoio::wake::{wake_reason, WakeCounter, WakeReason, WAKE_COUNTER_MAX};

#[test]
fn notifications_add_up_until_drained() {
    let mut c = WakeCounter::new();
    assert!(!c.is_ready());
    for _ in 0..5 {
        c.notify();
    }
    assert!(c.is_ready());
    assert_eq!(c.drain(), 5);
    assert!(!c.is_ready());
    assert_eq!(c.drain(), 0);
}

#[test]
fn no_lost_wake_after_notifies() {
    let mut c = WakeCounter::new();
    c.notify();
    c.notify();
    c.notify();
    let drained = c.drain();
    assert!(drained > 0);
    assert_ne!(wake_reason(0, drained), WakeReason::TimedOut);
    assert_eq!(wake_reason(0, drained), WakeReason::ExternalNotify);
}

#[test]
fn wake_reason_priority() {
    assert_eq!(wake_reason(2, 1), WakeReason::Completions);
    assert_eq!(wake_reason(1, 0), WakeReason::Completions);
    assert_eq!(wake_reason(0, 4), WakeReason::ExternalNotify);
    assert_eq!(wake_reason(0, 0), WakeReason::TimedOut);
    assert_eq!(WAKE_COUNTER_MAX, u64::MAX - 1);
}

#[test]
fn shared_fd_closes_once_when_last_owner_releases() {
    let mut fd = SharedFd::new(7);
    assert_eq!(fd.raw_fd(), 7);
    assert!(fd.share());
    assert!(fd.share());
    assert_eq!(fd.owners(), 3);
    assert!(!fd.release());
    assert!(!fd.release());
    assert!(fd.release());
    assert_eq!(fd.owners(), 0);
    assert!(!fd.release());
    assert!(!fd.share());
    assert_eq!(fd.owners(), 0);
}

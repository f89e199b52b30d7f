use monoio::cancel::{CancelClassifier, CancelState, DriverAction, Operation, Outcome};

const ECANCELED: i32 = 125;
const ENOENT: i32 = 2;

fn cls() -> CancelClassifier {
    CancelClassifier::new(ECANCELED, ENOENT)
}

#[test]
fn completes_normally() {
    let mut op = Operation::new(vec![1u8, 2]);
    assert!(matches!(op.driver_pass(), DriverAction::Submit));
    assert!(matches!(op.driver_pass(), DriverAction::Wait));
    let r = op.complete(2, &cls());
    assert_eq!(r, Some((Outcome::Completed(2), vec![1u8, 2])));
    assert_eq!(op.state(), CancelState::Completed);
    assert_eq!(op.complete(2, &cls()), None);
}

#[test]
fn cancel_before_submission_returns_buffer_on_pass() {
    let mut op = Operation::new(String::from("buf"));
    op.cancel();
    assert_eq!(op.state(), CancelState::CancelRequested);
    match op.driver_pass() {
        DriverAction::Cancelled(b) => assert_eq!(b, "buf"),
        _ => panic!("expected the buffer back"),
    }
    assert_eq!(op.state(), CancelState::Cancelled);
    assert!(matches!(op.driver_pass(), DriverAction::Wait));
    assert_eq!(op.complete(0, &cls()), None);
}

#[test]
fn cancel_in_flight_confirmed_by_kernel() {
    let mut op = Operation::new(5u32);
    assert!(matches!(op.driver_pass(), DriverAction::Submit));
    op.cancel();
    assert!(matches!(op.driver_pass(), DriverAction::IssueAbort));
    assert!(matches!(op.driver_pass(), DriverAction::Wait));
    assert_eq!(op.complete(-ECANCELED, &cls()), Some((Outcome::Cancelled, 5u32)));
    assert_eq!(op.state(), CancelState::Cancelled);
}

#[test]
fn completion_wins_race_with_cancel() {
    let mut op = Operation::new(5u32);
    let _ = op.driver_pass();
    op.cancel();
    let _ = op.driver_pass();
    assert_eq!(op.complete(17, &cls()), Some((Outcome::Completed(17), 5u32)));
    assert_eq!(op.state(), CancelState::Completed);
}

#[test]
fn failed_operation_without_cancel_is_a_completion() {
    let mut op = Operation::new(0u8);
    let _ = op.driver_pass();
    assert_eq!(op.complete(-ECANCELED, &cls()), Some((Outcome::Completed(-ECANCELED), 0u8)));
}

#[test]
fn double_cancel_after_end_is_noop() {
    let mut op = Operation::new(3u8);
    let _ = op.driver_pass();
    let mut returned = 0;
    if op.complete(4, &cls()).is_some() {
        returned += 1;
    }
    op.cancel();
    op.cancel();
    assert_eq!(op.state(), CancelState::Completed);
    if let DriverAction::Cancelled(_) = op.driver_pass() {
        returned += 1;
    }
    if op.complete(-ECANCELED, &cls()).is_some() {
        returned += 1;
    }
    assert_eq!(returned, 1);
}

#[test]
fn abort_reply_not_found_is_benign() {
    let c = cls();
    assert_eq!(c.abort_result(0), Ok(()));
    assert_eq!(c.abort_result(-ENOENT), Ok(()));
    assert_eq!(c.abort_result(-22), Err(-22));
    assert!(c.is_cancel_confirmed(-ECANCELED));
    assert!(!c.is_cancel_confirmed(ECANCELED));
    assert!(!c.is_cancel_confirmed(-ENOENT));
}

#[test]
fn host_classifier_uses_platform_numbers() {
    let c = CancelClassifier::host();
    assert_eq!(c.cancelled_code, libc::ECANCELED);
    assert_eq!(c.not_found_code, libc::ENOENT);
    assert!(c.is_cancel_confirmed(-libc::ECANCELED));
    assert_eq!(c.abort_result(-libc::ENOENT), Ok(()));
}

use monoio::cancel::{CancelClassifier, Outcome};
use monoio::driver::OpTable;
use monoio::scheduler::{RuntimeContext, Tier};

fn cls() -> CancelClassifier {
    CancelClassifier::new(125, 2)
}

#[test]
fn dispatch_requeues_waiting_task() {
    let mut table: OpTable<&str, Vec<u8>> = OpTable::new();
    let mut cx: RuntimeContext<&str> = RuntimeContext::new();
    cx.tasks.push("other");
    let a = table.submit(Tier::Primary, "reader", vec![0; 4]);
    let b = table.submit(Tier::Secondary, "writer", vec![1; 2]);
    assert_eq!((a, b), (0, 1));
    assert_eq!(table.take(a), None);
    assert!(table.dispatch(a, 4, &cls(), &mut cx));
    assert_eq!(cx.tasks.pop(), Some("other"));
    assert_eq!(cx.tasks.pop(), Some("reader"));
    assert!(cx.sub_tasks.is_empty());
    assert!(table.dispatch(b, 2, &cls(), &mut cx));
    assert_eq!(cx.sub_tasks.pop(), Some("writer"));
    assert_eq!(table.take(a), Some((Outcome::Completed(4), vec![0; 4])));
    assert_eq!(table.take(a), None);
    assert_eq!(table.take(b), Some((Outcome::Completed(2), vec![1; 2])));
}

#[test]
fn dispatch_twice_or_unknown_tag_is_ignored() {
    let mut table: OpTable<u32, u8> = OpTable::new();
    let mut cx: RuntimeContext<u32> = RuntimeContext::new();
    let t = table.submit(Tier::Primary, 1, 9);
    assert!(table.dispatch(t, 0, &cls(), &mut cx));
    assert!(!table.dispatch(t, 0, &cls(), &mut cx));
    assert!(!table.dispatch(5, 0, &cls(), &mut cx));
    assert_eq!(cx.tasks.len(), 1);
    assert!(!table.cancel(t));
    assert!(!table.cancel(5));
}

#[test]
fn cancel_issues_one_abort_then_confirms() {
    let mut table: OpTable<u32, u8> = OpTable::new();
    let mut cx: RuntimeContext<u32> = RuntimeContext::new();
    let t = table.submit(Tier::Primary, 7, 3);
    assert!(table.cancel(t));
    assert!(!table.cancel(t));
    assert!(table.dispatch(t, -125, &cls(), &mut cx));
    assert_eq!(cx.tasks.pop(), Some(7));
    assert_eq!(table.take(t), Some((Outcome::Cancelled, 3)));
}

#[test]
fn cancelled_operation_that_finished_anyway() {
    let mut table: OpTable<u32, u8> = OpTable::new();
    let mut cx: RuntimeContext<u32> = RuntimeContext::new();
    let t = table.submit(Tier::Primary, 7, 3);
    assert!(table.cancel(t));
    assert!(table.dispatch(t, 1, &cls(), &mut cx));
    assert_eq!(table.take(t), Some((Outcome::Completed(1), 3)));
}

#[test]
fn double_cancel_after_delivery_changes_nothing() {
    let mut table: OpTable<u32, Vec<u8>> = OpTable::new();
    let mut cx: RuntimeContext<u32> = RuntimeContext::new();
    let t = table.submit(Tier::Primary, 4, vec![8]);
    assert!(table.dispatch(t, 1, &cls(), &mut cx));
    assert_eq!(cx.tasks.pop(), Some(4));
    assert_eq!(table.take(t), Some((Outcome::Completed(1), vec![8])));
    assert!(!table.cancel(t));
    assert!(!table.cancel(t));
    assert!(!table.dispatch(t, -125, &cls(), &mut cx));
    assert!(cx.tasks.is_empty());
    assert_eq!(table.take(t), None);
}

use monoio::scheduler::{LocalScheduler, Phase, RuntimeContext, SubLocalScheduler, Tier};
use monoio::task_queue::TaskQueue;

fn drain(q: &mut TaskQueue<u32>) -> Vec<u32> {
    let mut out = Vec::new();
    while let Some(t) = q.pop() {
        out.push(t);
    }
    out
}

#[test]
fn queue_starts_empty() {
    let q: TaskQueue<u32> = TaskQueue::new();
    assert!(q.is_empty());
    assert_eq!(q.len(), 0);
    let q: TaskQueue<u32> = TaskQueue::new_with_capacity(3);
    assert!(q.is_empty());
    let q: TaskQueue<u32> = TaskQueue::default();
    assert_eq!(q.len(), 0);
}

#[test]
fn queue_pop_on_empty_is_none() {
    let mut q: TaskQueue<u32> = TaskQueue::new();
    assert_eq!(q.pop(), None);
    assert!(q.is_empty());
}

#[test]
fn queue_push_is_fifo() {
    let mut q = TaskQueue::new_with_capacity(1);
    q.push(1);
    q.push(2);
    q.push(3);
    assert_eq!(q.len(), 3);
    assert!(!q.is_empty());
    assert_eq!(drain(&mut q), vec![1, 2, 3]);
}

#[test]
fn queue_push_front_goes_first() {
    let mut q = TaskQueue::new();
    q.push(1);
    q.push(2);
    q.push_front(9);
    q.push(3);
    assert_eq!(drain(&mut q), vec![9, 1, 2, 3]);
}

#[test]
fn queue_clear_empties() {
    let mut q = TaskQueue::new();
    q.push(1);
    q.push_front(2);
    q.clear();
    assert!(q.is_empty());
    assert_eq!(q.pop(), None);
}

#[test]
fn ordering_interleaved_with_pops() {
    // schedule a, b; pop a; yield y; schedule c; pop y; pop b; pop c
    let mut cx: RuntimeContext<char> = RuntimeContext::new();
    LocalScheduler.schedule(&mut cx, 'a');
    LocalScheduler.schedule(&mut cx, 'b');
    assert_eq!(cx.tasks.pop(), Some('a'));
    LocalScheduler.yield_now(&mut cx, 'y');
    LocalScheduler.schedule(&mut cx, 'c');
    assert_eq!(cx.tasks.pop(), Some('y'));
    assert_eq!(cx.tasks.pop(), Some('b'));
    assert_eq!(cx.tasks.pop(), Some('c'));
    assert_eq!(cx.tasks.pop(), None);
    assert!(cx.sub_tasks.is_empty());
}

#[test]
fn tiers_are_separate() {
    let mut cx: RuntimeContext<u32> = RuntimeContext::new();
    SubLocalScheduler.schedule(&mut cx, 1);
    SubLocalScheduler.yield_now(&mut cx, 2);
    LocalScheduler.schedule(&mut cx, 3);
    assert_eq!(cx.tasks.len(), 1);
    assert_eq!(cx.sub_tasks.len(), 2);
    assert_eq!(cx.sub_tasks.pop(), Some(2));
    assert_eq!(cx.sub_tasks.pop(), Some(1));
}

#[test]
fn run_pass_primary_before_secondary() {
    let mut cx: RuntimeContext<u32> = RuntimeContext::new();
    SubLocalScheduler.schedule(&mut cx, 10);
    LocalScheduler.schedule(&mut cx, 1);
    LocalScheduler.schedule(&mut cx, 2);
    let mut phase = cx.begin_pass();
    assert_eq!(phase, Phase::Primary(2));
    assert_eq!(cx.next_task(&mut phase), Some((Tier::Primary, 1)));
    assert_eq!(cx.next_task(&mut phase), Some((Tier::Primary, 2)));
    assert_eq!(cx.next_task(&mut phase), Some((Tier::Secondary, 10)));
    assert_eq!(cx.next_task(&mut phase), None);
    assert_eq!(phase, Phase::Done);
    assert_eq!(cx.next_task(&mut phase), None);
}

#[test]
fn run_pass_bounds_self_rescheduling() {
    let mut cx: RuntimeContext<u32> = RuntimeContext::new();
    LocalScheduler.schedule(&mut cx, 1);
    SubLocalScheduler.schedule(&mut cx, 7);
    let mut phase = cx.begin_pass();
    // the primary task reschedules itself each time it runs
    let first = cx.next_task(&mut phase);
    assert_eq!(first, Some((Tier::Primary, 1)));
    LocalScheduler.schedule(&mut cx, 1);
    assert_eq!(cx.next_task(&mut phase), Some((Tier::Secondary, 7)));
    SubLocalScheduler.schedule(&mut cx, 7);
    assert_eq!(cx.next_task(&mut phase), None);
    assert_eq!(cx.tasks.len(), 1);
    assert_eq!(cx.sub_tasks.len(), 1);
}

#[test]
fn run_pass_on_empty_context_ends() {
    let mut cx: RuntimeContext<u32> = RuntimeContext::new();
    let mut phase = cx.begin_pass();
    assert_eq!(phase, Phase::Primary(0));
    assert_eq!(cx.next_task(&mut phase), None);
    assert_eq!(phase, Phase::Done);
}

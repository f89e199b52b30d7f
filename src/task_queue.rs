//! A thread-confined double-ended queue of tasks for one scheduling tier.

use std::collections::VecDeque;
use std::marker::PhantomData;
use std::rc::Rc;
use vstd::layout::size_of;
use vstd::prelude::*;

verus! {

/// Capacity reserved by [`TaskQueue::new`].
pub const DEFAULT_TASK_QUEUE_SIZE: usize = 4096;

/// The queue of one tier. It is owned by the worker thread that made it: it
/// takes no lock, and the marker field keeps it from being sent to, or shared
/// with, another thread.
pub struct TaskQueue<T> {
    queue: VecDeque<T>,
    _marker: PhantomData<Rc<()>>,
}

impl<T> View for TaskQueue<T> {
    type V = Seq<T>;

    /// The tasks in the order in which `pop` hands them out.
    closed spec fn view(&self) -> Seq<T> {
        self.queue@
    }
}

impl<T> TaskQueue<T> {
    /// An empty queue with room for the default number of tasks.
    pub fn new() -> (r: Self)
        requires
            DEFAULT_TASK_QUEUE_SIZE * size_of::<T>() <= isize::MAX,
        ensures
            r@ == Seq::<T>::empty(),
    {
        Self::new_with_capacity(DEFAULT_TASK_QUEUE_SIZE)
    }

    /// An empty queue with room for `capacity` tasks before it grows. The
    /// room asked for must fit in `isize::MAX` bytes.
    pub fn new_with_capacity(capacity: usize) -> (r: Self)
        requires
            capacity * size_of::<T>() <= isize::MAX,
        ensures
            r@ == Seq::<T>::empty(),
    {
        TaskQueue { queue: VecDeque::with_capacity(capacity), _marker: PhantomData }
    }

    pub fn len(&self) -> (r: usize)
        ensures
            r == self@.len(),
    {
        self.queue.len()
    }

    pub fn is_empty(&self) -> (r: bool)
        ensures
            r <==> self@.len() == 0,
    {
        self.len() == 0
    }

    /// Enqueues at the back: the task runs after every task already queued.
    pub fn push(&mut self, runnable: T)
        ensures
            final(self)@ == old(self)@.push(runnable),
    {
        self.queue.push_back(runnable);
    }

    /// Enqueues at the front: the task runs before every task already queued.
    pub fn push_front(&mut self, runnable: T)
        ensures
            final(self)@ == seq![runnable] + old(self)@,
    {
        self.queue.push_front(runnable);
    }

    /// Removes the front task; `None` on an empty queue, which is no error.
    pub fn pop(&mut self) -> (r: Option<T>)
        ensures
            old(self)@.len() == 0 ==> r is None && final(self)@ == old(self)@,
            old(self)@.len() > 0 ==> r == Some(old(self)@[0]) && final(self)@ == old(
                self,
            )@.drop_first(),
    {
        self.queue.pop_front()
    }

    /// Drops every queued task, front first, leaving the queue empty.
    pub fn clear(&mut self)
        ensures
            final(self)@ == Seq::<T>::empty(),
    {
        while !self.is_empty()
            decreases self@.len(),
        {
            let _task = self.pop();
        }
    }
}

impl<T> Default for TaskQueue<T> {
    /// An empty queue that allocates on its first push, so that it needs no
    /// bound on the size of `T`.
    fn default() -> (r: Self)
        ensures
            r@ == Seq::<T>::empty(),
    {
        TaskQueue { queue: VecDeque::new(), _marker: PhantomData }
    }
}

/// One operation on a tier's queue, as the scheduler and the run loop make it.
pub enum QueueOp<T> {
    Schedule(T),
    Yield(T),
    Pop,
}

/// The queue after `op`, as `push`, `push_front` and `pop` leave it.
pub open spec fn step<T>(q: Seq<T>, op: QueueOp<T>) -> Seq<T> {
    match op {
        QueueOp::Schedule(t) => q.push(t),
        QueueOp::Yield(t) => seq![t] + q,
        QueueOp::Pop => if q.len() == 0 {
            q
        } else {
            q.drop_first()
        },
    }
}

/// `a` stands before `b` in `q`, so `pop` hands `a` out first.
pub open spec fn ahead<T>(q: Seq<T>, a: T, b: T) -> bool {
    exists|i: int, j: int| 0 <= i < j < q.len() && q[i] == a && q[j] == b
}

/// The task that `op` enqueues, if any, is not queued already.
pub open spec fn fresh<T>(q: Seq<T>, op: QueueOp<T>) -> bool {
    match op {
        QueueOp::Schedule(t) => !q.contains(t),
        QueueOp::Yield(t) => !q.contains(t),
        QueueOp::Pop => true,
    }
}

/// No operation reorders two tasks that stay queued: of two queued tasks, the
/// one ahead stays ahead whatever is scheduled, yielded or popped meanwhile,
/// so a later `schedule` never overtakes an earlier one.
pub proof fn lemma_order_kept<T>(q: Seq<T>, op: QueueOp<T>, a: T, b: T)
    requires
        q.no_duplicates(),
        fresh(q, op),
        ahead(q, a, b),
        step(q, op).contains(a),
        step(q, op).contains(b),
    ensures
        ahead(step(q, op), a, b),
        step(q, op).no_duplicates(),
{
    let (i, j) = choose|i: int, j: int| 0 <= i < j < q.len() && q[i] == a && q[j] == b;
    let r = step(q, op);
    match op {
        QueueOp::Schedule(t) => {
            assert(r[i] == a && r[j] == b);
        },
        QueueOp::Yield(t) => {
            assert(r[i + 1] == a && r[j + 1] == b);
        },
        QueueOp::Pop => {
            let k = choose|k: int| 0 <= k < r.len() && r[k] == a;
            assert(q[k + 1] == a);
            assert(i == k + 1);
            assert(r[i - 1] == a && r[j - 1] == b);
        },
    }
}

/// A scheduled task goes behind every task already queued, and a yielded
/// task goes ahead of every one of them: it is handed out before any task
/// that is scheduled after the yield.
pub proof fn lemma_enqueue_position<T>(q: Seq<T>, t: T)
    ensures
        forall|x: T| q.contains(x) ==> ahead(#[trigger] q.push(t), x, t),
        forall|x: T| q.contains(x) ==> ahead(#[trigger] (seq![t] + q), t, x),
        (seq![t] + q)[0] == t,
{
    assert forall|x: T| q.contains(x) implies ahead(#[trigger] q.push(t), x, t) by {
        let i = choose|i: int| 0 <= i < q.len() && q[i] == x;
        assert(q.push(t)[i] == x && q.push(t)[q.len() as int] == t);
    }
    assert forall|x: T| q.contains(x) implies ahead(#[trigger] (seq![t] + q), t, x) by {
        let i = choose|i: int| 0 <= i < q.len() && q[i] == x;
        assert((seq![t] + q)[0] == t && (seq![t] + q)[i + 1] == x);
    }
}

/// The queue after the operations of `ops`, in order.
pub open spec fn run_ops<T>(q: Seq<T>, ops: Seq<QueueOp<T>>) -> Seq<T>
    decreases ops.len(),
{
    if ops.len() == 0 {
        q
    } else {
        step(run_ops(q, ops.drop_last()), ops.last())
    }
}

/// The task that operation `k` of `ops` hands out: the front of the queue,
/// where it is a pop on a nonempty queue.
pub open spec fn popped_at<T>(q: Seq<T>, ops: Seq<QueueOp<T>>, k: int) -> Option<T> {
    let before = run_ops(q, ops.take(k));
    match ops[k] {
        QueueOp::Pop => if before.len() > 0 {
            Some(before[0])
        } else {
            None
        },
        _ => None,
    }
}

/// Every task that `ops` enqueues is not queued at that moment.
pub open spec fn fresh_trace<T>(q: Seq<T>, ops: Seq<QueueOp<T>>) -> bool {
    forall|k: int| 0 <= k < ops.len() ==> fresh(run_ops(q, ops.take(k)), #[trigger] ops[k])
}

/// `op` puts `t` in the queue.
pub open spec fn enqueues<T>(op: QueueOp<T>, t: T) -> bool {
    match op {
        QueueOp::Schedule(x) => x == t,
        QueueOp::Yield(x) => x == t,
        QueueOp::Pop => false,
    }
}

/// No operation of `ops` from index `from` on puts `t` in the queue.
pub open spec fn not_enqueued_from<T>(ops: Seq<QueueOp<T>>, t: T, from: int) -> bool {
    forall|k: int| from <= k < ops.len() ==> !enqueues(#[trigger] ops[k], t)
}

proof fn lemma_run_step<T>(q: Seq<T>, ops: Seq<QueueOp<T>>, n: int)
    requires
        0 <= n < ops.len(),
    ensures
        run_ops(q, ops.take(n + 1)) == step(run_ops(q, ops.take(n)), ops[n]),
{
    assert(ops.take(n + 1).drop_last() =~= ops.take(n));
}

proof fn lemma_step_no_dups<T>(s: Seq<T>, op: QueueOp<T>)
    requires
        s.no_duplicates(),
        fresh(s, op),
    ensures
        step(s, op).no_duplicates(),
{
    let r = step(s, op);
    match op {
        QueueOp::Schedule(t) => {
            assert forall|i: int, j: int| 0 <= i < r.len() && 0 <= j < r.len() && i != j implies r[i]
                != r[j] by {
                if i == s.len() {
                    assert(s.contains(r[j]) ==> r[j] != t);
                    assert(s[j] == r[j]);
                } else if j == s.len() {
                    assert(s[i] == r[i]);
                }
            }
        },
        QueueOp::Yield(t) => {
            assert forall|i: int, j: int| 0 <= i < r.len() && 0 <= j < r.len() && i != j implies r[i]
                != r[j] by {
                if i == 0 {
                    assert(s[j - 1] == r[j]);
                } else if j == 0 {
                    assert(s[i - 1] == r[i]);
                } else {
                    assert(s[i - 1] == r[i] && s[j - 1] == r[j]);
                }
            }
        },
        QueueOp::Pop => {
            if s.len() > 0 {
                assert forall|i: int, j: int|
                    0 <= i < r.len() && 0 <= j < r.len() && i != j implies r[i] != r[j] by {
                    assert(s[i + 1] == r[i] && s[j + 1] == r[j]);
                }
            }
        },
    }
}

proof fn lemma_trace_no_dups<T>(q: Seq<T>, ops: Seq<QueueOp<T>>, n: int)
    requires
        q.no_duplicates(),
        fresh_trace(q, ops),
        0 <= n <= ops.len(),
    ensures
        run_ops(q, ops.take(n)).no_duplicates(),
    decreases n,
{
    if n == 0 {
        assert(ops.take(0) =~= Seq::<QueueOp<T>>::empty());
    } else {
        lemma_trace_no_dups(q, ops, n - 1);
        lemma_run_step(q, ops, n - 1);
        assert(fresh(run_ops(q, ops.take(n - 1)), ops[n - 1]));
        lemma_step_no_dups(run_ops(q, ops.take(n - 1)), ops[n - 1]);
    }
}

/// A queued task leaves the queue only by being popped.
proof fn lemma_stays_until_popped<T>(q: Seq<T>, ops: Seq<QueueOp<T>>, a: T, m: int, n: int)
    requires
        q.no_duplicates(),
        fresh_trace(q, ops),
        0 <= m <= n <= ops.len(),
        run_ops(q, ops.take(m)).contains(a),
    ensures
        (exists|j: int| m <= j < n && popped_at(q, ops, j) == Some(a)) || run_ops(
            q,
            ops.take(n),
        ).contains(a),
    decreases n - m,
{
    if n > m {
        lemma_stays_until_popped(q, ops, a, m, n - 1);
        if !(exists|j: int| m <= j < n - 1 && popped_at(q, ops, j) == Some(a)) {
            let s = run_ops(q, ops.take(n - 1));
            lemma_run_step(q, ops, n - 1);
            let i = choose|i: int| 0 <= i < s.len() && s[i] == a;
            match ops[n - 1] {
                QueueOp::Schedule(t) => {
                    assert(step(s, ops[n - 1])[i] == a);
                },
                QueueOp::Yield(t) => {
                    assert(step(s, ops[n - 1])[i + 1] == a);
                },
                QueueOp::Pop => {
                    if i == 0 {
                        assert(popped_at(q, ops, n - 1) == Some(a));
                    } else {
                        assert(step(s, ops[n - 1])[i - 1] == a);
                    }
                },
            }
        }
    }
}

/// Two queued tasks keep their order until the one ahead is popped.
proof fn lemma_stays_ahead<T>(q: Seq<T>, ops: Seq<QueueOp<T>>, a: T, b: T, m: int, n: int)
    requires
        q.no_duplicates(),
        fresh_trace(q, ops),
        0 <= m <= n <= ops.len(),
        ahead(run_ops(q, ops.take(m)), a, b),
        not_enqueued_from(ops, a, m),
        not_enqueued_from(ops, b, m),
    ensures
        (exists|j: int| m <= j < n && popped_at(q, ops, j) == Some(a)) || ahead(
            run_ops(q, ops.take(n)),
            a,
            b,
        ),
    decreases n - m,
{
    if n > m {
        lemma_stays_ahead(q, ops, a, b, m, n - 1);
        if !(exists|j: int| m <= j < n - 1 && popped_at(q, ops, j) == Some(a)) {
            let s = run_ops(q, ops.take(n - 1));
            let op = ops[n - 1];
            lemma_run_step(q, ops, n - 1);
            lemma_trace_no_dups(q, ops, n - 1);
            assert(fresh(s, op));
            assert(!enqueues(op, a) && !enqueues(op, b));
            let (i, j) = choose|i: int, j: int| 0 <= i < j < s.len() && s[i] == a && s[j] == b;
            match op {
                QueueOp::Schedule(t) => {
                    assert(step(s, op)[i] == a && step(s, op)[j] == b);
                    lemma_order_kept(s, op, a, b);
                },
                QueueOp::Yield(t) => {
                    assert(step(s, op)[i + 1] == a && step(s, op)[j + 1] == b);
                    lemma_order_kept(s, op, a, b);
                },
                QueueOp::Pop => {
                    if i == 0 {
                        assert(popped_at(q, ops, n - 1) == Some(a));
                    } else {
                        assert(step(s, op)[i - 1] == a && step(s, op)[j - 1] == b);
                    }
                },
            }
        }
    }
}

/// Of two queued tasks, the one ahead is popped first: if, from step `m` on,
/// `a` stands ahead of `b` and neither is enqueued again, then before the pop
/// at step `k` that hands out `b`, some pop has handed out `a`.
pub proof fn lemma_no_overtaking<T>(q: Seq<T>, ops: Seq<QueueOp<T>>, a: T, b: T, m: int, k: int)
    requires
        q.no_duplicates(),
        fresh_trace(q, ops),
        0 <= m <= k < ops.len(),
        ahead(run_ops(q, ops.take(m)), a, b),
        not_enqueued_from(ops, a, m),
        not_enqueued_from(ops, b, m),
        popped_at(q, ops, k) == Some(b),
    ensures
        exists|j: int| m <= j < k && popped_at(q, ops, j) == Some(a),
{
    lemma_stays_ahead(q, ops, a, b, m, k);
    lemma_trace_no_dups(q, ops, k);
    let s = run_ops(q, ops.take(k));
    if ahead(s, a, b) {
        let (i, j) = choose|i: int, j: int| 0 <= i < j < s.len() && s[i] == a && s[j] == b;
        assert(s[0] == b);
        assert(false);
    }
}

/// A later `schedule` never overtakes an earlier enqueue: where step `i`
/// schedules or yields `a`, a later step `m` schedules `b`, and neither is
/// enqueued again, the pop that hands out `b` comes after one that hands out
/// `a`. With `a` yielded, this says that a yielded task is handed out before
/// any task scheduled after the yield.
pub proof fn lemma_schedule_order<T>(
    q: Seq<T>,
    ops: Seq<QueueOp<T>>,
    a: T,
    b: T,
    i: int,
    m: int,
    k: int,
)
    requires
        q.no_duplicates(),
        fresh_trace(q, ops),
        0 <= i < m < k < ops.len(),
        enqueues(ops[i], a),
        ops[m] == QueueOp::Schedule(b),
        not_enqueued_from(ops, a, i + 1),
        not_enqueued_from(ops, b, m + 1),
        popped_at(q, ops, k) == Some(b),
    ensures
        exists|j: int| i < j < k && popped_at(q, ops, j) == Some(a),
{
    let s0 = run_ops(q, ops.take(i));
    lemma_run_step(q, ops, i);
    match ops[i] {
        QueueOp::Schedule(t) => {
            assert(step(s0, ops[i])[s0.len() as int] == a);
        },
        QueueOp::Yield(t) => {
            assert(step(s0, ops[i])[0] == a);
        },
        QueueOp::Pop => {},
    }
    lemma_stays_until_popped(q, ops, a, i + 1, m);
    if !(exists|j: int| i + 1 <= j < m && popped_at(q, ops, j) == Some(a)) {
        let s = run_ops(q, ops.take(m));
        lemma_run_step(q, ops, m);
        lemma_enqueue_position(s, b);
        assert(ahead(s.push(b), a, b));
        lemma_no_overtaking(q, ops, a, b, m + 1, k);
    }
}

} // verus!

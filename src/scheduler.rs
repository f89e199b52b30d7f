//! The two scheduling tiers of a worker and the order in which its run loop
//! takes tasks from them.

use crate::task_queue::{TaskQueue, DEFAULT_TASK_QUEUE_SIZE};
use vstd::layout::size_of;
use vstd::prelude::*;

verus! {

/// A scheduling tier.
#[derive(Clone, Copy, Debug, PartialEq, Eq, Structural)]
pub enum Tier {
    Primary,
    Secondary,
}

/// The queues of one worker, installed for the length of one blocking run.
pub struct RuntimeContext<T> {
    pub tasks: TaskQueue<T>,
    pub sub_tasks: TaskQueue<T>,
}

impl<T> RuntimeContext<T> {
    pub open spec fn queue(&self, tier: Tier) -> Seq<T> {
        match tier {
            Tier::Primary => self.tasks@,
            Tier::Secondary => self.sub_tasks@,
        }
    }

    /// A context with both tiers empty, each with room for the default
    /// number of tasks.
    pub fn new() -> (r: Self)
        requires
            DEFAULT_TASK_QUEUE_SIZE * size_of::<T>() <= isize::MAX,
        ensures
            r.tasks@ == Seq::<T>::empty(),
            r.sub_tasks@ == Seq::<T>::empty(),
    {
        RuntimeContext { tasks: TaskQueue::new(), sub_tasks: TaskQueue::new() }
    }

    /// Enqueues `task` at the back of `tier`; the other tier is untouched.
    pub fn schedule_on(&mut self, tier: Tier, task: T)
        ensures
            final(self).queue(tier) == old(self).queue(tier).push(task),
            tier == Tier::Primary ==> final(self).sub_tasks@ == old(self).sub_tasks@,
            tier == Tier::Secondary ==> final(self).tasks@ == old(self).tasks@,
    {
        match tier {
            Tier::Primary => self.tasks.push(task),
            Tier::Secondary => self.sub_tasks.push(task),
        }
    }

    /// Enqueues `task` at the front of `tier`; the other tier is untouched.
    pub fn yield_on(&mut self, tier: Tier, task: T)
        ensures
            final(self).queue(tier) == seq![task] + old(self).queue(tier),
            tier == Tier::Primary ==> final(self).sub_tasks@ == old(self).sub_tasks@,
            tier == Tier::Secondary ==> final(self).tasks@ == old(self).tasks@,
    {
        match tier {
            Tier::Primary => self.tasks.push_front(task),
            Tier::Secondary => self.sub_tasks.push_front(task),
        }
    }
}

/// How far a run pass has gone. A pass takes at most as many primary tasks as
/// the primary tier held when the pass began, so that a task that keeps
/// rescheduling itself cannot starve the rest; then at most as many secondary
/// tasks as that tier held when the primary part ended.
#[derive(Clone, Copy, Debug, PartialEq, Eq, Structural)]
pub enum Phase {
    Primary(usize),
    Secondary(usize),
    Done,
}

/// Whether the next step of a pass takes a primary task.
pub open spec fn primary_turn<T>(cx: &RuntimeContext<T>, phase: Phase) -> bool {
    match phase {
        Phase::Primary(k) => k > 0 && cx.tasks@.len() > 0,
        _ => false,
    }
}

/// The number of secondary tasks the pass may still take, once the primary
/// part is over.
pub open spec fn secondary_left<T>(cx: &RuntimeContext<T>, phase: Phase) -> nat {
    match phase {
        Phase::Primary(_) => cx.sub_tasks@.len(),
        Phase::Secondary(k) => k as nat,
        Phase::Done => 0,
    }
}

impl<T> RuntimeContext<T> {
    /// Starts a run pass over the tasks queued now.
    pub fn begin_pass(&self) -> (r: Phase)
        ensures
            r == Phase::Primary(self.tasks@.len() as usize),
    {
        Phase::Primary(self.tasks.len())
    }

    /// Takes the next task of the pass, with the tier it came from, or ends
    /// the pass with `None`, after which the worker waits for I/O.
    pub fn next_task(&mut self, phase: &mut Phase) -> (r: Option<(Tier, T)>)
        ensures
            primary_turn(old(self), *old(phase)) ==> {
                &&& r == Some((Tier::Primary, old(self).tasks@[0]))
                &&& final(self).tasks@ == old(self).tasks@.drop_first()
                &&& final(self).sub_tasks@ == old(self).sub_tasks@
                &&& *final(phase) == Phase::Primary((old(phase)->Primary_0 - 1) as usize)
            },
            !primary_turn(old(self), *old(phase)) && secondary_left(old(self), *old(phase)) > 0
                && old(self).sub_tasks@.len() > 0 ==> {
                &&& r == Some((Tier::Secondary, old(self).sub_tasks@[0]))
                &&& final(self).sub_tasks@ == old(self).sub_tasks@.drop_first()
                &&& final(self).tasks@ == old(self).tasks@
                &&& *final(phase) == Phase::Secondary(
                    (secondary_left(old(self), *old(phase)) - 1) as usize,
                )
            },
            !primary_turn(old(self), *old(phase)) && (secondary_left(old(self), *old(phase)) == 0
                || old(self).sub_tasks@.len() == 0) ==> {
                &&& r is None
                &&& final(self).tasks@ == old(self).tasks@
                &&& final(self).sub_tasks@ == old(self).sub_tasks@
                &&& *final(phase) == Phase::Done
            },
    {
        let left: usize = match *phase {
            Phase::Primary(k) => {
                if k > 0 {
                    match self.tasks.pop() {
                        Some(task) => {
                            *phase = Phase::Primary(k - 1);
                            return Some((Tier::Primary, task));
                        },
                        None => {},
                    }
                }
                self.sub_tasks.len()
            },
            Phase::Secondary(k) => k,
            Phase::Done => 0,
        };
        if left > 0 {
            match self.sub_tasks.pop() {
                Some(task) => {
                    *phase = Phase::Secondary(left - 1);
                    return Some((Tier::Secondary, task));
                },
                None => {},
            }
        }
        *phase = Phase::Done;
        None
    }
}

/// The scheduler of the primary tier.
pub struct LocalScheduler;

impl LocalScheduler {
    /// Enqueues `task` at the back of the primary tier.
    pub fn schedule<T>(&self, cx: &mut RuntimeContext<T>, task: T)
        ensures
            final(cx).tasks@ == old(cx).tasks@.push(task),
            final(cx).sub_tasks@ == old(cx).sub_tasks@,
    {
        cx.schedule_on(Tier::Primary, task);
    }

    /// Enqueues `task` at the front of the primary tier.
    pub fn yield_now<T>(&self, cx: &mut RuntimeContext<T>, task: T)
        ensures
            final(cx).tasks@ == seq![task] + old(cx).tasks@,
            final(cx).sub_tasks@ == old(cx).sub_tasks@,
    {
        cx.yield_on(Tier::Primary, task);
    }
}

/// The scheduler of the secondary tier.
pub struct SubLocalScheduler;

impl SubLocalScheduler {
    /// Enqueues `task` at the back of the secondary tier.
    pub fn schedule<T>(&self, cx: &mut RuntimeContext<T>, task: T)
        ensures
            final(cx).sub_tasks@ == old(cx).sub_tasks@.push(task),
            final(cx).tasks@ == old(cx).tasks@,
    {
        cx.schedule_on(Tier::Secondary, task);
    }

    /// Enqueues `task` at the front of the secondary tier.
    pub fn yield_now<T>(&self, cx: &mut RuntimeContext<T>, task: T)
        ensures
            final(cx).sub_tasks@ == seq![task] + old(cx).sub_tasks@,
            final(cx).tasks@ == old(cx).tasks@,
    {
        cx.yield_on(Tier::Secondary, task);
    }
}

} // verus!

//! The driver's table of in-flight operations: it submits them, turns a
//! cancel into at most one abort request, and dispatches each completion to
//! the task that waits for it by re-enqueuing that task on its tier.

use crate::cancel::{
    completion_state, CancelClassifier, CancelState, DriverAction, OpModel, Operation, Outcome,
};
use crate::scheduler::{RuntimeContext, Tier};
use vstd::prelude::*;

verus! {

/// One entry of the table, found by its index, the operation's tag.
pub enum Slot<T, B> {
    Vacant,
    /// Submitted and not yet completed; `task` waits for it on `tier`.
    Waiting { tier: Tier, task: T, op: Operation<B> },
    /// Completed; the outcome and the buffer wait for the task to take them.
    Ready { outcome: Outcome, buf: B },
}

/// What an operation that has just been submitted looks like.
pub open spec fn submitted_model() -> OpModel {
    OpModel {
        state: CancelState::Armed,
        submitted: true,
        abort_issued: false,
        holds_buffer: true,
    }
}

/// The outcome with which a completion `result` ends an operation.
pub open spec fn outcome_of(m: OpModel, result: i32, cls: CancelClassifier) -> Outcome {
    if completion_state(m, result, cls) == CancelState::Cancelled {
        Outcome::Cancelled
    } else {
        Outcome::Completed(result)
    }
}

pub struct OpTable<T, B> {
    slots: Vec<Slot<T, B>>,
}

impl<T, B> View for OpTable<T, B> {
    type V = Seq<Slot<T, B>>;

    closed spec fn view(&self) -> Seq<Slot<T, B>> {
        self.slots@
    }
}

/// A waiting operation has been submitted, has not ended, and holds its
/// buffer.
pub open spec fn slot_wf<T, B>(s: Slot<T, B>) -> bool {
    match s {
        Slot::Waiting { op, .. } => {
            &&& op@.wf()
            &&& op@.submitted
            &&& op@.holds_buffer
            &&& op@.abort_issued ==> op@.state == CancelState::CancelRequested
        },
        _ => true,
    }
}

impl<T, B> OpTable<T, B> {
    pub open spec fn wf(&self) -> bool {
        forall|i: int| 0 <= i < self@.len() ==> slot_wf(#[trigger] self@[i])
    }

    pub fn new() -> (r: Self)
        ensures
            r.wf(),
            r@ == Seq::<Slot<T, B>>::empty(),
    {
        OpTable { slots: Vec::new() }
    }

    /// Submits an operation on `buf` for `task`, which waits on `tier`, and
    /// returns its tag.
    pub fn submit(&mut self, tier: Tier, task: T, buf: B) -> (tag: usize)
        requires
            old(self).wf(),
            old(self)@.len() < usize::MAX,
        ensures
            final(self).wf(),
            tag == old(self)@.len(),
            final(self)@.len() == old(self)@.len() + 1,
            forall|i: int| 0 <= i < tag ==> final(self)@[i] == old(self)@[i],
            match final(self)@[tag as int] {
                Slot::Waiting { tier: w, task: t, op } => w == tier && t == task && op@
                    == submitted_model() && op.buffer() == buf,
                _ => false,
            },
    {
        let mut op = Operation::new(buf);
        let _ = op.driver_pass();
        let tag = self.slots.len();
        self.slots.push(Slot::Waiting { tier, task, op });
        tag
    }

    /// Cancels the operation `tag`. `true` tells the driver to send the
    /// kernel an abort request now; it is so once per operation, and never
    /// for one that has completed or that the table does not hold.
    pub fn cancel(&mut self, tag: usize) -> (abort: bool)
        requires
            old(self).wf(),
        ensures
            final(self).wf(),
            final(self)@.len() == old(self)@.len(),
            forall|i: int| 0 <= i < old(self)@.len() && i != tag ==> final(self)@[i] == old(self)@[i],
            match old(self)@[tag as int] {
                Slot::Waiting { tier, task, op } if tag < old(self)@.len() => {
                    &&& abort <==> !op@.abort_issued
                    &&& match final(self)@[tag as int] {
                        Slot::Waiting { tier: w, task: t, op: o } => w == tier && t == task
                            && o@ == (OpModel {
                            state: CancelState::CancelRequested,
                            abort_issued: true,
                            ..op@
                        }) && o.buffer() == op.buffer(),
                        _ => false,
                    }
                },
                _ => !abort && final(self)@ == old(self)@,
            },
    {
        if tag >= self.slots.len() {
            return false;
        }
        let mut slot = Slot::Vacant;
        self.slots.set_and_swap(tag, &mut slot);
        let (abort, back) = match slot {
            Slot::Waiting { tier, task, mut op } => {
                op.cancel();
                let abort = match op.driver_pass() {
                    DriverAction::IssueAbort => true,
                    _ => false,
                };
                (abort, Slot::Waiting { tier, task, op })
            },
            other => (false, other),
        };
        let mut back = back;
        self.slots.set_and_swap(tag, &mut back);
        proof {
            assert(self@ =~= old(self)@.update(tag as int, self@[tag as int]));
            if !(old(self)@[tag as int] is Waiting) {
                assert(self@ =~= old(self)@);
            }
        }
        abort
    }

    /// The kernel reports that operation `tag` finished with `result`. Its
    /// waiting task is re-enqueued at the back of its tier, and the outcome
    /// and the buffer are kept for it; `true` says so. A report for a tag
    /// that does not wait changes nothing.
    pub fn dispatch(
        &mut self,
        tag: usize,
        result: i32,
        cls: &CancelClassifier,
        cx: &mut RuntimeContext<T>,
    ) -> (woken: bool)
        requires
            old(self).wf(),
        ensures
            final(self).wf(),
            final(self)@.len() == old(self)@.len(),
            forall|i: int| 0 <= i < old(self)@.len() && i != tag ==> final(self)@[i] == old(self)@[i],
            match old(self)@[tag as int] {
                Slot::Waiting { tier, task, op } if tag < old(self)@.len() => {
                    &&& woken
                    &&& final(self)@[tag as int] == (Slot::<T, B>::Ready {
                        outcome: outcome_of(op@, result, *cls),
                        buf: op.buffer(),
                    })
                    &&& final(cx).queue(tier) == old(cx).queue(tier).push(task)
                    &&& tier == Tier::Primary ==> final(cx).sub_tasks@ == old(cx).sub_tasks@
                    &&& tier == Tier::Secondary ==> final(cx).tasks@ == old(cx).tasks@
                },
                _ => {
                    &&& !woken
                    &&& final(self)@ == old(self)@
                    &&& final(cx).tasks@ == old(cx).tasks@
                    &&& final(cx).sub_tasks@ == old(cx).sub_tasks@
                },
            },
    {
        if tag >= self.slots.len() {
            return false;
        }
        let mut slot = Slot::Vacant;
        self.slots.set_and_swap(tag, &mut slot);
        let (woken, back) = match slot {
            Slot::Waiting { tier, task, mut op } => {
                match op.complete(result, cls) {
                    Some((outcome, buf)) => {
                        cx.schedule_on(tier, task);
                        (true, Slot::Ready { outcome, buf })
                    },
                    None => (false, Slot::Waiting { tier, task, op }),
                }
            },
            other => (false, other),
        };
        let mut back = back;
        self.slots.set_and_swap(tag, &mut back);
        proof {
            assert(self@ =~= old(self)@.update(tag as int, self@[tag as int]));
            if !(old(self)@[tag as int] is Waiting) {
                assert(self@ =~= old(self)@);
            }
        }
        woken
    }

    /// Hands the outcome and the buffer of completed operation `tag` to its
    /// task and frees the entry; `None` while it has not completed.
    pub fn take(&mut self, tag: usize) -> (r: Option<(Outcome, B)>)
        requires
            old(self).wf(),
        ensures
            final(self).wf(),
            final(self)@.len() == old(self)@.len(),
            match old(self)@[tag as int] {
                Slot::Ready { outcome, buf } if tag < old(self)@.len() => {
                    &&& r == Some((outcome, buf))
                    &&& final(self)@ == old(self)@.update(tag as int, Slot::Vacant)
                },
                _ => r is None && final(self)@ == old(self)@,
            },
    {
        if tag >= self.slots.len() {
            return None;
        }
        let mut slot = Slot::Vacant;
        self.slots.set_and_swap(tag, &mut slot);
        match slot {
            Slot::Ready { outcome, buf } => Some((outcome, buf)),
            other => {
                let mut back = other;
                self.slots.set_and_swap(tag, &mut back);
                proof {
                    assert(self@ =~= old(self)@);
                }
                None
            },
        }
    }
}

} // verus!

//! The handshake that abandons an in-flight operation without letting its
//! buffer go back to the caller while the kernel may still write into it.
//!
//! States: `Armed` goes to `Completed`, or to `CancelRequested` and from there
//! to `Completed` or `Cancelled`. The buffer goes back to the caller on the
//! transition into a terminal state, and on no other.

use vstd::prelude::*;

verus! {

/// Where an operation stands in the handshake.
#[derive(Clone, Copy, Debug, PartialEq, Eq, Structural)]
pub enum CancelState {
    Armed,
    CancelRequested,
    Completed,
    Cancelled,
}

impl CancelState {
    pub open spec fn is_terminal(self) -> bool {
        self == CancelState::Completed || self == CancelState::Cancelled
    }
}

/// Relies on libc::ECANCELED: the nonzero error number with which the
/// kernel completes an operation that an abort request stopped. Its sign and
/// value differ between targets.
#[verifier::external_body]
fn os_cancelled_code() -> (r: i32)
    ensures
        r != 0,
{
    libc::ECANCELED
}

/// Relies on libc::ENOENT: the nonzero error number with which the kernel
/// answers an abort request whose operation it no longer holds. Its sign and
/// value differ between targets.
#[verifier::external_body]
fn os_not_found_code() -> (r: i32)
    ensures
        r != 0,
{
    libc::ENOENT
}

/// Tells the error numbers that matter to the handshake apart. Their values
/// differ between platforms and kernels, so they are given, not built in.
#[derive(Clone, Copy, Debug, PartialEq, Eq, Structural)]
pub struct CancelClassifier {
    /// An operation's result `-cancelled_code` confirms that it was aborted.
    pub cancelled_code: i32,
    /// An abort request's result `-not_found_code` says that the operation
    /// had already finished: a benign race, no error.
    pub not_found_code: i32,
}

/// Whether `result` is the negated error number `code`.
pub open spec fn is_error(result: i32, code: i32) -> bool {
    result < 0 && result == -code
}

fn matches_error(result: i32, code: i32) -> (r: bool)
    ensures
        r == is_error(result, code),
{
    result < 0 && result as i64 == 0i64 - code as i64
}

impl CancelClassifier {
    pub fn new(cancelled_code: i32, not_found_code: i32) -> (r: Self)
        ensures
            r.cancelled_code == cancelled_code,
            r.not_found_code == not_found_code,
    {
        CancelClassifier { cancelled_code, not_found_code }
    }

    /// The error numbers of the platform this runs on.
    pub fn host() -> (r: Self)
        ensures
            r.cancelled_code != 0,
            r.not_found_code != 0,
    {
        CancelClassifier { cancelled_code: os_cancelled_code(), not_found_code: os_not_found_code() }
    }

    /// Whether an operation's result confirms that an abort stopped it.
    pub fn is_cancel_confirmed(&self, result: i32) -> (r: bool)
        ensures
            r == is_error(result, self.cancelled_code),
    {
        matches_error(result, self.cancelled_code)
    }

    /// What an abort request's result means: `Ok` when the abort was taken,
    /// or when the operation was no longer there to abort; `Err` with the
    /// result, a negated error number, otherwise.
    pub fn abort_result(&self, result: i32) -> (r: Result<(), i32>)
        ensures
            r is Ok <==> result >= 0 || is_error(result, self.not_found_code),
            r is Err ==> r->Err_0 == result,
    {
        if result >= 0 || matches_error(result, self.not_found_code) {
            Ok(())
        } else {
            Err(result)
        }
    }
}

/// What the caller is given when the operation ends.
#[derive(Clone, Copy, Debug, PartialEq, Eq, Structural)]
pub enum Outcome {
    /// The operation ran; its result, a negated error number when negative.
    Completed(i32),
    /// The abort stopped it.
    Cancelled,
}

/// What the driver does for an operation on a processing pass.
pub enum DriverAction<B> {
    /// Hand the operation to the kernel.
    Submit,
    /// Ask the kernel to abort the operation it holds.
    IssueAbort,
    /// Cancelled before it reached the kernel: the buffer goes back now.
    Cancelled(B),
    /// Nothing to do until the kernel reports.
    Wait,
}

/// The state of an operation as the handshake sees it.
pub struct OpModel {
    pub state: CancelState,
    pub submitted: bool,
    pub abort_issued: bool,
    pub holds_buffer: bool,
}

impl OpModel {
    /// The buffer is held exactly while the operation has not ended.
    pub open spec fn wf(self) -> bool {
        &&& self.holds_buffer <==> !self.state.is_terminal()
        &&& self.abort_issued ==> self.submitted
    }
}

/// The model after `cancel`.
pub open spec fn on_cancel(m: OpModel) -> OpModel {
    if m.state == CancelState::Armed {
        OpModel { state: CancelState::CancelRequested, ..m }
    } else {
        m
    }
}

/// The model after a processing pass of the driver.
pub open spec fn on_pass(m: OpModel) -> OpModel {
    if m.state == CancelState::Armed && !m.submitted {
        OpModel { submitted: true, ..m }
    } else if m.state == CancelState::CancelRequested && !m.submitted {
        OpModel { state: CancelState::Cancelled, holds_buffer: false, ..m }
    } else if m.state == CancelState::CancelRequested && !m.abort_issued {
        OpModel { abort_issued: true, ..m }
    } else {
        m
    }
}

/// The terminal state that the operation's completion with `result` leads to.
pub open spec fn completion_state(m: OpModel, result: i32, cls: CancelClassifier) -> CancelState {
    if m.state == CancelState::CancelRequested && is_error(result, cls.cancelled_code) {
        CancelState::Cancelled
    } else {
        CancelState::Completed
    }
}

/// The model after the kernel reports the operation's completion. A report
/// for an operation that was never submitted, or has ended, changes nothing.
pub open spec fn on_complete(m: OpModel, result: i32, cls: CancelClassifier) -> OpModel {
    if m.submitted && !m.state.is_terminal() {
        OpModel { state: completion_state(m, result, cls), holds_buffer: false, ..m }
    } else {
        m
    }
}

/// Something that happens to an operation: the caller cancels it, the driver
/// makes a processing pass, or the kernel reports its completion.
pub enum OpEvent {
    Cancel,
    Pass,
    Complete(i32),
}

pub open spec fn on_event(m: OpModel, e: OpEvent, cls: CancelClassifier) -> OpModel {
    match e {
        OpEvent::Cancel => on_cancel(m),
        OpEvent::Pass => on_pass(m),
        OpEvent::Complete(result) => on_complete(m, result, cls),
    }
}

/// The model after the events of `evs`, in order.
pub open spec fn run_events(m: OpModel, evs: Seq<OpEvent>, cls: CancelClassifier) -> OpModel
    decreases evs.len(),
{
    if evs.len() == 0 {
        m
    } else {
        on_event(run_events(m, evs.drop_last(), cls), evs.last(), cls)
    }
}

/// How many of the events of `evs` hand the buffer back to the caller.
pub open spec fn buffer_returns(m: OpModel, evs: Seq<OpEvent>, cls: CancelClassifier) -> nat
    decreases evs.len(),
{
    if evs.len() == 0 {
        0
    } else {
        let before = run_events(m, evs.drop_last(), cls);
        let after = on_event(before, evs.last(), cls);
        buffer_returns(m, evs.drop_last(), cls) + if before.holds_buffer && !after.holds_buffer {
            1nat
        } else {
            0nat
        }
    }
}

/// Whatever the interleaving of cancels, driver passes and completions, the
/// buffer goes back to the caller at most once, and it has gone back exactly
/// when the operation has reached a terminal state: never twice, and never
/// not at all once the operation has ended.
pub proof fn lemma_buffer_returned_once(m: OpModel, evs: Seq<OpEvent>, cls: CancelClassifier)
    requires
        m.wf(),
        m.holds_buffer,
    ensures
        run_events(m, evs, cls).wf(),
        buffer_returns(m, evs, cls) <= 1,
        buffer_returns(m, evs, cls) == 1 <==> run_events(m, evs, cls).state.is_terminal(),
        buffer_returns(m, evs, cls) == 1 <==> !run_events(m, evs, cls).holds_buffer,
    decreases evs.len(),
{
    if evs.len() > 0 {
        lemma_buffer_returned_once(m, evs.drop_last(), cls);
    }
}

/// A completion that the kernel reports for a submitted operation ends it and
/// hands the buffer back, whether or not a cancel was asked for.
pub proof fn lemma_completion_ends(m: OpModel, result: i32, cls: CancelClassifier)
    requires
        m.wf(),
        m.submitted,
    ensures
        on_complete(m, result, cls).state.is_terminal(),
        !on_complete(m, result, cls).holds_buffer,
{
}

/// Cancelling an operation that has ended changes nothing, however often it
/// is done, and so hands no buffer back; cancelling twice is cancelling once.
pub proof fn lemma_cancel_idempotent(m: OpModel)
    requires
        m.wf(),
    ensures
        on_cancel(on_cancel(m)) == on_cancel(m),
        m.state.is_terminal() ==> on_cancel(m) == m,
{
}

/// An operation in flight, holding its caller's buffer until it ends.
pub struct Operation<B> {
    state: CancelState,
    submitted: bool,
    abort_issued: bool,
    buf: Option<B>,
}

impl<B> View for Operation<B> {
    type V = OpModel;

    closed spec fn view(&self) -> OpModel {
        OpModel {
            state: self.state,
            submitted: self.submitted,
            abort_issued: self.abort_issued,
            holds_buffer: self.buf is Some,
        }
    }
}

impl<B> Operation<B> {
    /// The buffer, while the operation holds it.
    pub closed spec fn buffer(&self) -> B {
        self.buf->Some_0
    }

    /// An armed operation, not yet handed to the kernel, holding `buf`.
    pub fn new(buf: B) -> (r: Self)
        ensures
            r@ == (OpModel {
                state: CancelState::Armed,
                submitted: false,
                abort_issued: false,
                holds_buffer: true,
            }),
            r.buffer() == buf,
    {
        Operation { state: CancelState::Armed, submitted: false, abort_issued: false, buf: Some(buf) }
    }

    pub fn state(&self) -> (r: CancelState)
        ensures
            r == self@.state,
    {
        self.state
    }

    /// Asks for the operation to be abandoned. Once it has ended, or once a
    /// cancel was asked for, this does nothing.
    pub fn cancel(&mut self)
        requires
            old(self)@.wf(),
        ensures
            final(self)@ == on_cancel(old(self)@),
            final(self)@.wf(),
            final(self).buffer() == old(self).buffer(),
    {
        if self.state == CancelState::Armed {
            self.state = CancelState::CancelRequested;
        }
    }

    /// The driver's processing pass: submit an armed operation; drop a
    /// cancelled one that never reached the kernel, handing its buffer back;
    /// or ask the kernel, once, to abort one it holds.
    pub fn driver_pass(&mut self) -> (r: DriverAction<B>)
        requires
            old(self)@.wf(),
        ensures
            final(self)@ == on_pass(old(self)@),
            final(self)@.wf(),
            final(self)@.holds_buffer ==> final(self).buffer() == old(self).buffer(),
            old(self)@.state == CancelState::Armed && !old(self)@.submitted ==> r is Submit,
            old(self)@.state == CancelState::CancelRequested && !old(self)@.submitted ==> r
                == DriverAction::Cancelled(old(self).buffer()),
            old(self)@.state == CancelState::CancelRequested && old(self)@.submitted
                && !old(self)@.abort_issued ==> r is IssueAbort,
            on_pass(old(self)@) == old(self)@ ==> r is Wait,
            r is Cancelled ==> old(self)@.state == CancelState::CancelRequested
                && !old(self)@.submitted,
    {
        if self.state == CancelState::Armed && !self.submitted {
            self.submitted = true;
            DriverAction::Submit
        } else if self.state == CancelState::CancelRequested && !self.submitted {
            self.state = CancelState::Cancelled;
            match self.buf.take() {
                Some(b) => DriverAction::Cancelled(b),
                None => DriverAction::Wait,
            }
        } else if self.state == CancelState::CancelRequested && !self.abort_issued {
            self.abort_issued = true;
            DriverAction::IssueAbort
        } else {
            DriverAction::Wait
        }
    }

    /// The kernel reports that the operation finished with `result`. The
    /// buffer goes back with the outcome: `Cancelled` where a cancel was asked
    /// for and the result confirms the abort, `Completed(result)` otherwise,
    /// also where the operation finished before the abort reached it.
    pub fn complete(&mut self, result: i32, cls: &CancelClassifier) -> (r: Option<(Outcome, B)>)
        requires
            old(self)@.wf(),
        ensures
            final(self)@ == on_complete(old(self)@, result, *cls),
            final(self)@.wf(),
            final(self)@.holds_buffer ==> final(self).buffer() == old(self).buffer(),
            old(self)@.submitted && !old(self)@.state.is_terminal() ==> r == Some(
                (
                    if completion_state(old(self)@, result, *cls) == CancelState::Cancelled {
                        Outcome::Cancelled
                    } else {
                        Outcome::Completed(result)
                    },
                    old(self).buffer(),
                ),
            ),
            !(old(self)@.submitted && !old(self)@.state.is_terminal()) ==> r is None,
    {
        if !self.submitted || self.state == CancelState::Completed || self.state
            == CancelState::Cancelled {
            return None;
        }
        let outcome = if self.state == CancelState::CancelRequested && cls.is_cancel_confirmed(
            result,
        ) {
            self.state = CancelState::Cancelled;
            Outcome::Cancelled
        } else {
            self.state = CancelState::Completed;
            Outcome::Completed(result)
        };
        match self.buf.take() {
            Some(b) => Some((outcome, b)),
            None => None,
        }
    }
}

} // verus!

//! A raw kernel descriptor with several owners, closed exactly once: when the
//! last owner lets go.

use vstd::prelude::*;

verus! {

/// The owners of a descriptor, and whether it has been closed.
pub struct FdModel {
    pub raw: i32,
    pub owners: nat,
    pub closed: bool,
}

impl FdModel {
    /// The descriptor is closed exactly when nobody owns it.
    pub open spec fn wf(self) -> bool {
        self.closed <==> self.owners == 0
    }
}

/// The model after one more owner takes a share, which is refused once the
/// descriptor is closed or when the count cannot grow.
pub open spec fn on_share(m: FdModel) -> FdModel {
    if !m.closed && m.owners < usize::MAX {
        FdModel { owners: m.owners + 1, ..m }
    } else {
        m
    }
}

/// The model after an owner lets go.
pub open spec fn on_release(m: FdModel) -> FdModel {
    if m.owners > 0 {
        FdModel { owners: (m.owners - 1) as nat, closed: m.owners == 1, ..m }
    } else {
        m
    }
}

/// Whether letting go issues the close: only the last owner's release does.
pub open spec fn release_closes(m: FdModel) -> bool {
    m.owners == 1
}

/// A descriptor shared by counted owners.
pub struct SharedFd {
    raw: i32,
    owners: usize,
    closed: bool,
}

impl View for SharedFd {
    type V = FdModel;

    closed spec fn view(&self) -> FdModel {
        FdModel { raw: self.raw, owners: self.owners as nat, closed: self.closed }
    }
}

impl SharedFd {
    /// `raw`, with its opener as the one owner.
    pub fn new(raw: i32) -> (r: Self)
        ensures
            r@ == (FdModel { raw, owners: 1, closed: false }),
    {
        SharedFd { raw, owners: 1, closed: false }
    }

    pub fn raw_fd(&self) -> (r: i32)
        ensures
            r == self@.raw,
    {
        self.raw
    }

    pub fn owners(&self) -> (r: usize)
        ensures
            r == self@.owners,
    {
        self.owners
    }

    /// Adds an owner; `false` where the descriptor is closed already or the
    /// count is at its limit, and then nothing changes.
    pub fn share(&mut self) -> (r: bool)
        requires
            old(self)@.wf(),
        ensures
            final(self)@ == on_share(old(self)@),
            final(self)@.wf(),
            r <==> !old(self)@.closed && old(self)@.owners < usize::MAX,
    {
        if !self.closed && self.owners < usize::MAX {
            self.owners = self.owners + 1;
            true
        } else {
            false
        }
    }

    /// Drops an owner. `true` tells the caller to close the descriptor now:
    /// this owner was the last. A release on a closed descriptor is `false`.
    pub fn release(&mut self) -> (r: bool)
        requires
            old(self)@.wf(),
        ensures
            final(self)@ == on_release(old(self)@),
            final(self)@.wf(),
            r == release_closes(old(self)@),
    {
        if self.owners > 0 {
            self.owners = self.owners - 1;
            if self.owners == 0 {
                self.closed = true;
                return true;
            }
        }
        false
    }
}

/// The model after a sequence of shares (`true`) and releases (`false`).
pub open spec fn run_owners(m: FdModel, ops: Seq<bool>) -> FdModel
    decreases ops.len(),
{
    if ops.len() == 0 {
        m
    } else {
        let before = run_owners(m, ops.drop_last());
        if ops.last() {
            on_share(before)
        } else {
            on_release(before)
        }
    }
}

/// How many of the operations of `ops` issue the close.
pub open spec fn closes(m: FdModel, ops: Seq<bool>) -> nat
    decreases ops.len(),
{
    if ops.len() == 0 {
        0
    } else {
        let before = run_owners(m, ops.drop_last());
        closes(m, ops.drop_last()) + if !ops.last() && release_closes(before) {
            1nat
        } else {
            0nat
        }
    }
}

/// However owners share and release an open descriptor, and whichever of them
/// lets go last, the close is issued at most once, and it has been issued
/// exactly when no owner is left.
pub proof fn lemma_closed_once(m: FdModel, ops: Seq<bool>)
    requires
        m.wf(),
        !m.closed,
    ensures
        run_owners(m, ops).wf(),
        run_owners(m, ops).raw == m.raw,
        closes(m, ops) <= 1,
        closes(m, ops) == 1 <==> run_owners(m, ops).closed,
    decreases ops.len(),
{
    if ops.len() > 0 {
        lemma_closed_once(m, ops.drop_last());
    }
}

} // verus!

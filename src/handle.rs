//! Owned and shared resource handles.
use vstd::prelude::*;

verus! {

/// What kind of OS resource a raw handle refers to.
#[derive(PartialEq, Eq, Structural, Clone, Copy, Debug)]
pub enum FdKind {
    File,
    Socket,
}

/// Ownership of one raw OS handle, as an open or accept hands it out. It
/// can be moved but not copied; closing it takes it by value.
#[derive(PartialEq, Eq, Structural, Debug)]
pub struct OwnedFd {
    raw: i32,
    kind: FdKind,
}

impl OwnedFd {
    pub closed spec fn raw_spec(&self) -> i32 {
        self.raw
    }

    pub closed spec fn kind_spec(&self) -> FdKind {
        self.kind
    }

    /// Takes ownership of a raw handle that an open returned.
    pub fn new(raw: i32, kind: FdKind) -> (r: OwnedFd)
        ensures
            r.raw_spec() == raw,
            r.kind_spec() == kind,
    {
        OwnedFd { raw, kind }
    }

    pub fn raw(&self) -> (r: i32)
        ensures
            r == self.raw_spec(),
    {
        self.raw
    }

    pub fn kind(&self) -> (r: FdKind)
        ensures
            r == self.kind_spec(),
    {
        self.kind
    }
}

/// Returned by `try_reclaim` while other references remain; the shared
/// handle is handed back unchanged.
#[derive(Debug)]
pub struct StillShared {
    pub shared: SharedFd,
}

/// A reference-counted view of an owned handle. `refs` counts the live
/// references, this one included.
#[derive(Debug)]
pub struct SharedFd {
    owned: OwnedFd,
    refs: u64,
}

impl SharedFd {
    pub closed spec fn owned_spec(&self) -> OwnedFd {
        self.owned
    }

    pub closed spec fn refs_spec(&self) -> nat {
        self.refs as nat
    }

    pub closed spec fn wf(&self) -> bool {
        self.refs >= 1
    }

    /// Wraps an owned handle with a single reference.
    pub fn new(owned: OwnedFd) -> (r: SharedFd)
        ensures
            r.wf(),
            r.owned_spec() == owned,
            r.refs_spec() == 1,
    {
        SharedFd { owned, refs: 1 }
    }

    pub fn raw(&self) -> (r: i32)
        ensures
            r == self.owned_spec().raw_spec(),
    {
        self.owned.raw()
    }

    pub fn ref_count(&self) -> (r: u64)
        ensures
            r == self.refs_spec(),
    {
        self.refs
    }

    /// Takes one more reference to the same resource.
    pub fn clone_ref(&mut self)
        requires
            old(self).wf(),
            old(self).refs_spec() < u64::MAX,
        ensures
            final(self).wf(),
            final(self).owned_spec() == old(self).owned_spec(),
            final(self).refs_spec() == old(self).refs_spec() + 1,
    {
        self.refs = self.refs + 1;
    }

    /// Releases one reference other than the last one.
    pub fn drop_ref(&mut self)
        requires
            old(self).wf(),
            old(self).refs_spec() > 1,
        ensures
            final(self).wf(),
            final(self).owned_spec() == old(self).owned_spec(),
            final(self).refs_spec() == old(self).refs_spec() - 1,
    {
        self.refs = self.refs - 1;
    }

    /// Drops one reference. When it was the last, the owned handle comes
    /// back so that it can be closed; otherwise the handle with one
    /// reference fewer does.
    pub fn release(self) -> (r: Result<OwnedFd, SharedFd>)
        requires
            self.wf(),
        ensures
            self.refs_spec() == 1 <==> r is Ok,
            r matches Ok(o) ==> o == self.owned_spec(),
            r matches Err(h) ==> h.wf() && h.owned_spec() == self.owned_spec() && h.refs_spec() == self.refs_spec() - 1,
    {
        if self.refs == 1 {
            Ok(self.owned)
        } else {
            Err(SharedFd { owned: self.owned, refs: self.refs - 1 })
        }
    }

    /// Gives back the owned handle if this is the last reference; otherwise
    /// fails and leaves the count as it was.
    pub fn try_reclaim(self) -> (r: Result<OwnedFd, StillShared>)
        requires
            self.wf(),
        ensures
            self.refs_spec() == 1 <==> r is Ok,
            r matches Ok(o) ==> o == self.owned_spec(),
            r matches Err(e) ==> e.shared == self,
    {
        if self.refs == 1 {
            Ok(self.owned)
        } else {
            Err(StillShared { shared: self })
        }
    }
}

/// The references outstanding besides the first, after a sequence of steps
/// in which `true` takes a clone and `false` drops one.
pub open spec fn clones_after(steps: Seq<bool>) -> int
    decreases steps.len(),
{
    if steps.len() == 0 {
        0
    } else {
        clones_after(steps.drop_last()) + if steps.last() { 1int } else { -1int }
    }
}

/// `states[k + 1]` is `states[k]` after step `k`, as `clone_ref` and
/// `drop_ref` state it.
pub open spec fn steps_taken(states: Seq<SharedFd>, steps: Seq<bool>) -> bool {
    &&& states.len() == steps.len() + 1
    &&& forall|k: int| 0 <= k < steps.len() ==> #[trigger] states[k + 1].refs_spec() == if steps[k] {
        states[k].refs_spec() + 1int
    } else {
        states[k].refs_spec() - 1
    }
}

/// Starting from a fresh shared handle, after any sequence of clones and
/// drops the count is one more than the clones outstanding, so reclaiming
/// succeeds exactly when no clone is outstanding.
pub proof fn lemma_reclaim_after_steps(states: Seq<SharedFd>, steps: Seq<bool>)
    requires
        steps_taken(states, steps),
        states[0].refs_spec() == 1,
    ensures
        states.last().refs_spec() == 1 + clones_after(steps),
        (states.last().refs_spec() == 1) <==> clones_after(steps) == 0,
    decreases steps.len(),
{
    if steps.len() > 0 {
        let n = steps.len() - 1;
        let s2 = states.drop_last();
        let t2 = steps.drop_last();
        assert forall|k: int| 0 <= k < t2.len() implies #[trigger] s2[k + 1].refs_spec() == if t2[k] {
            s2[k].refs_spec() + 1int
        } else {
            s2[k].refs_spec() - 1
        } by {
            assert(states[k + 1].refs_spec() == if steps[k] { states[k].refs_spec() + 1int } else { states[k].refs_spec() - 1 });
        }
        lemma_reclaim_after_steps(s2, t2);
        assert(states[n + 1].refs_spec() == if steps[n] { states[n].refs_spec() + 1int } else { states[n].refs_spec() - 1 });
    }
}

} // verus!

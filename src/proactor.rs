//! The proactor: a table from completion tokens to the operations in flight.
use vstd::prelude::*;

use crate::op::{translate_spec, Completion, Op, OsError, Submission, EBUSY};

verus! {

/// The state of one token.
#[derive(Debug)]
pub enum Slot {
    Free,
    Pending(Op),
    Done(Op, Completion),
}

/// What `push` gives back: the final result at once, or a token to poll for.
#[derive(Debug)]
pub enum PushEntry {
    Ready(Result<u64, OsError>, Op),
    Pending(usize),
}

/// `attach` on a handle that is already attached, or on a negative one.
#[derive(PartialEq, Eq, Structural, Clone, Copy, Debug)]
pub enum AttachError {
    AlreadyAttached,
    InvalidHandle,
}

/// A backend reported a completion for a token that is not pending: the
/// driver and the backend no longer agree.
#[derive(PartialEq, Eq, Structural, Clone, Copy, Debug)]
pub struct ProtocolViolation {
    pub token: usize,
}

/// Why `pop` gave nothing.
#[derive(PartialEq, Eq, Structural, Clone, Copy, Debug)]
pub enum PopError {
    /// The operation has not completed yet: poll again.
    NotReady,
    /// No operation holds this token: it was popped already, or never given.
    Unknown,
}

#[derive(Debug)]
pub struct Proactor {
    slots: Vec<Slot>,
    attached: Vec<i32>,
}

/// `b` is `a` with `op` registered as pending under the free token `t`.
pub open spec fn push_spec(a: Proactor, b: Proactor, op: Op, t: int) -> bool {
    &&& a.slot(t) is Free
    &&& b.slot(t) == Slot::Pending(op)
    &&& forall|u: int| u != t ==> #[trigger] b.slot(u) == a.slot(u)
    &&& b.attached_spec() == a.attached_spec()
}

/// `b` is `a` with the pending operation of `t` completed by `c`.
pub open spec fn complete_spec(a: Proactor, b: Proactor, t: int, c: Completion) -> bool {
    &&& a.slot(t) is Pending
    &&& b.slot(t) == Slot::Done(a.slot(t)->Pending_0, c)
    &&& forall|u: int| u != t ==> #[trigger] b.slot(u) == a.slot(u)
    &&& b.attached_spec() == a.attached_spec()
}

/// `b` is `a` with token `t` freed.
pub open spec fn pop_spec(a: Proactor, b: Proactor, t: int) -> bool {
    &&& b.slot(t) is Free
    &&& forall|u: int| u != t ==> #[trigger] b.slot(u) == a.slot(u)
    &&& b.attached_spec() == a.attached_spec()
}

/// The tokens of a batch of completions, in order.
pub open spec fn batch_tokens(b: Seq<(usize, Completion)>) -> Seq<usize> {
    b.map_values(|e: (usize, Completion)| e.0)
}

/// Every token of the batch is pending in `a`, and none comes twice.
pub open spec fn batch_valid(a: Proactor, b: Seq<(usize, Completion)>) -> bool {
    &&& forall|k: int| 0 <= k < b.len() ==> (#[trigger] a.slot(b[k].0 as int)) is Pending
    &&& forall|k: int, l: int| 0 <= k < l < b.len() ==> #[trigger] b[k].0 != #[trigger] b[l].0
}

/// `b` is `a` with every completion of the batch recorded.
pub open spec fn batch_applied(a: Proactor, b: Proactor, batch: Seq<(usize, Completion)>) -> bool {
    &&& forall|k: int| 0 <= k < batch.len() ==> #[trigger] b.slot(batch[k].0 as int) == Slot::Done(
        a.slot(batch[k].0 as int)->Pending_0,
        batch[k].1,
    )
    &&& forall|u: usize| !batch_tokens(batch).contains(u) ==> #[trigger] b.slot(u as int) == a.slot(u as int)
    &&& b.attached_spec() == a.attached_spec()
}

impl Proactor {
    /// The state of token `t`; tokens past the table are free.
    pub closed spec fn slot(&self, t: int) -> Slot {
        if 0 <= t < self.slots@.len() {
            self.slots@[t]
        } else {
            Slot::Free
        }
    }

    pub closed spec fn attached_spec(&self) -> Seq<i32> {
        self.attached@
    }

    pub closed spec fn table_len(&self) -> nat {
        self.slots@.len()
    }

    /// The operation a token holds, pending or completed.
    pub open spec fn slot_op(&self, t: int) -> Option<Op> {
        match self.slot(t) {
            Slot::Free => None,
            Slot::Pending(o) => Some(o),
            Slot::Done(o, _) => Some(o),
        }
    }

    /// Some operation in the table conflicts with `op`: they act on the
    /// same handle and one of them closes it.
    pub open spec fn busy(&self, op: &Op) -> bool {
        exists|t: usize| #[trigger] self.slot_op(t as int) is Some && op.conflicts_spec(&self.slot_op(t as int)->Some_0)
    }

    /// No two operations in the table conflict: no handle is closed while
    /// another operation on it is in flight or waiting to be popped.
    pub open spec fn apart(&self) -> bool {
        forall|t: usize, u: usize|
            t != u && #[trigger] self.slot_op(t as int) is Some && #[trigger] self.slot_op(u as int) is Some
                ==> !self.slot_op(t as int)->Some_0.conflicts_spec(&self.slot_op(u as int)->Some_0)
    }

    /// No token is pending or completed.
    pub open spec fn idle(&self) -> bool {
        forall|t: usize| #[trigger] self.slot(t as int) is Free
    }

    pub fn new() -> (r: Proactor)
        ensures
            r.idle(),
            r.apart(),
            r.table_len() == 0,
            r.attached_spec().len() == 0,
    {
        Proactor { slots: Vec::new(), attached: Vec::new() }
    }

    /// Registers a handle with the backend; a second attach of the same
    /// handle fails.
    pub fn attach(&mut self, raw: i32) -> (r: Result<(), AttachError>)
        ensures
            raw < 0 ==> r == Err::<(), AttachError>(AttachError::InvalidHandle),
            raw >= 0 && old(self).attached_spec().contains(raw) ==> r == Err::<(), AttachError>(
                AttachError::AlreadyAttached,
            ),
            raw >= 0 && !old(self).attached_spec().contains(raw) ==> r is Ok,
            r is Ok ==> final(self).attached_spec() == old(self).attached_spec().push(raw),
            r is Err ==> final(self).attached_spec() == old(self).attached_spec(),
            forall|t: int| #[trigger] final(self).slot(t) == old(self).slot(t),
            final(self).table_len() == old(self).table_len(),
    {
        if raw < 0 {
            return Err(AttachError::InvalidHandle);
        }
        let mut i: usize = 0;
        while i < self.attached.len()
            invariant
                *self == *old(self),
                raw >= 0,
                i <= self.attached@.len(),
                forall|j: int| 0 <= j < i ==> self.attached@[j] != raw,
            decreases self.attached@.len() - i,
        {
            if self.attached[i] == raw {
                return Err(AttachError::AlreadyAttached);
            }
            i = i + 1;
        }
        self.attached.push(raw);
        Ok(())
    }

    pub fn is_attached(&self, raw: i32) -> (r: bool)
        ensures
            r == self.attached_spec().contains(raw),
    {
        let mut i: usize = 0;
        while i < self.attached.len()
            invariant
                i <= self.attached@.len(),
                forall|j: int| 0 <= j < i ==> self.attached@[j] != raw,
            decreases self.attached@.len() - i,
        {
            if self.attached[i] == raw {
                return true;
            }
            i = i + 1;
        }
        false
    }

    /// Whether the token table has room for a push.
    pub fn can_push(&self) -> (r: bool)
        ensures
            r == (self.table_len() < usize::MAX),
    {
        self.slots.len() < usize::MAX
    }

    /// Whether no operation is pending or waiting to be popped; a proactor
    /// should be idle when it is torn down.
    pub fn is_idle(&self) -> (r: bool)
        ensures
            r == self.idle(),
    {
        let mut i: usize = 0;
        while i < self.slots.len()
            invariant
                i <= self.slots@.len(),
                forall|j: int| 0 <= j < i ==> self.slots@[j] is Free,
            decreases self.slots@.len() - i,
        {
            if let Slot::Free = self.slots[i] {
            } else {
                assert(!(self.slot(i as int) is Free));
                return false;
            }
            i = i + 1;
        }
        assert forall|t: usize| #[trigger] self.slot(t as int) is Free by {
            if (t as int) < self.slots@.len() {
                assert(self.slots@[t as int] is Free);
            }
        }
        true
    }

    /// Whether an operation in the table conflicts with `op`.
    pub fn is_busy(&self, op: &Op) -> (r: bool)
        ensures
            r == self.busy(op),
    {
        let mut i: usize = 0;
        while i < self.slots.len()
            invariant
                i <= self.slots@.len(),
                forall|j: usize| j < i ==> !(#[trigger] self.slot_op(j as int) is Some && op.conflicts_spec(&self.slot_op(j as int)->Some_0)),
            decreases self.slots@.len() - i,
        {
            let hit = match &self.slots[i] {
                Slot::Free => false,
                Slot::Pending(o) => op.conflicts(o),
                Slot::Done(o, _) => op.conflicts(o),
            };
            if hit {
                assert(self.slot_op(i as int) is Some);
                return true;
            }
            i = i + 1;
        }
        assert forall|t: usize| !(#[trigger] self.slot_op(t as int) is Some && op.conflicts_spec(&self.slot_op(t as int)->Some_0)) by {
            if t >= i {
                assert(self.slot(t as int) is Free);
            }
        }
        false
    }

    /// Submits an operation. One that the backend would reject at once
    /// comes back as `Ready` with its error and no token; so does one that
    /// acts on a handle which another operation in the table closes, or a
    /// close of a handle that another operation in the table uses. Any other
    /// is registered as pending under a token that no operation holds.
    pub fn push(&mut self, op: Op) -> (r: PushEntry)
        requires
            old(self).table_len() < usize::MAX,
        ensures
            (r is Ready) == (op.rejected_spec() is Some || old(self).busy(&op)),
            r matches PushEntry::Ready(res, o) ==> o == op && *final(self) == *old(self) && res == Err::<u64, OsError>(
                match op.rejected_spec() {
                    Some(e) => e,
                    None => OsError { code: EBUSY },
                },
            ),
            r matches PushEntry::Pending(t) ==> push_spec(*old(self), *final(self), op, t as int),
            final(self).table_len() <= old(self).table_len() + 1,
    {
        match op.rejected() {
            Some(e) => {
                return PushEntry::Ready(Err(e), op);
            },
            None => {},
        }
        if self.is_busy(&op) {
            return PushEntry::Ready(Err(OsError { code: EBUSY }), op);
        }
        let n = self.slots.len();
        let mut i: usize = 0;
        while i < n
            invariant
                *self == *old(self),
                n == self.slots@.len(),
                i <= n,
                forall|j: int| 0 <= j < i ==> !(self.slots@[j] is Free),
            ensures
                *self == *old(self),
                i <= n,
                i < n ==> self.slots@[i as int] is Free,
            decreases n - i,
        {
            if let Slot::Free = self.slots[i] {
                break;
            }
            i = i + 1;
        }
        if i < n {
            self.slots.set(i, Slot::Pending(op));
        } else {
            self.slots.push(Slot::Pending(op));
        }
        assert(forall|u: int| u != i ==> #[trigger] self.slot(u) == old(self).slot(u));
        PushEntry::Pending(i)
    }

    /// Records the completion of a pending token, as a backend reports it.
    pub fn complete(&mut self, token: usize, c: Completion) -> (r: Result<(), ProtocolViolation>)
        ensures
            r is Ok <==> old(self).slot(token as int) is Pending,
            r is Ok ==> complete_spec(*old(self), *final(self), token as int, c),
            r matches Err(v) ==> v.token == token && *final(self) == *old(self),
            final(self).table_len() == old(self).table_len(),
    {
        if token >= self.slots.len() {
            return Err(ProtocolViolation { token });
        }
        if let Slot::Pending(_) = self.slots[token] {
        } else {
            return Err(ProtocolViolation { token });
        }
        let s = self.slots.remove(token);
        match s {
            Slot::Pending(op) => {
                self.slots.insert(token, Slot::Done(op, c));
                assert(forall|u: int| u != token ==> #[trigger] self.slot(u) == old(self).slot(u));
                Ok(())
            },
            _ => {
                assert(false);
                Err(ProtocolViolation { token })
            },
        }
    }

    pub fn is_pending(&self, token: usize) -> (r: bool)
        ensures
            r == self.slot(token as int) is Pending,
    {
        token < self.slots.len() && matches!(self.slots[token], Slot::Pending(_))
    }

    /// The first token of the batch that is not pending, or that comes a
    /// second time, if any.
    pub fn first_invalid(&self, batch: &Vec<(usize, Completion)>) -> (r: Option<usize>)
        ensures
            r is None <==> batch_valid(*self, batch@),
            r matches Some(t) ==> batch_tokens(batch@).contains(t),
    {
        let ghost toks = batch_tokens(batch@);
        let mut k: usize = 0;
        while k < batch.len()
            invariant
                k <= batch@.len(),
                toks == batch_tokens(batch@),
                forall|m: int| 0 <= m < k ==> (#[trigger] self.slot(batch@[m].0 as int)) is Pending,
                forall|m: int, l: int| 0 <= m < l < k ==> #[trigger] batch@[m].0 != #[trigger] batch@[l].0,
            decreases batch@.len() - k,
        {
            let tok = batch[k].0;
            assert(toks[k as int] == tok);
            if !self.is_pending(tok) {
                return Some(tok);
            }
            let mut j: usize = 0;
            while j < k
                invariant
                    j <= k < batch@.len(),
                    tok == batch@[k as int].0,
                    toks == batch_tokens(batch@),
                    forall|m: int| 0 <= m < j ==> batch@[m].0 != tok,
                decreases k - j,
            {
                if batch[j].0 == tok {
                    assert(!batch_valid(*self, batch@)) by {
                        assert(batch@[j as int].0 == batch@[k as int].0);
                    }
                    assert(toks[k as int] == tok);
                    return Some(tok);
                }
                j = j + 1;
            }
            k = k + 1;
        }
        None
    }

    /// Records a batch of completions that a backend reported while it was
    /// waited on, and appends their tokens to `out` in the order given.
    /// A token that is not pending, or that comes twice, is a protocol
    /// violation, and then nothing is recorded or appended; an empty batch
    /// changes nothing.
    pub fn poll(&mut self, batch: Vec<(usize, Completion)>, out: &mut Vec<usize>) -> (r: Result<(), ProtocolViolation>)
        ensures
            r is Ok <==> batch_valid(*old(self), batch@),
            r is Ok ==> batch_applied(*old(self), *final(self), batch@),
            r is Ok ==> final(out)@ == old(out)@ + batch_tokens(batch@),
            r matches Err(v) ==> batch_tokens(batch@).contains(v.token),
            r is Err ==> *final(self) == *old(self) && final(out)@ == old(out)@,
            batch@.len() == 0 ==> *final(self) == *old(self) && final(out)@ == old(out)@,
            final(self).table_len() == old(self).table_len(),
    {
        match self.first_invalid(&batch) {
            Some(token) => {
                return Err(ProtocolViolation { token });
            },
            None => {},
        }
        let ghost b = batch@;
        let ghost toks = batch_tokens(b);
        let mut rest = batch;
        let n = rest.len();
        let mut i: usize = 0;
        while i < n
            invariant
                n == b.len(),
                b == batch@,
                batch_valid(*old(self), b),
                i <= n,
                toks == batch_tokens(b),
                rest@ == b.subrange(i as int, n as int),
                out@ == old(out)@ + toks.subrange(0, i as int),
                forall|k: int| 0 <= k < i ==> #[trigger] self.slot(b[k].0 as int) == Slot::Done(
                    old(self).slot(b[k].0 as int)->Pending_0,
                    b[k].1,
                ),
                forall|u: int| (forall|k: int| 0 <= k < i ==> b[k].0 != u) ==> #[trigger] self.slot(u) == old(self).slot(u),
                self.attached_spec() == old(self).attached_spec(),
                self.table_len() == old(self).table_len(),
                i == 0 ==> *self == *old(self),
            decreases n - i,
        {
            let (token, c) = rest.remove(0);
            assert(b[i as int].0 == token);
            proof {
                assert(old(self).slot(b[i as int].0 as int) is Pending);
                assert forall|k: int| 0 <= k < i implies b[k].0 != token by {
                    assert(b[k].0 != b[i as int].0);
                }
            }
            let _ = self.complete(token, c);
            out.push(token);
            proof {
                assert(toks.subrange(0, i + 1) == toks.subrange(0, i as int).push(token));
            }
            i = i + 1;
        }
        proof {
            assert(toks.subrange(0, n as int) == toks);
            assert forall|u: usize| !toks.contains(u) implies #[trigger] self.slot(u as int) == old(self).slot(u as int) by {
                if exists|k: int| 0 <= k < n && b[k].0 == u {
                    let k = choose|k: int| 0 <= k < n && b[k].0 == u;
                    assert(toks[k] == u);
                }
            }
        }
        Ok(())
    }

    /// What a backend must issue for a pending token.
    pub fn submission(&self, token: usize) -> (r: Option<Submission>)
        ensures
            r is Some <==> self.slot(token as int) is Pending,
            r matches Some(sub) ==> self.slot(token as int)->Pending_0.describes(sub),
    {
        if token >= self.slots.len() {
            return None;
        }
        match &self.slots[token] {
            Slot::Pending(op) => Some(op.describe()),
            _ => None,
        }
    }

    /// Takes the result and the operation of a completed token, which
    /// becomes free again.
    pub fn pop(&mut self, token: usize) -> (r: Result<(Result<u64, OsError>, Op), PopError>)
        ensures
            old(self).slot(token as int) is Done <==> r is Ok,
            old(self).slot(token as int) is Pending <==> r == Err::<(Result<u64, OsError>, Op), PopError>(
                PopError::NotReady,
            ),
            old(self).slot(token as int) is Free <==> r == Err::<(Result<u64, OsError>, Op), PopError>(
                PopError::Unknown,
            ),
            r is Err ==> *final(self) == *old(self),
            final(self).table_len() == old(self).table_len(),
            r matches Ok((res, o)) ==> ({
                let (op, c) = (old(self).slot(token as int)->Done_0, old(self).slot(token as int)->Done_1);
                &&& res == translate_spec(c.res)
                &&& op.finish_spec(c.res, c.data@, o)
                &&& pop_spec(*old(self), *final(self), token as int)
            }),
    {
        if token >= self.slots.len() {
            return Err(PopError::Unknown);
        }
        match self.slots[token] {
            Slot::Free => {
                return Err(PopError::Unknown);
            },
            Slot::Pending(_) => {
                return Err(PopError::NotReady);
            },
            Slot::Done(_, _) => {},
        }
        let s = self.slots.remove(token);
        self.slots.insert(token, Slot::Free);
        assert(forall|u: int| u != token ==> #[trigger] self.slot(u) == old(self).slot(u));
        match s {
            Slot::Done(op, c) => Ok(op.finish(c)),
            _ => {
                assert(false);
                Err(PopError::Unknown)
            },
        }
    }
}

/// Two operations pushed one after the other, with no poll between them,
/// hold distinct tokens.
pub proof fn lemma_distinct_tokens(a: Proactor, b: Proactor, c: Proactor, op1: Op, op2: Op, t1: int, t2: int)
    requires
        push_spec(a, b, op1, t1),
        push_spec(b, c, op2, t2),
    ensures
        t1 != t2,
{
}

/// A pushed operation cannot be popped until a poll reports its token;
/// once reported, a pop finds it completed with the operation that was
/// pushed, and after that pop the token is free, so a second pop fails.
pub proof fn lemma_pop_once(
    s0: Proactor,
    s1: Proactor,
    s2: Proactor,
    s3: Proactor,
    op: Op,
    t: int,
    batch: Seq<(usize, Completion)>,
)
    requires
        push_spec(s0, s1, op, t),
        batch_valid(s1, batch),
        batch_applied(s1, s2, batch),
        batch_tokens(batch).contains(t as usize),
        0 <= t <= usize::MAX,
        pop_spec(s2, s3, t),
    ensures
        s1.slot(t) is Pending,
        s2.slot(t) is Done,
        s2.slot(t)->Done_0 == op,
        s3.slot(t) is Free,
{
    let k = choose|k: int| 0 <= k < batch.len() && batch_tokens(batch)[k] == t as usize;
    assert(batch[k].0 == t);
    assert(s2.slot(batch[k].0 as int) == Slot::Done(s1.slot(batch[k].0 as int)->Pending_0, batch[k].1));
}

/// With nothing outstanding, a poll that is handed no completions reports
/// nothing and leaves the proactor idle, however often it is repeated.
pub proof fn lemma_idle_poll(a: Proactor, b: Proactor)
    requires
        a.idle(),
        batch_applied(a, b, Seq::empty()),
    ensures
        b.idle(),
        batch_tokens(Seq::<(usize, Completion)>::empty()).len() == 0,
{
    assert forall|t: usize| #[trigger] b.slot(t as int) is Free by {
        assert(!batch_tokens(Seq::<(usize, Completion)>::empty()).contains(t));
        assert(a.slot(t as int) is Free);
    }
}

/// A proactor starts with no conflicting operations, and pushing, completing
/// and popping keep it so; a push of a conflicting operation is refused.
pub proof fn lemma_push_keeps_apart(a: Proactor, b: Proactor, op: Op, t: int)
    requires
        a.apart(),
        !a.busy(&op),
        push_spec(a, b, op, t),
    ensures
        b.apart(),
{
    assert forall|x: usize, y: usize|
        x != y && #[trigger] b.slot_op(x as int) is Some && #[trigger] b.slot_op(y as int) is Some
            implies !b.slot_op(x as int)->Some_0.conflicts_spec(&b.slot_op(y as int)->Some_0) by {
        if x as int == t {
            assert(b.slot_op(y as int) == a.slot_op(y as int));
            assert(!(a.slot_op(y as int) is Some && op.conflicts_spec(&a.slot_op(y as int)->Some_0)));
        } else if y as int == t {
            assert(b.slot_op(x as int) == a.slot_op(x as int));
            assert(!(a.slot_op(x as int) is Some && op.conflicts_spec(&a.slot_op(x as int)->Some_0)));
        } else {
            assert(b.slot_op(x as int) == a.slot_op(x as int));
            assert(b.slot_op(y as int) == a.slot_op(y as int));
            assert(a.slot_op(x as int) is Some && a.slot_op(y as int) is Some);
        }
    }
}

/// Recording a completion keeps the table free of conflicts.
pub proof fn lemma_complete_keeps_apart(a: Proactor, b: Proactor, t: int, c: Completion)
    requires
        a.apart(),
        complete_spec(a, b, t, c),
    ensures
        b.apart(),
{
    assert forall|u: usize| #[trigger] b.slot_op(u as int) == a.slot_op(u as int) by {
        if u as int != t {
            assert(b.slot(u as int) == a.slot(u as int));
        }
    }
}

/// Popping a token keeps the table free of conflicts.
pub proof fn lemma_pop_keeps_apart(a: Proactor, b: Proactor, t: int)
    requires
        a.apart(),
        pop_spec(a, b, t),
    ensures
        b.apart(),
{
    assert forall|x: usize, y: usize|
        x != y && #[trigger] b.slot_op(x as int) is Some && #[trigger] b.slot_op(y as int) is Some
            implies !b.slot_op(x as int)->Some_0.conflicts_spec(&b.slot_op(y as int)->Some_0) by {
        assert(b.slot(x as int) == a.slot(x as int));
        assert(b.slot(y as int) == a.slot(y as int));
        assert(a.slot_op(x as int) is Some && a.slot_op(y as int) is Some);
    }
}

} // verus!

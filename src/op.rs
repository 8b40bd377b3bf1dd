//! Operations: what each one asks of a backend, and how a raw completion
//! code becomes a typed result.
use vstd::prelude::*;

use crate::handle::OwnedFd;

verus! {

/// An OS error code carried by a failed operation.
#[derive(PartialEq, Eq, Structural, Clone, Copy, Debug)]
pub struct OsError {
    pub code: i64,
}

/// Error code for an invalid argument.
pub const EINVAL: i64 = 22;

/// Error code for a handle that is not open.
pub const EBADF: i64 = 9;

/// Error code for a handle that other operations in flight still use.
pub const EBUSY: i64 = 16;

/// Error code for a path that names nothing.
pub const ENOENT: i64 = 2;

/// One asynchronous action, together with the buffers and handles it holds
/// for as long as it runs.
#[derive(Debug)]
#[allow(inconsistent_fields)]
pub enum Op {
    OpenFile { path: Vec<u8>, flags: i32, mode: u32 },
    ReadAt { fd: i32, offset: u64, buf: Vec<u8>, len: usize },
    WriteAt { fd: i32, offset: u64, buf: Vec<u8> },
    CloseFile { fd: OwnedFd },
    /// A close that has run: its handle is gone, and only the number it
    /// had is kept. Pushing it again is refused.
    Closed { raw: i32 },
}

/// What a backend needs to issue an operation.
#[derive(Debug)]
pub enum Submission {
    Open { path: Vec<u8>, flags: i32, mode: u32 },
    Read { fd: i32, offset: u64, len: usize },
    Write { fd: i32, offset: u64, data: Vec<u8> },
    Close { fd: i32 },
}

/// What a backend reports when an operation finishes: the raw return code
/// (a count or a handle when non-negative, minus an error code otherwise),
/// and the bytes it placed in the operation's buffer.
#[derive(Debug)]
pub struct Completion {
    pub res: i64,
    pub data: Vec<u8>,
}

impl Completion {
    pub fn new(res: i64, data: Vec<u8>) -> (r: Completion)
        ensures
            r.res == res,
            r.data@ == data@,
    {
        Completion { res, data }
    }
}

/// The typed result of a raw completion code.
pub open spec fn translate_spec(res: i64) -> Result<u64, OsError> {
    if res >= 0 {
        Ok(res as u64)
    } else if res == i64::MIN {
        Err(OsError { code: i64::MAX })
    } else {
        Err(OsError { code: (-res) as i64 })
    }
}

/// Non-negative codes are counts (zero included: end of data is no error);
/// a negative code is a failure carrying the OS error code.
pub fn translate(res: i64) -> (r: Result<u64, OsError>)
    ensures
        r == translate_spec(res),
{
    if res >= 0 {
        Ok(res as u64)
    } else if res == i64::MIN {
        Err(OsError { code: i64::MAX })
    } else {
        Err(OsError { code: -res })
    }
}

impl Op {
    pub fn open_file(path: Vec<u8>, flags: i32, mode: u32) -> (r: Op)
        ensures
            r == (Op::OpenFile { path, flags, mode }),
    {
        Op::OpenFile { path, flags, mode }
    }

    /// A read of up to `len` bytes at `offset`; `buf` is replaced by what
    /// was read.
    pub fn read_at(fd: i32, offset: u64, buf: Vec<u8>, len: usize) -> (r: Op)
        ensures
            r == (Op::ReadAt { fd, offset, buf, len }),
    {
        Op::ReadAt { fd, offset, buf, len }
    }

    pub fn write_at(fd: i32, offset: u64, buf: Vec<u8>) -> (r: Op)
        ensures
            r == (Op::WriteAt { fd, offset, buf }),
    {
        Op::WriteAt { fd, offset, buf }
    }

    /// A close takes the owned handle by value; the proactor refuses it
    /// while other operations on the same handle are in flight.
    pub fn close_file(fd: OwnedFd) -> (r: Op)
        ensures
            r == (Op::CloseFile { fd }),
    {
        Op::CloseFile { fd }
    }

    /// The raw handle an operation acts on; an open acts on none yet.
    pub open spec fn handle_spec(&self) -> Option<i32> {
        match self {
            Op::OpenFile { .. } => None,
            Op::ReadAt { fd, .. } => Some(*fd),
            Op::WriteAt { fd, .. } => Some(*fd),
            Op::CloseFile { fd } => Some(fd.raw_spec()),
            Op::Closed { .. } => None,
        }
    }

    pub fn handle(&self) -> (r: Option<i32>)
        ensures
            r == self.handle_spec(),
    {
        match self {
            Op::OpenFile { .. } => None,
            Op::ReadAt { fd, .. } => Some(*fd),
            Op::WriteAt { fd, .. } => Some(*fd),
            Op::CloseFile { fd } => Some(fd.raw()),
            Op::Closed { .. } => None,
        }
    }

    /// Two operations may not be in flight together when they act on the
    /// same handle and one of them closes it.
    pub open spec fn conflicts_spec(&self, other: &Op) -> bool {
        &&& self.handle_spec() is Some
        &&& self.handle_spec() == other.handle_spec()
        &&& (*self is CloseFile || *other is CloseFile)
    }

    pub fn conflicts(&self, other: &Op) -> (r: bool)
        ensures
            r == self.conflicts_spec(other),
    {
        match (self.handle(), other.handle()) {
            (Some(a), Some(b)) => a == b && (matches!(self, Op::CloseFile { .. }) || matches!(other, Op::CloseFile { .. })),
            _ => false,
        }
    }

    /// Whether `s` asks a backend for exactly this operation.
    pub open spec fn describes(&self, s: Submission) -> bool {
        match (*self, s) {
            (Op::OpenFile { path, flags, mode }, Submission::Open { path: p, flags: f, mode: m }) =>
                p@ == path@ && f == flags && m == mode,
            (Op::ReadAt { fd, offset, len, .. }, Submission::Read { fd: d, offset: o, len: l }) =>
                d == fd && o == offset && l == len,
            (Op::WriteAt { fd, offset, buf }, Submission::Write { fd: d, offset: o, data }) =>
                d == fd && o == offset && data@ == buf@,
            (Op::CloseFile { fd }, Submission::Close { fd: d }) => d == fd.raw_spec(),
            (Op::Closed { raw }, Submission::Close { fd: d }) => d == raw,
            _ => false,
        }
    }

    /// The submission a backend issues for this operation.
    pub fn describe(&self) -> (r: Submission)
        ensures
            self.describes(r),
    {
        match self {
            Op::OpenFile { path, flags, mode } => Submission::Open { path: path.clone(), flags: *flags, mode: *mode },
            Op::ReadAt { fd, offset, len, .. } => Submission::Read { fd: *fd, offset: *offset, len: *len },
            Op::WriteAt { fd, offset, buf } => Submission::Write { fd: *fd, offset: *offset, data: buf.clone() },
            Op::CloseFile { fd } => Submission::Close { fd: fd.raw() },
            Op::Closed { raw } => Submission::Close { fd: *raw },
        }
    }

    /// The error a backend would give at once, before queueing anything:
    /// an empty path, a negative handle, or a close that has already run.
    pub open spec fn rejected_spec(&self) -> Option<OsError> {
        match self {
            Op::OpenFile { path, .. } => if path@.len() == 0 { Some(OsError { code: EINVAL }) } else { None },
            Op::ReadAt { fd, .. } => if *fd < 0 { Some(OsError { code: EBADF }) } else { None },
            Op::WriteAt { fd, .. } => if *fd < 0 { Some(OsError { code: EBADF }) } else { None },
            Op::CloseFile { fd } => if fd.raw_spec() < 0 { Some(OsError { code: EBADF }) } else { None },
            Op::Closed { .. } => Some(OsError { code: EBADF }),
        }
    }

    pub fn rejected(&self) -> (r: Option<OsError>)
        ensures
            r == self.rejected_spec(),
    {
        match self {
            Op::OpenFile { path, .. } => if path.len() == 0 { Some(OsError { code: EINVAL }) } else { None },
            Op::ReadAt { fd, .. } => if *fd < 0 { Some(OsError { code: EBADF }) } else { None },
            Op::WriteAt { fd, .. } => if *fd < 0 { Some(OsError { code: EBADF }) } else { None },
            Op::CloseFile { fd } => if fd.raw() < 0 { Some(OsError { code: EBADF }) } else { None },
            Op::Closed { .. } => Some(OsError { code: EBADF }),
        }
    }

    /// The operation handed back with a completion. A read receives the
    /// bytes the backend placed in its buffer on success. A close that has
    /// run gives up its owned handle, whatever its result: only `Closed`
    /// with the number comes back, so the handle cannot be closed twice.
    pub open spec fn finish_spec(self, c_res: i64, c_data: Seq<u8>, r: Op) -> bool {
        match self {
            Op::CloseFile { fd } => r == (Op::Closed { raw: fd.raw_spec() }),
            Op::ReadAt { fd, offset, buf, len } => match r {
                Op::ReadAt { fd: fd2, offset: o2, buf: b2, len: l2 } =>
                    fd2 == fd && o2 == offset && l2 == len
                    && b2@ == (if c_res >= 0 { c_data } else { buf@ }),
                _ => false,
            },
            _ => r == self,
        }
    }

    /// Turns a completion into the typed result and the operation, which
    /// carries back its buffer.
    pub fn finish(self, c: Completion) -> (r: (Result<u64, OsError>, Op))
        ensures
            r.0 == translate_spec(c.res),
            self.finish_spec(c.res, c.data@, r.1),
    {
        let res = translate(c.res);
        match self {
            Op::ReadAt { fd, offset, buf, len } => {
                let b = if c.res >= 0 { c.data } else { buf };
                (res, Op::ReadAt { fd, offset, buf: b, len })
            },
            Op::CloseFile { fd } => (res, Op::Closed { raw: fd.raw() }),
            other => (res, other),
        }
    }

    /// The buffer held by a read or write; empty for other operations.
    pub fn into_inner(self) -> (r: Vec<u8>)
        ensures
            self matches Op::ReadAt { buf, .. } ==> r@ == buf@,
            self matches Op::WriteAt { buf, .. } ==> r@ == buf@,
            (self is OpenFile || self is CloseFile || self is Closed) ==> r@.len() == 0,
    {
        match self {
            Op::ReadAt { buf, .. } => buf,
            Op::WriteAt { buf, .. } => buf,
            _ => Vec::new(),
        }
    }
}

/// A close that has run hands back no handle: what comes back acts on no
/// handle, conflicts with nothing, and is refused if pushed again, so the
/// raw handle is closed at most once.
pub proof fn lemma_close_gives_up_handle(op: Op, c_res: i64, c_data: Seq<u8>, r: Op)
    requires
        op is CloseFile,
        op.finish_spec(c_res, c_data, r),
    ensures
        r == (Op::Closed { raw: op->CloseFile_fd.raw_spec() }),
        r.handle_spec() is None,
        r.rejected_spec() == Some(OsError { code: EBADF }),
        forall|o: Op| !r.conflicts_spec(&o),
{
}

} // verus!

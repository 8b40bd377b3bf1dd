//! An in-memory backend: files are byte sequences held in a table, and each
//! submission runs to completion when it is executed.
use vstd::prelude::*;

use crate::op::{Completion, Submission, EBADF, EINVAL, ENOENT};

verus! {

/// The largest size a file of this backend may reach.
pub const MAX_FILE_LEN: u64 = 1099511627776;

/// The bytes that a read of up to `len` bytes at `off` returns.
pub open spec fn read_spec(d: Seq<u8>, off: int, len: int) -> Seq<u8> {
    if off >= d.len() {
        Seq::empty()
    } else if off + len <= d.len() {
        d.subrange(off, off + len)
    } else {
        d.subrange(off, d.len() as int)
    }
}

/// The contents after writing `w` at `off`; a gap past the end reads as zeros.
pub open spec fn write_spec(d: Seq<u8>, off: int, w: Seq<u8>) -> Seq<u8> {
    let n = if off + w.len() > d.len() { off + w.len() } else { d.len() as int };
    Seq::new(
        n as nat,
        |i: int|
            if off <= i < off + w.len() {
                w[i - off]
            } else if i < d.len() {
                d[i]
            } else {
                0u8
            },
    )
}

/// Reading back what was just written at the same offset gives the written bytes.
pub proof fn lemma_write_then_read(d: Seq<u8>, off: int, w: Seq<u8>)
    requires
        off >= 0,
    ensures
        read_spec(write_spec(d, off, w), off, w.len() as int) == w,
{
    let e = write_spec(d, off, w);
    if w.len() > 0 {
        assert(read_spec(e, off, w.len() as int) =~= w);
    } else {
        assert(read_spec(e, off, 0) =~= w);
    }
}

/// A read at or past the end of the data transfers nothing.
pub proof fn lemma_read_at_end(d: Seq<u8>, off: int, len: int)
    requires
        off >= d.len(),
    ensures
        read_spec(d, off, len).len() == 0,
{
}

#[derive(Debug)]
pub struct MemFile {
    pub name: Vec<u8>,
    pub data: Vec<u8>,
    pub open: bool,
}

#[derive(Debug)]
pub struct MemDevice {
    files: Vec<MemFile>,
}

impl MemDevice {
    pub closed spec fn files_spec(&self) -> Seq<MemFile> {
        self.files@
    }

    pub open spec fn wf(&self) -> bool {
        &&& self.files_spec().len() < i32::MAX
        &&& forall|i: int| 0 <= i < self.files_spec().len() ==> (#[trigger] self.files_spec()[i]).data@.len() <= MAX_FILE_LEN
    }

    pub fn new() -> (r: MemDevice)
        ensures
            r.wf(),
            r.files_spec().len() == 0,
    {
        MemDevice { files: Vec::new() }
    }

    /// Adds a closed file; it gets the next handle number once opened.
    pub fn add_file(&mut self, name: Vec<u8>, data: Vec<u8>) -> (r: bool)
        requires
            old(self).wf(),
        ensures
            final(self).wf(),
            r == (old(self).files_spec().len() + 1 < i32::MAX && data@.len() <= MAX_FILE_LEN),
            r ==> final(self).files_spec() == old(self).files_spec().push(MemFile { name, data, open: false }),
            !r ==> *final(self) == *old(self),
    {
        if self.files.len() + 1 < 2147483647 && data.len() as u64 <= MAX_FILE_LEN {
            self.files.push(MemFile { name, data, open: false });
            true
        } else {
            false
        }
    }

    /// The handle number of the file named `path`, if any.
    fn find(&self, path: &Vec<u8>) -> (r: Option<usize>)
        ensures
            r matches Some(i) ==> i < self.files_spec().len() && self.files_spec()[i as int].name@ == path@,
            r is None ==> forall|i: int| 0 <= i < self.files_spec().len() ==> (#[trigger] self.files_spec()[i]).name@ != path@,
    {
        let mut i: usize = 0;
        while i < self.files.len()
            invariant
                i <= self.files@.len(),
                forall|j: int| 0 <= j < i ==> (#[trigger] self.files@[j]).name@ != path@,
            decreases self.files@.len() - i,
        {
            if bytes_eq(&self.files[i].name, path) {
                return Some(i);
            }
            i = i + 1;
        }
        None
    }
    /// Whether `fd` names a file of this device that is open.
    pub open spec fn is_open(&self, fd: i32) -> bool {
        0 <= fd < self.files_spec().len() && self.files_spec()[fd as int].open
    }

    /// `b` is `a` with file `i` replaced by `f`.
    pub open spec fn only_changed(a: MemDevice, b: MemDevice, i: int, f: MemFile) -> bool {
        &&& b.files_spec().len() == a.files_spec().len()
        &&& 0 <= i < a.files_spec().len()
        &&& b.files_spec()[i].name@ == f.name@
        &&& b.files_spec()[i].data@ == f.data@
        &&& b.files_spec()[i].open == f.open
        &&& forall|j: int| 0 <= j < a.files_spec().len() && j != i ==> #[trigger] b.files_spec()[j] == a.files_spec()[j]
    }

    /// Runs one submission to completion. An open finds the file by name
    /// and gives its handle number; reads, writes and closes need an open
    /// handle; a write may not grow a file past `MAX_FILE_LEN`.
    pub fn execute(&mut self, s: Submission) -> (c: Completion)
        requires
            old(self).wf(),
        ensures
            final(self).wf(),
            c.res < 0 ==> *final(self) == *old(self) && c.data@.len() == 0,
            match s {
                Submission::Open { path, .. } => {
                    &&& (exists|i: int| 0 <= i < old(self).files_spec().len() && #[trigger] old(self).files_spec()[i].name@ == path@) <==> c.res >= 0
                    &&& c.res < 0 ==> c.res == -ENOENT
                    &&& c.res >= 0 ==> {
                        let f = old(self).files_spec()[c.res as int];
                        &&& f.name@ == path@
                        &&& Self::only_changed(*old(self), *final(self), c.res as int, MemFile { open: true, ..f })
                    }
                },
                Submission::Read { fd, offset, len } => {
                    &&& old(self).is_open(fd) <==> c.res >= 0
                    &&& c.res < 0 ==> c.res == -EBADF
                    &&& c.res >= 0 ==> *final(self) == *old(self) && c.data@ == read_spec(
                        old(self).files_spec()[fd as int].data@, offset as int, len as int) && c.res == c.data@.len()
                },
                Submission::Write { fd, offset, data } => {
                    &&& !old(self).is_open(fd) ==> c.res == -EBADF
                    &&& old(self).is_open(fd) && (offset + data@.len() > MAX_FILE_LEN || offset + data@.len() > usize::MAX) ==> c.res == -EINVAL
                    &&& old(self).is_open(fd) && offset + data@.len() <= MAX_FILE_LEN && offset + data@.len() <= usize::MAX ==> {
                        let f = old(self).files_spec()[fd as int];
                        &&& c.res == data@.len()
                        &&& final(self).files_spec()[fd as int].data@ == write_spec(f.data@, offset as int, data@)
                        &&& final(self).files_spec()[fd as int].name@ == f.name@
                        &&& final(self).files_spec()[fd as int].open
                        &&& final(self).files_spec().len() == old(self).files_spec().len()
                        &&& forall|j: int| 0 <= j < old(self).files_spec().len() && j != fd ==> #[trigger] final(self).files_spec()[j] == old(self).files_spec()[j]
                    }
                },
                Submission::Close { fd } => {
                    &&& old(self).is_open(fd) <==> c.res == 0
                    &&& !old(self).is_open(fd) ==> c.res == -EBADF
                    &&& c.res == 0 ==> Self::only_changed(*old(self), *final(self), fd as int, MemFile { open: false, ..old(self).files_spec()[fd as int] })
                },
            },
    {
        match s {
            Submission::Open { path, .. } => {
                match self.find(&path) {
                    Some(i) => {
                        assert(old(self).files_spec()[i as int].name@ == path@);
                        let f = self.files.remove(i);
                        self.files.insert(i, MemFile { name: f.name, data: f.data, open: true });
                        Completion::new(i as i64, Vec::new())
                    },
                    None => Completion::new(-ENOENT, Vec::new()),
                }
            },
            Submission::Read { fd, offset, len } => {
                if fd < 0 || fd as usize >= self.files.len() || !self.files[fd as usize].open {
                    return Completion::new(-EBADF, Vec::new());
                }
                let data = read_bytes(&self.files[fd as usize].data, offset, len);
                let n = data.len() as i64;
                Completion::new(n, data)
            },
            Submission::Write { fd, offset, data } => {
                if fd < 0 || fd as usize >= self.files.len() || !self.files[fd as usize].open {
                    return Completion::new(-EBADF, Vec::new());
                }
                if offset > MAX_FILE_LEN || data.len() as u64 > MAX_FILE_LEN - offset
                    || offset as u128 + data.len() as u128 > usize::MAX as u128 {
                    return Completion::new(-EINVAL, Vec::new());
                }
                let i = fd as usize;
                let f = self.files.remove(i);
                let nd = write_bytes(&f.data, offset as usize, &data);
                self.files.insert(i, MemFile { name: f.name, data: nd, open: true });
                Completion::new(data.len() as i64, Vec::new())
            },
            Submission::Close { fd } => {
                if fd < 0 || fd as usize >= self.files.len() || !self.files[fd as usize].open {
                    return Completion::new(-EBADF, Vec::new());
                }
                let i = fd as usize;
                let f = self.files.remove(i);
                self.files.insert(i, MemFile { name: f.name, data: f.data, open: false });
                Completion::new(0, Vec::new())
            },
        }
    }
}


/// Byte-wise equality of two buffers.
pub fn bytes_eq(a: &Vec<u8>, b: &Vec<u8>) -> (r: bool)
    ensures
        r == (a@ == b@),
{
    if a.len() != b.len() {
        return false;
    }
    let mut i: usize = 0;
    while i < a.len()
        invariant
            a@.len() == b@.len(),
            i <= a@.len(),
            forall|j: int| 0 <= j < i ==> a@[j] == b@[j],
        decreases a@.len() - i,
    {
        if a[i] != b[i] {
            return false;
        }
        i = i + 1;
    }
    assert(a@ =~= b@);
    true
}

/// The bytes of `d` from `off`, at most `len` of them.
pub fn read_bytes(d: &Vec<u8>, off: u64, len: usize) -> (r: Vec<u8>)
    ensures
        r@ == read_spec(d@, off as int, len as int),
{
    let mut r: Vec<u8> = Vec::new();
    if off as u128 >= d.len() as u128 {
        return r;
    }
    let start = off as usize;
    let end: usize = if len <= d.len() - start { start + len } else { d.len() };
    let mut i: usize = start;
    while i < end
        invariant
            start <= i <= end <= d@.len(),
            r@ == d@.subrange(start as int, i as int),
        decreases end - i,
    {
        r.push(d[i]);
        assert(d@.subrange(start as int, i + 1) == d@.subrange(start as int, i as int).push(d@[i as int]));
        i = i + 1;
    }
    r
}

/// `d` with `w` written at `off`.
pub fn write_bytes(d: &Vec<u8>, off: usize, w: &Vec<u8>) -> (r: Vec<u8>)
    requires
        off + w@.len() <= usize::MAX,
    ensures
        r@ == write_spec(d@, off as int, w@),
{
    let n: usize = if off + w.len() > d.len() { off + w.len() } else { d.len() };
    let ghost e = write_spec(d@, off as int, w@);
    let mut r: Vec<u8> = Vec::new();
    let mut i: usize = 0;
    while i < n
        invariant
            n == e.len(),
            i <= n,
            e == write_spec(d@, off as int, w@),
            off + w@.len() <= usize::MAX,
            r@ == e.subrange(0, i as int),
        decreases n - i,
    {
        let b: u8 = if off <= i && i < off + w.len() {
            w[i - off]
        } else if i < d.len() {
            d[i]
        } else {
            0u8
        };
        r.push(b);
        assert(e.subrange(0, i + 1) == e.subrange(0, i as int).push(e[i as int]));
        i = i + 1;
    }
    assert(r@ =~= e);
    r
}

} // verus!

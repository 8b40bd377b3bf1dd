use compio::addr::{search_all, AddrError, AddrSearch};
use compio::handle::{FdKind, OwnedFd, SharedFd};
use compio::mem::{bytes_eq, read_bytes, write_bytes, MemDevice};
use compio::op::{translate, Completion, Op, OsError, Submission, EBADF, EBUSY, EINVAL, ENOENT};
use compio::proactor::{AttachError, PopError, Proactor, ProtocolViolation, PushEntry};

fn run(p: &mut Proactor, dev: &mut MemDevice, token: usize) {
    let sub = p.submission(token).expect("token is pending");
    let c = dev.execute(sub);
    let mut out = Vec::new();
    p.poll(vec![(token, c)], &mut out).unwrap();
    assert_eq!(out, vec![token]);
}

fn push_and_wait(p: &mut Proactor, dev: &mut MemDevice, op: Op) -> (Result<u64, OsError>, Op) {
    match p.push(op) {
        PushEntry::Ready(res, op) => (res, op),
        PushEntry::Pending(token) => {
            run(p, dev, token);
            p.pop(token).unwrap()
        }
    }
}

fn device_with_hello() -> MemDevice {
    let mut dev = MemDevice::new();
    assert!(dev.add_file(b"hello.txt".to_vec(), b"hello".to_vec()));
    dev
}

#[test]
fn open_read_hello() {
    let mut dev = device_with_hello();
    let mut p = Proactor::new();
    let (res, _) = push_and_wait(&mut p, &mut dev, Op::open_file(b"hello.txt".to_vec(), 0, 0o666));
    let raw = res.unwrap() as i32;
    let fd = SharedFd::new(OwnedFd::new(raw, FdKind::File));
    p.attach(fd.raw()).unwrap();
    let (res, op) = push_and_wait(&mut p, &mut dev, Op::read_at(fd.raw(), 0, Vec::with_capacity(64), 64));
    assert_eq!(res, Ok(5));
    assert_eq!(op.into_inner(), b"hello".to_vec());
}

#[test]
fn close_after_reclaim() {
    let mut dev = device_with_hello();
    let mut p = Proactor::new();
    let (res, _) = push_and_wait(&mut p, &mut dev, Op::open_file(b"hello.txt".to_vec(), 0, 0));
    let raw = res.unwrap() as i32;
    let mut fd = SharedFd::new(OwnedFd::new(raw, FdKind::File));
    fd.clone_ref();
    let (res, op) = push_and_wait(&mut p, &mut dev, Op::read_at(fd.raw(), 0, Vec::new(), 3));
    assert_eq!(res, Ok(3));
    assert_eq!(op.into_inner(), b"hel".to_vec());
    fd.drop_ref();
    let owned = fd.try_reclaim().unwrap();
    let (res, op) = push_and_wait(&mut p, &mut dev, Op::close_file(owned));
    assert_eq!(res, Ok(0));
    assert!(matches!(op, Op::Closed { raw: r } if r == raw));
    let (res, op) = push_and_wait(&mut p, &mut dev, op);
    assert_eq!(res, Err(OsError { code: EBADF }));
    assert!(matches!(op, Op::Closed { .. }));
    let (res, _) = push_and_wait(&mut p, &mut dev, Op::read_at(raw, 0, Vec::new(), 3));
    assert_eq!(res, Err(OsError { code: EBADF }));
}

#[test]
fn reclaim_fails_while_shared() {
    let mut fd = SharedFd::new(OwnedFd::new(4, FdKind::Socket));
    fd.clone_ref();
    fd.clone_ref();
    assert_eq!(fd.ref_count(), 3);
    let fd = match fd.try_reclaim() {
        Ok(_) => panic!("reclaimed while shared"),
        Err(e) => e.shared,
    };
    assert_eq!(fd.ref_count(), 3);
    let mut fd = fd;
    fd.drop_ref();
    fd.drop_ref();
    assert_eq!(fd.try_reclaim().unwrap(), OwnedFd::new(4, FdKind::Socket));
}

#[test]
fn idle_poll_reports_nothing() {
    let mut p = Proactor::new();
    let mut out: Vec<usize> = Vec::new();
    for _ in 0..5 {
        p.poll(Vec::new(), &mut out).unwrap();
        assert!(out.is_empty());
    }
    assert_eq!(p.pop(0).unwrap_err(), PopError::Unknown);
}

#[test]
fn back_to_back_tokens_differ() {
    let mut p = Proactor::new();
    let a = p.push(Op::read_at(1, 0, Vec::new(), 4));
    let b = p.push(Op::read_at(1, 4, Vec::new(), 4));
    match (a, b) {
        (PushEntry::Pending(x), PushEntry::Pending(y)) => assert_ne!(x, y),
        _ => panic!("expected two pending tokens"),
    }
}

#[test]
fn token_reused_after_pop() {
    let mut dev = device_with_hello();
    let mut p = Proactor::new();
    let t = match p.push(Op::open_file(b"hello.txt".to_vec(), 0, 0)) {
        PushEntry::Pending(t) => t,
        _ => panic!("expected a token"),
    };
    run(&mut p, &mut dev, t);
    p.pop(t).unwrap();
    match p.push(Op::open_file(b"hello.txt".to_vec(), 0, 0)) {
        PushEntry::Pending(u) => assert_eq!(u, t),
        _ => panic!("expected a token"),
    }
}

#[test]
fn pop_once_after_poll() {
    let mut dev = device_with_hello();
    let mut p = Proactor::new();
    let t = match p.push(Op::open_file(b"hello.txt".to_vec(), 0, 0)) {
        PushEntry::Pending(t) => t,
        _ => panic!("expected a token"),
    };
    assert_eq!(p.pop(t).unwrap_err(), PopError::NotReady);
    run(&mut p, &mut dev, t);
    let (res, _) = p.pop(t).unwrap();
    assert_eq!(res, Ok(0));
    assert_eq!(p.pop(t).unwrap_err(), PopError::Unknown);
}

#[test]
fn poll_rejects_unknown_and_repeated_tokens() {
    let mut p = Proactor::new();
    let mut out = Vec::new();
    assert_eq!(
        p.poll(vec![(7, Completion::new(0, Vec::new()))], &mut out),
        Err(ProtocolViolation { token: 7 })
    );
    let t = match p.push(Op::read_at(0, 0, Vec::new(), 1)) {
        PushEntry::Pending(t) => t,
        _ => panic!("expected a token"),
    };
    let batch = vec![(t, Completion::new(0, Vec::new())), (t, Completion::new(0, Vec::new()))];
    assert_eq!(p.poll(batch, &mut out), Err(ProtocolViolation { token: t }));
}

#[test]
fn push_rejects_bad_arguments() {
    let mut p = Proactor::new();
    match p.push(Op::open_file(Vec::new(), 0, 0)) {
        PushEntry::Ready(res, _) => assert_eq!(res, Err(OsError { code: EINVAL })),
        _ => panic!("expected an immediate result"),
    }
    match p.push(Op::write_at(-1, 0, b"x".to_vec())) {
        PushEntry::Ready(res, op) => {
            assert_eq!(res, Err(OsError { code: EBADF }));
            assert_eq!(op.into_inner(), b"x".to_vec());
        }
        _ => panic!("expected an immediate result"),
    }
}

#[test]
fn attach_twice_fails() {
    let mut p = Proactor::new();
    assert_eq!(p.attach(3), Ok(()));
    assert!(p.is_attached(3));
    assert_eq!(p.attach(3), Err(AttachError::AlreadyAttached));
    assert_eq!(p.attach(-1), Err(AttachError::InvalidHandle));
    assert!(!p.is_attached(4));
}

#[test]
fn open_missing_file() {
    let mut dev = device_with_hello();
    let mut p = Proactor::new();
    let (res, _) = push_and_wait(&mut p, &mut dev, Op::open_file(b"nope".to_vec(), 0, 0));
    assert_eq!(res, Err(OsError { code: ENOENT }));
}

#[test]
fn write_then_read_round_trip() {
    let mut dev = device_with_hello();
    let mut p = Proactor::new();
    let (res, _) = push_and_wait(&mut p, &mut dev, Op::open_file(b"hello.txt".to_vec(), 0, 0));
    let raw = res.unwrap() as i32;
    let (res, _) = push_and_wait(&mut p, &mut dev, Op::write_at(raw, 8, b"world".to_vec()));
    assert_eq!(res, Ok(5));
    let (res, op) = push_and_wait(&mut p, &mut dev, Op::read_at(raw, 8, Vec::new(), 5));
    assert_eq!(res, Ok(5));
    assert_eq!(op.into_inner(), b"world".to_vec());
    let (_, op) = push_and_wait(&mut p, &mut dev, Op::read_at(raw, 0, Vec::new(), 64));
    assert_eq!(op.into_inner(), b"hello\0\0\0world".to_vec());
}

#[test]
fn read_at_end_is_empty_success() {
    let mut dev = device_with_hello();
    let mut p = Proactor::new();
    let (res, _) = push_and_wait(&mut p, &mut dev, Op::open_file(b"hello.txt".to_vec(), 0, 0));
    let raw = res.unwrap() as i32;
    let (res, op) = push_and_wait(&mut p, &mut dev, Op::read_at(raw, 5, Vec::new(), 16));
    assert_eq!(res, Ok(0));
    assert!(op.into_inner().is_empty());
}

#[test]
fn write_too_large_is_invalid() {
    let mut dev = device_with_hello();
    let mut p = Proactor::new();
    let (res, _) = push_and_wait(&mut p, &mut dev, Op::open_file(b"hello.txt".to_vec(), 0, 0));
    let raw = res.unwrap() as i32;
    let (res, _) = push_and_wait(&mut p, &mut dev, Op::write_at(raw, u64::MAX, b"x".to_vec()));
    assert_eq!(res, Err(OsError { code: EINVAL }));
}

#[test]
fn translate_codes() {
    assert_eq!(translate(0), Ok(0));
    assert_eq!(translate(42), Ok(42));
    assert_eq!(translate(-2), Err(OsError { code: 2 }));
    assert_eq!(translate(i64::MIN), Err(OsError { code: i64::MAX }));
}

#[test]
fn describe_read_and_close() {
    match Op::read_at(5, 10, Vec::new(), 7).describe() {
        Submission::Read { fd, offset, len } => assert_eq!((fd, offset, len), (5, 10, 7)),
        _ => panic!("wrong submission"),
    }
    match Op::close_file(OwnedFd::new(9, FdKind::File)).describe() {
        Submission::Close { fd } => assert_eq!(fd, 9),
        _ => panic!("wrong submission"),
    }
}

#[test]
fn byte_helpers() {
    assert!(bytes_eq(&b"ab".to_vec(), &b"ab".to_vec()));
    assert!(!bytes_eq(&b"ab".to_vec(), &b"ac".to_vec()));
    assert_eq!(read_bytes(&b"hello".to_vec(), 1, 3), b"ell".to_vec());
    assert_eq!(read_bytes(&b"hello".to_vec(), 9, 3), Vec::<u8>::new());
    assert_eq!(write_bytes(&b"hello".to_vec(), 3, &b"XYZ".to_vec()), b"helXYZ".to_vec());
}

#[test]
fn address_search_outcomes() {
    let r: Result<u32, AddrError<&str>> = search_all(vec![Err("a"), Ok(7), Err("c")]);
    assert_eq!(r, Ok(7));
    let r: Result<u32, AddrError<&str>> = search_all(vec![Err("a"), Err("b")]);
    assert_eq!(r, Err(AddrError::Attempt("b")));
    let r: Result<u32, AddrError<&str>> = search_all(Vec::new());
    assert_eq!(r, Err(AddrError::NoAddresses));
    let mut s: AddrSearch<&str> = AddrSearch::new();
    assert_eq!(s.record::<u32>(Err("x")), None);
    assert_eq!(s.record(Ok(1u32)), Some(1));
    assert_eq!(s.finish(), AddrError::Attempt("x"));
}

#[test]
fn idle_until_popped() {
    let mut dev = device_with_hello();
    let mut p = Proactor::new();
    assert!(p.is_idle());
    assert!(p.can_push());
    let t = match p.push(Op::open_file(b"hello.txt".to_vec(), 0, 0)) {
        PushEntry::Pending(t) => t,
        _ => panic!("expected a token"),
    };
    assert!(!p.is_idle());
    run(&mut p, &mut dev, t);
    assert!(!p.is_idle());
    p.pop(t).unwrap();
    assert!(p.is_idle());
}

#[test]
fn close_refused_while_read_in_flight() {
    let mut dev = device_with_hello();
    let mut p = Proactor::new();
    let (res, _) = push_and_wait(&mut p, &mut dev, Op::open_file(b"hello.txt".to_vec(), 0, 0));
    let raw = res.unwrap() as i32;
    let mut shared = SharedFd::new(OwnedFd::new(raw, FdKind::File));
    shared.clone_ref();
    let t = match p.push(Op::read_at(shared.raw(), 0, Vec::new(), 5)) {
        PushEntry::Pending(t) => t,
        _ => panic!("expected a token"),
    };
    shared.drop_ref();
    let owned = shared.try_reclaim().unwrap();
    let owned = match p.push(Op::close_file(owned)) {
        PushEntry::Ready(res, op) => {
            assert_eq!(res, Err(OsError { code: EBUSY }));
            match op {
                Op::CloseFile { fd } => fd,
                _ => panic!("the close comes back"),
            }
        }
        _ => panic!("close must be refused"),
    };
    run(&mut p, &mut dev, t);
    let (res, _) = push_and_wait(&mut p, &mut dev, Op::close_file(owned));
    assert_eq!(res, Err(OsError { code: EBUSY }));
    let (res, op) = p.pop(t).unwrap();
    assert_eq!(res, Ok(5));
    assert_eq!(op.into_inner(), b"hello".to_vec());
}

#[test]
fn read_refused_while_close_in_flight() {
    let mut p = Proactor::new();
    assert!(matches!(p.push(Op::close_file(OwnedFd::new(6, FdKind::File))), PushEntry::Pending(_)));
    match p.push(Op::write_at(6, 0, b"late".to_vec())) {
        PushEntry::Ready(res, _) => assert_eq!(res, Err(OsError { code: EBUSY })),
        _ => panic!("write must be refused"),
    }
    assert!(matches!(p.push(Op::read_at(7, 0, Vec::new(), 1)), PushEntry::Pending(_)));
}

#[test]
fn owned_handle_accessors() {
    let fd = OwnedFd::new(11, FdKind::Socket);
    assert_eq!(fd.raw(), 11);
    assert_eq!(fd.kind(), FdKind::Socket);
    assert_eq!(Op::close_file(fd).handle(), Some(11));
    assert_eq!(Op::open_file(b"a".to_vec(), 0, 0).handle(), None);
}

#[test]
fn release_last_reference_returns_owned() {
    let mut fd = SharedFd::new(OwnedFd::new(3, FdKind::File));
    fd.clone_ref();
    let fd = match fd.release() {
        Err(h) => h,
        Ok(_) => panic!("a reference remains"),
    };
    assert_eq!(fd.ref_count(), 1);
    assert_eq!(fd.release().unwrap(), OwnedFd::new(3, FdKind::File));
}

#[test]
fn finished_close_gives_up_handle() {
    let (res, op) = Op::close_file(OwnedFd::new(8, FdKind::File)).finish(Completion::new(0, Vec::new()));
    assert_eq!(res, Ok(0));
    assert!(matches!(op, Op::Closed { raw: 8 }));
    assert_eq!(op.handle(), None);
    assert_eq!(op.rejected(), Some(OsError { code: EBADF }));
    let (res, op) = Op::close_file(OwnedFd::new(8, FdKind::File)).finish(Completion::new(-EBADF, Vec::new()));
    assert_eq!(res, Err(OsError { code: EBADF }));
    assert!(matches!(op, Op::Closed { raw: 8 }));
}

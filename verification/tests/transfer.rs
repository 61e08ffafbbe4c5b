use karmaio::buf::{BufResult, IoBuf, IoBufMut, PooledBuf, Region};
use karmaio::driver::backends::iouring::MultishotCleanup;
use karmaio::driver::backends::kqueue::Direction;
use karmaio::driver::helpers::socket::begin_cancellable;
use karmaio::driver::ops::connection::{incoming_item, Accept, AcceptMulti, Connect, SOCK_CLOEXEC, SOCK_NONBLOCK};
use karmaio::driver::ops::managed::{
    managed_len, RecvFromManaged, RecvFromMulti, RecvManaged, RecvMulti, Selected, MSG_TRUNC, SOCKADDR_STORAGE_LEN,
};
use karmaio::driver::ops::message::{RecvFrom, RecvMsg, SendMsg, SendTo};
use karmaio::driver::ops::request::{offered, split_offset, IocpCall, KqueueCall, UringRequest};
use karmaio::driver::ops::transfer::{Read, ReadAt, Recv, Send, Write, WriteAt};
use karmaio::driver::ops::vectored::{Readv, Writev};
use karmaio::driver::ops::Completion;
use karmaio::error::{ErrorKind, IoError};
use std::cell::Cell;

fn buffer(capacity: usize, init: usize) -> PooledBuf {
    let mut buf = PooledBuf::new(1, vec![7; capacity]);
    buf.set_len(init);
    buf
}

fn ok(n: u32) -> Completion {
    Completion::new(Ok(n))
}

fn failed(code: i32) -> Completion {
    Completion::new(Err(IoError::from_raw_os_error(code)))
}

#[test]
fn filling_sets_the_initialized_length() {
    let BufResult(result, buf) = Read { io_handle: (), buf: buffer(10, 0) }.complete(ok(4));
    assert_eq!(result.unwrap(), 4);
    assert_eq!(buf.bytes_init(), 4);
    assert_eq!(buf.as_slice(), &[7, 7, 7, 7]);

    let BufResult(result, buf) = ReadAt { io_handle: (), buf: buffer(10, 3), offset: 5 }.complete(failed(libc::EIO));
    assert_eq!(result.unwrap_err().raw_os_error(), Some(libc::EIO));
    assert_eq!(buf.bytes_init(), 3);

    let BufResult(result, buf) = Recv { io_handle: (), buf: buffer(10, 2) }.complete(ok(11));
    assert_eq!(result.unwrap_err().kind(), ErrorKind::InvalidData);
    assert_eq!(buf.bytes_init(), 2);
}

#[test]
fn emptying_hands_the_buffer_back() {
    let BufResult(result, buf) = Write { io_handle: (), buf: buffer(10, 6) }.complete(ok(5));
    assert_eq!(result.unwrap(), 5);
    assert_eq!(buf.bytes_init(), 6);
    let BufResult(result, _) = WriteAt { io_handle: (), buf: buffer(10, 6), offset: 1 }.complete(failed(libc::EIO));
    assert!(result.is_err());
    let (error, buf) = Send { io_handle: (), buf: buffer(10, 6) }.refused(IoError::from_raw_os_error(libc::EPIPE));
    assert_eq!(error.kind(), ErrorKind::BrokenPipe);
    assert_eq!(buf.bytes_init(), 6);
}

#[test]
fn requests_name_descriptor_length_and_offset() {
    assert_eq!(
        Read { io_handle: (), buf: buffer(10, 3) }.submit(4),
        UringRequest::Read { fd: 4, len: 10, offset: None }
    );
    assert_eq!(
        ReadAt { io_handle: (), buf: buffer(10, 3), offset: 77 }.submit(4),
        UringRequest::Read { fd: 4, len: 10, offset: Some(77) }
    );
    assert_eq!(
        Write { io_handle: (), buf: buffer(10, 3) }.submit(4),
        UringRequest::Write { fd: 4, len: 3, offset: None }
    );
    assert_eq!(
        WriteAt { io_handle: (), buf: buffer(10, 3), offset: 77 }.submit(4),
        UringRequest::Write { fd: 4, len: 3, offset: Some(77) }
    );
    assert_eq!(Recv { io_handle: (), buf: buffer(10, 3) }.submit(4), UringRequest::Recv { fd: 4, len: 10 });
    assert_eq!(Send { io_handle: (), buf: buffer(10, 3) }.submit(4), UringRequest::Send { fd: 4, len: 3 });
}

#[test]
fn readiness_and_overlapped_calls() {
    let read = Read { io_handle: (), buf: buffer(1, 0) };
    assert_eq!(read.attempt(), KqueueCall::OnReadiness(Direction::Read));
    assert_eq!(read.submit_overlapped(), IocpCall::Transfer { len: 1 });
    let write = Write { io_handle: (), buf: buffer(1, 0) };
    assert_eq!(write.attempt(), KqueueCall::OnReadiness(Direction::Write));
    let at = ReadAt { io_handle: (), buf: buffer(1, 0), offset: 0x1_0000_0002 };
    assert_eq!(at.attempt(), KqueueCall::Blocking);
    assert_eq!(at.submit_overlapped(), IocpCall::TransferAt { len: 1, low: 2, high: 1 });
}

#[test]
fn lengths_are_cut_to_thirty_two_bits() {
    assert_eq!(offered(0), 0);
    assert_eq!(offered(4096), 4096);
    assert_eq!(offered(0xffff_ffff), 0xffff_ffff);
    assert_eq!(offered(0x1_0000_0005), 5);
    assert_eq!(split_offset(7, u64::MAX), IocpCall::TransferAt { len: 7, low: u32::MAX, high: u32::MAX });
}

#[test]
fn vectored_reads_fill_one_buffer_after_the_other() {
    let bufs = vec![buffer(4, 1), buffer(2, 2), buffer(5, 0), buffer(3, 0)];
    let op = Readv { io_handle: (), bufs, offset: 9 };
    assert_eq!(op.lengths(), vec![3, 0, 5, 3]);
    assert_eq!(op.submit(6), UringRequest::Readv { fd: 6, count: 4, offset: 9 });
    assert_eq!(op.submit_overlapped(), IocpCall::TransferAt { len: 11, low: 9, high: 0 });
    let BufResult(result, bufs) = op.complete(ok(5));
    assert_eq!(result.unwrap(), 5);
    let init: Vec<usize> = bufs.iter().map(|buf| buf.bytes_init()).collect();
    assert_eq!(init, vec![4, 2, 2, 0]);

    let op = Readv { io_handle: (), bufs, offset: 9 };
    let BufResult(result, bufs) = op.complete(failed(libc::EIO));
    assert!(result.is_err());
    let init: Vec<usize> = bufs.iter().map(|buf| buf.bytes_init()).collect();
    assert_eq!(init, vec![4, 2, 2, 0]);
}

#[test]
fn vectored_writes_offer_what_is_initialized() {
    let op = Writev { io_handle: (), bufs: vec![buffer(4, 1), buffer(2, 2)], offset: 3 };
    assert_eq!(op.lengths(), vec![1, 2]);
    assert_eq!(op.submit(6), UringRequest::Writev { fd: 6, count: 2, offset: 3 });
    let BufResult(result, bufs) = op.complete(ok(2));
    assert_eq!(result.unwrap(), 2);
    assert_eq!(bufs.len(), 2);
}

#[test]
fn messages_need_an_address() {
    let op = RecvFrom { io_handle: (), buf: buffer(10, 0) };
    assert_eq!(op.submit(3), (UringRequest::RecvMsg { fd: 3 }, 10));
    let BufResult(result, buf) = op.finish(ok(4), Some("peer"));
    assert_eq!(result.unwrap(), (4, "peer"));
    assert_eq!(buf.bytes_init(), 4);

    let BufResult(result, buf) = RecvFrom { io_handle: (), buf: buffer(10, 1) }.finish::<&str, ()>(ok(4), None);
    assert_eq!(result.unwrap_err().kind(), ErrorKind::InvalidData);
    assert_eq!(buf.bytes_init(), 1);

    let BufResult(result, _) =
        RecvFrom { io_handle: (), buf: buffer(10, 1) }.finish(failed(libc::EAGAIN), Some("peer"));
    assert_eq!(result.unwrap_err().kind(), ErrorKind::WouldBlock);

    let BufResult(result, _) = RecvFrom { io_handle: (), buf: buffer(10, 1) }.finish(ok(11), Some("peer"));
    assert_eq!(result.unwrap_err().kind(), ErrorKind::InvalidData);
}

#[test]
fn returned_addresses_are_taken_as_they_are() {
    let op = RecvFrom { io_handle: (), buf: buffer(10, 0) };
    let BufResult(result, _) = op.finish_returned(ok(4), Some(Ok("peer")));
    assert_eq!(result.unwrap(), (4, "peer"));
    let op = RecvFrom { io_handle: (), buf: buffer(10, 0) };
    let BufResult(result, _) = op.finish_returned::<&str, ()>(ok(4), None);
    assert_eq!(result.unwrap_err().kind(), ErrorKind::InvalidData);
    let op = RecvFrom { io_handle: (), buf: buffer(10, 0) };
    let unknown = Some(Err(IoError::from_raw_os_error(libc::EAFNOSUPPORT)));
    let BufResult(result, buf) = op.finish_returned::<&str, ()>(ok(4), unknown);
    assert_eq!(result.unwrap_err().raw_os_error(), Some(libc::EAFNOSUPPORT));
    assert_eq!(buf.bytes_init(), 0);
}

#[test]
fn reported_address_lengths_must_fit() {
    for (reported, valid) in [(-1, false), (0, true), (16, true), (128, true), (129, false)] {
        let seen = Cell::new(None);
        let op = RecvFrom { io_handle: (), buf: buffer(10, 0) };
        let BufResult(result, _) = op.finish_overlapped(ok(4), reported, 128, |len| {
            seen.set(Some(len));
            Some("peer")
        });
        assert_eq!(result.is_ok(), valid);
        assert_eq!(seen.get(), if valid { Some(reported as u32) } else { None });
    }
    let op = RecvFrom { io_handle: (), buf: buffer(10, 0) };
    let BufResult(result, _) = op.finish_overlapped::<&str, (), _>(ok(4), 16, 128, |_| None);
    assert_eq!(result.unwrap_err().kind(), ErrorKind::InvalidData);
}

#[test]
fn failed_receives_have_no_address_to_decode() {
    let op = RecvFrom { io_handle: (), buf: buffer(10, 0) };
    let BufResult(result, buf) = op.finish_overlapped::<&str, (), _>(failed(libc::ECONNRESET), 16, 128, |_| {
        panic!("nothing was received")
    });
    assert_eq!(result.unwrap_err().raw_os_error(), Some(libc::ECONNRESET));
    assert_eq!(buf.bytes_init(), 0);

    let op = RecvMsg { io_handle: (), bufs: vec![buffer(3, 0), buffer(4, 0)] };
    // More than the buffers hold was not received either.
    let BufResult(result, bufs) =
        op.finish_overlapped::<&str, (), _>(ok(8), 16, 128, |_| panic!("nothing was received"));
    assert_eq!(result.unwrap_err().kind(), ErrorKind::InvalidData);
    assert_eq!(bufs.len(), 2);
}

#[test]
fn scattered_messages_are_kept_whole() {
    let op = RecvMsg { io_handle: (), bufs: vec![buffer(3, 3), buffer(4, 4), buffer(5, 5)] };
    assert_eq!(op.rebuild_message(), vec![3, 4, 5]);
    assert_eq!(op.rebuild_wsa_bufs(), vec![3u32, 4, 5]);
    assert_eq!(op.submit_overlapped(), IocpCall::Vectored { count: 3 });
    let BufResult(result, bufs) = op.finish(ok(5), Some("peer"));
    assert_eq!(result.unwrap(), (5, "peer"));
    let init: Vec<usize> = bufs.iter().map(|buf| buf.bytes_init()).collect();
    assert_eq!(init, vec![3, 2, 0]);

    let op = RecvMsg { io_handle: (), bufs };
    let BufResult(result, bufs) = op.finish(ok(13), Some("peer"));
    assert_eq!(result.unwrap_err().kind(), ErrorKind::InvalidData);
    let op = RecvMsg { io_handle: (), bufs };
    let BufResult(result, bufs) = op.finish_overlapped(ok(12), 16, 128, |_| Some("peer"));
    assert_eq!(result.unwrap(), (12, "peer"));
    let init: Vec<usize> = bufs.iter().map(|buf| buf.bytes_init()).collect();
    assert_eq!(init, vec![3, 4, 5]);
}

#[test]
fn message_headers_name_what_is_there() {
    let op = SendMsg {
        io_handle: (),
        bufs: vec![buffer(3, 2), buffer(4, 4)],
        control: Some(buffer(8, 6)),
        address_len: Some(16),
    };
    let header = op.rebuild_message();
    assert_eq!(header.lengths, vec![2, 4]);
    assert_eq!(header.name_len, Some(16));
    assert_eq!(header.control_len, Some(6));
    assert_eq!(op.submit(2), UringRequest::SendMsg { fd: 2 });
    assert_eq!(op.rebuild_wsa_bufs(), vec![2u32, 4]);
    assert_eq!(op.submit_overlapped(), IocpCall::Vectored { count: 2 });
    let BufResult(result, _) = op.finish(ok(6));
    let (n, control) = result.unwrap();
    assert_eq!(n, 6);
    assert!(control.is_some());

    let bare: SendMsg<(), PooledBuf, PooledBuf> =
        SendMsg { io_handle: (), bufs: vec![buffer(3, 2)], control: None, address_len: None };
    let header = bare.rebuild_message();
    assert_eq!(header.name_len, None);
    assert_eq!(header.control_len, None);
    let BufResult(result, bufs) = bare.finish(failed(libc::EPIPE));
    assert!(result.is_err());
    assert_eq!(bufs.len(), 1);

    let to = SendTo { io_handle: (), buf: buffer(9, 5) };
    assert_eq!(to.submit(2), (UringRequest::SendMsg { fd: 2 }, 5));
    assert_eq!(to.submit_overlapped(), IocpCall::Transfer { len: 5 });
}

#[test]
fn accepted_sockets_are_claimed_then_configured() {
    let accept = Accept { io_handle: (), accepted_socket: None };
    assert_eq!(
        accept.submit(3),
        UringRequest::Accept { fd: 3, flags: SOCK_CLOEXEC | SOCK_NONBLOCK }
    );
    let order = Cell::new(0);
    let accepted = accept.complete(
        ok(17),
        |fd| {
            order.set(order.get() * 10 + 1);
            Ok(fd)
        },
        |_| {
            order.set(order.get() * 10 + 2);
            Ok(())
        },
        Some("peer"),
    );
    assert_eq!(accepted.unwrap(), (17, Some("peer")));
    assert_eq!(order.get(), 12);

    let refused: Result<(i32, Option<&str>), IoError> = Accept { io_handle: (), accepted_socket: None }.complete(
        failed(libc::EMFILE),
        |_| panic!("nothing was accepted"),
        |_| Ok(()),
        None,
    );
    assert_eq!(refused.unwrap_err().raw_os_error(), Some(libc::EMFILE));

    let unset: Result<(i32, Option<&str>), IoError> = Accept { io_handle: (), accepted_socket: None }.complete(
        ok(17),
        Ok,
        |_| Err(IoError::from_raw_os_error(libc::EINVAL)),
        None,
    );
    assert_eq!(unset.unwrap_err().raw_os_error(), Some(libc::EINVAL));
}

#[test]
fn ready_accepts_need_what_was_accepted() {
    let accept = || Accept { io_handle: (), accepted_socket: None };
    let taken = accept().complete_accepted(ok(0), Some("fd"), |fd| Ok(fd), |_| Ok(()), Ok(Some("peer")));
    assert_eq!(taken.unwrap(), ("fd", Some("peer")));
    let missing: Result<(&str, Option<&str>), IoError> =
        accept().complete_accepted(ok(0), None::<&str>, Ok, |_| Ok(()), Ok(None));
    assert_eq!(missing.unwrap_err().kind(), ErrorKind::Other);
    let unknown: Result<(&str, Option<&str>), IoError> = accept().complete_accepted(
        ok(0),
        Some("fd"),
        Ok,
        |_| Ok(()),
        Err(IoError::from_raw_os_error(libc::EAFNOSUPPORT)),
    );
    assert!(unknown.is_err());
}

#[test]
fn overlapped_accepts_close_what_is_not_claimed() {
    let mut accept = Accept { io_handle: (), accepted_socket: None };
    assert_eq!(accept.accept_socket(|| Ok(5)).unwrap(), 5);
    assert_eq!(accept.accept_socket(|| panic!("made twice")).unwrap(), 5);
    let (result, close) =
        accept.complete_overlapped(ok(0), |_| Ok(()), |socket| Ok(socket), |_| Err(IoError::other("x")), Some("peer"));
    assert_eq!(result.unwrap(), (5, Some("peer")));
    assert_eq!(close, None);

    let accept = Accept { io_handle: (), accepted_socket: Some(6) };
    let (result, close): (Result<(usize, Option<&str>), IoError>, _) =
        accept.complete_overlapped(failed(995), |_| Ok(()), Ok, |_| Ok(()), None);
    assert!(result.is_err());
    assert_eq!(close, Some(6));

    let accept = Accept { io_handle: (), accepted_socket: Some(6) };
    let (result, close): (Result<(usize, Option<&str>), IoError>, _) =
        accept.complete_overlapped(ok(0), |_| Err(IoError::from_raw_os_error(10038)), Ok, |_| Ok(()), None);
    assert_eq!(result.unwrap_err().raw_os_error(), Some(10038));
    assert_eq!(close, Some(6));
}

#[test]
fn every_accept_completion_is_an_item() {
    let multi = AcceptMulti { io_handle: (), pending_completion_limit: 8 };
    assert_eq!(
        multi.submit(3),
        UringRequest::AcceptMulti { fd: 3, flags: SOCK_CLOEXEC | SOCK_NONBLOCK }
    );
    let item = multi.complete_item(ok(21), |fd| Ok(fd), |_| Ok(())).unwrap();
    assert_eq!(item.unwrap(), 21);
    let item: Option<Result<i32, IoError>> = multi.complete_item(failed(libc::EMFILE), Ok, |_| Ok(()));
    assert!(item.unwrap().is_err());
    assert_eq!(multi.completion_cleanup(), MultishotCleanup::AcceptedFd);
    assert_eq!(multi.pending_completion_limit(), Some(8));
    let error: Result<i32, IoError> = AcceptMulti::<()>::submission_error(IoError::other("full"));
    assert!(error.is_err());
}

#[test]
fn connecting_ends_with_an_update_on_windows() {
    let connect = Connect { io_handle: (), address_len: 28 };
    assert_eq!(connect.submit(3), UringRequest::Connect { fd: 3, address_len: 28 });
    assert_eq!(connect.attempt(), KqueueCall::Connect);
    assert!(connect.complete(ok(0)).is_ok());
    let connect = Connect { io_handle: (), address_len: 28 };
    assert!(connect.complete_overlapped(failed(1225), || panic!("not connected")).is_err());
    let connect = Connect { io_handle: (), address_len: 28 };
    let late = connect.complete_overlapped(ok(0), || Err(IoError::from_raw_os_error(10057)));
    assert_eq!(late.unwrap_err().raw_os_error(), Some(10057));
}

/// Completion flags for a buffer with this number.
fn selected(id: u32) -> u32 {
    (id << 16) | 1
}

#[test]
fn managed_lengths_stay_within_the_pool() {
    assert_eq!(managed_len(0, 2048), 2048);
    assert_eq!(managed_len(100, 2048), 100);
    assert_eq!(managed_len(4096, 2048), 2048);
    let op = match RecvManaged::new((), 100, 2048, 3) {
        Ok(op) => op,
        Err(error) => panic!("{:?}", error),
    };
    assert_eq!(op.submit(4), UringRequest::RecvSelect { fd: 4, len: 100, buffer_group: 3 });
    match RecvManaged::new((), 0, 0x1_0000_0000, 3) {
        Ok(_) => panic!("too long"),
        Err(error) => assert_eq!(error.kind(), ErrorKind::InvalidInput),
    }
}

#[test]
fn managed_receives_find_their_buffer() {
    let op = RecvManaged { io_handle: (), len: 10, buffer_group: 3 };
    match op.complete(Completion::<()>::with_flags(Ok(4), selected(9))) {
        Selected::Take { id, n } => {
            assert_eq!((id, n), (9, 4));
            let buf = op.finish(n, Ok(Some(PooledBuf::new(id, vec![1, 2, 3, 4, 5])))).unwrap();
            assert_eq!(buf.as_slice(), &[1, 2, 3, 4]);
            assert_eq!(buf.id(), 9);
        }
        other => panic!("{:?}", other),
    }
    assert!(matches!(op.complete(ok(0)), Selected::Ended));
    match op.complete(ok(4)) {
        Selected::Failed { error, recycle } => {
            assert_eq!(error.kind(), ErrorKind::Other);
            assert_eq!(recycle, None);
        }
        other => panic!("{:?}", other),
    }
    let enobufs = Completion::<()>::with_flags(Err(IoError::from_raw_os_error(libc::ENOBUFS)), selected(2));
    match op.complete(enobufs) {
        Selected::Failed { error, recycle } => {
            assert_eq!(error.raw_os_error(), Some(libc::ENOBUFS));
            assert_eq!(recycle, Some(2));
        }
        other => panic!("{:?}", other),
    }
    assert_eq!(op.finish(4, Ok(None)).unwrap_err().kind(), ErrorKind::Other);
}

#[test]
fn managed_streams_tell_empty_messages_from_the_end() {
    let op = RecvMulti { io_handle: (), buffer_group: 3 };
    assert_eq!(op.submit(4), UringRequest::RecvMulti { fd: 4, buffer_group: 3 });
    assert!(matches!(op.complete_item(ok(0)), Selected::Ended));
    match op.complete_item(Completion::<()>::with_flags(Ok(0), selected(5))) {
        Selected::Take { id, n } => {
            let buf = op.take_buffer(n, Ok(Some(PooledBuf::new(id, vec![0; 8])))).unwrap();
            assert!(buf.as_slice().is_empty());
        }
        other => panic!("{:?}", other),
    }
    assert_eq!(op.completion_cleanup(), MultishotCleanup::ProvidedBuffer(3));
}

#[test]
fn managed_messages_mark_what_was_cut() {
    let op = RecvFromManaged::new((), 4, 16, 3, true);
    assert_eq!(op.submit(4), UringRequest::RecvMsgSelect { fd: 4, flags: MSG_TRUNC, buffer_group: 3 });
    assert!(matches!(op.complete(ok(0)), Selected::Failed { recycle: None, .. }));

    let seen = Cell::new(0);
    let message = op
        .finish(7, Ok(Some(PooledBuf::new(1, vec![9; 16]))), 16, 128, 0, |len| {
            seen.set(len);
            Some("peer")
        })
        .unwrap();
    assert_eq!(seen.get(), 16);
    assert_eq!(message.buf.as_slice(), &[9, 9, 9, 9]);
    assert_eq!(message.peer, Some("peer"));
    assert_eq!(message.flags, MSG_TRUNC);
    assert_eq!(message.original_len, 7);

    // A length that cannot be right leaves the address as long as its room.
    let message = op
        .finish(3, Ok(Some(PooledBuf::new(1, vec![9; 16]))), 200, 128, 0, |len| {
            seen.set(len);
            Some("peer")
        })
        .unwrap();
    assert_eq!(seen.get(), 128);
    assert_eq!(message.flags, 0);
    assert_eq!(message.original_len, 3);

    let unknown = op.finish::<&str, _>(3, Ok(Some(PooledBuf::new(1, vec![9; 16]))), 16, 128, 0, |_| None);
    assert_eq!(unknown.unwrap_err().kind(), ErrorKind::InvalidData);

    let silent = RecvFromManaged::new((), 0, 16, 3, false);
    let message = silent
        .finish::<&str, _>(3, Ok(Some(PooledBuf::new(1, vec![9; 16]))), 16, 128, 1, |_| panic!("not asked for"))
        .unwrap();
    assert_eq!(message.peer, None);
    assert_eq!(message.flags, 1);
}

/// A buffer as the kernel fills it for a message.
fn packed(name: &[u8], room: usize, payload: &[u8], original_len: u32, flags: u32) -> Vec<u8> {
    let mut bytes = Vec::new();
    bytes.extend_from_slice(&(name.len() as u32).to_ne_bytes());
    bytes.extend_from_slice(&0u32.to_ne_bytes());
    bytes.extend_from_slice(&original_len.to_ne_bytes());
    bytes.extend_from_slice(&flags.to_ne_bytes());
    let mut field = name.to_vec();
    field.resize(room, 0);
    bytes.extend_from_slice(&field);
    bytes.extend_from_slice(payload);
    bytes
}

#[test]
fn packed_messages_are_taken_apart() {
    let op = RecvFromMulti::new((), 3, true);
    assert_eq!(op.name_room, SOCKADDR_STORAGE_LEN);
    assert_eq!(op.submit(4), UringRequest::RecvMsgMulti { fd: 4, buffer_group: 3 });

    let bytes = packed(&[2, 0, 31, 144], 128, b"hello", 9, 0x20);
    let n = bytes.len();
    let message = op
        .parse_item(n, Ok(Some(PooledBuf::new(6, bytes))), |name| {
            assert_eq!(name, vec![2, 0, 31, 144]);
            Some("peer")
        })
        .unwrap();
    assert_eq!(message.buf.as_slice(), b"hello");
    assert_eq!(message.buf.id(), 6);
    assert_eq!(message.peer, Some("peer"));
    assert_eq!(message.original_len, 9);
    assert_eq!(message.flags, 0x20);

    let bare = RecvFromMulti::new((), 3, false);
    let bytes = packed(&[], 0, b"hi", 2, 0);
    let n = bytes.len();
    let message = bare
        .parse_item::<&str, _>(n, Ok(Some(PooledBuf::new(6, bytes))), |_| panic!("not asked for"))
        .unwrap();
    assert_eq!(message.buf.as_slice(), b"hi");
    assert_eq!(message.peer, None);
    assert_eq!(message.original_len, 2);
}

#[test]
fn broken_packed_messages_are_refused() {
    let op = RecvFromMulti::new((), 3, true);
    let short = op.parse_item::<&str, _>(20, Ok(Some(PooledBuf::new(6, vec![0; 64]))), |_| None);
    assert_eq!(short.unwrap_err().kind(), ErrorKind::InvalidData);

    let bytes = packed(&[], 128, b"x", 1, 0);
    let n = bytes.len();
    let nameless = op.parse_item::<&str, _>(n, Ok(Some(PooledBuf::new(6, bytes))), |_| Some("peer"));
    assert_eq!(nameless.unwrap_err().kind(), ErrorKind::InvalidData);

    let bytes = packed(&[1, 2], 128, b"x", 1, 0);
    let n = bytes.len();
    let unknown = op.parse_item::<&str, _>(n, Ok(Some(PooledBuf::new(6, bytes))), |_| None);
    assert_eq!(unknown.unwrap_err().kind(), ErrorKind::InvalidData);

    let missing = op.parse_item::<&str, _>(3, Ok(None), |_| None);
    assert_eq!(missing.unwrap_err().kind(), ErrorKind::Other);
    assert_eq!(op.completion_cleanup(), MultishotCleanup::ProvidedBuffer(3));
}

#[test]
fn views_stay_within_what_is_shown() {
    let mut buf = PooledBuf::new(1, vec![0, 1, 2, 3, 4, 5]);
    buf.set_len(5);
    assert_eq!(buf.bytes_total(), 6);
    assert!(buf.set_view(1, 4).is_ok());
    assert_eq!(buf.as_slice(), &[1, 2, 3]);
    assert!(buf.set_view(1, 2).is_ok());
    assert_eq!(buf.as_slice(), &[2]);
    assert_eq!(buf.set_view(0, 2).unwrap_err().kind(), ErrorKind::InvalidInput);
    assert_eq!(buf.set_view(1, 0).unwrap_err().kind(), ErrorKind::InvalidInput);
    assert_eq!(buf.as_slice(), &[2]);
}

#[test]
fn regions_keep_their_memory() {
    let region = Region::new("memory", 3, 10);
    assert_eq!((region.bytes_init(), region.bytes_total()), (3, 10));
    assert_eq!(*region.memory(), "memory");
    let BufResult(result, region) = Read { io_handle: (), buf: region }.complete(ok(7));
    assert_eq!(result.unwrap(), 7);
    assert_eq!(region.bytes_init(), 7);
    assert_eq!(region.into_memory(), "memory");
    assert_eq!(Region::new((), 11, 10).bytes_init(), 10);
}

#[test]
fn incoming_connections_come_with_their_peer() {
    let item = incoming_item(Some(Ok("socket")), |_: &&str| Ok(Some("peer")));
    assert_eq!(item.unwrap().unwrap(), ("socket", Some("peer")));
    let refused = |_: &&str| Err::<Option<&str>, IoError>(IoError::from_raw_os_error(libc::ENOTCONN));
    let item = incoming_item(Some(Ok("socket")), refused);
    assert_eq!(item.unwrap().unwrap_err().raw_os_error(), Some(libc::ENOTCONN));
    let failure: Option<Result<&str, IoError>> = Some(Err(IoError::from_raw_os_error(libc::EMFILE)));
    let item = incoming_item(failure, |_: &&str| Ok(Some("peer")));
    assert_eq!(item.unwrap().unwrap_err().raw_os_error(), Some(libc::EMFILE));
    let ended: Option<Result<&str, IoError>> = None;
    assert!(incoming_item(ended, |_: &&str| Ok(Some("peer"))).is_none());
}

#[test]
fn operations_that_do_not_begin_hand_their_buffer_back() {
    let begun: Result<&str, BufResult<usize, &str>> = begin_cancellable("buf", Ok(()), |_| Ok("op"));
    assert!(matches!(begun, Ok("op")));
    let refused = |buf| Err((IoError::from_raw_os_error(libc::EPIPE), buf));
    let begun: Result<&str, BufResult<usize, &str>> = begin_cancellable("buf", Ok(()), refused);
    match begun {
        Err(BufResult(Err(error), "buf")) => assert_eq!(error.kind(), ErrorKind::BrokenPipe),
        _ => panic!("a refused operation hands its buffer back"),
    }
    let submitted = Cell::new(false);
    let canceled = Err(IoError::from_raw_os_error(libc::ECANCELED));
    let begun: Result<&str, BufResult<usize, &str>> = begin_cancellable("buf", canceled, |_| {
        submitted.set(true);
        Ok("op")
    });
    assert!(matches!(begun, Err(BufResult(Err(_), "buf"))));
    assert!(!submitted.get());
}

#[test]
fn buffers_come_back_in_their_places() {
    let regions = || vec![Region::new("first", 0, 4), Region::new("second", 0, 4)];
    let BufResult(result, bufs) = RecvMsg { io_handle: (), bufs: regions() }.finish(ok(6), Some("peer"));
    assert_eq!(result.unwrap(), (6, "peer"));
    let places: Vec<(&str, usize)> = bufs.iter().map(|buf| (*buf.memory(), buf.bytes_init())).collect();
    assert_eq!(places, vec![("first", 4), ("second", 2)]);

    let BufResult(result, bufs) = Readv { io_handle: (), bufs: regions(), offset: 0 }.complete(ok(5));
    assert_eq!(result.unwrap(), 5);
    let places: Vec<(&str, usize)> = bufs.iter().map(|buf| (*buf.memory(), buf.bytes_init())).collect();
    assert_eq!(places, vec![("first", 4), ("second", 1)]);

    let buf = Region::new("submitted", 0, 4);
    let BufResult(result, buf) = RecvFrom { io_handle: (), buf }.finish(ok(3), Some("peer"));
    assert_eq!(result.unwrap(), (3, "peer"));
    assert_eq!((*buf.memory(), buf.bytes_init()), ("submitted", 3));
}

#[test]
fn overlapped_accepts_are_configured() {
    let configured = Cell::new(0);
    let accept = Accept { io_handle: (), accepted_socket: Some(6) };
    let (result, close): (Result<(usize, Option<&str>), IoError>, _) = accept.complete_overlapped(
        ok(0),
        |_| Ok(()),
        Ok,
        |socket: &usize| {
            configured.set(*socket);
            Ok(())
        },
        None,
    );
    assert_eq!(result.unwrap().0, 6);
    assert_eq!(close, None);
    assert_eq!(configured.get(), 6);
}

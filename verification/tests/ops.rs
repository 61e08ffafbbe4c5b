use karmaio::driver::op_table::{CompletionKey, OpTable};
use karmaio::driver::ops::{
    BlockingCompletionGuard, BlockingJob, Completion, JobStep, MultiOp, NextItem, NextStep, Op,
};
use karmaio::error::{ErrorKind, IoError};
use karmaio::slab::Slab;
use karmaio::task::Poll;
use std::cell::Cell;
use std::collections::VecDeque;

#[test]
fn dropped_guard_delivers_one_interrupted_completion() {
    let mut queue: VecDeque<(_, Completion)> = VecDeque::new();
    let mut wakes = 0;
    let key = OpTable::new(1).unwrap().insert(()).unwrap();

    let mut guard = BlockingCompletionGuard::new(key);
    if guard.abandon(&mut queue) {
        wakes += 1;
    }

    assert_eq!(queue.len(), 1);
    assert_eq!(queue[0].0, key);
    assert_eq!(queue[0].1.result.as_ref().unwrap_err().kind(), ErrorKind::Interrupted);
    assert_eq!(wakes, 1);
}

#[test]
fn completed_guard_does_not_notify_again_on_drop() {
    let mut queue: VecDeque<(_, Completion)> = VecDeque::new();
    let mut wakes = 0;
    let key = OpTable::new(1).unwrap().insert(()).unwrap();
    let mut guard = BlockingCompletionGuard::new(key);

    if guard.complete(&mut queue, Completion::new(Ok(7))) {
        wakes += 1;
    }
    if guard.abandon(&mut queue) {
        wakes += 1;
    }

    assert_eq!(queue.len(), 1);
    assert_eq!(queue[0].1.result.as_ref().unwrap(), &7);
    assert_eq!(wakes, 1);
}

#[test]
fn run_retries_interrupted_results() {
    let attempts = Cell::new(0);
    let job = || {
        let n = attempts.get();
        attempts.set(n + 1);
        if n < 2 {
            Completion::<()>::new(Err(IoError::new(ErrorKind::Interrupted, "eintr")))
        } else {
            Completion::new(Ok(9))
        }
    };

    let completion = loop {
        match BlockingJob::run(job()) {
            JobStep::Retry => {}
            JobStep::Done(completion) => break completion,
        }
    };
    assert_eq!(completion.result.unwrap(), 9);
    assert_eq!(attempts.get(), 3);
}

#[test]
fn blocking_values_come_back() {
    let completion = Completion::from_blocking_result(Ok("value"));
    assert_eq!(completion.into_blocking_value().unwrap(), "value");
    let failed: Completion<&str> =
        Completion::from_blocking_result(Err(IoError::from_raw_os_error(libc::ENOENT)));
    assert_eq!(failed.into_blocking_value().unwrap_err().kind(), ErrorKind::NotFound);
}

#[test]
fn byte_counts_beyond_the_buffer_are_refused() {
    assert_eq!(Completion::<()>::new(Ok(8)).bytes_transferred(8).unwrap(), 8);
    let error = Completion::<()>::new(Ok(9)).bytes_transferred(8).unwrap_err();
    assert_eq!(error.kind(), ErrorKind::InvalidData);
    assert!(matches!(error, IoError::BufferOverrun { capacity: 8 }));
}

#[test]
fn operations_hand_out_their_payload_once() {
    let key = OpTable::new(1).unwrap().insert(()).unwrap();
    let mut op = Op::new(key, Box::new(5));
    assert_eq!(op.key(), key);
    assert_eq!(op.data_ref(), Some(&5));
    *op.data_mut().unwrap() = 6;
    assert_eq!(op.take_data(), Some(Box::new(6)));
    assert_eq!(op.take_data(), None);
}

#[test]
fn streams_end_once() {
    let key = OpTable::new(1).unwrap().insert(()).unwrap();
    let mut op = MultiOp::new(key, Box::new(5));
    assert_eq!(op.poll_start(true), NextStep::PollBackend);
    assert!(matches!(op.poll_backend::<()>(Poll::Pending), NextItem::Pending));
    match op.poll_backend::<()>(Poll::Ready(Some(Completion::new(Ok(3))))) {
        NextItem::Convert(completion) => assert_eq!(completion.result.unwrap(), 3),
        _ => panic!("expected a completion"),
    }
    assert!(op.poll_item(&Some("item")).is_none());
    assert!(!op.is_terminated());
    assert_eq!(op.poll_item::<()>(&None), Some(Box::new(5)));
    assert!(op.is_terminated());
    assert_eq!(op.poll_start(true), NextStep::Ended);

    let mut orphan = MultiOp::new(key, Box::new(5));
    assert_eq!(orphan.poll_start(false), NextStep::Ended);
    assert!(orphan.is_terminated());
}

#[test]
fn keys_survive_the_way_through_the_kernel() {
    let mut table = OpTable::new(2).unwrap();
    let key = table.insert("a").unwrap();
    assert_eq!(CompletionKey::decode(key.as_u64()), Some(CompletionKey::Operation(key)));
    assert_eq!(CompletionKey::decode(CompletionKey::wake_raw()), Some(CompletionKey::Wake));
    assert_eq!(CompletionKey::decode(CompletionKey::cancel_raw()), Some(CompletionKey::Cancel));
    assert_eq!(CompletionKey::decode(CompletionKey::wake_cancel_raw()), Some(CompletionKey::WakeCancel));
    assert_ne!(key.as_u64(), CompletionKey::wake_raw());
}

#[test]
fn retired_keys_find_nothing() {
    let mut table = OpTable::new(2).unwrap();
    let first = table.insert("a").unwrap();
    assert_eq!(table.get(first), Some(&"a"));
    assert_eq!(table.remove(first), Some("a"));
    assert_eq!(table.remove(first), None);
    let second = table.insert("b").unwrap();
    assert_ne!(first, second);
    assert_eq!(table.get(first), None);
    assert_eq!(table.keys(), vec![second]);
    table.clear();
    assert!(table.is_empty());
    assert_eq!(table.get(second), None);
}

#[test]
fn tables_have_no_more_slots_than_keys() {
    match OpTable::<u8>::new(0x1_0000_0001) {
        Ok(_) => panic!("more slots than keys"),
        Err(error) => assert_eq!(error.kind(), ErrorKind::InvalidInput),
    }
}

#[test]
fn slabs_reuse_their_slots() {
    let mut slab = Slab::new();
    let a = slab.insert('a');
    let b = slab.insert('b');
    assert_ne!(a, b);
    assert_eq!(slab.try_remove(a), Some('a'));
    assert_eq!(slab.try_remove(a), None);
    assert_eq!(slab.vacant_key(), a);
    assert_eq!(slab.insert('c'), a);
    assert_eq!(slab.get(a), Some(&'c'));
    *slab.get_mut(b).unwrap() = 'd';
    assert_eq!(slab.get(b), Some(&'d'));
}

#[test]
fn system_errors_have_categories() {
    let categories = [
        (libc::EEXIST, ErrorKind::AlreadyExists),
        (libc::EPIPE, ErrorKind::BrokenPipe),
        (libc::EINTR, ErrorKind::Interrupted),
        (libc::EINVAL, ErrorKind::InvalidInput),
        (libc::ENOTCONN, ErrorKind::NotConnected),
        (libc::ENOENT, ErrorKind::NotFound),
        (libc::ENOMEM, ErrorKind::OutOfMemory),
        (libc::EACCES, ErrorKind::PermissionDenied),
        (libc::EBUSY, ErrorKind::ResourceBusy),
        (libc::ENOSYS, ErrorKind::Unsupported),
        (libc::EAGAIN, ErrorKind::WouldBlock),
        (libc::EIO, ErrorKind::Other),
    ];
    for (code, kind) in categories {
        assert_eq!(IoError::from_raw_os_error(code).kind(), kind);
    }
    assert_eq!(IoError::other("x").raw_os_error(), None);
    assert_eq!(IoError::Simple(ErrorKind::WriteZero).kind(), ErrorKind::WriteZero);
}

#[test]
fn a_job_that_panics_still_completes() {
    let returned = BlockingJob::outcome(Some(Completion::<()>::new(Ok(3))));
    assert_eq!(returned.result.unwrap(), 3);
    let panicked = BlockingJob::outcome(None::<Completion>);
    match panicked.result {
        Err(IoError::Custom { kind, message }) => {
            assert_eq!(kind, ErrorKind::Other);
            assert_eq!(message, "blocking operation panicked");
        }
        _ => panic!("a job that panicked has no result"),
    }
}

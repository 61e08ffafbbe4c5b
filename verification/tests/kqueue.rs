use karmaio::driver::backends::kqueue::{
    check_receipts, decode_event, socket_error_completion, wait_step, Attempted, Direction, EventFilter, Interest,
    KqueueAttempt, KqueueBackend, KqueueEvent, KqueueReadyAction, PollStart, ReadyEvent, Receipt, Registration, State,
    WaitStep, WakeupState,
};
use karmaio::driver::op_table::{CompletionKey, OpKey, OpTable};
use karmaio::driver::ops::{Completion, DeferredAction, IgnoredOp, Op};
use karmaio::error::{ErrorKind, IoError};
use karmaio::task::Poll;
use std::sync::atomic::{AtomicBool, Ordering};
use std::sync::Arc;
use std::task::{Wake, Waker};

struct CleanupMarker(Arc<AtomicBool>);

impl CleanupMarker {
    fn complete(self, _completion: Completion) {
        self.0.store(true, Ordering::SeqCst);
    }
}

fn run(action: DeferredAction<CleanupMarker>) {
    match action {
        DeferredAction::Wake(waker) => waker.wake(),
        DeferredAction::Cleanup { payload: IgnoredOp::Typed(marker), completion } => marker.complete(completion),
        DeferredAction::Cleanup { payload: IgnoredOp::Detached, .. } => {}
    }
}

struct WakeMarker(Arc<AtomicBool>);

impl Wake for WakeMarker {
    fn wake(self: Arc<Self>) {
        self.0.store(true, Ordering::SeqCst);
    }
}

fn test_key() -> OpKey {
    OpTable::new(1).unwrap().insert(()).unwrap()
}

fn new_backend(capacity: usize) -> KqueueBackend<u32> {
    match KqueueBackend::new(capacity) {
        Ok(backend) => backend,
        Err(error) => panic!("create backend: {:?}", error),
    }
}

/// An operation that waits for a filter.
fn waiting(backend: &mut KqueueBackend<u32>, payload: u32, fd: i32, direction: Direction) -> Op<u32> {
    let op = match backend.submit_op(payload) {
        Ok(op) => op,
        Err(error) => panic!("submit: {:?}", error),
    };
    assert!(matches!(backend.poll_start(&op, Waker::noop()), PollStart::Attempt));
    let attempt: KqueueAttempt<()> =
        KqueueAttempt::Register { interest: Interest::new(fd, direction), on_ready: KqueueReadyAction::Retry };
    match backend.poll_attempted(op.key(), attempt) {
        Attempted::Arm(registration) => {
            let polled = backend.poll_armed(op.key(), registration, Ok(()), Waker::noop());
            assert!(matches!(polled, Poll::Pending));
        }
        _ => panic!("expected a filter to arm"),
    }
    op
}

#[test]
fn kqueue_completion_before_first_poll_is_retained() {
    let mut state: State<CleanupMarker> = State::Submitted;
    let outcome = state.complete(Completion::new(Ok(7)));
    assert!(!outcome.remove);
    assert!(outcome.wake.is_none());
    assert!(outcome.cleanup.is_none());
    assert!(matches!(state, State::Completed(..)));
}

#[test]
fn kqueue_detached_completion_runs_typed_cleanup() {
    let cleaned = Arc::new(AtomicBool::new(false));
    let mut state = State::Ignored(CleanupMarker(cleaned.clone()));

    let outcome = state.complete(Completion::new(Ok(0)));
    assert!(outcome.remove);
    assert!(outcome.wake.is_none());
    run(outcome.cleanup.expect("detached cleanup should be deferred"));
    assert!(cleaned.load(Ordering::SeqCst));
}

#[test]
fn readiness_wakes_the_current_waiter() {
    let woken = Arc::new(AtomicBool::new(false));
    let waker = Waker::from(Arc::new(WakeMarker(woken.clone())));
    let mut state: State<CleanupMarker> = State::Waiting(waker);

    let (removed, waker) = state.ready();
    assert!(!removed);
    waker.expect("waiting state should return its waker").wake();
    assert!(woken.load(Ordering::SeqCst));
    assert!(matches!(state, State::Ready));
}

#[test]
fn readiness_event_round_trips_key_and_descriptor() {
    let key = test_key();
    let event = decode_event(key.as_u64(), EventFilter::Read(5), false).unwrap();
    assert!(event.key == key && event.fd == 5 && event.readable);
    assert!(!event.writable);
    let event = decode_event(key.as_u64(), EventFilter::Write(6), true).unwrap();
    assert!(event.key == key && event.fd == 6 && event.writable);
    assert!(!event.readable);
    assert!(decode_event(key.as_u64(), EventFilter::Other, false).is_none());
    assert!(decode_event(CompletionKey::wake_raw(), EventFilter::Read(5), false).is_none());
}

#[test]
fn missing_filter_delete_is_benign() {
    let missing = vec![Receipt { error: true, data: libc::ENOENT as i64 }];
    assert!(check_receipts(&missing).is_ok());
    assert!(check_receipts(&vec![Receipt { error: true, data: 0 }]).is_ok());
    assert!(check_receipts(&vec![Receipt { error: false, data: 7 }]).is_ok());
    let bad = vec![
        Receipt { error: true, data: 0 },
        Receipt { error: true, data: libc::EBADF as i64 },
    ];
    assert_eq!(check_receipts(&bad).unwrap_err().raw_os_error(), Some(libc::EBADF));
}

#[test]
fn stale_descriptor_and_filter_events_are_rejected() {
    let interest = Interest::new(17, Direction::Read);
    let key = test_key();

    assert!(!interest.matches_event(KqueueEvent {
        key,
        fd: 18,
        direction: Direction::Read,
        readable: true,
        writable: false,
    }));
    assert!(!interest.matches_event(KqueueEvent {
        key,
        fd: 17,
        direction: Direction::Write,
        readable: false,
        writable: true,
    }));
}

#[test]
fn socket_error_completion_reports_getsockopt_failures() {
    let completion: Completion = socket_error_completion(Err(IoError::from_raw_os_error(libc::ENOTSOCK)));
    assert!(completion.result.is_err());
    let completion: Completion = socket_error_completion(Ok(()));
    assert_eq!(completion.result.unwrap(), 0);
}

#[test]
fn duplicate_descriptor_filter_waiters_are_detected() {
    let mut backend = new_backend(8);
    let interest = Interest::new(42, Direction::Read);
    let _op = waiting(&mut backend, 1, 42, Direction::Read);

    assert!(backend.has_interest(interest));
    assert!(!backend.has_interest(Interest::new(42, Direction::Write)));
    assert!(!backend.has_interest(Interest::new(43, Direction::Read)));

    // A second waiter for the filter is refused, and the first one stays.
    let second = match backend.submit_op(2) {
        Ok(op) => op,
        Err(error) => panic!("submit: {:?}", error),
    };
    let attempt: KqueueAttempt<()> = KqueueAttempt::Register { interest, on_ready: KqueueReadyAction::Retry };
    match backend.poll_attempted(second.key(), attempt) {
        Attempted::Ready(completion) => {
            assert_eq!(completion.result.unwrap_err().kind(), ErrorKind::AlreadyExists)
        }
        _ => panic!("expected the second waiter to be refused"),
    }
    assert!(backend.has_interest(interest));
}

#[test]
fn read_eof_also_releases_pending_write_interest() {
    let mut backend = new_backend(8);
    let read = waiting(&mut backend, 1, 42, Direction::Read);
    let write = waiting(&mut backend, 2, 42, Direction::Write);
    let (read_key, write_key) = (read.key(), write.key());

    let event = decode_event(read_key.as_u64(), EventFilter::Read(42), true).unwrap();
    let deferred = backend.dispatch_completions(&vec![ReadyEvent { event, own: Ok(()), writer: Ok(()) }]);
    assert_eq!(deferred.len(), 2);

    assert!(backend.slot(read_key).unwrap().registration.is_none());
    assert!(backend.slot(write_key).unwrap().registration.is_none());
    assert!(matches!(backend.slot(read_key).unwrap().state, State::Ready));
    assert!(matches!(backend.slot(write_key).unwrap().state, State::Ready));
}

#[test]
fn repeated_wakeups_are_coalesced() {
    let mut wakeup = WakeupState::new();
    assert!(wakeup.wake());
    assert!(!wakeup.wake());
    wakeup.consumed();
    assert!(wakeup.wake());
}

#[test]
fn wake_after_close_is_a_no_op() {
    let mut wakeup = WakeupState::new();
    wakeup.close();
    assert!(!wakeup.wake());
}

#[test]
fn capacity_must_not_be_zero() {
    let refused: Result<KqueueBackend<u32>, IoError> = KqueueBackend::new(0);
    match refused {
        Ok(_) => panic!("an empty queue was accepted"),
        Err(error) => assert_eq!(error.kind(), ErrorKind::InvalidInput),
    }
}

#[test]
fn stale_events_change_nothing() {
    let mut backend = new_backend(8);
    let op = waiting(&mut backend, 1, 42, Direction::Read);
    let event = decode_event(op.key().as_u64(), EventFilter::Write(42), false).unwrap();
    let deferred = backend.dispatch_completions(&vec![ReadyEvent { event, own: Ok(()), writer: Ok(()) }]);
    assert!(deferred.is_empty());
    assert!(backend.has_interest(Interest::new(42, Direction::Read)));
}

#[test]
fn connecting_takes_the_error_of_the_socket() {
    let mut backend = new_backend(8);
    let op = match backend.submit_op(1) {
        Ok(op) => op,
        Err(error) => panic!("submit: {:?}", error),
    };
    let interest = Interest::new(9, Direction::Write);
    backend.install_registration(
        op.key(),
        Registration { interest, on_ready: KqueueReadyAction::CompleteSocketError },
    );
    assert!(backend.needs_socket_error(op.key(), 9, Direction::Write));
    assert!(!backend.needs_socket_error(op.key(), 9, Direction::Read));
    let event = decode_event(op.key().as_u64(), EventFilter::Write(9), false).unwrap();
    let refused = Err(IoError::from_raw_os_error(libc::ECONNREFUSED));
    let _ = backend.dispatch_completions(&vec![ReadyEvent { event, own: refused, writer: Ok(()) }]);
    match backend.poll_start(&op, Waker::noop()) {
        PollStart::Ready(completion) => {
            assert_eq!(completion.result.unwrap_err().raw_os_error(), Some(libc::ECONNREFUSED))
        }
        _ => panic!("expected the error of the socket"),
    }
}

#[test]
fn blocking_jobs_report_back() {
    let mut backend = new_backend(8);
    let op = match backend.submit_op(1) {
        Ok(op) => op,
        Err(error) => panic!("submit: {:?}", error),
    };
    assert!(matches!(backend.poll_start(&op, Waker::noop()), PollStart::Attempt));
    match backend.poll_attempted(op.key(), KqueueAttempt::Blocking("job")) {
        Attempted::Dispatch(job) => assert_eq!(job, "job"),
        _ => panic!("expected a job"),
    }
    assert!(matches!(
        backend.poll_dispatched(op.key(), Ok(()), Waker::noop()),
        Poll::Pending
    ));
    let deferred = backend.drain_blocking_completions(vec![(op.key(), Completion::new(Ok(5)))]);
    assert_eq!(deferred.len(), 1);
    match backend.poll_start(&op, Waker::noop()) {
        PollStart::Ready(completion) => assert_eq!(completion.result.unwrap(), 5),
        _ => panic!("expected the result of the job"),
    }
}

#[test]
fn removing_an_operation_removes_its_filter() {
    let mut backend = new_backend(8);
    let mut op = waiting(&mut backend, 1, 42, Direction::Read);
    let removed = backend.remove_op(&mut op);
    assert!(removed.completion.is_none());
    assert_eq!(removed.delete, Some(Interest::new(42, Direction::Read)));
    assert!(!backend.has_interest(Interest::new(42, Direction::Read)));
    assert!(backend.slot(op.key()).is_none());
}

#[test]
fn shutdown_completes_and_deletes() {
    let mut backend = new_backend(8);
    let op = waiting(&mut backend, 1, 42, Direction::Read);
    assert!(backend.begin_shutdown());
    assert!(!backend.begin_shutdown());
    assert!(backend.submit_op(3).is_err());
    let outcome = backend.shutdown(vec![]);
    assert_eq!(outcome.delete, vec![(op.key(), Interest::new(42, Direction::Read))]);
    assert!(backend.slot(op.key()).is_none() || !backend.has_interest(Interest::new(42, Direction::Read)));
}

#[test]
fn interrupted_waits_go_on() {
    assert!(matches!(wait_step(Ok(3)), WaitStep::Done(3)));
    assert!(matches!(wait_step(Err(IoError::from_raw_os_error(libc::EINTR))), WaitStep::Retry));
    assert!(matches!(wait_step(Err(IoError::from_raw_os_error(libc::EBADF))), WaitStep::Fail(_)));
}

#[test]
fn socket_errors_are_read_only_where_they_are_needed() {
    let mut backend = new_backend(8);
    let reader = waiting(&mut backend, 1, 9, Direction::Read);
    let writer = match backend.submit_op(2) {
        Ok(op) => op,
        Err(error) => panic!("submit: {:?}", error),
    };
    let interest = Interest::new(9, Direction::Write);
    let on_ready = KqueueReadyAction::CompleteSocketError;
    backend.install_registration(writer.key(), Registration { interest, on_ready });

    let data = decode_event(reader.key().as_u64(), EventFilter::Read(9), false).unwrap();
    assert!(!backend.needs_writer_error(data));
    let end = decode_event(reader.key().as_u64(), EventFilter::Read(9), true).unwrap();
    assert!(backend.needs_writer_error(end));
    assert!(!backend.needs_socket_error(reader.key(), 9, Direction::Read));
    // An event of an operation that waits for nothing is stale.
    let stale = decode_event(test_key().as_u64(), EventFilter::Read(8), true).unwrap();
    assert!(!backend.needs_writer_error(stale));

    let refused = Err(IoError::from_raw_os_error(libc::ECONNREFUSED));
    let _ = backend.dispatch_completions(&vec![ReadyEvent { event: end, own: Ok(()), writer: refused }]);
    assert!(!backend.needs_writer_error(end));
    match backend.poll_start(&writer, Waker::noop()) {
        PollStart::Ready(completion) => {
            assert_eq!(completion.result.unwrap_err().raw_os_error(), Some(libc::ECONNREFUSED))
        }
        _ => panic!("expected the error of the socket"),
    }
}

#[test]
fn readiness_wakes_the_task_that_polled_last() {
    let mut backend = new_backend(8);
    let op = waiting(&mut backend, 1, 42, Direction::Read);
    let woken = Arc::new(AtomicBool::new(false));
    let waker = Waker::from(Arc::new(WakeMarker(woken.clone())));
    assert!(matches!(backend.poll_start(&op, &waker), PollStart::Pending));
    let event = decode_event(op.key().as_u64(), EventFilter::Read(42), false).unwrap();
    for action in backend.dispatch_completions(&vec![ReadyEvent { event, own: Ok(()), writer: Ok(()) }]) {
        if let DeferredAction::Wake(waker) = action {
            waker.wake();
        }
    }
    assert!(woken.load(Ordering::SeqCst));
}

#[test]
fn shutdown_cleans_up_what_blocking_jobs_left_behind() {
    let mut backend = new_backend(8);
    let mut keys = Vec::new();
    for payload in [1, 2] {
        let mut op = match backend.submit_op(payload) {
            Ok(op) => op,
            Err(error) => panic!("submit: {:?}", error),
        };
        assert!(matches!(backend.poll_start(&op, Waker::noop()), PollStart::Attempt));
        assert!(matches!(
            backend.poll_attempted(op.key(), KqueueAttempt::Blocking("job")),
            Attempted::Dispatch("job")
        ));
        let _ = backend.poll_dispatched(op.key(), Ok(()), Waker::noop());
        assert!(backend.remove_op(&mut op).completion.is_none());
        keys.push(op.key());
    }
    assert!(backend.begin_shutdown());
    // The first job returned before the end, and reports only once.
    let done = vec![(keys[0], Completion::new(Ok(7))), (keys[0], Completion::new(Ok(8)))];
    let mut cleaned = Vec::new();
    for action in backend.shutdown(done).deferred {
        match action {
            DeferredAction::Cleanup { payload: IgnoredOp::Typed(payload), completion } => {
                cleaned.push((payload, completion.result.map_err(|error| error.kind())));
            }
            _ => panic!("expected a cleanup"),
        }
    }
    assert_eq!(cleaned, vec![(1, Ok(7)), (2, Err(ErrorKind::Other))]);
}

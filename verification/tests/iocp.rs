use karmaio::driver::backends::iocp::{
    cancel_error_is_already_complete, dequeue_capacity, dequeued, duration_millis, CancelTarget, Duration, Interest,
    IocpBackend, IocpSubmission, PacketEntry, PollStep, ShutdownAction, ShutdownStage, State, ERROR_NOT_FOUND,
    WAIT_TIMEOUT,
};
use karmaio::driver::ops::{Completion, DeferredAction, IgnoredOp};
use karmaio::error::IoError;
use std::sync::atomic::{AtomicBool, Ordering};
use std::sync::Arc;
use std::task::{Wake, Waker};
use windows_sys::Win32::Foundation::ERROR_INVALID_HANDLE;

struct CleanupMarker(Arc<AtomicBool>);

impl CleanupMarker {
    fn complete(self, _completion: Completion) {
        self.0.store(true, Ordering::SeqCst);
    }
}

fn run(action: DeferredAction<CleanupMarker>) {
    match action {
        DeferredAction::Wake(waker) => waker.wake(),
        DeferredAction::Cleanup { payload: IgnoredOp::Typed(marker), completion } => marker.complete(completion),
        DeferredAction::Cleanup { payload: IgnoredOp::Detached, .. } => {}
    }
}

struct WakeMarker(Arc<AtomicBool>);

impl Wake for WakeMarker {
    fn wake(self: Arc<Self>) {
        self.0.store(true, Ordering::SeqCst);
    }
}

type Backend = IocpBackend<u32, &'static str, u8>;

fn new_backend(capacity: usize) -> Backend {
    match IocpBackend::new(capacity) {
        Ok(backend) => backend,
        Err(error) => panic!("create backend: {:?}", error),
    }
}

#[test]
fn iocp_completion_before_first_poll_is_retained() {
    let mut state: State<CleanupMarker> = State::Submitted;
    let outcome = state.complete(Completion::new(Ok(7)));
    assert!(!outcome.remove);
    assert!(outcome.wake.is_none());
    assert!(outcome.cleanup.is_none());
    assert!(matches!(state, State::Completed(..)));
}

#[test]
fn iocp_detached_completion_runs_typed_cleanup() {
    let cleaned = Arc::new(AtomicBool::new(false));
    let mut state = State::Detached(IgnoredOp::Typed(CleanupMarker(cleaned.clone())));

    let outcome = state.complete(Completion::new(Ok(0)));
    assert!(outcome.remove);
    assert!(outcome.wake.is_none());
    run(outcome.cleanup.expect("detached cleanup should be deferred"));
    assert!(cleaned.load(Ordering::SeqCst));
}

#[test]
fn iocp_completion_wakes_the_current_waiter() {
    let woken = Arc::new(AtomicBool::new(false));
    let waker = Waker::from(Arc::new(WakeMarker(woken.clone())));
    let mut state: State<CleanupMarker> = State::Waiting(waker);

    let outcome = state.complete(Completion::new(Ok(0)));
    assert!(!outcome.remove);
    assert!(outcome.cleanup.is_none());
    outcome.wake.expect("waiting state should return its waker").wake();
    assert!(woken.load(Ordering::SeqCst));
}

#[test]
fn only_not_found_is_a_benign_cancel_race() {
    assert!(cancel_error_is_already_complete(&IoError::from_raw_os_error(ERROR_NOT_FOUND)));
    assert!(!cancel_error_is_already_complete(&IoError::from_raw_os_error(ERROR_INVALID_HANDLE as i32)));
}

#[test]
fn waits_cover_the_duration() {
    assert_eq!(duration_millis(None), u32::MAX);
    assert_eq!(duration_millis(Some(Duration { secs: 0, nanos: 0 })), 0);
    assert_eq!(duration_millis(Some(Duration { secs: 0, nanos: 1 })), 1);
    assert_eq!(duration_millis(Some(Duration { secs: 0, nanos: 1_000_000 })), 1);
    assert_eq!(duration_millis(Some(Duration { secs: 2, nanos: 1_000_001 })), 2002);
    assert_eq!(duration_millis(Some(Duration { secs: u64::MAX, nanos: 0 })), u32::MAX);
}

#[test]
fn running_out_of_time_dequeues_nothing() {
    assert_eq!(dequeued(Ok(3)).unwrap(), 3);
    assert_eq!(dequeued(Err(IoError::from_raw_os_error(WAIT_TIMEOUT))).unwrap(), 0);
    assert!(dequeued(Err(IoError::from_raw_os_error(ERROR_NOT_FOUND))).is_err());
    assert_eq!(dequeue_capacity(64), 64);
    assert_eq!(dequeue_capacity(usize::MAX), u32::MAX);
}

#[test]
fn packets_find_their_operations() {
    let mut backend = new_backend(4);
    let op = match backend.submit_op(5u32) {
        Ok(op) => op,
        Err((error, _)) => panic!("submit: {:?}", error),
    };
    let pending = IocpSubmission::Pending(Interest { owner: 0u8, address: 0x1000, handle: 7 });
    let op = match backend.submitted(op, pending) {
        Ok(op) => op,
        Err((error, _)) => panic!("submit: {:?}", error),
    };
    assert_eq!(backend.pending_key(0x1000), Some(op.key()));
    assert!(matches!(backend.poll_op(&op, Waker::noop()), PollStep::Pending));

    // A wakeup, and a packet of a request that nobody waits for.
    let stray = vec![
        PacketEntry { address: 0, embedded: None, internal: 0, bytes: 0, error: 0 },
        PacketEntry { address: 0x2000, embedded: None, internal: 0, bytes: 9, error: 0 },
    ];
    assert!(backend.dispatch_completions(&stray).is_empty());

    let packet = PacketEntry { address: 0x1000, embedded: Some(op.key()), internal: 0, bytes: 9, error: 0 };
    let deferred = backend.dispatch_completions(&vec![packet]);
    assert_eq!(deferred.len(), 1);
    assert_eq!(backend.pending_key(0x1000), None);
    match backend.poll_op(&op, Waker::noop()) {
        PollStep::Ready(completion) => assert_eq!(completion.result.unwrap(), 9),
        _ => panic!("expected the completion"),
    }
}

#[test]
fn failed_packets_carry_the_error() {
    let packet = PacketEntry { address: 0x1000, embedded: None, internal: 0xC000_0120, bytes: 0, error: 995 };
    let completion: Completion = packet.completion();
    assert_eq!(completion.result.unwrap_err().raw_os_error(), Some(995));
}

#[test]
fn dropped_request_is_cancelled_and_kept() {
    let mut backend = new_backend(4);
    let op = match backend.submit_op(5u32) {
        Ok(op) => op,
        Err((error, _)) => panic!("submit: {:?}", error),
    };
    let pending = IocpSubmission::Pending(Interest { owner: 0u8, address: 0x1000, handle: 7 });
    let mut op = match backend.submitted(op, pending) {
        Ok(op) => op,
        Err((error, _)) => panic!("submit: {:?}", error),
    };
    let key = op.key();
    assert_eq!(backend.cancel_op(key), Some(CancelTarget { handle: 7, address: 0x1000 }));
    let removed = backend.remove_op(&mut op);
    assert!(removed.completion.is_none());
    assert!(backend.slot(key).is_some());

    let packet = PacketEntry { address: 0x1000, embedded: Some(key), internal: 0xC000_0120, bytes: 0, error: 995 };
    let mut cleaned = Vec::new();
    for action in backend.dispatch_completions(&vec![packet]) {
        if let DeferredAction::Cleanup { payload: IgnoredOp::Typed(payload), completion } = action {
            cleaned.push((payload, completion.result.is_err()));
        }
    }
    assert_eq!(cleaned, vec![(5, true)]);
    assert!(backend.slot(key).is_none());
}

#[test]
fn blocking_job_is_handed_out_once() {
    let mut backend = new_backend(4);
    let op = match backend.submit_op(5u32) {
        Ok(op) => op,
        Err((error, _)) => panic!("submit: {:?}", error),
    };
    let op = match backend.submitted(op, IocpSubmission::Blocking("job")) {
        Ok(op) => op,
        Err((error, _)) => panic!("submit: {:?}", error),
    };
    match backend.poll_op(&op, Waker::noop()) {
        PollStep::Dispatch(job) => assert_eq!(job, "job"),
        _ => panic!("expected a job"),
    }
    let _ = backend.poll_dispatched(op.key(), Ok(()));
    assert!(matches!(backend.poll_op(&op, Waker::noop()), PollStep::Pending));
    let _ = backend.drain_blocking_completions(vec![(op.key(), Completion::new(Ok(4)))]);
    match backend.poll_op(&op, Waker::noop()) {
        PollStep::Ready(completion) => assert_eq!(completion.result.unwrap(), 4),
        _ => panic!("expected the result of the job"),
    }
}

#[test]
fn immediate_result_is_kept_for_the_first_poll() {
    let mut backend = new_backend(4);
    let op = match backend.submit_op(5u32) {
        Ok(op) => op,
        Err((error, _)) => panic!("submit: {:?}", error),
    };
    let op = match backend.submitted(op, IocpSubmission::Ready(Completion::new(Ok(6)))) {
        Ok(op) => op,
        Err((error, _)) => panic!("submit: {:?}", error),
    };
    match backend.poll_op(&op, Waker::noop()) {
        PollStep::Ready(completion) => assert_eq!(completion.result.unwrap(), 6),
        _ => panic!("expected the result"),
    }
}

#[test]
fn shutdown_cancels_what_is_pending() {
    let mut backend = new_backend(4);
    let op = match backend.submit_op(5u32) {
        Ok(op) => op,
        Err((error, _)) => panic!("submit: {:?}", error),
    };
    let pending = IocpSubmission::Pending(Interest { owner: 0u8, address: 0x1000, handle: 7 });
    let op = match backend.submitted(op, pending) {
        Ok(op) => op,
        Err((error, _)) => panic!("submit: {:?}", error),
    };
    assert!(backend.begin_shutdown());
    assert!(!backend.begin_shutdown());
    assert_eq!(backend.shutdown_prepare(), vec![CancelTarget { handle: 7, address: 0x1000 }]);
    assert!(backend.shutdown_waits());
    let packet =
        PacketEntry { address: 0x1000, embedded: Some(op.key()), internal: 0xC000_0120, bytes: 0, error: 995 };
    let _ = backend.dispatch_completions(&vec![packet]);
    assert!(!backend.shutdown_waits());
    backend.shutdown_finish();
    assert!(backend.slot(op.key()).is_none());
}

#[test]
fn packets_wake_the_task_that_polled_last() {
    let mut backend = new_backend(4);
    let op = match backend.submit_op(5u32) {
        Ok(op) => op,
        Err((error, _)) => panic!("submit: {:?}", error),
    };
    let pending = IocpSubmission::Pending(Interest { owner: 0u8, address: 0x1000, handle: 7 });
    let op = match backend.submitted(op, pending) {
        Ok(op) => op,
        Err((error, _)) => panic!("submit: {:?}", error),
    };
    let woken = Arc::new(AtomicBool::new(false));
    let waker = Waker::from(Arc::new(WakeMarker(woken.clone())));
    assert!(matches!(backend.poll_op(&op, Waker::noop()), PollStep::Pending));
    assert!(matches!(backend.poll_op(&op, &waker), PollStep::Pending));
    let packet = PacketEntry { address: 0x1000, embedded: Some(op.key()), internal: 0, bytes: 9, error: 0 };
    for action in backend.dispatch_completions(&vec![packet]) {
        if let DeferredAction::Wake(waker) = action {
            waker.wake();
        }
    }
    assert!(woken.load(Ordering::SeqCst));
}

#[test]
fn shutdown_runs_to_its_end_and_cleans_up_once() {
    let mut backend = new_backend(4);
    let op = match backend.submit_op(5u32) {
        Ok(op) => op,
        Err((error, _)) => panic!("submit: {:?}", error),
    };
    let pending = IocpSubmission::Pending(Interest { owner: 0u8, address: 0x1000, handle: 7 });
    let mut op = match backend.submitted(op, pending) {
        Ok(op) => op,
        Err((error, _)) => panic!("submit: {:?}", error),
    };
    let key = op.key();
    let removed = backend.remove_op(&mut op);
    assert!(removed.completion.is_none());
    let target = CancelTarget { handle: 7, address: 0x1000 };
    assert_eq!(removed.cancel, Some(target));

    let mut stage = ShutdownStage::Begin;
    let mut cancelled = Vec::new();
    let mut cleaned = Vec::new();
    let mut waits = 0;
    loop {
        let (next, action) = backend.shutdown_next(stage);
        stage = next;
        match action {
            ShutdownAction::Cancel(targets) => cancelled.extend(targets),
            ShutdownAction::WaitAndDispatch => {
                waits += 1;
                // A packet that nobody waits for comes first.
                let stray = PacketEntry { address: 0x2000, embedded: None, internal: 0, bytes: 0, error: 0 };
                let late =
                    PacketEntry { address: 0x1000, embedded: Some(key), internal: 0xC000_0120, bytes: 0, error: 995 };
                let batch = if waits == 1 { vec![stray] } else { vec![late] };
                for action in backend.dispatch_completions(&batch) {
                    if let DeferredAction::Cleanup { payload: IgnoredOp::Typed(payload), .. } = action {
                        cleaned.push(payload);
                    }
                }
            }
            ShutdownAction::Done => break,
        }
    }
    // Dropping the operation has asked for the cancellation.
    assert_eq!(cancelled, Vec::new());
    assert_eq!(waits, 2);
    assert_eq!(cleaned, vec![5]);
    assert!(backend.slot(key).is_none());
    assert!(matches!(backend.shutdown_next(ShutdownStage::Begin), (ShutdownStage::Finished, ShutdownAction::Done)));
}

#[test]
fn parked_job_is_removed_without_its_payload() {
    let mut backend = new_backend(4);
    let op = match backend.submit_op(5u32) {
        Ok(op) => op,
        Err((error, _)) => panic!("submit: {:?}", error),
    };
    let mut op = match backend.submitted(op, IocpSubmission::Blocking("job")) {
        Ok(op) => op,
        Err((error, _)) => panic!("submit: {:?}", error),
    };
    assert_eq!(op.take_data().map(|payload| *payload), Some(5));
    let removed = backend.remove_op(&mut op);
    assert!(removed.completion.is_none());
    assert!(removed.cancel.is_none());
    assert!(backend.slot(op.key()).is_none());
}
